//! The knobs of the power service. Mechanism only: three profiles map onto a fixed list
//! of kernel settings. Every setting is read before it is written, and one that cannot
//! be written is reported, never a failure of the whole.
use vstd::prelude::*;

use crate::gpu;
use crate::gpu::{pci_key, CardView, GpuCard, GpuSnapshot};
use crate::gpu_state;
use crate::number;
use crate::order;
use crate::power;
use crate::power::{platform_profile_chain, PowerProfile};
use crate::text;

verus! {

pub const PLATFORM_PROFILE_PATH: &'static str = "/sys/firmware/acpi/platform_profile";

pub const PLATFORM_PROFILE_CHOICES_PATH: &'static str =
    "/sys/firmware/acpi/platform_profile_choices";

pub const CPUFREQ_DIR: &'static str = "/sys/devices/system/cpu/cpufreq";

pub const ASPM_POLICY_PATH: &'static str = "/sys/module/pcie_aspm/parameters/policy";

pub const INTEL_NO_TURBO_PATH: &'static str = "/sys/devices/system/cpu/intel_pstate/no_turbo";

/// What is said where no profile was kept.
pub const NOTHING_KEPT: &'static str = "no persisted profile \u{2014} using balanced";

pub const DGPU_PIN_FILE: &'static str = "/var/lib/hyprstate/dgpu-pin";

pub const POWERD_STATE_FILE: &'static str = "/var/lib/hyprstate/profile";

// ------------------------------------------------------------------ the matrix

pub open spec fn governor_of(p: PowerProfile) -> Seq<char> {
    match p {
        PowerProfile::PowerSaver => "powersave"@,
        PowerProfile::Balanced => "powersave"@,
        PowerProfile::Performance => "performance"@,
    }
}

/// The frequency governor of a profile.
pub fn governor(p: PowerProfile) -> (r: &'static str)
    ensures
        r@ == governor_of(p),
{
    match p {
        PowerProfile::PowerSaver => "powersave",
        PowerProfile::Balanced => "powersave",
        PowerProfile::Performance => "performance",
    }
}

pub open spec fn epp_of(p: PowerProfile) -> Option<Seq<char>> {
    match p {
        PowerProfile::PowerSaver => Some("power"@),
        PowerProfile::Balanced => Some("balance_performance"@),
        PowerProfile::Performance => None,
    }
}

/// The energy preference of a profile. None for performance: its governor implies it,
/// and refuses to have it written.
pub fn epp(p: PowerProfile) -> (r: Option<&'static str>)
    ensures
        text::opt_str(r) == epp_of(p),
{
    match p {
        PowerProfile::PowerSaver => Some("power"),
        PowerProfile::Balanced => Some("balance_performance"),
        PowerProfile::Performance => None,
    }
}

pub open spec fn boost_of(p: PowerProfile) -> Seq<char> {
    match p {
        PowerProfile::PowerSaver => "0"@,
        PowerProfile::Balanced => "1"@,
        PowerProfile::Performance => "1"@,
    }
}

/// Whether a profile allows boost.
pub fn boost(p: PowerProfile) -> (r: &'static str)
    ensures
        r@ == boost_of(p),
{
    match p {
        PowerProfile::PowerSaver => "0",
        PowerProfile::Balanced => "1",
        PowerProfile::Performance => "1",
    }
}

pub open spec fn no_turbo_of(p: PowerProfile) -> Seq<char> {
    match p {
        PowerProfile::PowerSaver => "1"@,
        PowerProfile::Balanced => "0"@,
        PowerProfile::Performance => "0"@,
    }
}

/// The inverted boost setting: one turns boost off.
pub fn no_turbo(p: PowerProfile) -> (r: &'static str)
    ensures
        r@ == no_turbo_of(p),
{
    match p {
        PowerProfile::PowerSaver => "1",
        PowerProfile::Balanced => "0",
        PowerProfile::Performance => "0",
    }
}

pub open spec fn dpm_of(p: PowerProfile) -> Seq<char> {
    match p {
        PowerProfile::PowerSaver => "low"@,
        PowerProfile::Balanced => "auto"@,
        PowerProfile::Performance => "auto"@,
    }
}

/// The performance level of a discrete GPU.
pub fn dgpu_dpm(p: PowerProfile) -> (r: &'static str)
    ensures
        r@ == dpm_of(p),
{
    match p {
        PowerProfile::PowerSaver => "low",
        PowerProfile::Balanced => "auto",
        PowerProfile::Performance => "auto",
    }
}

pub open spec fn aspm_of(p: PowerProfile) -> Seq<char> {
    match p {
        PowerProfile::PowerSaver => "powersupersave"@,
        PowerProfile::Balanced => "default"@,
        PowerProfile::Performance => "default"@,
    }
}

/// The link power policy of a profile.
pub fn aspm(p: PowerProfile) -> (r: &'static str)
    ensures
        r@ == aspm_of(p),
{
    match p {
        PowerProfile::PowerSaver => "powersupersave",
        PowerProfile::Balanced => "default",
        PowerProfile::Performance => "default",
    }
}

// -------------------------------------------------------------- writing one knob

/// What reading a file came to.
#[derive(Debug)]
pub enum ReadOutcome {
    Content(String),
    Missing,
    /// Reading failed otherwise, with this message.
    Failed(String),
}

/// What writing a file came to.
#[derive(Debug)]
pub enum WriteOutcome {
    Written,
    /// Writing failed, with this error number and message.
    Failed { errno: Option<i32>, message: String },
}

/// The status of a knob before it is written. `None`: it is to be written.
pub open spec fn checked(read: ReadOutcome, value: Seq<char>) -> Option<Seq<char>> {
    match read {
        ReadOutcome::Content(c) => if text::trimmed(c@) == value {
            Some("unchanged"@)
        } else {
            None
        },
        ReadOutcome::Missing => Some("skipped-missing"@),
        ReadOutcome::Failed(m) => Some("error:"@ + m@),
    }
}

/// Looks at a knob before it is written: one that already has the value is left alone.
pub fn knob_check(read: &ReadOutcome, value: &str) -> (r: Option<String>)
    ensures
        text::opt_string(r) == checked(*read, value@),
{
    match read {
        ReadOutcome::Content(c) => {
            if text::str_eq(text::trim(c.as_str()), value) {
                Some(String::from_str("unchanged"))
            } else {
                None
            }
        },
        ReadOutcome::Missing => Some(String::from_str("skipped-missing")),
        ReadOutcome::Failed(m) => Some(text::concat2("error:", m.as_str())),
    }
}

/// The kernel turned a write down: busy, not permitted or not accessible. Hardware that
/// locks a knob answers so; that is expected.
pub open spec fn is_refusal(errno: Option<i32>) -> bool {
    errno == Some(16i32) || errno == Some(1i32) || errno == Some(13i32)
}

pub open spec fn written_status(w: WriteOutcome) -> Seq<char> {
    match w {
        WriteOutcome::Written => "written"@,
        WriteOutcome::Failed { errno, message } => if is_refusal(errno) {
            "skipped-unsupported"@
        } else {
            "error:"@ + message@
        },
    }
}

/// The status of a knob after it was written.
pub fn knob_write(w: &WriteOutcome) -> (r: String)
    ensures
        r@ == written_status(*w),
{
    match w {
        WriteOutcome::Written => String::from_str("written"),
        WriteOutcome::Failed { errno, message } => {
            let refused = match errno {
                Some(n) => *n == 16 || *n == 1 || *n == 13,
                None => false,
            };
            if refused {
                String::from_str("skipped-unsupported")
            } else {
                text::concat2("error:", message.as_str())
            }
        },
    }
}

/// The first status that is an error.
pub open spec fn first_error(s: Seq<Seq<char>>) -> Option<Seq<char>>
    decreases s.len(),
{
    if s.len() == 0 {
        None
    } else if text::has_prefix(s[0], "error"@) {
        Some(s[0])
    } else {
        first_error(s.skip(1))
    }
}

/// One status for a row of several knobs: an error, or that something was written, or
/// that nothing had to be, or else what the first says.
pub open spec fn merged(s: Seq<Seq<char>>) -> Seq<char> {
    if s.len() == 0 {
        "skipped-missing"@
    } else {
        match first_error(s) {
            Some(e) => e,
            None => if s.contains("written"@) {
                "written"@
            } else if forall|i: int| 0 <= i < s.len() ==> #[trigger] s[i] == "unchanged"@ {
                "unchanged"@
            } else {
                s[0]
            },
        }
    }
}

fn find_error(statuses: &Vec<String>) -> (r: Option<usize>)
    ensures
        match r {
            Some(i) => i < statuses@.len() && first_error(text::strings(statuses@)) == Some(
                statuses@[i as int]@,
            ),
            None => first_error(text::strings(statuses@)) is None,
        },
{
    let ghost all = text::strings(statuses@);
    assert(all.skip(0) =~= all);
    let mut i: usize = 0;
    while i < statuses.len()
        invariant
            i <= statuses@.len(),
            all == text::strings(statuses@),
            first_error(all) == first_error(all.skip(i as int)),
        decreases statuses@.len() - i,
    {
        assert(all.skip(i as int)[0] == statuses@[i as int]@);
        assert(all.skip(i as int).skip(1) =~= all.skip(i + 1));
        if text::starts_with(statuses[i].as_str(), "error") {
            return Some(i);
        }
        i += 1;
    }
    None
}

/// One status for a row of several knobs.
pub fn merge_row(statuses: &Vec<String>) -> (r: String)
    ensures
        r@ == merged(text::strings(statuses@)),
{
    let ghost all = text::strings(statuses@);
    if statuses.len() == 0 {
        return String::from_str("skipped-missing");
    }
    match find_error(statuses) {
        Some(i) => {
            return statuses[i].clone();
        },
        None => {},
    }
    if text::string_in("written", statuses) {
        return String::from_str("written");
    }
    let mut i: usize = 0;
    while i < statuses.len()
        invariant
            i <= statuses@.len(),
            statuses@.len() > 0,
            all == text::strings(statuses@),
            first_error(all) is None,
            !all.contains("written"@),
            forall|k: int| 0 <= k < i ==> #[trigger] all[k] == "unchanged"@,
        decreases statuses@.len() - i,
    {
        assert(all[i as int] == statuses@[i as int]@);
        if !text::str_eq(statuses[i].as_str(), "unchanged") {
            assert(all[0] == statuses@[0]@);
            return statuses[0].clone();
        }
        i += 1;
    }
    String::from_str("unchanged")
}

// --------------------------------------------------------------------------- rows

/// One knob of a row.
#[derive(Debug)]
pub enum Knob<S> {
    /// Nothing to be written; this is its status.
    Settled(S),
    /// This value is to be written to this file.
    Write { path: S, value: S },
}

impl View for Knob<String> {
    type V = Knob<Seq<char>>;

    open spec fn view(&self) -> Knob<Seq<char>> {
        match self {
            Knob::Settled(s) => Knob::Settled(s@),
            Knob::Write { path, value } => Knob::Write { path: path@, value: value@ },
        }
    }
}

pub open spec fn knob_views(s: Seq<Knob<String>>) -> Seq<Knob<Seq<char>>> {
    Seq::new(s.len(), |i: int| s[i]@)
}

/// A row: a label and its knobs, in the order in which they are to be written.
#[derive(Debug)]
pub struct Row {
    pub label: String,
    pub knobs: Vec<Knob<String>>,
}

/// What a [`Row`] holds.
pub struct RowView {
    pub label: Seq<char>,
    pub knobs: Seq<Knob<Seq<char>>>,
}

impl View for Row {
    type V = RowView;

    open spec fn view(&self) -> RowView {
        RowView { label: self.label@, knobs: knob_views(self.knobs@) }
    }
}

pub open spec fn row_views(s: Seq<Row>) -> Seq<RowView> {
    Seq::new(s.len(), |i: int| s[i]@)
}

/// A row that is settled without a write.
pub open spec fn settled(label: Seq<char>, status: Seq<char>) -> RowView {
    RowView { label, knobs: seq![Knob::Settled(status)] }
}

/// A row of one write.
pub open spec fn writing(label: Seq<char>, path: Seq<char>, value: Seq<char>) -> RowView {
    RowView { label, knobs: seq![Knob::Write { path, value }] }
}

fn settle(label: &str, status: &str) -> (r: Row)
    ensures
        r@ == settled(label@, status@),
{
    let mut knobs: Vec<Knob<String>> = Vec::new();
    knobs.push(Knob::Settled(String::from_str(status)));
    let r = Row { label: String::from_str(label), knobs };
    assert(r@.knobs =~= settled(label@, status@).knobs);
    r
}

fn write_one(label: &str, path: &str, value: &str) -> (r: Row)
    ensures
        r@ == writing(label@, path@, value@),
{
    let mut knobs: Vec<Knob<String>> = Vec::new();
    knobs.push(Knob::Write { path: String::from_str(path), value: String::from_str(value) });
    let r = Row { label: String::from_str(label), knobs };
    assert(r@.knobs =~= writing(label@, path@, value@).knobs);
    r
}

fn push_row(out: &mut Vec<Row>, row: Row)
    ensures
        row_views(final(out)@) == row_views(old(out)@).push(row@),
{
    let ghost before = row_views(out@);
    out.push(row);
    assert(row_views(out@) =~= before.push(row@));
}

// ---------------------------------------------------------------------- platform

/// The choice is one that the firmware offers.
pub open spec fn offered(choices: Option<Seq<char>>, value: Seq<char>) -> bool {
    choices matches Some(c) && text::words_of(c).contains(value)
}

/// The first of a chain that the firmware offers.
pub open spec fn first_offered(chain: Seq<Seq<char>>, choices: Option<Seq<char>>) -> Option<Seq<char>>
    decreases chain.len(),
{
    if chain.len() == 0 {
        None
    } else if offered(choices, chain[0]) {
        Some(chain[0])
    } else {
        first_offered(chain.skip(1), choices)
    }
}

pub open spec fn platform_plan(
    p: PowerProfile,
    present: bool,
    choices: Option<Seq<char>>,
) -> RowView {
    if !present {
        settled("platform_profile"@, "skipped-missing"@)
    } else {
        match first_offered(power::chain_of(p), choices) {
            Some(v) => writing("platform_profile"@, PLATFORM_PROFILE_PATH@, v),
            None => settled("platform_profile"@, "skipped-unsupported"@),
        }
    }
}

fn is_word_of(s: &str, word: &str) -> (r: bool)
    ensures
        r == text::words_of(s@).contains(word@),
{
    let words = text::words(s);
    let ghost all = text::words_of(s@);
    let mut i: usize = 0;
    while i < words.len()
        invariant
            i <= words@.len(),
            text::strs(words@) == all,
            all == text::words_of(s@),
            forall|k: int| 0 <= k < i ==> #[trigger] all[k] != word@,
        decreases words@.len() - i,
    {
        assert(all[i as int] == words@[i as int]@);
        if text::str_eq(words[i], word) {
            return true;
        }
        i += 1;
    }
    false
}

/// The row of the firmware's platform profile.
pub fn platform_row(p: PowerProfile, present: bool, choices: Option<&str>) -> (r: Row)
    ensures
        r@ == platform_plan(p, present, text::opt_str(choices)),
{
    if !present {
        return settle("platform_profile", "skipped-missing");
    }
    let chain = platform_profile_chain(p);
    let ghost all = text::strs(chain@);
    let ghost told = text::opt_str(choices);
    assert(all.skip(0) =~= all);
    let mut i: usize = 0;
    while i < chain.len()
        invariant
            i <= chain@.len(),
            present,
            all == text::strs(chain@),
            all == power::chain_of(p),
            told == text::opt_str(choices),
            first_offered(all, told) == first_offered(all.skip(i as int), told),
        decreases chain@.len() - i,
    {
        assert(all.skip(i as int)[0] == chain@[i as int]@);
        assert(all.skip(i as int).skip(1) =~= all.skip(i + 1));
        let has = match choices {
            Some(c) => is_word_of(c, chain[i]),
            None => false,
        };
        if has {
            return write_one("platform_profile", PLATFORM_PROFILE_PATH, chain[i]);
        }
        i += 1;
    }
    settle("platform_profile", "skipped-unsupported")
}

// -------------------------------------------------------------------------- CPU

/// A frequency policy as the kernel lists it.
#[derive(Debug)]
pub struct Policy {
    pub name: String,
    /// The content of `scaling_available_governors`.
    pub governors: Option<String>,
    /// The content of `scaling_driver`.
    pub driver: Option<String>,
    /// There is an energy preference.
    pub has_epp: bool,
}

/// What a [`Policy`] holds.
pub struct PolicyView {
    pub name: Seq<char>,
    pub governors: Option<Seq<char>>,
    pub driver: Option<Seq<char>>,
    pub has_epp: bool,
}

impl View for Policy {
    type V = PolicyView;

    open spec fn view(&self) -> PolicyView {
        PolicyView {
            name: self.name@,
            governors: text::opt_string(self.governors),
            driver: text::opt_string(self.driver),
            has_epp: self.has_epp,
        }
    }
}

pub open spec fn policy_views(s: Seq<Policy>) -> Seq<PolicyView> {
    Seq::new(s.len(), |i: int| s[i]@)
}

/// The name is that of a policy: the word with a number behind it.
pub open spec fn is_policy(name: Seq<char>) -> bool {
    let digits = name.skip("policy"@.len() as int);
    text::has_prefix(name, "policy"@) && digits.len() > 0 && number::all_digits(digits)
}

/// The order of positions by the names there.
pub open spec fn by_name(entries: Seq<PolicyView>) -> spec_fn(int, int) -> bool {
    |a: int, b: int| text::text_less(entries[a].name, entries[b].name)
}

/// Those that are policies.
pub open spec fn only_policies(entries: Seq<PolicyView>) -> Seq<PolicyView>
    decreases entries.len(),
{
    if entries.len() == 0 {
        seq![]
    } else if is_policy(entries.last().name) {
        only_policies(entries.drop_last()).push(entries.last())
    } else {
        only_policies(entries.drop_last())
    }
}

/// The policies in the order of their names.
pub open spec fn policies_of(entries: Seq<PolicyView>) -> Seq<PolicyView> {
    let at = order::order(by_name(entries), entries.len() as int);
    only_policies(Seq::new(entries.len(), |i: int| entries[at[i]]))
}

fn all_digits(s: &str) -> (r: bool)
    ensures
        r == number::all_digits(s@),
{
    let digits = number::leading_digits(s);
    let r = digits.unicode_len() == s.unicode_len();
    proof {
        lemma_digit_len(s@);
    }
    r
}

proof fn lemma_digit_len(s: Seq<char>)
    ensures
        (number::digit_len(s) == s.len()) == number::all_digits(s),
        number::digit_len(s) <= s.len(),
    decreases s.len(),
{
    if s.len() > 0 {
        lemma_digit_len(s.skip(1));
        if number::is_digit(s[0]) {
            if number::all_digits(s.skip(1)) {
                assert forall|i: int| 0 <= i < s.len() implies number::is_digit(#[trigger] s[i]) by {
                    if i > 0 {
                        assert(s.skip(1)[i - 1] == s[i]);
                    }
                }
            } else {
                let i = choose|i: int|
                    0 <= i < s.skip(1).len() && !number::is_digit(#[trigger] s.skip(1)[i]);
                assert(s[i + 1] == s.skip(1)[i]);
            }
        }
    }
}

/// Whether a name is that of a policy.
pub fn is_cpufreq_policy(name: &str) -> (r: bool)
    ensures
        r == is_policy(name@),
{
    match text::strip_prefix(name, "policy") {
        Some(digits) => digits.unicode_len() > 0 && all_digits(digits),
        None => false,
    }
}

/// What each of some policies holds.
pub open spec fn ref_views(s: Seq<&Policy>) -> Seq<PolicyView> {
    Seq::new(s.len(), |i: int| s[i]@)
}

/// The policies in the order of their names.
pub fn cpufreq_policies(entries: &Vec<Policy>) -> (r: Vec<&Policy>)
    ensures
        ref_views(r@) == policies_of(policy_views(entries@)),
{
    let ghost all = policy_views(entries@);
    let f = |a: usize, b: usize| -> (c: bool)
        requires
            a < entries@.len(),
            b < entries@.len(),
        ensures
            c == text::text_less(entries@[a as int].name@, entries@[b as int].name@),
        { text::less(entries[a].name.as_str(), entries[b].name.as_str()) };
    let at = order::sort_positions(entries.len(), f, Ghost(by_name(all)));
    let ghost sorted = Seq::new(
        all.len(),
        |i: int| all[order::order(by_name(all), all.len() as int)[i]],
    );
    let mut out: Vec<&Policy> = Vec::new();
    assert(ref_views(out@) =~= only_policies(sorted.take(0)));
    let mut i: usize = 0;
    while i < at.len()
        invariant
            i <= at@.len(),
            at@.len() == entries@.len(),
            all == policy_views(entries@),
            order::positions(at@) == order::order(by_name(all), entries@.len() as int),
            sorted == Seq::new(
                all.len(),
                |i: int| all[order::order(by_name(all), all.len() as int)[i]],
            ),
            forall|k: int| 0 <= k < at@.len() ==> (#[trigger] at@[k]) < entries@.len(),
            ref_views(out@) == only_policies(sorted.take(i as int)),
        decreases at@.len() - i,
    {
        let e = &entries[at[i]];
        proof {
            assert(order::positions(at@)[i as int] == at@[i as int] as int);
            assert(sorted[i as int] == e@);
            assert(sorted.take(i + 1).drop_last() =~= sorted.take(i as int));
            assert(sorted.take(i + 1).last() == e@);
        }
        let ghost before = ref_views(out@);
        if is_cpufreq_policy(e.name.as_str()) {
            out.push(e);
            assert(ref_views(out@) =~= before.push(e@));
        }
        i += 1;
    }
    assert(sorted.take(sorted.len() as int) =~= sorted);
    out
}

/// Whether the driver of a policy understands energy preferences. Only such a driver
/// takes the governors of the matrix as they are meant: with another, `powersave` pins
/// the lowest frequency.
pub open spec fn epp_capable(p: PolicyView) -> bool {
    p.has_epp || (p.driver matches Some(d) && (text::trimmed(d) == "amd-pstate-epp"@
        || text::trimmed(d) == "intel_pstate"@))
}

/// The file of a policy.
pub open spec fn policy_file(name: Seq<char>, file: Seq<char>) -> Seq<char> {
    CPUFREQ_DIR@ + "/"@ + name + "/"@ + file
}

pub open spec fn governor_knob(p: PolicyView, value: Seq<char>) -> Knob<Seq<char>> {
    if offered(p.governors, value) {
        Knob::Write { path: policy_file(p.name, "scaling_governor"@), value }
    } else {
        Knob::Settled("skipped-unsupported"@)
    }
}

pub open spec fn epp_knob(p: PolicyView, value: Seq<char>) -> Knob<Seq<char>> {
    Knob::Write { path: policy_file(p.name, "energy_performance_preference"@), value }
}

pub open spec fn governor_row(policies: Seq<PolicyView>, value: Seq<char>) -> RowView {
    RowView {
        label: "scaling_governor"@,
        knobs: Seq::new(policies.len(), |i: int| governor_knob(policies[i], value)),
    }
}

pub open spec fn epp_row(policies: Seq<PolicyView>, value: Seq<char>) -> RowView {
    RowView {
        label: "energy_performance_preference"@,
        knobs: Seq::new(policies.len(), |i: int| epp_knob(policies[i], value)),
    }
}

/// The rows of the CPU. The energy preference comes after the governor.
pub open spec fn cpu_plan(p: PowerProfile, policies: Seq<PolicyView>) -> Seq<RowView> {
    if policies.len() == 0 {
        seq![settled("cpu"@, "skipped-missing"@)]
    } else if !epp_capable(policies[0]) {
        seq![
            settled("scaling_governor"@, "skipped-unsupported"@),
            settled("energy_performance_preference"@, "skipped-unsupported"@),
        ]
    } else {
        seq![governor_row(policies, governor_of(p))] + match epp_of(p) {
            Some(v) => seq![epp_row(policies, v)],
            None => seq![],
        }
    }
}

fn policy_path(name: &str, file: &str) -> (r: String)
    ensures
        r@ == policy_file(name@, file@),
{
    let mut out = text::concat3(CPUFREQ_DIR, "/", name);
    out.append("/");
    out.append(file);
    out
}

fn governors_row(policies: &Vec<&Policy>, value: &str) -> (r: Row)
    ensures
        r@ == governor_row(ref_views(policies@), value@),
{
    let ghost all = ref_views(policies@);
    let mut knobs: Vec<Knob<String>> = Vec::new();
    let mut i: usize = 0;
    while i < policies.len()
        invariant
            i <= policies@.len(),
            all == ref_views(policies@),
            knobs@.len() == i,
            forall|k: int| 0 <= k < i ==> (#[trigger] knobs@[k])@ == governor_knob(all[k], value@),
        decreases policies@.len() - i,
    {
        let p = policies[i];
        assert(all[i as int] == p@);
        let has = match &p.governors {
            Some(g) => is_word_of(g.as_str(), value),
            None => false,
        };
        if has {
            knobs.push(
                Knob::Write {
                    path: policy_path(p.name.as_str(), "scaling_governor"),
                    value: String::from_str(value),
                },
            );
        } else {
            knobs.push(Knob::Settled(String::from_str("skipped-unsupported")));
        }
        i += 1;
    }
    let r = Row { label: String::from_str("scaling_governor"), knobs };
    assert(r@.knobs =~= governor_row(all, value@).knobs);
    r
}

fn preferences_row(policies: &Vec<&Policy>, value: &str) -> (r: Row)
    ensures
        r@ == epp_row(ref_views(policies@), value@),
{
    let ghost all = ref_views(policies@);
    let mut knobs: Vec<Knob<String>> = Vec::new();
    let mut i: usize = 0;
    while i < policies.len()
        invariant
            i <= policies@.len(),
            all == ref_views(policies@),
            knobs@.len() == i,
            forall|k: int| 0 <= k < i ==> (#[trigger] knobs@[k])@ == epp_knob(all[k], value@),
        decreases policies@.len() - i,
    {
        let p = policies[i];
        assert(all[i as int] == p@);
        knobs.push(
            Knob::Write {
                path: policy_path(p.name.as_str(), "energy_performance_preference"),
                value: String::from_str(value),
            },
        );
        i += 1;
    }
    let r = Row { label: String::from_str("energy_performance_preference"), knobs };
    assert(r@.knobs =~= epp_row(all, value@).knobs);
    r
}

/// Adds the rows of the CPU.
pub fn cpu_rows(p: PowerProfile, entries: &Vec<Policy>, out: &mut Vec<Row>)
    ensures
        row_views(final(out)@) == row_views(old(out)@) + cpu_plan(
            p,
            policies_of(policy_views(entries@)),
        ),
{
    let ghost before = row_views(out@);
    let policies = cpufreq_policies(entries);
    let ghost all = ref_views(policies@);
    if policies.len() == 0 {
        push_row(out, settle("cpu", "skipped-missing"));
        assert(row_views(out@) =~= before + cpu_plan(p, all));
        return ;
    }
    let first = policies[0];
    assert(all[0] == first@);
    let known_driver = match &first.driver {
        Some(d) => {
            let d = text::trim(d.as_str());
            text::str_eq(d, "amd-pstate-epp") || text::str_eq(d, "intel_pstate")
        },
        None => false,
    };
    if !(first.has_epp || known_driver) {
        push_row(out, settle("scaling_governor", "skipped-unsupported"));
        push_row(out, settle("energy_performance_preference", "skipped-unsupported"));
        assert(row_views(out@) =~= before + cpu_plan(p, all));
        return ;
    }
    push_row(out, governors_row(&policies, governor(p)));
    match epp(p) {
        Some(v) => {
            push_row(out, preferences_row(&policies, v));
        },
        None => {},
    }
    assert(row_views(out@) =~= before + cpu_plan(p, all));
}

// ------------------------------------------------------------------------- boost

pub open spec fn boost_plan(p: PowerProfile, has_boost: bool, has_no_turbo: bool) -> RowView {
    if has_boost {
        writing("boost"@, CPUFREQ_DIR@ + "/boost"@, boost_of(p))
    } else if has_no_turbo {
        writing("no_turbo"@, INTEL_NO_TURBO_PATH@, no_turbo_of(p))
    } else {
        settled("boost"@, "skipped-missing"@)
    }
}

/// The row of boost.
pub fn boost_row(p: PowerProfile, has_boost: bool, has_no_turbo: bool) -> (r: Row)
    ensures
        r@ == boost_plan(p, has_boost, has_no_turbo),
{
    if has_boost {
        write_one("boost", text::concat2(CPUFREQ_DIR, "/boost").as_str(), boost(p))
    } else if has_no_turbo {
        write_one("no_turbo", INTEL_NO_TURBO_PATH, no_turbo(p))
    } else {
        settle("boost", "skipped-missing")
    }
}

// --------------------------------------------------------------------------- GPU

/// A file of a card's device.
pub open spec fn device_file(card: Seq<char>, file: Seq<char>) -> Seq<char> {
    "/sys/class/drm/"@ + card + "/device/"@ + file
}

/// The path of a file of a card's device.
pub fn device_path(card: &str, file: &str) -> (r: String)
    ensures
        r@ == device_file(card@, file@),
{
    let mut out = text::concat3("/sys/class/drm/", card, "/device/");
    out.append(file);
    out
}

/// The row of one card. The runtime status comes first: opening the knob of a card that
/// is suspended would wake it.
pub open spec fn card_plan(
    p: PowerProfile,
    c: CardView,
    integrated: bool,
    status: Option<Seq<char>>,
) -> RowView {
    let label = "dpm:"@ + gpu::key_of(c.path);
    let knob = device_file(c.card, "power_dpm_force_performance_level"@);
    if integrated {
        writing(label, knob, "auto"@)
    } else {
        match status {
            Some(s) => if text::trimmed(s) == "suspended"@ {
                settled(label, "skipped-suspended"@)
            } else {
                writing(label, knob, dpm_of(p))
            },
            None => settled(label, "skipped-missing"@),
        }
    }
}

/// The status of a card, if one was read.
pub open spec fn status_at(statuses: Seq<Option<String>>, i: int) -> Option<Seq<char>> {
    if 0 <= i < statuses.len() {
        text::opt_string(statuses[i])
    } else {
        None
    }
}

/// The rows of the GPUs. A single card is left alone: it could be a discrete one that
/// all displays hang on.
pub open spec fn gpu_plan(
    p: PowerProfile,
    cards: Seq<CardView>,
    statuses: Seq<Option<String>>,
) -> Seq<RowView> {
    if cards.len() == 0 {
        seq![settled("gpu"@, "skipped-missing"@)]
    } else if !(exists|i: int| 0 <= i < cards.len() && gpu_state::is_integrated_of_several(cards, i)) {
        seq![settled("gpu"@, "skipped-ambiguous"@)]
    } else {
        Seq::new(
            cards.len(),
            |i: int|
                card_plan(
                    p,
                    cards[i],
                    gpu_state::is_integrated_of_several(cards, i),
                    status_at(statuses, i),
                ),
        )
    }
}

fn card_row(p: PowerProfile, c: &GpuCard, integrated: bool, status: &Option<String>) -> (r: Row)
    ensures
        r@ == card_plan(p, c@, integrated, text::opt_string(*status)),
{
    let label = text::concat2("dpm:", pci_key(c.path.as_str()));
    let knob = device_path(c.card.as_str(), "power_dpm_force_performance_level");
    if integrated {
        return write_one(label.as_str(), knob.as_str(), "auto");
    }
    match status {
        Some(s) => {
            if text::str_eq(text::trim(s.as_str()), "suspended") {
                settle(label.as_str(), "skipped-suspended")
            } else {
                write_one(label.as_str(), knob.as_str(), dgpu_dpm(p))
            }
        },
        None => settle(label.as_str(), "skipped-missing"),
    }
}

/// Adds the rows of the GPUs, from the topology and the runtime status of each card.
pub fn gpu_rows(
    p: PowerProfile,
    snap: &GpuSnapshot,
    statuses: &Vec<Option<String>>,
    out: &mut Vec<Row>,
)
    ensures
        row_views(final(out)@) == row_views(old(out)@) + gpu_plan(
            p,
            gpu::card_views(snap.cards@),
            statuses@,
        ),
{
    let ghost before = row_views(out@);
    let ghost all = gpu::card_views(snap.cards@);
    let ghost plan = gpu_plan(p, all, statuses@);
    if snap.cards.len() == 0 {
        push_row(out, settle("gpu", "skipped-missing"));
        assert(row_views(out@) =~= before + plan);
        return ;
    }
    let integrated = match gpu_state::integrated_of_several(&snap.cards) {
        Some(k) => {
            assert(gpu_state::is_integrated_of_several(all, k as int));
            k
        },
        None => {
            push_row(out, settle("gpu", "skipped-ambiguous"));
            assert(row_views(out@) =~= before + plan);
            return ;
        },
    };
    let mut i: usize = 0;
    assert(row_views(out@) =~= before + plan.take(0));
    while i < snap.cards.len()
        invariant
            i <= snap.cards@.len(),
            all == gpu::card_views(snap.cards@),
            plan == gpu_plan(p, all, statuses@),
            integrated < all.len(),
            gpu_state::is_integrated_of_several(all, integrated as int),
            forall|k: int|
                0 <= k < all.len() ==> (integrated == k)
                    == #[trigger] gpu_state::is_integrated_of_several(all, k),
            row_views(out@) == before + plan.take(i as int),
        decreases snap.cards@.len() - i,
    {
        let none: Option<String> = None;
        let status = if i < statuses.len() {
            &statuses[i]
        } else {
            &none
        };
        assert(gpu_state::is_integrated_of_several(all, i as int) == (i == integrated));
        let row = card_row(p, &snap.cards[i], i == integrated, status);
        let ghost shown = row@;
        push_row(out, row);
        assert(plan[i as int] == shown);
        assert(row_views(out@) =~= before + plan.take(i + 1));
        i += 1;
    }
    assert(plan.take(plan.len() as int) =~= plan);
}

// -------------------------------------------------------------------------- ASPM

pub open spec fn is_bracket(c: char) -> bool {
    c == '[' || c == ']'
}

/// A word without the brackets round it.
pub open spec fn unbracketed(s: Seq<char>) -> Seq<char>
    decreases s.len(),
{
    if s.len() == 0 {
        s
    } else if is_bracket(s[0]) {
        unbracketed(s.skip(1))
    } else if is_bracket(s.last()) {
        unbracketed(s.drop_last())
    } else {
        s
    }
}

/// The selected one of some options, which stands in brackets.
pub open spec fn selected(words: Seq<Seq<char>>) -> Option<Seq<char>>
    decreases words.len(),
{
    if words.len() == 0 {
        None
    } else if text::has_prefix(words[0], "["@) {
        Some(unbracketed(words[0]))
    } else {
        selected(words.skip(1))
    }
}

/// The option is among those offered.
pub open spec fn is_option(words: Seq<Seq<char>>, value: Seq<char>) -> bool {
    exists|i: int| 0 <= i < words.len() && unbracketed(#[trigger] words[i]) == value
}

fn trim_brackets(s: &str) -> (r: &str)
    ensures
        r@ == unbracketed(s@),
{
    let v = text::chars(s);
    let mut lo: usize = 0;
    let mut hi: usize = v.len();
    assert(v@.subrange(0, hi as int) =~= s@);
    while lo < hi && (v[lo] == '[' || v[lo] == ']')
        invariant
            v@ == s@,
            lo <= hi <= v@.len(),
            hi == v@.len(),
            unbracketed(s@) == unbracketed(v@.subrange(lo as int, hi as int)),
        decreases hi - lo,
    {
        assert(v@.subrange(lo as int, hi as int).skip(1) =~= v@.subrange(lo + 1, hi as int));
        lo += 1;
    }
    while lo < hi && (v[hi - 1] == '[' || v[hi - 1] == ']')
        invariant
            v@ == s@,
            lo <= hi <= v@.len(),
            lo < hi ==> !is_bracket(v@[lo as int]),
            unbracketed(s@) == unbracketed(v@.subrange(lo as int, hi as int)),
        decreases hi - lo,
    {
        assert(v@.subrange(lo as int, hi as int).drop_last() =~= v@.subrange(lo as int, hi - 1));
        hi -= 1;
    }
    s.substring_char(lo, hi)
}

/// The selected link power policy.
pub fn aspm_current(opts: &str) -> (r: Option<String>)
    ensures
        text::opt_string(r) == selected(text::words_of(opts@)),
{
    let words = text::words(opts);
    let ghost all = text::words_of(opts@);
    assert(all.skip(0) =~= all);
    let mut i: usize = 0;
    while i < words.len()
        invariant
            i <= words@.len(),
            text::strs(words@) == all,
            selected(all) == selected(all.skip(i as int)),
            all == text::words_of(opts@),
        decreases words@.len() - i,
    {
        assert(all.skip(i as int)[0] == words@[i as int]@);
        assert(all.skip(i as int).skip(1) =~= all.skip(i + 1));
        if text::starts_with(words[i], "[") {
            return Some(String::from_str(trim_brackets(words[i])));
        }
        i += 1;
    }
    None
}

fn has_option(opts: &str, value: &str) -> (r: bool)
    ensures
        r == is_option(text::words_of(opts@), value@),
{
    let words = text::words(opts);
    let ghost all = text::words_of(opts@);
    let mut i: usize = 0;
    while i < words.len()
        invariant
            i <= words@.len(),
            text::strs(words@) == all,
            all == text::words_of(opts@),
            forall|k: int| 0 <= k < i ==> unbracketed(#[trigger] all[k]) != value@,
        decreases words@.len() - i,
    {
        assert(all[i as int] == words@[i as int]@);
        if text::str_eq(trim_brackets(words[i]), value) {
            return true;
        }
        i += 1;
    }
    false
}

/// The row of the link power policy. `writable`: a write was tried at startup and went
/// through.
pub open spec fn aspm_plan(p: PowerProfile, read: ReadOutcome, writable: bool) -> RowView {
    let label = "pcie_aspm"@;
    if read is Missing {
        settled(label, "skipped-missing"@)
    } else if !writable {
        settled(label, "skipped-unsupported"@)
    } else {
        match read {
            ReadOutcome::Content(opts) => {
                let words = text::words_of(opts@);
                if !is_option(words, aspm_of(p)) {
                    settled(label, "skipped-unsupported"@)
                } else if selected(words) == Some(aspm_of(p)) {
                    settled(label, "unchanged"@)
                } else {
                    writing(label, ASPM_POLICY_PATH@, aspm_of(p))
                }
            },
            ReadOutcome::Missing => settled(label, "skipped-missing"@),
            ReadOutcome::Failed(m) => settled(label, "error:"@ + m@),
        }
    }
}

/// The row of the link power policy.
pub fn aspm_row(p: PowerProfile, read: &ReadOutcome, writable: bool) -> (r: Row)
    ensures
        r@ == aspm_plan(p, *read, writable),
{
    match read {
        ReadOutcome::Missing => settle("pcie_aspm", "skipped-missing"),
        ReadOutcome::Failed(m) => {
            if writable {
                settle("pcie_aspm", text::concat2("error:", m.as_str()).as_str())
            } else {
                settle("pcie_aspm", "skipped-unsupported")
            }
        },
        ReadOutcome::Content(opts) => {
            let target = aspm(p);
            if !writable || !has_option(opts.as_str(), target) {
                return settle("pcie_aspm", "skipped-unsupported");
            }
            let current = aspm_current(opts.as_str());
            if text::opt_is(text::opt_as_str(&current), target) {
                settle("pcie_aspm", "unchanged")
            } else {
                write_one("pcie_aspm", ASPM_POLICY_PATH, target)
            }
        },
    }
}

/// What to write, to find out whether the link power policy can be written: the value
/// that it has. `None`: it cannot be found out, and the row is off.
pub fn aspm_writability_probe(opts: Option<&str>) -> (r: Option<String>)
    ensures
        text::opt_string(r) == (match opts {
            Some(o) => selected(text::words_of(o@)),
            None => None,
        }),
{
    match opts {
        Some(o) => aspm_current(o),
        None => None,
    }
}

// --------------------------------------------------------------------- the whole

/// What was read before a profile is applied.
#[derive(Debug)]
pub struct KnobReadings {
    /// There is a platform profile.
    pub platform: bool,
    /// The content of the platform profile's choices.
    pub choices: Option<String>,
    pub policies: Vec<Policy>,
    pub has_boost: bool,
    pub has_no_turbo: bool,
    pub gpus: GpuSnapshot,
    /// The runtime status of each card.
    pub runtime: Vec<Option<String>>,
    pub aspm: ReadOutcome,
}

/// All rows of a profile.
pub open spec fn apply_plan(p: PowerProfile, aspm_writable: bool, k: KnobReadings) -> Seq<RowView> {
    seq![platform_plan(p, k.platform, text::opt_string(k.choices))] + cpu_plan(
        p,
        policies_of(policy_views(k.policies@)),
    ) + seq![boost_plan(p, k.has_boost, k.has_no_turbo)] + gpu_plan(
        p,
        gpu::card_views(k.gpus.cards@),
        k.runtime@,
    ) + seq![aspm_plan(p, k.aspm, aspm_writable)]
}

/// Works out all rows of a profile. Rows are independent of one another.
pub fn powerd_apply(p: PowerProfile, aspm_writable: bool, k: &KnobReadings) -> (r: Vec<Row>)
    ensures
        row_views(r@) == apply_plan(p, aspm_writable, *k),
{
    let mut out: Vec<Row> = Vec::new();
    assert(row_views(out@) =~= seq![]);
    push_row(&mut out, platform_row(p, k.platform, text::opt_as_str(&k.choices)));
    cpu_rows(p, &k.policies, &mut out);
    push_row(&mut out, boost_row(p, k.has_boost, k.has_no_turbo));
    gpu_rows(p, &k.gpus, &k.runtime, &mut out);
    push_row(&mut out, aspm_row(p, &k.aspm, aspm_writable));
    assert(row_views(out@) =~= apply_plan(p, aspm_writable, *k));
    out
}

// ---------------------------------------------------------------- runtime PM pin

/// What the runtime-PM control of a card is set to.
pub open spec fn pin_word(awake: bool) -> Seq<char> {
    if awake {
        "on"@
    } else {
        "auto"@
    }
}

/// The rows that keep the discrete cards awake, or let them sleep again. Which cards are
/// discrete has to be known for certain.
pub open spec fn pin_plan(cards: Seq<CardView>, awake: bool) -> Seq<RowView> {
    if cards.len() == 0 {
        seq![settled("gpu"@, "skipped-missing"@)]
    } else if !(exists|i: int| 0 <= i < cards.len() && gpu_state::is_integrated_of_several(cards, i)) {
        seq![settled("gpu"@, "skipped-ambiguous"@)]
    } else {
        pin_upto(cards, awake, cards.len() as int)
    }
}

pub open spec fn pin_upto(cards: Seq<CardView>, awake: bool, n: int) -> Seq<RowView>
    decreases n,
{
    if n <= 0 {
        seq![]
    } else {
        let rest = pin_upto(cards, awake, n - 1);
        if gpu_state::is_integrated_of_several(cards, n - 1) {
            rest
        } else {
            rest.push(
                writing(
                    "runtime_pm:"@ + gpu::key_of(cards[n - 1].path),
                    device_file(cards[n - 1].card, "power/control"@),
                    pin_word(awake),
                ),
            )
        }
    }
}

/// Works out the rows that keep the discrete cards awake, or let them sleep again.
pub fn apply_dgpu_runtime_pm(snap: &GpuSnapshot, awake: bool) -> (r: Vec<Row>)
    ensures
        row_views(r@) == pin_plan(gpu::card_views(snap.cards@), awake),
{
    let ghost all = gpu::card_views(snap.cards@);
    let mut out: Vec<Row> = Vec::new();
    if snap.cards.len() == 0 {
        push_row(&mut out, settle("gpu", "skipped-missing"));
        assert(row_views(out@) =~= pin_plan(all, awake));
        return out;
    }
    let integrated = match gpu_state::integrated_of_several(&snap.cards) {
        Some(k) => {
            assert(gpu_state::is_integrated_of_several(all, k as int));
            k
        },
        None => {
            push_row(&mut out, settle("gpu", "skipped-ambiguous"));
            assert(row_views(out@) =~= pin_plan(all, awake));
            return out;
        },
    };
    let word = if awake {
        "on"
    } else {
        "auto"
    };
    assert(row_views(out@) =~= pin_upto(all, awake, 0));
    let mut i: usize = 0;
    while i < snap.cards.len()
        invariant
            i <= snap.cards@.len(),
            all == gpu::card_views(snap.cards@),
            word@ == pin_word(awake),
            forall|k: int|
                0 <= k < all.len() ==> (integrated == k)
                    == #[trigger] gpu_state::is_integrated_of_several(all, k),
            row_views(out@) == pin_upto(all, awake, i as int),
        decreases snap.cards@.len() - i,
    {
        let c = &snap.cards[i];
        assert((i == integrated) == gpu_state::is_integrated_of_several(all, i as int));
        if i != integrated {
            let label = text::concat2("runtime_pm:", pci_key(c.path.as_str()));
            let path = device_path(c.card.as_str(), "power/control");
            push_row(&mut out, write_one(label.as_str(), path.as_str(), word));
        }
        i += 1;
    }
    out
}

// ------------------------------------------------------------------- persistence

/// The profile that was in force when the service last ran; balanced where nothing
/// valid was kept.
pub open spec fn kept_profile(content: Option<Seq<char>>) -> PowerProfile {
    match content {
        Some(c) => match text::first_word_of(c) {
            Some(w) => match PowerProfile::of_word(w) {
                Some(p) => p,
                None => PowerProfile::Balanced,
            },
            None => PowerProfile::Balanced,
        },
        None => PowerProfile::Balanced,
    }
}

/// The warning about a kept word that is no profile.
pub open spec fn kept_warning(content: Option<Seq<char>>) -> Option<Seq<char>> {
    match content {
        Some(c) => match text::first_word_of(c) {
            Some(w) => if PowerProfile::of_word(w) is Some {
                None
            } else {
                Some(
                    "persisted profile "@ + text::debug_of(w) + " invalid \u{2014} using balanced"@,
                )
            },
            None => Some(NOTHING_KEPT@),
        },
        None => Some(NOTHING_KEPT@),
    }
}

/// The profile that was in force when the service last ran, and a warning where the
/// word that was kept is no profile.
pub fn persisted_profile(content: Option<&str>) -> (r: (PowerProfile, Option<String>))
    ensures
        r.0 == kept_profile(text::opt_str(content)),
        text::opt_string(r.1) == kept_warning(text::opt_str(content)),
{
    let word = match content {
        Some(c) => text::first_word(c),
        None => None,
    };
    match word {
        Some(w) => match PowerProfile::from_str(w) {
            Ok(p) => (p, None),
            Err(_) => {
                let mut warning = text::quoted("persisted profile ", w);
                warning.append(" invalid \u{2014} using balanced");
                (PowerProfile::Balanced, Some(warning))
            },
        },
        None => (PowerProfile::Balanced, Some(String::from_str(NOTHING_KEPT))),
    }
}

/// What is kept of a profile.
pub open spec fn kept_text(p: PowerProfile) -> Seq<char> {
    p.word() + "\n"@
}

/// What is kept of a profile.
pub fn persist_profile(p: PowerProfile) -> (r: String)
    ensures
        r@ == kept_text(p),
{
    text::concat2(p.as_str(), "\n")
}

/// What is kept of a runtime-PM pin.
pub open spec fn kept_pin(awake: bool) -> Seq<char> {
    pin_word(awake) + "\n"@
}

/// What is kept of a runtime-PM pin.
pub fn persist_pin(awake: bool) -> (r: String)
    ensures
        r@ == kept_pin(awake),
{
    if awake {
        text::concat2("on", "\n")
    } else {
        text::concat2("auto", "\n")
    }
}

/// The pin that was kept: a file that is missing or says something else lets cards sleep.
pub open spec fn pin_of(content: Option<Seq<char>>) -> bool {
    match content {
        Some(c) => text::first_word_of(c) == Some("on"@),
        None => false,
    }
}

/// The pin that was kept.
pub fn persisted_pin(content: Option<&str>) -> (r: bool)
    ensures
        r == pin_of(text::opt_str(content)),
{
    match content {
        Some(c) => text::opt_is(text::first_word(c), "on"),
        None => false,
    }
}

// ---------------------------------------------------------------------- reporting

/// What a report says of a discrete or integrated card's performance level.
#[derive(Debug, Clone, Copy, PartialEq, Eq, Structural)]
pub enum CardReport {
    /// The card is suspended, and its knob is not to be opened.
    Suspended,
    /// The knob is to be read.
    ReadKnob,
    Nothing,
}

/// Whether the knob of a card may be read, going by its runtime status.
pub open spec fn report_of(status: Option<Seq<char>>) -> CardReport {
    match status {
        Some(s) => if text::trimmed(s) == "suspended"@ {
            CardReport::Suspended
        } else {
            CardReport::ReadKnob
        },
        None => CardReport::Nothing,
    }
}

/// Decides from the runtime status of a card whether its knob may be read.
pub fn card_report(status: Option<&str>) -> (r: CardReport)
    ensures
        r == report_of(text::opt_str(status)),
{
    match status {
        Some(s) => {
            if text::str_eq(text::trim(s), "suspended") {
                CardReport::Suspended
            } else {
                CardReport::ReadKnob
            }
        },
        None => CardReport::Nothing,
    }
}

/// The labels and files of the settings that are reported, other than those of GPUs.
pub fn knob_files() -> (r: Vec<(&'static str, &'static str)>)
    ensures
        r@.len() == 6,
        r@[0].0@ == "platform_profile"@ && r@[0].1@ == PLATFORM_PROFILE_PATH@,
        r@[1].0@ == "scaling_governor"@ && r@[1].1@
            == "/sys/devices/system/cpu/cpufreq/policy0/scaling_governor"@,
        r@[2].0@ == "energy_performance_preference"@ && r@[2].1@
            == "/sys/devices/system/cpu/cpufreq/policy0/energy_performance_preference"@,
        r@[3].0@ == "boost"@ && r@[3].1@ == "/sys/devices/system/cpu/cpufreq/boost"@,
        r@[4].0@ == "no_turbo"@ && r@[4].1@ == INTEL_NO_TURBO_PATH@,
        r@[5].0@ == "pcie_aspm"@ && r@[5].1@ == ASPM_POLICY_PATH@,
{
    vec![
        ("platform_profile", PLATFORM_PROFILE_PATH),
        ("scaling_governor", "/sys/devices/system/cpu/cpufreq/policy0/scaling_governor"),
        (
            "energy_performance_preference",
            "/sys/devices/system/cpu/cpufreq/policy0/energy_performance_preference",
        ),
        ("boost", "/sys/devices/system/cpu/cpufreq/boost"),
        ("no_turbo", INTEL_NO_TURBO_PATH),
        ("pcie_aspm", ASPM_POLICY_PATH),
    ]
}

/// What was read of a card: its path, its runtime status, the content of its knob where
/// that was to be read, and its runtime-PM control, which never wakes a card.
#[derive(Debug)]
pub struct CardReading {
    pub path: String,
    pub status: Option<String>,
    pub level: Option<String>,
    pub control: Option<String>,
}

/// What a [`CardReading`] holds.
pub struct CardReadingView {
    pub path: Seq<char>,
    pub status: Option<Seq<char>>,
    pub level: Option<Seq<char>>,
    pub control: Option<Seq<char>>,
}

impl View for CardReading {
    type V = CardReadingView;

    open spec fn view(&self) -> CardReadingView {
        CardReadingView {
            path: self.path@,
            status: text::opt_string(self.status),
            level: text::opt_string(self.level),
            control: text::opt_string(self.control),
        }
    }
}

pub open spec fn reading_views(s: Seq<CardReading>) -> Seq<CardReadingView> {
    Seq::new(s.len(), |i: int| s[i]@)
}

/// What is reported of a file: its content, trimmed, where it was readable.
pub open spec fn file_value(content: Option<Seq<char>>) -> Option<Seq<char>> {
    match content {
        Some(c) => Some(text::trimmed(c)),
        None => None,
    }
}

/// What is reported of a card.
pub open spec fn card_value(c: CardReadingView) -> Option<Seq<char>> {
    match report_of(c.status) {
        CardReport::Suspended => Some("(runtime-suspended)"@),
        CardReport::ReadKnob => file_value(c.level),
        CardReport::Nothing => None,
    }
}

/// The entries of a report on files, each with its label.
pub open spec fn file_entries(files: Seq<(Seq<char>, Option<Seq<char>>)>) -> Seq<
    (Seq<char>, Seq<char>),
>
    decreases files.len(),
{
    if files.len() == 0 {
        seq![]
    } else {
        let rest = file_entries(files.drop_last());
        match file_value(files.last().1) {
            Some(v) => rest.push((files.last().0, v)),
            None => rest,
        }
    }
}

/// The entries of a report on cards.
pub open spec fn card_entries(cards: Seq<CardReadingView>) -> Seq<(Seq<char>, Seq<char>)>
    decreases cards.len(),
{
    if cards.len() == 0 {
        seq![]
    } else {
        let key = gpu::key_of(cards.last().path);
        let rest = card_entries(cards.drop_last());
        let dpm = match card_value(cards.last()) {
            Some(v) => rest.push(("dpm:"@ + key, v)),
            None => rest,
        };
        match file_value(cards.last().control) {
            Some(v) => dpm.push(("runtime_pm:"@ + key, v)),
            None => dpm,
        }
    }
}

pub open spec fn file_views(s: Seq<(String, Option<String>)>) -> Seq<
    (Seq<char>, Option<Seq<char>>),
> {
    Seq::new(s.len(), |i: int| (s[i].0@, text::opt_string(s[i].1)))
}

pub open spec fn entry_views(s: Seq<(String, String)>) -> Seq<(Seq<char>, Seq<char>)> {
    Seq::new(s.len(), |i: int| (s[i].0@, s[i].1@))
}

fn content_value(content: &Option<String>) -> (r: Option<String>)
    ensures
        text::opt_string(r) == file_value(text::opt_string(*content)),
{
    match content {
        Some(c) => Some(text::trim(c.as_str()).to_string()),
        None => None,
    }
}

fn reported_value(c: &CardReading) -> (r: Option<String>)
    ensures
        text::opt_string(r) == card_value(c@),
{
    match card_report(text::opt_as_str(&c.status)) {
        CardReport::Suspended => Some(String::from_str("(runtime-suspended)")),
        CardReport::ReadKnob => content_value(&c.level),
        CardReport::Nothing => None,
    }
}

/// The live values of the settings, each with its label.
pub fn knob_snapshot(files: &Vec<(String, Option<String>)>, cards: &Vec<CardReading>) -> (r: Vec<
    (String, String),
>)
    ensures
        entry_views(r@) == file_entries(file_views(files@)) + card_entries(reading_views(cards@)),
{
    let ghost told = file_views(files@);
    let ghost seen = reading_views(cards@);
    let mut out: Vec<(String, String)> = Vec::new();
    let mut i: usize = 0;
    assert(entry_views(out@) =~= file_entries(told.take(0)));
    while i < files.len()
        invariant
            i <= files@.len(),
            told == file_views(files@),
            entry_views(out@) == file_entries(told.take(i as int)),
        decreases files@.len() - i,
    {
        proof {
            assert(told.take(i + 1).drop_last() =~= told.take(i as int));
            assert(told.take(i + 1).last() == told[i as int]);
        }
        let ghost before = entry_views(out@);
        match content_value(&files[i].1) {
            Some(v) => {
                let label = files[i].0.clone();
                out.push((label, v));
                assert(entry_views(out@) =~= before.push((label@, v@)));
            },
            None => {},
        }
        i += 1;
    }
    assert(told.take(told.len() as int) =~= told);
    let ghost head = entry_views(out@);
    let mut j: usize = 0;
    assert(entry_views(out@) =~= head + card_entries(seen.take(0)));
    while j < cards.len()
        invariant
            j <= cards@.len(),
            seen == reading_views(cards@),
            entry_views(out@) == head + card_entries(seen.take(j as int)),
        decreases cards@.len() - j,
    {
        proof {
            assert(seen.take(j + 1).drop_last() =~= seen.take(j as int));
            assert(seen.take(j + 1).last() == cards@[j as int]@);
        }
        let ghost before = entry_views(out@);
        match reported_value(&cards[j]) {
            Some(v) => {
                let label = text::concat2("dpm:", pci_key(cards[j].path.as_str()));
                out.push((label, v));
                assert(entry_views(out@) =~= before.push((label@, v@)));
            },
            None => {},
        }
        let ghost between = entry_views(out@);
        match content_value(&cards[j].control) {
            Some(v) => {
                let label = text::concat2("runtime_pm:", pci_key(cards[j].path.as_str()));
                out.push((label, v));
                assert(entry_views(out@) =~= between.push((label@, v@)));
            },
            None => {},
        }
        assert(entry_views(out@) =~= head + card_entries(seen.take(j + 1)));
        j += 1;
    }
    assert(seen.take(seen.len() as int) =~= seen);
    out
}

// ------------------------------------------------------------------------- laws

/// A row of one knob has the status of that knob.
pub proof fn single_rows_keep_their_status(s: Seq<char>)
    ensures
        merged(seq![s]) == s,
{
    let one = seq![s];
    assert(one[0] == s);
    assert(one.skip(1) =~= Seq::<Seq<char>>::empty());
    assert(first_error(one.skip(1)) is None);
    if one.contains("written"@) {
        assert(s == "written"@);
    }
}

/// The path is on the list of settings that the service ever writes.
pub open spec fn on_the_list(path: Seq<char>) -> bool {
    ||| path == PLATFORM_PROFILE_PATH@
    ||| path == CPUFREQ_DIR@ + "/boost"@
    ||| path == INTEL_NO_TURBO_PATH@
    ||| path == ASPM_POLICY_PATH@
    ||| exists|name: Seq<char>|
        is_policy(name) && (path == #[trigger] policy_file(name, "scaling_governor"@) || path
            == policy_file(name, "energy_performance_preference"@))
    ||| exists|card: Seq<char>|
        path == #[trigger] device_file(card, "power_dpm_force_performance_level"@)
}

/// All writes of a row go to the list.
pub open spec fn row_on_the_list(r: RowView) -> bool {
    forall|i: int|
        0 <= i < r.knobs.len() ==> (#[trigger] r.knobs[i] matches Knob::Write { path, value }
            ==> on_the_list(path))
}

proof fn lemma_only_policies(entries: Seq<PolicyView>, i: int)
    requires
        0 <= i < only_policies(entries).len(),
    ensures
        is_policy(only_policies(entries)[i].name),
    decreases entries.len(),
{
    if entries.len() > 0 {
        let rest = only_policies(entries.drop_last());
        if i < rest.len() {
            lemma_only_policies(entries.drop_last(), i);
            assert(only_policies(entries)[i] == rest[i]);
        }
    }
}

proof fn lemma_cpu_on_the_list(p: PowerProfile, entries: Seq<PolicyView>, i: int)
    requires
        0 <= i < cpu_plan(p, policies_of(entries)).len(),
    ensures
        row_on_the_list(cpu_plan(p, policies_of(entries))[i]),
{
    let policies = policies_of(entries);
    let at = order::order(by_name(entries), entries.len() as int);
    let sorted = Seq::new(entries.len(), |i: int| entries[at[i]]);
    let row = cpu_plan(p, policies)[i];
    assert forall|k: int| 0 <= k < row.knobs.len() implies (#[trigger] row.knobs[k] matches Knob::Write {
        path,
        value,
    } ==> on_the_list(path)) by {
        if policies.len() > 0 && epp_capable(policies[0]) {
            lemma_only_policies(sorted, k);
            assert(is_policy(policies[k].name));
            let a = policy_file(policies[k].name, "scaling_governor"@);
            let b = policy_file(policies[k].name, "energy_performance_preference"@);
        }
    }
}

/// The service writes nothing but its fixed list of settings, whatever was read.
pub proof fn only_listed_settings_are_written(
    p: PowerProfile,
    aspm_writable: bool,
    k: KnobReadings,
    i: int,
)
    requires
        0 <= i < apply_plan(p, aspm_writable, k).len(),
    ensures
        row_on_the_list(apply_plan(p, aspm_writable, k)[i]),
{
    let entries = policy_views(k.policies@);
    let cpu = cpu_plan(p, policies_of(entries));
    let gpus = gpu_plan(p, gpu::card_views(k.gpus.cards@), k.runtime@);
    let row = apply_plan(p, aspm_writable, k)[i];
    if i >= 1 && i < 1 + cpu.len() {
        lemma_cpu_on_the_list(p, entries, i - 1);
        assert(row == cpu[i - 1]);
    } else if i >= 2 + cpu.len() && i < 2 + cpu.len() + gpus.len() {
        let g = i - 2 - cpu.len();
        assert(row == gpus[g]);
        assert(row_on_the_list(gpus[g]));
    } else {
        assert(row_on_the_list(row));
    }
}

/// A discrete card that is suspended is never touched.
pub proof fn suspended_cards_are_left_alone(
    p: PowerProfile,
    c: CardView,
    status: Seq<char>,
)
    requires
        text::trimmed(status) == "suspended"@,
    ensures
        card_plan(p, c, false, Some(status)) == settled(
            "dpm:"@ + gpu::key_of(c.path),
            "skipped-suspended"@,
        ),
{
}

/// The only card of a machine is never touched.
pub proof fn single_cards_are_left_alone(
    p: PowerProfile,
    cards: Seq<CardView>,
    statuses: Seq<Option<String>>,
)
    requires
        cards.len() == 1,
    ensures
        gpu_plan(p, cards, statuses) == seq![settled("gpu"@, "skipped-ambiguous"@)],
        pin_plan(cards, true) == seq![settled("gpu"@, "skipped-ambiguous"@)],
        pin_plan(cards, false) == seq![settled("gpu"@, "skipped-ambiguous"@)],
{
}

/// A pin that was kept is found again.
pub proof fn kept_pins_are_found_again(awake: bool)
    ensures
        pin_of(Some(kept_pin(awake))) == awake,
{
    reveal_strlit("\n");
    reveal_strlit("on");
    reveal_strlit("auto");
    assert("on"@[0] != "auto"@[0]);
    text::a_word_is_found(pin_word(awake), "\n"@);
}

/// A profile that was kept is the one that is found again.
pub proof fn kept_profiles_are_found_again(p: PowerProfile)
    ensures
        kept_profile(Some(kept_text(p))) == p,
        kept_warning(Some(kept_text(p))) is None,
{
    reveal_strlit("\n");
    reveal_strlit("power-saver");
    reveal_strlit("balanced");
    reveal_strlit("performance");
    power::profile_words_roundtrip(p);
    text::a_word_is_found(p.word(), "\n"@);
}

} // verus!
