//! Power policy: base states, the policy map, `platform_profile` values,
//! battery-low hysteresis, and bookkeeping of the daemon's own writes.
//!
//! Nothing here reads a clock: points in time are nanoseconds on a monotonic clock
//! that the caller supplies.
use vstd::prelude::*;

use crate::number;
use crate::profiles;
use crate::text;

verus! {

/// How far above the threshold the battery must climb to leave the low state.
pub const BATTERY_LOW_EXIT_DELTA: u8 = 3;

/// The low threshold where the configuration gives none.
pub const DEFAULT_BATTERY_LOW_PCT: u8 = 15;

/// How long after any apply a `platform_profile` change counts as our own, in
/// nanoseconds.
pub const ADOPT_SUPPRESS: u64 = 5_000_000_000;

/// A power profile.
#[derive(Debug, Clone, Copy, PartialEq, Eq, Structural)]
pub enum PowerProfile {
    PowerSaver,
    Balanced,
    Performance,
}

/// The string was not one of `power-saver | balanced | performance`.
#[derive(Debug, Clone, Copy, PartialEq, Eq, Structural)]
pub struct ParsePowerProfileError;

impl ParsePowerProfileError {
    /// What to tell the user.
    pub fn message(&self) -> (r: String)
        ensures
            r@ == "expected one of power-saver, balanced, performance"@,
    {
        String::from_str("expected one of power-saver, balanced, performance")
    }
}

impl PowerProfile {
    pub const ALL: [PowerProfile; 3] = [
        PowerProfile::PowerSaver,
        PowerProfile::Balanced,
        PowerProfile::Performance,
    ];

    /// The name of a profile.
    pub open spec fn word(self) -> Seq<char> {
        match self {
            PowerProfile::PowerSaver => "power-saver"@,
            PowerProfile::Balanced => "balanced"@,
            PowerProfile::Performance => "performance"@,
        }
    }

    /// The profile of a given name.
    pub open spec fn of_word(s: Seq<char>) -> Option<PowerProfile> {
        if s == "power-saver"@ {
            Some(PowerProfile::PowerSaver)
        } else if s == "balanced"@ {
            Some(PowerProfile::Balanced)
        } else if s == "performance"@ {
            Some(PowerProfile::Performance)
        } else {
            None
        }
    }

    pub fn as_str(self) -> (r: &'static str)
        ensures
            r@ == self.word(),
    {
        match self {
            PowerProfile::PowerSaver => "power-saver",
            PowerProfile::Balanced => "balanced",
            PowerProfile::Performance => "performance",
        }
    }

    /// The profile of a given name.
    pub fn from_str(s: &str) -> (r: Result<PowerProfile, ParsePowerProfileError>)
        ensures
            r == (match PowerProfile::of_word(s@) {
                Some(p) => Ok::<PowerProfile, ParsePowerProfileError>(p),
                None => Err(ParsePowerProfileError),
            }),
    {
        if text::str_eq(s, "power-saver") {
            Ok(PowerProfile::PowerSaver)
        } else if text::str_eq(s, "balanced") {
            Ok(PowerProfile::Balanced)
        } else if text::str_eq(s, "performance") {
            Ok(PowerProfile::Performance)
        } else {
            Err(ParsePowerProfileError)
        }
    }
}

/// The `platform_profile` values that stand for a profile, most wanted first.
pub open spec fn chain_of(p: PowerProfile) -> Seq<Seq<char>> {
    match p {
        PowerProfile::PowerSaver => seq!["low-power"@, "quiet"@],
        PowerProfile::Balanced => seq!["balanced"@],
        PowerProfile::Performance => seq!["performance"@],
    }
}

/// The `platform_profile` fallback chain of a profile, to be validated against the
/// choices that the firmware offers. Any value of a chain also counts as our own
/// write: quiet-only firmware answers a request for power-saver with `quiet`.
pub fn platform_profile_chain(p: PowerProfile) -> (r: &'static [&'static str])
    ensures
        text::strs(r@) == chain_of(p),
{
    match p {
        PowerProfile::PowerSaver => {
            let r: &'static [&'static str] = &["low-power", "quiet"];
            assert(text::strs(r@) =~= chain_of(p));
            r
        },
        PowerProfile::Balanced => {
            let r: &'static [&'static str] = &["balanced"];
            assert(text::strs(r@) =~= chain_of(p));
            r
        },
        PowerProfile::Performance => {
            let r: &'static [&'static str] = &["performance"];
            assert(text::strs(r@) =~= chain_of(p));
            r
        },
    }
}

/// The profile that a `platform_profile` value stands for.
pub open spec fn profile_of_value(value: Option<Seq<char>>) -> PowerProfile {
    if value == Some("low-power"@) || value == Some("quiet"@) {
        PowerProfile::PowerSaver
    } else if value == Some("performance"@) {
        PowerProfile::Performance
    } else {
        PowerProfile::Balanced
    }
}

/// Maps a `platform_profile` value that somebody else wrote back to a profile.
pub fn profile_from_platform_value(value: Option<&str>) -> (r: PowerProfile)
    ensures
        r == profile_of_value(text::opt_str(value)),
{
    if text::opt_is(value, "low-power") || text::opt_is(value, "quiet") {
        PowerProfile::PowerSaver
    } else if text::opt_is(value, "performance") {
        PowerProfile::Performance
    } else {
        PowerProfile::Balanced
    }
}

/// The power situation of the machine.
#[derive(Debug, Clone, Copy, PartialEq, Eq, Structural)]
pub enum BaseState {
    DockedAc,
    Ac,
    Battery,
    BatteryLow,
}

impl BaseState {
    /// The name of a base state.
    pub open spec fn word(self) -> Seq<char> {
        match self {
            BaseState::DockedAc => "docked-ac"@,
            BaseState::Ac => "ac"@,
            BaseState::Battery => "battery"@,
            BaseState::BatteryLow => "battery-low"@,
        }
    }

    pub fn as_str(self) -> (r: &'static str)
        ensures
            r@ == self.word(),
    {
        match self {
            BaseState::DockedAc => "docked-ac",
            BaseState::Ac => "ac",
            BaseState::Battery => "battery",
            BaseState::BatteryLow => "battery-low",
        }
    }
}

/// The base state for given inputs.
pub open spec fn base_of(on_ac_settled: bool, ext_mon_count: u32, low_battery: bool) -> BaseState {
    match (on_ac_settled, ext_mon_count >= 1, low_battery) {
        (true, true, _) => BaseState::DockedAc,
        (true, false, _) => BaseState::Ac,
        (false, _, true) => BaseState::BatteryLow,
        (false, _, false) => BaseState::Battery,
    }
}

/// Derives the base state. The settled AC axis alone decides between the AC and
/// the battery side; a known low battery only tells the two battery states apart.
pub fn power_base_state(on_ac_settled: bool, ext_mon_count: u32, low_battery: bool) -> (r:
    BaseState)
    ensures
        r == base_of(on_ac_settled, ext_mon_count, low_battery),
{
    if on_ac_settled {
        if ext_mon_count >= 1 {
            BaseState::DockedAc
        } else {
            BaseState::Ac
        }
    } else if low_battery {
        BaseState::BatteryLow
    } else {
        BaseState::Battery
    }
}

/// Which side of the charger a base state is on.
#[derive(Debug, Clone, Copy, PartialEq, Eq, Structural)]
pub enum AcAxis {
    Ac,
    Battery,
}

/// The AC side of a base state.
pub open spec fn axis_of(base: BaseState) -> AcAxis {
    if base == BaseState::Ac || base == BaseState::DockedAc {
        AcAxis::Ac
    } else {
        AcAxis::Battery
    }
}

/// Which side of the charger a base state is on.
pub fn ac_axis(base: BaseState) -> (r: AcAxis)
    ensures
        r == axis_of(base),
{
    match base {
        BaseState::Ac | BaseState::DockedAc => AcAxis::Ac,
        BaseState::Battery | BaseState::BatteryLow => AcAxis::Battery,
    }
}

// ------------------------------------------------------------------- battery

/// A battery percentage as a sensor reports it: the whole percents, and whether
/// there is a fraction on top of them.
#[derive(Debug, Clone, Copy, PartialEq, Eq, Structural)]
pub enum Percent {
    Known { whole: i64, fraction: bool },
    /// The sensor reported something that is no number.
    NotANumber,
}

impl Percent {
    /// A whole number of percents.
    pub fn exactly(whole: i64) -> (r: Percent)
        ensures
            r == (Percent::Known { whole, fraction: false }),
    {
        Percent::Known { whole, fraction: false }
    }

    /// The percentage is a number no greater than `n`.
    pub open spec fn at_most(self, n: int) -> bool {
        match self {
            Percent::Known { whole, fraction } => whole < n || (whole == n && !fraction),
            Percent::NotANumber => false,
        }
    }

    /// The percentage is a number no smaller than `n`.
    pub open spec fn at_least(self, n: int) -> bool {
        match self {
            Percent::Known { whole, fraction } => whole >= n,
            Percent::NotANumber => false,
        }
    }

    /// Whether the percentage is a number no greater than `n`.
    pub fn is_at_most(self, n: u8) -> (r: bool)
        ensures
            r == self.at_most(n as int),
    {
        match self {
            Percent::Known { whole, fraction } => whole < n as i64 || (whole == n as i64
                && !fraction),
            Percent::NotANumber => false,
        }
    }

    /// Whether the percentage is a number no smaller than `n`.
    pub fn is_at_least(self, n: u8) -> (r: bool)
        ensures
            r == self.at_least(n as int),
    {
        match self {
            Percent::Known { whole, fraction: _ } => whole >= n as i64,
            Percent::NotANumber => false,
        }
    }
}

/// The low flag after a sample: set at or below the threshold, cleared
/// `BATTERY_LOW_EXIT_DELTA` above it, held in between.
pub open spec fn low_after(low: bool, pct: Percent, threshold: int) -> bool {
    if low {
        !pct.at_least(threshold + BATTERY_LOW_EXIT_DELTA)
    } else {
        pct.at_most(threshold)
    }
}

/// One step of the battery-low hysteresis.
pub fn battery_low_step(low: bool, pct: Percent, threshold: u8) -> (r: bool)
    requires
        threshold + BATTERY_LOW_EXIT_DELTA <= u8::MAX,
    ensures
        r == low_after(low, pct, threshold as int),
{
    if !low && pct.is_at_most(threshold) {
        true
    } else if low && pct.is_at_least(threshold + BATTERY_LOW_EXIT_DELTA) {
        false
    } else {
        low
    }
}

// -------------------------------------------------------------------- policy

/// The profile for each base state.
#[derive(Debug, Clone, Copy, PartialEq, Eq, Structural)]
pub struct PowerPolicy {
    pub docked_ac: PowerProfile,
    pub ac: PowerProfile,
    pub battery: PowerProfile,
    pub battery_low: PowerProfile,
}

/// The policy where the configuration gives none.
pub open spec fn default_policy() -> PowerPolicy {
    PowerPolicy {
        docked_ac: PowerProfile::Balanced,
        ac: PowerProfile::Balanced,
        battery: PowerProfile::PowerSaver,
        battery_low: PowerProfile::PowerSaver,
    }
}

impl Default for PowerPolicy {
    fn default() -> (r: Self)
        ensures
            r == default_policy(),
    {
        PowerPolicy {
            docked_ac: PowerProfile::Balanced,
            ac: PowerProfile::Balanced,
            battery: PowerProfile::PowerSaver,
            battery_low: PowerProfile::PowerSaver,
        }
    }
}

impl PowerPolicy {
    /// The profile that the policy has for a base state.
    pub open spec fn at(self, base: BaseState) -> PowerProfile {
        match base {
            BaseState::DockedAc => self.docked_ac,
            BaseState::Ac => self.ac,
            BaseState::Battery => self.battery,
            BaseState::BatteryLow => self.battery_low,
        }
    }

    /// The policy with another profile for one base state.
    pub open spec fn with(self, base: BaseState, p: PowerProfile) -> PowerPolicy {
        match base {
            BaseState::DockedAc => PowerPolicy { docked_ac: p, ..self },
            BaseState::Ac => PowerPolicy { ac: p, ..self },
            BaseState::Battery => PowerPolicy { battery: p, ..self },
            BaseState::BatteryLow => PowerPolicy { battery_low: p, ..self },
        }
    }

    /// The profile for a base state.
    pub fn for_base(&self, base: BaseState) -> (r: PowerProfile)
        ensures
            r == self.at(base),
    {
        match base {
            BaseState::DockedAc => self.docked_ac,
            BaseState::Ac => self.ac,
            BaseState::Battery => self.battery,
            BaseState::BatteryLow => self.battery_low,
        }
    }

    /// Gives a base state another profile.
    pub fn set(&mut self, base: BaseState, p: PowerProfile)
        ensures
            *final(self) == old(self).with(base, p),
    {
        match base {
            BaseState::DockedAc => self.docked_ac = p,
            BaseState::Ac => self.ac = p,
            BaseState::Battery => self.battery = p,
            BaseState::BatteryLow => self.battery_low = p,
        }
    }
}

/// Whether the machine has a lid. Absence is declared, never guessed.
#[derive(Debug, Clone, Copy, PartialEq, Eq, Structural)]
pub enum LidMode {
    Present,
    Absent,
}

impl LidMode {
    /// The word for a lid mode.
    pub open spec fn word(self) -> Seq<char> {
        match self {
            LidMode::Present => "present"@,
            LidMode::Absent => "absent"@,
        }
    }

    pub fn as_str(self) -> (r: &'static str)
        ensures
            r@ == self.word(),
    {
        match self {
            LidMode::Present => "present",
            LidMode::Absent => "absent",
        }
    }
}

/// The whole power configuration.
#[derive(Debug, Clone, Copy, PartialEq, Eq, Structural)]
pub struct PowerConf {
    pub policy: PowerPolicy,
    pub battery_low_pct: u8,
    pub lid: LidMode,
}

/// The configuration where there is no file.
pub open spec fn default_conf() -> PowerConf {
    PowerConf {
        policy: default_policy(),
        battery_low_pct: DEFAULT_BATTERY_LOW_PCT,
        lid: LidMode::Present,
    }
}

impl Default for PowerConf {
    fn default() -> (r: Self)
        ensures
            r == default_conf(),
    {
        PowerConf {
            policy: PowerPolicy::default(),
            battery_low_pct: DEFAULT_BATTERY_LOW_PCT,
            lid: LidMode::Present,
        }
    }
}

/// What has been read of the configuration so far, with the warnings.
#[verifier::ext_equal]
pub struct ConfView {
    pub conf: PowerConf,
    pub warnings: Seq<Seq<char>>,
}

/// Nothing read yet.
pub open spec fn blank_conf() -> ConfView {
    ConfView { conf: default_conf(), warnings: seq![] }
}

/// `c` with one more warning.
pub open spec fn conf_warned(c: ConfView, w: Seq<char>) -> ConfView {
    ConfView { warnings: c.warnings.push(w), ..c }
}

/// `n` kept between 1 and 50.
pub open spec fn clamped_pct(n: int) -> int {
    if n < 1 {
        1
    } else if n > 50 {
        50
    } else {
        n
    }
}

/// The base state that a configuration key speaks of.
pub open spec fn slot_of(key: Seq<char>) -> Option<BaseState> {
    if key == "docked-ac"@ {
        Some(BaseState::DockedAc)
    } else if key == "ac"@ {
        Some(BaseState::Ac)
    } else if key == "battery"@ {
        Some(BaseState::Battery)
    } else if key == "battery-low"@ {
        Some(BaseState::BatteryLow)
    } else {
        None
    }
}

/// The warning for a value that is no profile.
pub open spec fn bad_profile_warning(key: Seq<char>, val: Seq<char>, kept: PowerProfile) -> Seq<
    char,
> {
    key + " must be one of power-saver|balanced|performance, got "@ + text::debug_of(val)
        + " — using "@ + kept.word()
}

/// The warning for a value that is no lid mode.
pub open spec fn bad_lid_warning(val: Seq<char>, kept: LidMode) -> Seq<char> {
    "lid must be one of present|absent, got "@ + text::debug_of(val) + " — using "@ + kept.word()
}

/// What the directive `key = val` makes of the configuration.
pub open spec fn conf_directed(c: ConfView, key: Seq<char>, val: Seq<char>) -> ConfView {
    if key == "battery-low-percent"@ {
        match number::within(number::integer_of(val), i64::MIN as int, i64::MAX as int) {
            Some(n) => ConfView {
                conf: PowerConf { battery_low_pct: clamped_pct(n) as u8, ..c.conf },
                ..c
            },
            None => conf_warned(c, "bad battery-low-percent "@ + text::debug_of(val)),
        }
    } else if key == "lid"@ {
        if val == "present"@ {
            ConfView { conf: PowerConf { lid: LidMode::Present, ..c.conf }, ..c }
        } else if val == "absent"@ {
            ConfView { conf: PowerConf { lid: LidMode::Absent, ..c.conf }, ..c }
        } else {
            conf_warned(c, bad_lid_warning(val, c.conf.lid))
        }
    } else {
        match slot_of(key) {
            Some(base) => match PowerProfile::of_word(val) {
                Some(p) => ConfView {
                    conf: PowerConf { policy: c.conf.policy.with(base, p), ..c.conf },
                    ..c
                },
                None => conf_warned(c, bad_profile_warning(key, val, c.conf.policy.at(base))),
            },
            None => conf_warned(c, "unknown directive "@ + text::debug_of(key)),
        }
    }
}

/// What one line makes of the configuration: only `#@` lines count.
pub open spec fn conf_line(c: ConfView, line: Seq<char>) -> ConfView {
    if !text::has_prefix(line, "#@"@) {
        c
    } else {
        match profiles::directive_of(line, true) {
            None => conf_warned(c, "ignoring malformed directive: "@ + text::debug_of(line)),
            Some((key, val)) => conf_directed(c, key, val),
        }
    }
}

/// What the lines make of the configuration, one after another.
pub open spec fn conf_lines(c: ConfView, lines: Seq<Seq<char>>) -> ConfView
    decreases lines.len(),
{
    if lines.len() == 0 {
        c
    } else {
        conf_lines(conf_line(c, lines[0]), lines.skip(1))
    }
}

/// What the configuration text means.
pub open spec fn conf_of(body: Seq<char>) -> ConfView {
    conf_lines(blank_conf(), text::lines_of(body))
}

/// The base state that a configuration key speaks of.
fn slot(key: &str) -> (r: Option<BaseState>)
    ensures
        r == slot_of(key@),
{
    if text::str_eq(key, "docked-ac") {
        Some(BaseState::DockedAc)
    } else if text::str_eq(key, "ac") {
        Some(BaseState::Ac)
    } else if text::str_eq(key, "battery") {
        Some(BaseState::Battery)
    } else if text::str_eq(key, "battery-low") {
        Some(BaseState::BatteryLow)
    } else {
        None
    }
}

fn profile_warning(key: &str, val: &str, kept: PowerProfile) -> (r: String)
    ensures
        r@ == bad_profile_warning(key@, val@, kept),
{
    let mut out = String::from_str(key);
    out.append(" must be one of power-saver|balanced|performance, got ");
    out.append(text::debug_text(val).as_str());
    out.append(" — using ");
    out.append(kept.as_str());
    out
}

fn lid_warning(val: &str, kept: LidMode) -> (r: String)
    ensures
        r@ == bad_lid_warning(val@, kept),
{
    let mut out = String::from_str("lid must be one of present|absent, got ");
    out.append(text::debug_text(val).as_str());
    out.append(" — using ");
    out.append(kept.as_str());
    out
}

/// Takes one directive into the configuration.
fn direct_conf(conf: &mut PowerConf, warnings: &mut Vec<String>, key: &str, val: &str)
    ensures
        (ConfView { conf: *final(conf), warnings: text::strings(final(warnings)@) })
            == conf_directed(
            ConfView { conf: *old(conf), warnings: text::strings(old(warnings)@) },
            key@,
            val@,
        ),
{
    let ghost before = text::strings(warnings@);
    if text::str_eq(key, "battery-low-percent") {
        match number::parse_i64(val) {
            Some(n) => {
                conf.battery_low_pct = if n < 1 {
                    1
                } else if n > 50 {
                    50
                } else {
                    n as u8
                };
            },
            None => {
                let w = text::quoted("bad battery-low-percent ", val);
                warnings.push(w);
                assert(text::strings(warnings@) =~= before.push(w@));
            },
        }
    } else if text::str_eq(key, "lid") {
        if text::str_eq(val, "present") {
            conf.lid = LidMode::Present;
        } else if text::str_eq(val, "absent") {
            conf.lid = LidMode::Absent;
        } else {
            let w = lid_warning(val, conf.lid);
            warnings.push(w);
            assert(text::strings(warnings@) =~= before.push(w@));
        }
    } else {
        match slot(key) {
            Some(base) => {
                match PowerProfile::from_str(val) {
                    Ok(p) => {
                        conf.policy.set(base, p);
                    },
                    Err(_) => {
                        let w = profile_warning(key, val, conf.policy.for_base(base));
                        warnings.push(w);
                        assert(text::strings(warnings@) =~= before.push(w@));
                    },
                }
            },
            None => {
                let w = text::quoted("unknown directive ", key);
                warnings.push(w);
                assert(text::strings(warnings@) =~= before.push(w@));
            },
        }
    }
}

/// Parses the whole power configuration. Missing keys fall back to the defaults;
/// an invalid value warns and keeps what stood before.
pub fn parse_power_conf(text: &str) -> (r: (PowerConf, Vec<String>))
    ensures
        (ConfView { conf: r.0, warnings: crate::text::strings(r.1@) }) == conf_of(text@),
{
    let mut conf = PowerConf::default();
    let mut warnings: Vec<String> = Vec::new();
    let lines = crate::text::lines(text);
    let ghost all = crate::text::lines_of(text@);
    assert(all.skip(0) =~= all);
    assert(crate::text::strings(warnings@) =~= Seq::<Seq<char>>::empty());
    let mut i: usize = 0;
    while i < lines.len()
        invariant
            i <= lines@.len(),
            crate::text::strs(lines@) == all,
            conf_lines(
                ConfView { conf, warnings: crate::text::strings(warnings@) },
                all.skip(i as int),
            ) == conf_lines(blank_conf(), all),
        decreases lines@.len() - i,
    {
        let line = lines[i];
        proof {
            assert(all.skip(i as int)[0] == line@);
            assert(all.skip(i as int).skip(1) =~= all.skip(i + 1));
        }
        if crate::text::starts_with(line, "#@") {
            match profiles::parse_directive(line, true) {
                None => {
                    let ghost before = crate::text::strings(warnings@);
                    let w = crate::text::quoted("ignoring malformed directive: ", line);
                    warnings.push(w);
                    assert(crate::text::strings(warnings@) =~= before.push(w@));
                },
                Some((key, val)) => {
                    direct_conf(&mut conf, &mut warnings, key, val);
                },
            }
        }
        i += 1;
    }
    assert(all.skip(all.len() as int) =~= Seq::<Seq<char>>::empty());
    (conf, warnings)
}

/// Parses the policy and the low threshold out of the power configuration.
pub fn parse_power_policy(text: &str) -> (r: (PowerPolicy, u8, Vec<String>))
    ensures
        r.0 == conf_of(text@).conf.policy,
        r.1 == conf_of(text@).conf.battery_low_pct,
        crate::text::strings(r.2@) == conf_of(text@).warnings,
{
    let (conf, warnings) = parse_power_conf(text);
    (conf.policy, conf.battery_low_pct, warnings)
}

// --------------------------------------------------------------- self writes

/// Tracks which `platform_profile` values the daemon's own applies may produce.
///
/// An entry is registered before the apply call, so that a poller cannot observe
/// the change ahead of the bookkeeping. It holds the time at which it lapses and
/// the full fallback chain of the profile.
#[derive(Debug)]
pub struct SelfWriteTracker {
    pub entries: Vec<(u64, &'static [&'static str])>,
    pub last_apply: Option<u64>,
}

impl Default for SelfWriteTracker {
    fn default() -> (r: Self)
        ensures
            r.entries@ == Seq::<(u64, &'static [&'static str])>::empty(),
            r.last_apply is None,
    {
        SelfWriteTracker { entries: Vec::new(), last_apply: None }
    }
}

/// What an entry stands for.
pub struct EntryView {
    /// When the entry lapses.
    pub expiry: int,
    /// The values that it accounts for.
    pub values: Seq<Seq<char>>,
}

/// What the tracker remembers.
#[verifier::ext_equal]
pub struct TrackerView {
    pub entries: Seq<EntryView>,
    pub last_apply: Option<int>,
}

/// What each entry stands for.
pub open spec fn entry_views(s: Seq<(u64, &'static [&'static str])>) -> Seq<EntryView> {
    Seq::new(
        s.len(),
        |i: int| EntryView { expiry: s[i].0 as int, values: text::strs(s[i].1@) },
    )
}

impl View for SelfWriteTracker {
    type V = TrackerView;

    open spec fn view(&self) -> TrackerView {
        TrackerView {
            entries: entry_views(self.entries@),
            last_apply: number::opt_u64(self.last_apply),
        }
    }
}

/// The entries that have not lapsed at `now`, in order.
pub open spec fn live_entries(s: Seq<EntryView>, now: int) -> Seq<EntryView>
    decreases s.len(),
{
    if s.len() == 0 {
        seq![]
    } else if s.last().expiry > now {
        live_entries(s.drop_last(), now).push(s.last())
    } else {
        live_entries(s.drop_last(), now)
    }
}

/// The position of the first entry that accounts for `value`, or the length.
pub open spec fn owner_of(s: Seq<EntryView>, value: Seq<char>) -> nat
    decreases s.len(),
{
    if s.len() == 0 || s[0].values.contains(value) {
        0
    } else {
        1 + owner_of(s.skip(1), value)
    }
}

proof fn lemma_owner(s: Seq<EntryView>, value: Seq<char>, k: int)
    requires
        0 <= k <= s.len(),
        forall|i: int| 0 <= i < k ==> !(#[trigger] s[i]).values.contains(value),
        k == s.len() || s[k].values.contains(value),
    ensures
        owner_of(s, value) == k,
    decreases k,
{
    if k > 0 {
        let t = s.skip(1);
        assert forall|i: int| 0 <= i < k - 1 implies !(#[trigger] t[i]).values.contains(value) by {
            assert(t[i] == s[i + 1]);
        }
        assert(!s[0].values.contains(value));
        lemma_owner(t, value, k - 1);
    }
}

/// The tracker after an apply of `profile` at `now`.
pub open spec fn registered(t: TrackerView, now: int, profile: PowerProfile) -> TrackerView {
    TrackerView {
        entries: t.entries.push(
            EntryView { expiry: now + ADOPT_SUPPRESS, values: chain_of(profile) },
        ),
        last_apply: Some(now),
    }
}

/// Inside the suppression window of the last apply. A clock that seems to have
/// gone backwards counts as no time at all.
pub open spec fn suppressed(t: TrackerView, now: int) -> bool {
    match t.last_apply {
        Some(at) => now - at < ADOPT_SUPPRESS,
        None => false,
    }
}

/// Whether a change to `value` at `now` is our own, and the tracker afterwards:
/// lapsed entries are dropped, and an entry that accounts for the value is used up.
pub open spec fn self_write_of(t: TrackerView, now: int, value: Option<Seq<char>>) -> (
    bool,
    TrackerView,
) {
    let live = live_entries(t.entries, now);
    match value {
        Some(v) => {
            let k = owner_of(live, v);
            if k < live.len() {
                (true, TrackerView { entries: live.remove(k as int), ..t })
            } else {
                (suppressed(t, now), TrackerView { entries: live, ..t })
            }
        },
        None => (suppressed(t, now), TrackerView { entries: live, ..t }),
    }
}

impl SelfWriteTracker {
    /// Notes an apply of `profile` that is about to be made.
    pub fn register(&mut self, now: u64, profile: PowerProfile)
        requires
            now + ADOPT_SUPPRESS <= u64::MAX,
        ensures
            final(self)@ == registered(old(self)@, now as int, profile),
    {
        self.entries.push((now + ADOPT_SUPPRESS, platform_profile_chain(profile)));
        self.last_apply = Some(now);
        assert(self@.entries =~= registered(old(self)@, now as int, profile).entries);
    }

    /// Drops the entries that have lapsed.
    fn prune(&mut self, now: u64)
        ensures
            final(self)@.entries == live_entries(old(self)@.entries, now as int),
            final(self).last_apply == old(self).last_apply,
    {
        let mut kept: Vec<(u64, &'static [&'static str])> = Vec::new();
        let ghost all = entry_views(self.entries@);
        let mut i: usize = 0;
        assert(entry_views(kept@) =~= live_entries(all.take(0), now as int));
        while i < self.entries.len()
            invariant
                i <= self.entries@.len(),
                all == entry_views(self.entries@),
                entry_views(kept@) == live_entries(all.take(i as int), now as int),
            decreases self.entries@.len() - i,
        {
            let ghost before = kept@;
            let e = self.entries[i];
            proof {
                let next = all.take(i + 1);
                assert(next.drop_last() =~= all.take(i as int));
                assert(next.last() == all[i as int]);
            }
            if e.0 > now {
                kept.push(e);
                assert(entry_views(kept@) =~= entry_views(before).push(all[i as int]));
            }
            i += 1;
        }
        assert(all.take(all.len() as int) =~= all);
        self.entries = kept;
    }

    /// Whether a `platform_profile` change is one of our own in-flight applies,
    /// whose entry is then used up, or falls into the suppression window.
    pub fn is_self_write(&mut self, now: u64, value: Option<&str>) -> (r: bool)
        ensures
            (r, final(self)@) == self_write_of(old(self)@, now as int, text::opt_str(value)),
    {
        self.prune(now);
        let ghost live = self@.entries;
        if let Some(v) = value {
            let mut i: usize = 0;
            while i < self.entries.len()
                invariant
                    i <= self.entries@.len(),
                    live == self@.entries,
                    live == live_entries(old(self)@.entries, now as int),
                    self.last_apply == old(self).last_apply,
                    text::opt_str(value) == Some(v@),
                    forall|j: int| 0 <= j < i ==> !(#[trigger] live[j]).values.contains(v@),
                decreases self.entries@.len() - i,
            {
                if text::str_in(v, self.entries[i].1) {
                    proof {
                        lemma_owner(live, v@, i as int);
                    }
                    let gone = self.entries.remove(i);
                    assert(self@.entries =~= live.remove(i as int));
                    return true;
                }
                assert(!live[i as int].values.contains(v@));
                i += 1;
            }
            proof {
                lemma_owner(live, v@, live.len() as int);
            }
        }
        match self.last_apply {
            Some(at) => now < at || now - at < ADOPT_SUPPRESS,
            None => false,
        }
    }
}

// ---------------------------------------------------------------------- laws

/// Every value in the chain of a profile maps back to that profile.
pub proof fn chain_values_map_back(p: PowerProfile, i: int)
    requires
        0 <= i < chain_of(p).len(),
    ensures
        profile_of_value(Some(chain_of(p)[i])) == p,
{
    reveal_strlit("low-power");
    reveal_strlit("quiet");
    reveal_strlit("balanced");
    reveal_strlit("performance");
    assert("balanced"@[0] != "low-power"@[0]);
    assert("balanced"@[0] != "quiet"@[0]);
    assert("balanced"@[0] != "performance"@[0]);
    assert("performance"@[0] != "low-power"@[0]);
    assert("performance"@[0] != "quiet"@[0]);
}

/// The name of a profile stands for that profile.
pub proof fn profile_words_roundtrip(p: PowerProfile)
    ensures
        PowerProfile::of_word(p.word()) == Some(p),
{
    reveal_strlit("power-saver");
    reveal_strlit("balanced");
    reveal_strlit("performance");
    assert("power-saver"@[1] != "performance"@[1]);
    assert("balanced"@[0] != "performance"@[0]);
    assert("balanced"@[0] != "power-saver"@[0]);
}

/// Between the threshold and the exit the low flag is held; a sample at or below
/// the threshold always leaves it set, and one at or above the exit always clear.
pub proof fn hysteresis_holds(low: bool, pct: Percent, threshold: int)
    ensures
        !pct.at_most(threshold) && !pct.at_least(threshold + BATTERY_LOW_EXIT_DELTA) ==> low_after(
            low,
            pct,
            threshold,
        ) == low,
        pct.at_most(threshold) ==> low_after(low, pct, threshold),
        pct.at_least(threshold + BATTERY_LOW_EXIT_DELTA) ==> !low_after(low, pct, threshold),
        low_after(low_after(low, pct, threshold), pct, threshold) == low_after(low, pct, threshold),
{
}

/// The AC axis follows the settled charger alone.
pub proof fn axis_follows_the_charger(on_ac_settled: bool, ext_mon_count: u32, low_battery: bool)
    ensures
        axis_of(base_of(on_ac_settled, ext_mon_count, low_battery)) == AcAxis::Ac
            <==> on_ac_settled,
{
}

/// Whatever the configuration says, the low threshold lies between 1 and 50.
pub proof fn threshold_is_bounded(c: ConfView, lines: Seq<Seq<char>>)
    requires
        1 <= c.conf.battery_low_pct <= 50,
    ensures
        1 <= conf_lines(c, lines).conf.battery_low_pct <= 50,
    decreases lines.len(),
{
    if lines.len() > 0 {
        threshold_is_bounded(conf_line(c, lines[0]), lines.skip(1));
    }
}

/// A configuration without directives is the default one, without warnings.
pub proof fn no_directives_mean_defaults(c: ConfView, lines: Seq<Seq<char>>)
    requires
        forall|i: int| 0 <= i < lines.len() ==> !text::has_prefix(#[trigger] lines[i], "#@"@),
    ensures
        conf_lines(c, lines) == c,
    decreases lines.len(),
{
    if lines.len() > 0 {
        assert(!text::has_prefix(lines[0], "#@"@));
        let rest = lines.skip(1);
        assert forall|i: int| 0 <= i < rest.len() implies !text::has_prefix(
            #[trigger] rest[i],
            "#@"@,
        ) by {
            assert(rest[i] == lines[i + 1]);
        }
        no_directives_mean_defaults(c, rest);
    }
}

/// Right after an apply, and until the window closes, every change counts as our
/// own, whatever its value.
pub proof fn applies_suppress_adoption(
    t: TrackerView,
    at: int,
    profile: PowerProfile,
    now: int,
    value: Option<Seq<char>>,
)
    requires
        at <= now < at + ADOPT_SUPPRESS,
    ensures
        self_write_of(registered(t, at, profile), now, value).0,
{
}

/// Without any apply, every change is somebody else's.
pub proof fn no_apply_means_external(now: int, value: Option<Seq<char>>)
    ensures
        !self_write_of(TrackerView { entries: seq![], last_apply: None }, now, value).0,
{
}

/// Live entries are those of the tracker that have not lapsed.
pub proof fn live_entries_have_not_lapsed(s: Seq<EntryView>, now: int)
    ensures
        forall|i: int|
            0 <= i < live_entries(s, now).len() ==> (#[trigger] live_entries(s, now)[i]).expiry
                > now,
        (forall|i: int| 0 <= i < s.len() ==> (#[trigger] s[i]).expiry > now) ==> live_entries(
            s,
            now,
        ) == s,
    decreases s.len(),
{
    if s.len() > 0 {
        let init = s.drop_last();
        live_entries_have_not_lapsed(init, now);
        let live = live_entries(s, now);
        assert forall|i: int| 0 <= i < live.len() implies (#[trigger] live[i]).expiry > now by {
            if i < live_entries(init, now).len() {
                assert(live[i] == live_entries(init, now)[i]);
            }
        }
        if forall|i: int| 0 <= i < s.len() ==> (#[trigger] s[i]).expiry > now {
            assert forall|i: int| 0 <= i < init.len() implies (#[trigger] init[i]).expiry > now by {
                assert(init[i] == s[i]);
            }
            assert(s[s.len() - 1].expiry > now);
            assert(init.push(s.last()) =~= s);
        }
    }
}

/// A change that falls outside every window and every live entry is somebody
/// else's, and a lapsed entry never accounts for one.
pub proof fn external_outside_the_window(t: TrackerView, now: int, value: Option<Seq<char>>)
    requires
        forall|i: int| 0 <= i < t.entries.len() ==> (#[trigger] t.entries[i]).expiry <= now,
        t.last_apply matches Some(at) ==> now - at >= ADOPT_SUPPRESS,
    ensures
        self_write_of(t, now, value).0 == false,
        self_write_of(t, now, value).1.entries.len() == 0,
{
    lemma_all_lapsed(t.entries, now);
}

proof fn lemma_all_lapsed(s: Seq<EntryView>, now: int)
    requires
        forall|i: int| 0 <= i < s.len() ==> (#[trigger] s[i]).expiry <= now,
    ensures
        live_entries(s, now).len() == 0,
    decreases s.len(),
{
    if s.len() > 0 {
        let init = s.drop_last();
        assert forall|i: int| 0 <= i < init.len() implies (#[trigger] init[i]).expiry <= now by {
            assert(init[i] == s[i]);
        }
        assert(s[s.len() - 1].expiry <= now);
        lemma_all_lapsed(init, now);
    }
}

} // verus!
