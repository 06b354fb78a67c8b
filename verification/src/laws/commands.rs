//! What the commands and the power service answer, and what the daemon runs.
use vstd::prelude::*;

use crate::effectors;
use crate::effectors::{Cmd, Topic};
use crate::gpu;
use crate::gpu::CardView;
use crate::gpu_cli;
use crate::gpu_state;
use crate::laws::texts;
use crate::number;
use crate::order;
use crate::paths;
use crate::power::{PowerPolicy, PowerProfile};
use crate::power_cli;
use crate::power_cli::{PowerAction, SetAction};
use crate::powerd::{Power1, Turn};
use crate::sleep_hook;
use crate::sleep_hook::{HookDevice, Rebind, Role};
use crate::suspend;
use crate::suspend::SuspendVerb;
use crate::text;

verus! {

// -------------------------------------------------------------------------- effects

/// The panel is turned on by a reload and off by its own rule, each only where it is not
/// so already.
pub proof fn the_panel_is_switched_where_it_differs()
    ensures
        ({
            let on = effectors::plan_of(Cmd::SetEdp { on: true }, Some(true));
            let off = effectors::plan_of(Cmd::SetEdp { on: false }, Some(false));
            &&& on is Some && on->0.program == "hyprctl"@ && on->0.args == seq!["reload"@]
            &&& off is Some && off->0.program == "hyprctl"@ && off->0.args == seq![
                "keyword"@,
                "monitor"@,
                "eDP-2"@ + ",disable"@,
            ]
            &&& effectors::plan_of(Cmd::SetEdp { on: true }, Some(false)) is None
            &&& effectors::plan_of(Cmd::SetEdp { on: false }, Some(true)) is None
            &&& effectors::plan_of(Cmd::SetEdp { on: true }, None) is None
            &&& effectors::plan_of(Cmd::SetEdp { on: false }, None) is None
        }),
{
}

/// What is run for every other command, whatever the panel does.
pub proof fn commands_run_their_programs(edp: Option<bool>, hook: Seq<char>, body: Seq<char>)
    ensures
        ({
            let reload = effectors::plan_of(Cmd::Reload, edp);
            let light = effectors::plan_of(Cmd::DpmsOn, edp);
            let pause = effectors::plan_of(Cmd::PauseMedia, edp);
            let run = effectors::plan_of(Cmd::RunHook(hook), edp);
            &&& reload is Some && reload->0.program == "hyprctl"@ && reload->0.args == seq![
                "reload"@,
            ]
            &&& light is Some && light->0.program == "hyprctl"@ && light->0.args == seq![
                "dispatch"@,
                "dpms"@,
                "on"@,
            ]
            &&& pause is Some && pause->0.program == "playerctl"@ && pause->0.args == seq![
                "--all-players"@,
                "pause"@,
            ]
            &&& run is Some && run->0.program == "bash"@ && run->0.args == seq!["-lc"@, hook]
            &&& effectors::plan_of(Cmd::RehomeWorkspaces, edp) is None
        }),
        ({
            let power = effectors::plan_of(Cmd::Notify { topic: Topic::Power, body }, edp);
            let drift = effectors::plan_of(Cmd::Notify { topic: Topic::Gpu, body }, edp);
            &&& power is Some && power->0.program == "notify-send"@ && power->0.args == seq![
                "-a"@,
                "hyprstate"@,
                "-h"@,
                "string:x-canonical-private-synchronous:"@ + "hyprstate-power"@,
                "Power profile"@,
                body,
            ]
            &&& drift is Some && drift->0.program == "notify-send"@ && drift->0.args == seq![
                "-a"@,
                "hyprstate"@,
                "-h"@,
                "string:x-canonical-private-synchronous:"@ + "hyprstate-gpu"@,
                "GPU selection drift"@,
                body,
            ]
        }),
{
}

/// Each stranded workspace is moved to the monitor, in order; without a monitor none is.
pub proof fn each_workspace_is_moved(ids: Seq<int>, monitor: Seq<char>, i: int)
    requires
        0 <= i < ids.len(),
    ensures
        ({
            let moves = effectors::rehoming(ids, Some(monitor));
            &&& moves.len() == ids.len()
            &&& moves[i].program == "hyprctl"@
            &&& moves[i].args == seq![
                "dispatch"@,
                "moveworkspacetomonitor"@,
                number::signed_decimal(ids[i]) + " "@ + monitor,
            ]
        }),
        effectors::rehoming(ids, None).len() == 0,
{
}

// ------------------------------------------------------------------- the gpu command

/// A selection stands with all its devices or not at all; one that fell says why.
pub proof fn selections_stand_or_fall_whole(
    devices: Seq<Seq<char>>,
    reason: Seq<char>,
    exist: Seq<bool>,
)
    requires
        exist.len() == devices.len(),
    ensures
        (forall|i: int| 0 <= i < exist.len() ==> #[trigger] exist[i]) ==> gpu_cli::validated(
            Some(devices),
            reason,
            exist,
        ) == (Some(devices), reason),
        (exists|i: int| 0 <= i < exist.len() && !#[trigger] exist[i]) ==> gpu_cli::validated(
            Some(devices),
            reason,
            exist,
        ) == (None::<Seq<Seq<char>>>, "validation-failed"@),
        gpu_cli::validated(None, reason, exist) == (None::<Seq<Seq<char>>>, reason),
{
}

/// The card that renders is that of the first device; an output on it is fed directly, one
/// on another card through a copy.
pub proof fn outputs_are_fed_by_the_rendering_card(
    dir: Seq<char>,
    card: Seq<char>,
    rest: Seq<Seq<char>>,
    other: Seq<char>,
)
    requires
        !card.contains('/'),
        other != card,
    ensures
        gpu_cli::primary_of(Some(seq![dir + seq!['/'] + card] + rest)) == Some(card),
        gpu_cli::primary_of(Some(Seq::empty())) is None,
        gpu_cli::primary_of(None) is None,
        gpu_cli::route_of(card, Some(card)) == "render-local (no copy)"@,
        gpu_cli::route_of(other, Some(card)) == "COPY PATH "@ + other + "->"@ + card,
        gpu_cli::route_of(card, None) == "render GPU unknown"@,
{
    texts::the_last_piece_is_found(dir, card, '/');
    assert((seq![dir + seq!['/'] + card] + rest)[0] == dir + seq!['/'] + card);
}

/// A session that runs on what a selection would give is in sync; one that runs on
/// something else is told what a login would give; one without a list of its own, or that
/// a selection would leave without one, is nobody's.
pub proof fn sessions_are_held_against_the_selection(
    actual: Seq<Seq<char>>,
    desired: Seq<Seq<char>>,
)
    requires
        actual.len() > 0,
    ensures
        gpu_cli::verdict_of(Some(actual), Some(actual)) == "in sync"@,
        actual != desired ==> gpu_cli::verdict_of(Some(actual), Some(desired))
            == "MISMATCH (relog to apply: "@ + text::joined(desired, ":"@) + ")"@,
        gpu_cli::verdict_of(Some(actual), None) == "unmanaged"@,
        gpu_cli::verdict_of(Some(Seq::empty()), Some(desired)) == "unmanaged"@,
        gpu_cli::verdict_of(None, Some(desired)) == "unmanaged"@,
        gpu_cli::shown_list(actual) == text::joined(actual, ":"@),
        gpu_cli::shown_list(Seq::empty()) == "(none)"@,
{
}

/// The record of a selection has its devices, the first of them as the primary one, the
/// devices that it leaves out, and an entry for every card.
pub proof fn selections_are_recorded(
    mode: Seq<char>,
    reason: Seq<char>,
    devices: Seq<Seq<char>>,
    cards: Seq<CardView>,
    i: int,
)
    requires
        0 <= i < cards.len(),
        devices.len() > 0,
    ensures
        ({
            let s = gpu_state::state_of(mode, reason, Some(devices), cards);
            &&& s.version == 1
            &&& s.mode == mode
            &&& s.reason == reason
            &&& s.primary == Some(devices[0])
            &&& s.devices == devices
            &&& s.omitted.contains(gpu::devnode_of(cards[i])) <==> !devices.contains(
                gpu::devnode_of(cards[i]),
            )
            &&& s.snapshot.len() == cards.len()
            &&& s.snapshot[i].boot_vga == cards[i].boot_vga
            &&& s.snapshot[i].vram == cards[i].vram
            &&& s.snapshot[i].external == cards[i].external
            &&& s.snapshot[i].edp == cards[i].edp
            &&& cards.len() >= 2 && gpu::is_integrated(cards, i) ==> s.snapshot[i].kind
                == "integrated"@
            &&& cards.len() < 2 || !gpu::is_integrated(cards, i) ==> s.snapshot[i].kind
                == "discrete"@
        }),
        ({
            let none = gpu_state::state_of(mode, reason, None, cards);
            &&& none.primary is None
            &&& none.devices.len() == 0
            &&& none.omitted.contains(gpu::devnode_of(cards[i]))
        }),
{
    lemma_left_out(cards, Some(devices), i);
    lemma_left_out(cards, None, i);
    lemma_left_out_are_not_listed(cards, devices);
}

proof fn lemma_left_out(cards: Seq<CardView>, devices: Option<Seq<Seq<char>>>, i: int)
    requires
        0 <= i < cards.len(),
    ensures
        !(devices is Some && devices->0.contains(gpu::devnode_of(cards[i])))
            ==> gpu_state::left_out(cards, devices).contains(gpu::devnode_of(cards[i])),
    decreases cards.len(),
{
    let init = cards.drop_last();
    let rest = gpu_state::left_out(init, devices);
    let node = gpu::devnode_of(cards[i]);
    let last = gpu::devnode_of(cards.last());
    if i < init.len() {
        lemma_left_out(init, devices, i);
        assert(init[i] == cards[i]);
        if rest.contains(node) {
            let k = choose|k: int| 0 <= k < rest.len() && rest[k] == node;
            assert(rest.push(last)[k] == node);
        }
    } else {
        assert(rest.push(last)[rest.len() as int] == last);
    }
}

proof fn lemma_left_out_are_not_listed(cards: Seq<CardView>, devices: Seq<Seq<char>>)
    ensures
        forall|x: Seq<char>|
            gpu_state::left_out(cards, Some(devices)).contains(x) ==> !#[trigger] devices.contains(
                x,
            ),
    decreases cards.len(),
{
    if cards.len() > 0 {
        lemma_left_out_are_not_listed(cards.drop_last(), devices);
        let rest = gpu_state::left_out(cards.drop_last(), Some(devices));
        let last = gpu::devnode_of(cards.last());
        let all = gpu_state::left_out(cards, Some(devices));
        assert forall|x: Seq<char>| all.contains(x) implies !#[trigger] devices.contains(x) by {
            let k = choose|k: int| 0 <= k < all.len() && all[k] == x;
            if k < rest.len() {
                assert(rest[k] == x);
                assert(rest.contains(x));
            }
        }
    }
}

// ----------------------------------------------------------------- the power command

/// The words of the command, and that it has no others.
pub proof fn power_actions_have_their_words(word: Seq<char>)
    ensures
        power_cli::action_of("set"@) == Some(PowerAction::SetTo),
        power_cli::action_of("cycle"@) == Some(PowerAction::Cycle),
        power_cli::action_of("get"@) == Some(PowerAction::Get),
        power_cli::action_of("status"@) == Some(PowerAction::Status),
        word != "set"@ && word != "cycle"@ && word != "get"@ && word != "status"@
            ==> power_cli::action_of(word) is None,
{
    reveal_strlit("set");
    reveal_strlit("cycle");
    reveal_strlit("get");
    reveal_strlit("status");
    assert("set"@[0] != "get"@[0]);
    assert("status"@.len() == 6 && "set"@.len() == 3 && "get"@.len() == 3 && "cycle"@.len() == 5);
}

/// Setting a profile writes its name; `auto` removes what was written; anything else is
/// refused, and so is nothing at all. A refusal ends with 2, a file that could not be
/// written with 1.
pub proof fn overrides_are_set(p: PowerProfile, other: Seq<char>, done: bool)
    requires
        other != "auto"@,
        other != "power-saver"@,
        other != "balanced"@,
        other != "performance"@,
    ensures
        ({
            let set = power_cli::setting(Some(p.word()));
            &&& set matches SetAction::Write { content, said } && content == p.word() + "\n"@
                && said == "override: "@ + p.word()
                + " (clears when AC state changes; `hyprstate power set auto` to clear now)"@
            &&& set.ending(true) == 0
            &&& set.ending(false) == 1
        }),
        power_cli::setting(Some("auto"@)) is Clear,
        power_cli::setting(Some("auto"@)).ending(done) == 0,
        power_cli::setting(Some(other)) is Refuse,
        power_cli::setting(Some(other)).ending(done) == 2,
        power_cli::setting(None) is Refuse,
{
    reveal_strlit("auto");
    reveal_strlit("power-saver");
    reveal_strlit("balanced");
    reveal_strlit("performance");
    crate::power::profile_words_roundtrip(p);
    assert("auto"@.len() != p.word().len());
}

/// The override that a file's word stands for is the profile of that name, or none.
pub proof fn override_words_name_profiles(other: Seq<char>)
    requires
        other != "power-saver"@,
        other != "balanced"@,
        other != "performance"@,
    ensures
        power_cli::override_in(Some("power-saver"@)) == Some(PowerProfile::PowerSaver),
        power_cli::override_in(Some("balanced"@)) == Some(PowerProfile::Balanced),
        power_cli::override_in(Some("performance"@)) == Some(PowerProfile::Performance),
        power_cli::override_in(Some(other)) is None,
        power_cli::override_in(None) is None,
{
    crate::power::profile_words_roundtrip(PowerProfile::PowerSaver);
    crate::power::profile_words_roundtrip(PowerProfile::Balanced);
    crate::power::profile_words_roundtrip(PowerProfile::Performance);
}

/// The policy is printed slot by slot, each with its own profile.
pub proof fn policies_are_printed_slot_by_slot(p: PowerPolicy)
    ensures
        power_cli::policy_text(p) == "{'docked-ac': '"@ + p.docked_ac.word() + "', 'ac': '"@
            + p.ac.word() + "', 'battery': '"@ + p.battery.word() + "', 'battery-low': '"@
            + p.battery_low.word() + "'}"@,
{
}

/// The status bar shows the profile in force, tells an override from the policy, and shows
/// that the service does not answer.
pub proof fn the_bar_shows_the_profile(other: Seq<char>, overridden: bool)
    requires
        other != "power-saver"@,
        other != "balanced"@,
        other != "performance"@,
    ensures
        power_cli::icon_of("power-saver"@) == "\u{f0fb6}"@,
        power_cli::icon_of("balanced"@) == "\u{f0fb5}"@,
        power_cli::icon_of("performance"@) == "\u{f04c5}"@,
        power_cli::icon_of(other) == other,
        power_cli::mode_word(true) == "override"@,
        power_cli::mode_word(false) == "auto"@,
        power_cli::bar_of(Some(other), overridden) == power_cli::bar_object(
            (if overridden {
                "override"@
            } else {
                "auto"@
            }) + " "@ + other,
            other,
            "power: "@ + other + " ("@ + (if overridden {
                "override"@
            } else {
                "auto"@
            }) + ")"@,
        ),
        power_cli::bar_of(None, overridden) == power_cli::bar_object(
            "unavailable"@,
            "\u{26a1}?"@,
            "powerd unavailable"@,
        ),
{
    crate::power::profile_words_roundtrip(PowerProfile::PowerSaver);
    crate::power::profile_words_roundtrip(PowerProfile::Balanced);
    crate::power::profile_words_roundtrip(PowerProfile::Performance);
    reveal_strlit("power-saver");
    reveal_strlit("balanced");
    reveal_strlit("performance");
    assert("balanced"@[0] != "power-saver"@[0]);
    assert("balanced"@[0] != "performance"@[0]);
    assert("power-saver"@[1] != "performance"@[1]);
}

// ------------------------------------------------------------------ the power service

/// A call whose profile was not asked for last is answered with the one that was; the last
/// is carried out; where nothing is on record, nothing is.
pub proof fn calls_are_carried_out_or_superseded(s: Power1, p: PowerProfile, q: PowerProfile)
    ensures
        s.asked(p).turn_of(p) == Turn::Apply,
        p != q ==> s.asked(p).turn_of(q) == Turn::SupersededBy(p),
        s.latest is None ==> s.turn_of(p) == Turn::Unknown,
        s.asked(p).active == s.active && s.asked(p).aspm_writable == s.aspm_writable,
        s.asked(p).latest == Some(p),
        Turn::Apply.note() is None,
        Turn::SupersededBy(p).note() == Some("superseded-by:"@ + p.word()),
        Turn::Unknown.note() == Some("superseded-by:?"@),
{
}

// -------------------------------------------------------------------- the sleep hook

/// The phases that the hook heeds.
pub proof fn phases_are_told_apart(action: Seq<char>)
    ensures
        sleep_hook::phase_label("pre"@) == Some("PRE-SUSPEND"@),
        sleep_hook::phase_label("post"@) == Some("POST-RESUME"@),
        action != "pre"@ && action != "post"@ ==> sleep_hook::phase_label(action) is None,
{
    reveal_strlit("pre");
    reveal_strlit("post");
    assert("pre"@.len() == 3 && "post"@.len() == 4);
}

/// What a device's wake setting is turned on for: root hubs by their name, hubs by their
/// product, input devices by their makers' numbers; and nothing without such a setting.
pub proof fn roles_go_by_name_and_product(d: HookDevice, product: Seq<char>)
    ensures
        !d.wakes ==> !d.has(Role::RootHub) && !d.has(Role::Hub) && !d.has(Role::Input),
        d.wakes ==> d.has(Role::RootHub) == text::has_prefix(d.name@, "usb"@),
        d.wakes && d.product is Some ==> d.has(Role::Hub) == text::has_part(d.product->0@, "Hub"@),
        d.product is None ==> !d.has(Role::Hub),
        d.vendor_id is None || d.product_id is None ==> !d.has(Role::Input),
{
}

/// The devices of a role are those that have it, by their positions.
pub proof fn every_device_of_a_role_is_found(devices: Seq<HookDevice>, role: Role, i: int)
    requires
        0 <= i < devices.len(),
    ensures
        sleep_hook::having(devices, role).contains(i) <==> devices[i].has(role),
    decreases devices.len(),
{
    let init = devices.drop_last();
    let rest = sleep_hook::having(init, role);
    let all = sleep_hook::having(devices, role);
    lemma_having_bounds(init, role);
    if i < init.len() {
        every_device_of_a_role_is_found(init, role, i);
        assert(init[i] == devices[i]);
        if rest.contains(i) {
            let k = choose|k: int| 0 <= k < rest.len() && rest[k] == i;
            assert(all[k] == i);
        }
        if all.contains(i) {
            let k = choose|k: int| 0 <= k < all.len() && all[k] == i;
            if k < rest.len() {
                assert(rest[k] == i);
            }
        }
    } else {
        assert(devices.last() == devices[i]);
        if devices[i].has(role) {
            assert(all[rest.len() as int] == i);
        } else if all.contains(i) {
            let k = choose|k: int| 0 <= k < rest.len() && rest[k] == i;
            assert(rest[k] < init.len());
        }
    }
}

proof fn lemma_having_bounds(devices: Seq<HookDevice>, role: Role)
    ensures
        forall|k: int|
            0 <= k < sleep_hook::having(devices, role).len() ==> 0
                <= #[trigger] sleep_hook::having(devices, role)[k] < devices.len(),
    decreases devices.len(),
{
    if devices.len() > 0 {
        lemma_having_bounds(devices.drop_last(), role);
        let rest = sleep_hook::having(devices.drop_last(), role);
        let all = sleep_hook::having(devices, role);
        assert forall|k: int| 0 <= k < all.len() implies 0 <= #[trigger] all[k]
            < devices.len() by {
            if k < rest.len() {
                assert(all[k] == rest[k]);
            }
        }
    }
}

/// A device on the bus is bound again in at most four attempts: the first that is written
/// and after which it is bound ends them; a failed one leads to the next, and the fourth
/// to giving up.
pub proof fn binding_is_tried_four_times(n: u32, wrote: bool, bound: bool)
    requires
        1 <= n <= 4,
    ensures
        Rebind::at_start(true) == Rebind::Attempt(1),
        Rebind::at_start(false) is Absent,
        Rebind::Attempt(n).after(true, true) == Rebind::Recovered(n),
        !(wrote && bound) && n < 4 ==> Rebind::Attempt(n).after(wrote, bound) == Rebind::Attempt(
            (n + 1) as u32,
        ),
        !(wrote && bound) && n == 4 ==> Rebind::Attempt(n).after(wrote, bound) is GaveUp,
        Rebind::Recovered(n).after(wrote, bound) == Rebind::Recovered(n),
        Rebind::Recovered(1).verdict(bound) == Some("  touchpad rebind: ok"@),
        n > 1 ==> Rebind::Recovered(n).verdict(bound) == Some(
            "  touchpad rebind: ok (attempt "@ + number::decimal(n as nat) + ")"@,
        ),
        Rebind::Attempt(n).verdict(bound) is None,
        Rebind::Absent.verdict(bound) == Some("  touchpad rebind: skipped (device absent)"@),
        Rebind::GaveUp.verdict(true) == Some(
            "  touchpad rebind: FAILED (still bound; may still be wedged)"@,
        ),
        Rebind::GaveUp.verdict(false) is Some,
{
}

// --------------------------------------------------------------- the suspend command

/// The words of the command, and that it has no others.
pub proof fn suspend_words_are_told_apart(action: Seq<char>)
    ensures
        suspend::verb_of("request"@) == Some(SuspendVerb::Request),
        suspend::verb_of("cancel"@) == Some(SuspendVerb::Cancel),
        suspend::verb_of("status"@) == Some(SuspendVerb::Status),
        action != "request"@ && action != "cancel"@ && action != "status"@ ==> suspend::verb_of(
            action,
        ) is None,
{
    reveal_strlit("request");
    reveal_strlit("cancel");
    reveal_strlit("status");
    assert("request"@[0] != "cancel"@[0]);
    assert("status"@[0] != "cancel"@[0]);
    assert("status"@[0] != "request"@[0]);
}

/// A request is the daemon's own where its first word says so, whatever stands behind it.
pub proof fn own_requests_are_known_by_their_word(word: Seq<char>, rest: Seq<char>)
    requires
        word.len() > 0,
        forall|i: int| 0 <= i < word.len() ==> !text::is_white(#[trigger] word[i]),
    ensures
        suspend::is_own(word + seq!['\n'] + rest) == (word == "battery-low"@),
        suspend::is_own(word) == (word == "battery-low"@),
{
    let none = Seq::<char>::empty();
    texts::words_stand_between_blanks(none, word, seq!['\n'] + rest);
    texts::words_stand_between_blanks(none, word, none);
    assert(none + word + (seq!['\n'] + rest) =~= word + seq!['\n'] + rest);
    assert(none + word + none =~= word);
}

// -------------------------------------------------------------------- files and times

/// A file goes below its directory, with one slash between the two; an absolute one stands
/// for itself.
pub proof fn files_go_below_their_directories(dir: Seq<char>, file: Seq<char>)
    requires
        dir.len() > 0,
        dir.last() != '/',
        file.len() > 0,
        file[0] != '/',
    ensures
        paths::joined(dir, file) == dir + "/"@ + file,
        paths::joined(dir + "/"@, file) == dir + "/"@ + file,
        paths::joined(dir, "/"@ + file) == "/"@ + file,
        paths::in_hypr_config(dir, file) == dir + "/"@ + ".config/hypr"@ + "/"@ + file,
        paths::runtime_or(Some(dir), file) == dir,
        paths::runtime_or(None, file) == file,
{
    reveal_strlit("/");
    reveal_strlit(".config/hypr");
    assert(!text::has_prefix(file, "/"@)) by {
        if text::has_prefix(file, "/"@) {
            assert(file.take(1)[0] == file[0]);
        }
    }
    assert(!text::has_suffix(dir, "/"@)) by {
        if text::has_suffix(dir, "/"@) {
            assert(dir.skip(dir.len() - 1)[0] == dir.last());
        }
    }
    let ended = dir + "/"@;
    assert(ended.skip(ended.len() - 1) =~= "/"@);
    assert(("/"@ + file).take(1) =~= "/"@);
    assert(!text::has_prefix(".config/hypr"@, "/"@)) by {
        if text::has_prefix(".config/hypr"@, "/"@) {
            assert(".config/hypr"@.take(1)[0] == ".config/hypr"@[0]);
        }
    }
    let conf = dir + "/"@ + ".config/hypr"@;
    assert(paths::joined(dir, ".config/hypr"@) == conf);
    assert(!text::has_suffix(conf, "/"@)) by {
        if text::has_suffix(conf, "/"@) {
            assert(conf.skip(conf.len() - 1)[0] == conf.last());
            assert(conf.last() == ".config/hypr"@.last());
        }
    }
}

/// How long things take: half a minute of grace before a suspend, two seconds for the
/// lock, and polls and debounces of their own.
pub proof fn waits_are_of_their_length()
    ensures
        paths::GRACE_SECONDS == 30_000,
        paths::LOCK_WAIT == 2_000,
        paths::INHIBIT_POLL == 2_000,
        paths::RECONCILE_INTERVAL == 5_000,
        paths::PROFILE_DEBOUNCE == 500,
        paths::POWER_AC_DEBOUNCE == 5_000,
        paths::GPU_SETTLE == 500,
        sleep_hook::REBIND_ATTEMPTS == 4,
{
}

/// A setting is shown under its name, in a column of its own, and the settings in the order
/// of their names.
pub proof fn settings_are_shown_in_order(keys: Seq<Seq<char>>, values: Seq<Seq<char>>, a: int, b: int)
    requires
        keys.len() == values.len(),
        keys.len() == 2,
        (a == 0 && b == 1) || (a == 1 && b == 0),
        text::text_less(keys[a], keys[b]),
    ensures
        power_cli::setting_lines(keys, values) == seq![
            "  "@ + text::padded(keys[a], 34) + " "@ + values[a],
            "  "@ + text::padded(keys[b], 34) + " "@ + values[b],
        ],
{
    let before = power_cli::by_entry(keys, values);
    text::lemma_text_total(keys[a], keys[b]);
    text::lemma_text_irreflexive(keys[a]);
    if text::text_less(keys[b], keys[a]) {
        text::lemma_text_transitive(keys[a], keys[b], keys[a]);
    }
    reveal_with_fuel(order::order, 3);
    reveal_with_fuel(order::place, 3);
    assert(order::order(before, 0) =~= Seq::<int>::empty());
    assert(order::order(before, 1) =~= seq![0int]);
    if a == 0 {
        assert(!before(1, 0));
        assert(order::order(before, 2) =~= seq![0int, 1int]);
    } else {
        assert(before(1, 0));
        assert(seq![0int].drop_last() =~= Seq::<int>::empty());
        assert(order::place(before, seq![0int], 1) =~= seq![1int, 0int]);
        assert(order::order(before, 2) =~= seq![1int, 0int]);
    }
    assert(power_cli::setting_lines(keys, values) =~= seq![
        "  "@ + text::padded(keys[a], 34) + " "@ + values[a],
        "  "@ + text::padded(keys[b], 34) + " "@ + values[b],
    ]);
}

} // verus!
