//! What single questions are answered: laws of functions whose contract says it all, stated
//! of any result that the contract allows.
use vstd::prelude::*;

use crate::fsm;
use crate::gpu;
use crate::gpu::GpuMode;
use crate::gpu_cli;
use crate::hypr_instance;
use crate::hyprctl;
use crate::hyprctl::MonitorSnapshot;
use crate::power::{LidMode, PowerPolicy, PowerProfile};
use crate::power_cli;
use crate::powerd;
use crate::profile_cli;
use crate::profile_cli::{Converted, Migration, SaveCheck, SwitchCheck};
use crate::profile_command;
use crate::profile_command::{ProfileAction, SaveFailure};
use crate::profile_store;
use crate::profile_store::ProfileFormat;
use crate::sources;
use crate::sources::{Instance, Readings, Session, SocketChoice, Supply};
use crate::event::ReconcileSnapshot;
use crate::suspend;
use crate::suspend::SuspendVerb;
use crate::text;

verus! {

// -------------------------------------------------------------------- the compositor

/// A live locker holds the session where the compositor is sure of its lock and nothing
/// says otherwise: a hint alone is no proof, and one that denies it spoils it.
pub proof fn only_the_compositor_proves_a_lock(
    hint: Option<bool>,
    compositor: Option<bool>,
    r: bool,
)
    requires
        call_ensures(hyprctl::live_locker, (hint, compositor), r),
    ensures
        compositor != Some(true) ==> !r,
        hint == Some(false) ==> !r,
        compositor == Some(true) && hint != Some(false) ==> r,
{
}

/// The internal panel may be turned off where another monitor is there, and never where it
/// is the only one.
pub proof fn the_only_output_stays_on(ext_mon_count: u32, r: bool)
    requires
        call_ensures(fsm::edp_may_disable, (ext_mon_count,), r),
    ensures
        ext_mon_count == 0 ==> !r,
        ext_mon_count >= 1 ==> r,
{
}

/// A reply that failed leaves the count of monitors as it was.
pub proof fn failed_counts_change_nothing(prev: u32, r: u32)
    requires
        call_ensures(
            hyprctl::ext_monitor_count_in,
            (None::<&[MonitorSnapshot]>, prev),
            r,
        ),
    ensures
        r == prev,
{
}

/// The panel is the monitor of its name: an answer is that monitor's, and without one of
/// that name there is none.
pub proof fn the_panel_is_known_by_name(monitors: &[MonitorSnapshot], r: Option<bool>)
    requires
        call_ensures(hyprctl::edp_is_disabled_in, (monitors,), r),
    ensures
        monitors@.len() == 1 && r is Some ==> monitors@[0].name@ == "eDP-2"@ && r == Some(
            monitors@[0].disabled,
        ),
        monitors@.len() == 0 ==> r is None,
{
    match r {
        Some(d) => {
            let i = choose|i: int|
                hyprctl::first_named(monitors@, hyprctl::EDP_MONITOR@, i) && d
                    == monitors@[i].disabled;
            assert(0 <= i < monitors@.len());
        },
        None => {},
    }
}

/// The process of a lock file is the compositor's only where it goes by that name.
pub proof fn only_the_compositor_counts(lock: &str, comm: &str, r: Option<u32>)
    requires
        call_ensures(hypr_instance::hyprland_pid, (Some(lock), Some(comm)), r),
    ensures
        text::trimmed(comm@) != "Hyprland"@ ==> r is None,
        text::trimmed(comm@) == "Hyprland"@ && hypr_instance::pid_in(lock@) is None ==> r is None,
        text::trimmed(comm@) == "Hyprland"@ && hypr_instance::pid_in(lock@) is Some ==> r is Some
            && r->0 == hypr_instance::pid_in(lock@)->0,
{
}

// ----------------------------------------------------------------------- the sources

/// A battery counts where it is there and is one: a battery, or an uninterruptible supply.
pub proof fn absent_batteries_do_not_count(present: bool, kind: u32, r: bool)
    requires
        call_ensures(sources::battery_counts, (present, kind), r),
    ensures
        !present ==> !r,
        present && kind == 2 ==> r,
        present && kind == 3 ==> r,
        kind != 2 && kind != 3 ==> !r,
{
}

/// The service appears where its own name on the bus has an owner.
pub proof fn only_the_service_appears(name: &str, owned: bool, r: bool)
    requires
        call_ensures(sources::powerd_appeared, (name, owned), r),
    ensures
        name@ == "org.hyprstate.Power1"@ && owned ==> r,
        name@ != "org.hyprstate.Power1"@ ==> !r,
        !owned ==> !r,
{
}

/// The charger is plugged in where the first supply that is one says so.
pub proof fn the_first_charger_tells(supplies: &Vec<Supply>, r: Option<bool>)
    requires
        call_ensures(sources::on_ac_sysfs, (supplies,), r),
        supplies@.len() == 1,
    ensures
        ({
            let s = supplies@[0];
            let charger = text::has_prefix(s.name@, "A"@) && s.online is Some;
            &&& !charger ==> r is None
            &&& charger && text::trimmed(s.online->0@) == "1"@ ==> r == Some(true)
            &&& charger && text::trimmed(s.online->0@) != "1"@ ==> r == Some(false)
        }),
{
    let s = supplies@[0];
}

/// No session is likelier than the one that is picked, and of equals the first is.
pub proof fn the_likeliest_session_is_picked(sessions: &Vec<Session>, r: Option<usize>, k: int)
    requires
        call_ensures(sources::best_session, (sessions,), r),
        0 <= k < sessions@.len(),
    ensures
        r is Some,
        r->0 < sessions@.len(),
        sessions@[k].points() <= sessions@[r->0 as int].points(),
        sessions@[k].points() == sessions@[r->0 as int].points() ==> r->0 <= k,
{
    let s = sessions@[k];
}

/// The socket of the instance that is named is taken where it is there. A directory without
/// a socket, without a lock file or of another process is never taken.
pub proof fn the_named_socket_comes_first(
    named: bool,
    found: &Vec<Instance>,
    r: SocketChoice,
)
    requires
        call_ensures(sources::socket2_path, (named, found), r),
    ensures
        named ==> r == SocketChoice::Named,
        !named && found@.len() == 0 ==> r == SocketChoice::Nowhere,
        !named && found@.len() == 1 && !found@[0].socket ==> r == SocketChoice::Nowhere,
        !named && found@.len() == 1 && found@[0].lock is None ==> r == SocketChoice::Nowhere,
        !named && found@.len() == 1 && (found@[0].comm is None || text::trimmed(
            found@[0].comm->0@,
        ) != "Hyprland"@) ==> r == SocketChoice::Nowhere,
{
}

/// A pass of the reconciler reports what was read; without the lid it reports nothing. A
/// login manager that did not answer holds no claim, and the cursor counts only while
/// something is dark.
pub proof fn passes_report_what_was_read(read: Readings, r: Option<ReconcileSnapshot>)
    requires
        call_ensures(sources::reconcile_snapshot, (read,), r),
    ensures
        read.lid_closed is None ==> r is None,
        read.lid_closed is Some ==> {
            let s = r->0;
            &&& r is Some
            &&& s.lid_closed == read.lid_closed->0
            &&& s.ext_mon_count == read.ext_mon_count
            &&& read.logind == Some(true) ==> s.logind_inhibitor
            &&& read.logind != Some(true) ==> !s.logind_inhibitor
            &&& s.wayland_inhibitor == read.wayland
            &&& s.locked == read.locked
            &&& s.on_ac == read.on_ac
            &&& s.edp_disabled == read.edp_disabled
            &&& s.dpms_off == read.dpms_off
            &&& read.dpms_off == Some(true) ==> s.cursor_pos == read.cursor_pos
            &&& read.dpms_off != Some(true) ==> s.cursor_pos is None
        },
{
}

// ----------------------------------------------------------------- the power service

/// A caller goes on who has a name and a clear yes.
pub proof fn callers_need_a_clear_yes(sender: &str, verdict: Option<bool>, r: bool)
    requires
        call_ensures(powerd::caller_authorized, (sender, verdict), r),
    ensures
        sender@.len() == 0 ==> !r,
        verdict is None || verdict == Some(false) ==> !r,
        sender@.len() > 0 && verdict == Some(true) ==> r,
{
}

/// The card is kept awake in the discrete mode, and in no other.
pub proof fn only_the_discrete_mode_pins(mode: GpuMode, r: bool)
    requires
        call_ensures(gpu::dgpu_runtime_pm_pinned, (mode,), r),
    ensures
        mode == GpuMode::Dgpu ==> r,
        mode == GpuMode::Auto || mode == GpuMode::Igpu || mode == GpuMode::Off ==> !r,
{
}

// ---------------------------------------------------------------------- the commands

/// A selection looks once more where it found nothing that was connected yet; only the
/// command that selects waits for that.
pub proof fn only_transient_failures_wait(
    action: &str,
    devices: &Option<Vec<String>>,
    reason: &str,
    r: bool,
)
    requires
        call_ensures(gpu_cli::needs_settle, (action, devices, reason), r),
    ensures
        devices is Some ==> !r,
        reason@ != "bailed-transient"@ ==> !r,
        action@ != "select"@ ==> !r,
        devices is None && reason@ == "bailed-transient"@ && action@ == "select"@ ==> r,
{
}

/// The compositor is given the devices of a selection, in order; without one, nothing.
pub proof fn selections_are_handed_on(devices: &Option<Vec<String>>, r: Option<String>)
    requires
        call_ensures(gpu_cli::device_line, (devices,), r),
    ensures
        devices is None ==> r is None,
        devices matches Some(list) ==> r is Some && r->0@ == text::joined(
            text::strings(list@),
            ":"@,
        ),
{
}

/// Asking for what is in force ends well; a file that cannot be written does not, and one
/// that is not there is no failure to take back.
pub proof fn suspend_commands_end_by_their_file(
    verb: SuspendVerb,
    failed: bool,
    not_found: bool,
    r: i32,
)
    requires
        call_ensures(suspend::exit_code, (verb, failed, not_found), r),
    ensures
        !failed ==> r == 0,
        failed && verb == SuspendVerb::Request ==> r == 1,
        failed && verb == SuspendVerb::Cancel && !not_found ==> r == 1,
        failed && verb == SuspendVerb::Cancel && not_found ==> r == 0,
        verb == SuspendVerb::Status ==> r == 0,
{
}

/// Status tells whether a request stands, and where.
pub proof fn status_tells_of_the_request(standing: bool, path: &str, r: String)
    requires
        call_ensures(suspend::status_line, (standing, path), r),
    ensures
        standing ==> r@ == "idle-suspend request: standing ("@ + path@ + ")"@,
        !standing ==> r@ == "idle-suspend request: none"@,
{
}

/// A request is the daemon's own only where there is one that says so.
pub proof fn no_request_is_nobodys(content: Option<&str>, r: bool)
    requires
        call_ensures(suspend::is_own_request, (content,), r),
    ensures
        content is None ==> !r,
        content matches Some(c) ==> r == (text::first_word_of(c@) == Some("battery-low"@)),
{
}

/// An override is told by its profile, and the policy as such.
pub proof fn get_tells_an_override_from_the_policy(
    current: Option<PowerProfile>,
    policy: &PowerPolicy,
    r: String,
)
    requires
        call_ensures(power_cli::get_line, (current, policy), r),
    ensures
        current == Some(PowerProfile::PowerSaver) ==> r@ == "override: "@ + "power-saver"@,
        current == Some(PowerProfile::Balanced) ==> r@ == "override: "@ + "balanced"@,
        current == Some(PowerProfile::Performance) ==> r@ == "override: "@ + "performance"@,
        current is None ==> r@ == "auto (policy: "@ + power_cli::policy_text(*policy) + ")"@,
{
}

/// What is in force is told with where it comes from.
pub proof fn status_tells_what_is_in_force(applied: &str, overridden: bool, r: String)
    requires
        call_ensures(power_cli::applied_line, (applied, overridden), r),
    ensures
        overridden ==> r@ == "applied : "@ + applied@ + " ("@ + "override"@ + ")"@,
        !overridden ==> r@ == "applied : "@ + applied@ + " ("@ + "auto"@ + ")"@,
{
}

/// Files that are there are converted only where they may be overwritten.
pub proof fn existing_profiles_are_skipped(target_exists: bool, force: bool, r: Migration)
    requires
        call_ensures(profile_cli::migration, (target_exists, force), r),
    ensures
        target_exists && !force ==> r == Migration::Skip,
        force || !target_exists ==> r == Migration::Convert,
{
}

/// A profile without monitors is refused; others are written, or only told about.
pub proof fn lost_layouts_are_refused(monitors: usize, dry_run: bool, r: Converted)
    requires
        call_ensures(profile_cli::converted, (monitors, dry_run), r),
    ensures
        monitors == 0 ==> r == Converted::Refuse,
        monitors > 0 && dry_run ==> r == Converted::WouldWrite,
        monitors > 0 && !dry_run ==> r == Converted::Write,
{
}

/// How the profile command ends: well where it did what it was asked, with 1 where that
/// failed, and with 2 where it was asked wrongly.
pub proof fn profile_commands_end_by_what_they_did(
    save: SaveCheck,
    switch: SwitchCheck,
    converted: Converted,
    linked: bool,
    failure: Option<SaveFailure>,
    a: i32,
    b: i32,
    c: i32,
    d: i32,
    e: i32,
)
    requires
        call_ensures(SaveCheck::code, (save,), a),
        call_ensures(SwitchCheck::code, (switch,), b),
        call_ensures(Converted::code, (converted,), c),
        call_ensures(profile_command::switch_code, (linked,), d),
        call_ensures(profile_command::save_code, (failure,), e),
    ensures
        save == SaveCheck::Capture ==> a == 0,
        save == SaveCheck::NoName || save == SaveCheck::BadName ==> a == 2,
        save == SaveCheck::Exists ==> a == 1,
        switch == SwitchCheck::Switch ==> b == 0,
        switch == SwitchCheck::NoName ==> b == 2,
        switch == SwitchCheck::Unknown ==> b == 1,
        converted == Converted::Refuse ==> c == 1,
        converted != Converted::Refuse ==> c == 0,
        linked ==> d == 0,
        !linked ==> d == 1,
        failure is None ==> e == 0,
        failure is Some ==> e == 1,
{
}

/// Migrating and verifying only work on files; everything else needs a session.
pub proof fn file_work_needs_no_session(a: ProfileAction, r: bool)
    requires
        call_ensures(ProfileAction::needs_live, (a,), r),
    ensures
        a == ProfileAction::Migrate || a == ProfileAction::Verify ==> !r,
        a == ProfileAction::Save || a == ProfileAction::List || a == ProfileAction::Current || a
            == ProfileAction::Switch ==> r,
{
}

/// A file is written where it is not there or holds something else.
pub proof fn unchanged_files_are_not_written(current: Option<&str>, content: &str, r: bool)
    requires
        call_ensures(profile_store::needs_write, (current, content), r),
    ensures
        current is None ==> r,
        current matches Some(c) ==> r == (c@ != content@),
{
}

/// The directory is warned about that holds nothing but profiles of the former kind.
pub proof fn former_profiles_are_warned_about(
    dir: &str,
    loaded: usize,
    legacy: bool,
    r: Option<String>,
)
    requires
        call_ensures(profile_store::legacy_warning, (dir, loaded, legacy), r),
    ensures
        loaded > 0 ==> r is None,
        !legacy ==> r is None,
        loaded == 0 && legacy ==> r is Some,
{
}

/// The link of the Lua dialect names the profile in force; the other does where that one
/// names none.
pub proof fn the_lua_link_comes_first(lua: Option<&str>, conf: Option<&str>, r: Option<String>)
    requires
        call_ensures(profile_store::active_profile_name, (lua, conf), r),
    ensures
        ({
            let first = profile_store::linked_name(text::opt_str(lua));
            let second = profile_store::linked_name(text::opt_str(conf));
            &&& first is Some ==> r is Some && r->0@ == first->0
            &&& first is None && second is Some ==> r is Some && r->0@ == second->0
            &&& first is None && second is None ==> r is None
        }),
{
}

/// Profiles are rendered for Lua.
pub proof fn profiles_are_rendered_for_lua(r: ProfileFormat)
    requires
        call_ensures(profile_store::config_dialect, (), r),
    ensures
        r == ProfileFormat::Lua,
{
}

/// The lid is told as the configuration declares it.
pub proof fn the_lid_is_told_as_declared(lid: LidMode, r: &str)
    requires
        call_ensures(suspend::lid_line, (lid,), r),
    ensures
        lid == LidMode::Absent ==> r@
            == "lid: absent (power.conf) \u{2014} no handle-lid-switch inhibitor expected"@,
        lid == LidMode::Present ==> r@
            == "lid: present \u{2014} handle-lid-switch inhibitor held by hyprstate"@,
{
}

} // verus!
