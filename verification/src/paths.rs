//! Where the files are, and how long things take. Nothing here touches a file.
use vstd::prelude::*;

use crate::profile_store::ProfileFormat;
use crate::text;

verus! {

pub const DRI_BY_PATH: &'static str = "/dev/dri/by-path";

pub const LID_STATE_GLOB_DIR: &'static str = "/proc/acpi/button/lid";

/// How long `gpu select` waits before it looks again at a dock whose links are not up
/// yet, in milliseconds.
pub const GPU_SETTLE: u64 = 500;

/// The grace before a suspend, in milliseconds.
pub const GRACE_SECONDS: u64 = 30_000;

pub const DPMS_DELAY: u64 = 30_000;

/// How long the lock may take to engage, in milliseconds.
pub const LOCK_WAIT: u64 = 2_000;

/// How often inhibitors and mode files are polled, in milliseconds.
pub const INHIBIT_POLL: u64 = 2_000;

/// How often the reconciler looks at the world, in milliseconds.
pub const RECONCILE_INTERVAL: u64 = 5_000;

/// How long a burst of monitor changes may last, in milliseconds.
pub const PROFILE_DEBOUNCE: u64 = 500;

/// How long the charger may bounce, in milliseconds.
pub const POWER_AC_DEBOUNCE: u64 = 5_000;

/// A path below another, as `std::path::Path::join` makes it: an absolute one stands
/// for itself.
pub open spec fn joined(dir: Seq<char>, file: Seq<char>) -> Seq<char> {
    if text::has_prefix(file, "/"@) {
        file
    } else if dir.len() == 0 || text::has_suffix(dir, "/"@) {
        dir + file
    } else {
        dir + "/"@ + file
    }
}

/// A path below another.
pub fn join(dir: &str, file: &str) -> (r: String)
    ensures
        r@ == joined(dir@, file@),
{
    if text::starts_with(file, "/") {
        String::from_str(file)
    } else if dir.unicode_len() == 0 || text::ends_with(dir, "/") {
        text::concat2(dir, file)
    } else {
        text::concat3(dir, "/", file)
    }
}

/// A file of the compositor's configuration.
pub open spec fn in_hypr_config(home: Seq<char>, file: Seq<char>) -> Seq<char> {
    joined(joined(home, ".config/hypr"@), file)
}

/// A file of the compositor's configuration.
pub fn hypr_config(home: &str, file: &str) -> (r: String)
    ensures
        r@ == in_hypr_config(home@, file@),
{
    join(join(home, ".config/hypr").as_str(), file)
}

/// The manual GPU mode: its first word is `igpu`, `dgpu`, `off` or `auto`.
pub fn gpu_override_file(home: &str) -> (r: String)
    ensures
        r@ == in_hypr_config(home@, "gpu-select"@),
{
    hypr_config(home, "gpu-select")
}

/// What the daemon leaves of the matched profile's GPU preference, so that the selection
/// before the next session works from the same inputs.
pub fn gpu_breadcrumb_file(home: &str) -> (r: String)
    ensures
        r@ == in_hypr_config(home@, "gpu-profile"@),
{
    hypr_config(home, "gpu-profile")
}

/// The runtime directory, or a fallback.
pub open spec fn runtime_or(runtime: Option<Seq<char>>, fallback: Seq<char>) -> Seq<char> {
    match runtime {
        Some(d) => d,
        None => fallback,
    }
}

fn runtime_dir<'a>(runtime: Option<&'a str>, fallback: &'a str) -> (r: &'a str)
    ensures
        r@ == runtime_or(text::opt_str(runtime), fallback@),
{
    match runtime {
        Some(d) => d,
        None => fallback,
    }
}

/// The record of the GPU selection.
pub fn gpu_state_path(runtime: Option<&str>) -> (r: String)
    ensures
        r@ == joined(runtime_or(text::opt_str(runtime), "/tmp"@), "hypr-gpu-primary.json"@),
{
    join(runtime_dir(runtime, "/tmp"), "hypr-gpu-primary.json")
}

/// The socket that telemetry is sent to.
pub fn telemetry_socket(runtime: Option<&str>) -> (r: String)
    ensures
        r@ == joined(
            runtime_or(text::opt_str(runtime), "/run/user/1000"@),
            "hyprstate-telemetry.sock"@,
        ),
{
    join(runtime_dir(runtime, "/run/user/1000"), "hyprstate-telemetry.sock")
}

/// The request to suspend. It is in the runtime directory, so that a boot clears it.
pub fn suspend_request_file(runtime: Option<&str>) -> (r: String)
    ensures
        r@ == joined(runtime_or(text::opt_str(runtime), "/tmp"@), "hyprstate-suspend-request"@),
{
    join(runtime_dir(runtime, "/tmp"), "hyprstate-suspend-request")
}

/// The platform profile of the firmware.
pub fn platform_profile_path() -> (r: &'static str)
    ensures
        r@ == "/sys/firmware/acpi/platform_profile"@,
{
    "/sys/firmware/acpi/platform_profile"
}

/// The monitor profiles of the user.
pub fn profiles_dir(home: &str) -> (r: String)
    ensures
        r@ == in_hypr_config(home@, "profiles"@),
{
    hypr_config(home, "profiles")
}

/// The link to the profile in force.
pub fn active_profile_link(home: &str, format: ProfileFormat) -> (r: String)
    ensures
        r@ == joined(in_hypr_config(home@, "profiles"@), ".active."@ + format.suffix()),
{
    let dir = profiles_dir(home);
    join(dir.as_str(), text::concat2(".active.", format.ext()).as_str())
}

/// The compositor's configuration in Lua, if there is one.
pub fn hyprland_lua_config(home: &str) -> (r: String)
    ensures
        r@ == in_hypr_config(home@, "hyprland.lua"@),
{
    hypr_config(home, "hyprland.lua")
}

/// The power policy of the user.
pub fn power_conf_file(home: &str) -> (r: String)
    ensures
        r@ == in_hypr_config(home@, "power.conf"@),
{
    hypr_config(home, "power.conf")
}

/// The manual power profile.
pub fn power_override_file(home: &str) -> (r: String)
    ensures
        r@ == in_hypr_config(home@, "power-override"@),
{
    hypr_config(home, "power-override")
}

// ------------------------------------------------------------------------- laws

/// The files of one home are told apart by their names.
pub proof fn config_files_differ(home: Seq<char>, a: Seq<char>, b: Seq<char>)
    requires
        !text::has_prefix(a, "/"@),
        !text::has_prefix(b, "/"@),
        a != b,
    ensures
        in_hypr_config(home, a) != in_hypr_config(home, b),
{
    let dir = joined(home, ".config/hypr"@);
    let x = in_hypr_config(home, a);
    let y = in_hypr_config(home, b);
    let cut = if dir.len() == 0 || text::has_suffix(dir, "/"@) {
        dir
    } else {
        dir + "/"@
    };
    assert(x =~= cut + a);
    assert(y =~= cut + b);
    if x == y {
        assert(x.skip(cut.len() as int) =~= a);
        assert(y.skip(cut.len() as int) =~= b);
    }
}

} // verus!
