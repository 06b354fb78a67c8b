//! The sleep hook: USB devices that may wake the machine, and a touchpad that has to be
//! bound anew after it slept.
use vstd::prelude::*;

use crate::number;
use crate::startup;
use crate::startup::wake_usb_label;
use crate::text;

verus! {

pub const SLEEP_HOOK_LOG: &'static str = "/var/log/hyprstate-sleep.log";

/// Where a bound device shows up, and where it is bound and unbound.
pub const I2C_HID_DRIVER_DIR: &'static str = "/sys/bus/i2c/drivers/i2c_hid_acpi";

/// Where a device shows up that is on the bus, bound or not.
pub const I2C_DEVICES_DIR: &'static str = "/sys/bus/i2c/devices";

pub const TOUCHPAD_I2C_CLIENT: &'static str = "i2c-PIXA3854:00";

/// How often binding is tried. The bus may still be asleep when the hook runs.
pub const REBIND_ATTEMPTS: u32 = 4;

/// The label of a phase in the log; `None` for a phase that the hook ignores.
pub open spec fn phase_label(action: Seq<char>) -> Option<Seq<char>> {
    if action == "pre"@ {
        Some("PRE-SUSPEND"@)
    } else if action == "post"@ {
        Some("POST-RESUME"@)
    } else {
        None
    }
}

/// The label of a phase in the log; `None` for a phase that the hook ignores.
pub fn hook_label(action: &str) -> (r: Option<&'static str>)
    ensures
        text::opt_str(r) == phase_label(action@),
{
    if text::str_eq(action, "pre") {
        Some("PRE-SUSPEND")
    } else if text::str_eq(action, "post") {
        Some("POST-RESUME")
    } else {
        None
    }
}

// ----------------------------------------------------------------------- devices

/// A USB device as the hook sees it.
#[derive(Debug)]
pub struct HookDevice {
    pub name: String,
    /// The content of its `product` file.
    pub product: Option<String>,
    pub vendor_id: Option<String>,
    pub product_id: Option<String>,
    /// It has a wake setting.
    pub wakes: bool,
}

/// What the hook turns a device's wake setting on for.
#[derive(Debug, Clone, Copy, PartialEq, Eq, Structural)]
pub enum Role {
    RootHub,
    Hub,
    Input,
}

impl HookDevice {
    pub open spec fn is_root_hub(self) -> bool {
        text::has_prefix(self.name@, "usb"@) && self.wakes
    }

    pub open spec fn is_hub(self) -> bool {
        self.product matches Some(p) && text::has_part(p@, "Hub"@) && self.wakes
    }

    /// The label of a tracked input device.
    pub open spec fn input_label(self) -> Option<Seq<char>> {
        match (self.vendor_id, self.product_id) {
            (Some(v), Some(p)) => if self.wakes {
                startup::wake_label(text::trimmed(v@), text::trimmed(p@))
            } else {
                None
            },
            _ => None,
        }
    }

    /// The device has a role.
    pub open spec fn has(self, role: Role) -> bool {
        match role {
            Role::RootHub => self.is_root_hub(),
            Role::Hub => self.is_hub(),
            Role::Input => self.input_label() is Some,
        }
    }

    /// The label of a tracked input device.
    pub fn tracked_input(&self) -> (r: Option<&'static str>)
        ensures
            text::opt_str(r) == self.input_label(),
    {
        match (&self.vendor_id, &self.product_id) {
            (Some(v), Some(p)) => {
                if self.wakes {
                    wake_usb_label(text::trim(v.as_str()), text::trim(p.as_str()))
                } else {
                    None
                }
            },
            _ => None,
        }
    }

    /// Whether the device has a role.
    pub fn plays(&self, role: Role) -> (r: bool)
        ensures
            r == self.has(role),
    {
        match role {
            Role::RootHub => self.wakes && text::starts_with(self.name.as_str(), "usb"),
            Role::Hub => match &self.product {
                Some(p) => self.wakes && text::contains(p.as_str(), "Hub"),
                None => false,
            },
            Role::Input => self.tracked_input().is_some(),
        }
    }
}

/// The positions of the devices that have a role.
pub open spec fn having(devices: Seq<HookDevice>, role: Role) -> Seq<int>
    decreases devices.len(),
{
    if devices.len() == 0 {
        seq![]
    } else {
        let rest = having(devices.drop_last(), role);
        if devices.last().has(role) {
            rest.push(devices.len() - 1)
        } else {
            rest
        }
    }
}

/// The devices whose wake setting is to be turned on for a role.
pub fn devices_with(devices: &Vec<HookDevice>, role: Role) -> (r: Vec<usize>)
    ensures
        crate::order::positions(r@) == having(devices@, role),
        forall|i: int| 0 <= i < r@.len() ==> (#[trigger] r@[i]) < devices@.len(),
{
    let mut out: Vec<usize> = Vec::new();
    assert(crate::order::positions(out@) =~= having(devices@.take(0), role));
    let mut i: usize = 0;
    while i < devices.len()
        invariant
            i <= devices@.len(),
            crate::order::positions(out@) == having(devices@.take(i as int), role),
            forall|k: int| 0 <= k < out@.len() ==> (#[trigger] out@[k]) < devices@.len(),
        decreases devices@.len() - i,
    {
        assert(devices@.take(i + 1).drop_last() =~= devices@.take(i as int));
        let ghost before = crate::order::positions(out@);
        if devices[i].plays(role) {
            out.push(i);
            assert(crate::order::positions(out@) =~= before.push(i as int));
        }
        i += 1;
    }
    assert(devices@.take(devices@.len() as int) =~= devices@);
    out
}

// --------------------------------------------------------------------------- log

/// The first line of a phase.
pub fn opening(label: &str) -> (r: String)
    ensures
        r@ == "=== "@ + label@ + ": enabling USB wake ==="@,
{
    text::concat3("=== ", label, ": enabling USB wake ===")
}

/// The last line of a phase.
pub fn closing(label: &str) -> (r: String)
    ensures
        r@ == "=== "@ + label@ + " complete ==="@,
{
    text::concat3("=== ", label, " complete ===")
}

/// The line about one device.
pub fn device_line(label: &str, ok: bool) -> (r: String)
    ensures
        r@ == "  "@ + label@ + ": "@ + if ok {
            "enabled"@
        } else {
            "FAILED"@
        },
{
    let mut out = text::concat3("  ", label, ": ");
    if ok {
        out.append("enabled");
    } else {
        out.append("FAILED");
    }
    out
}

/// The line about the root hubs.
pub fn root_hubs_line(enabled: u64, total: u64) -> (r: String)
    ensures
        r@ == "  root hubs: "@ + number::decimal(enabled as nat) + "/"@ + number::decimal(
            total as nat,
        ) + " enabled"@,
{
    let mut out = text::concat3("  root hubs: ", number::u64_text(enabled).as_str(), "/");
    out.append(number::u64_text(total).as_str());
    out.append(" enabled");
    out
}

/// The line about the other hubs.
pub fn hubs_line(enabled: u64) -> (r: String)
    ensures
        r@ == "  intermediate hubs: "@ + number::decimal(enabled as nat) + " enabled"@,
{
    text::concat3("  intermediate hubs: ", number::u64_text(enabled).as_str(), " enabled")
}

// ---------------------------------------------------------------------- touchpad

/// Where rebinding the touchpad stands.
#[derive(Debug, Clone, Copy, PartialEq, Eq, Structural)]
pub enum Rebind {
    /// This attempt is due: unbind if the device is bound, bind, and look again.
    Attempt(u32),
    /// The device is bound again.
    Recovered(u32),
    /// All attempts failed.
    GaveUp,
    /// There is no such device.
    Absent,
}

impl Rebind {
    /// Where rebinding starts. Only a device that is not on the bus is skipped; one that
    /// is there but unbound is what binding recovers.
    pub open spec fn at_start(present: bool) -> Rebind {
        if present {
            Rebind::Attempt(1)
        } else {
            Rebind::Absent
        }
    }

    /// Where rebinding stands after an attempt. A write that went through is no proof:
    /// the device has to show up as bound.
    pub open spec fn after(self, wrote: bool, bound: bool) -> Rebind {
        match self {
            Rebind::Attempt(n) => if wrote && bound {
                Rebind::Recovered(n)
            } else if n < REBIND_ATTEMPTS {
                Rebind::Attempt((n + 1) as u32)
            } else {
                Rebind::GaveUp
            },
            _ => self,
        }
    }

    /// Where rebinding starts.
    pub fn start(present: bool) -> (r: Rebind)
        ensures
            r == Rebind::at_start(present),
    {
        if present {
            Rebind::Attempt(1)
        } else {
            Rebind::Absent
        }
    }

    /// Takes in how an attempt went.
    pub fn step(self, wrote: bool, bound: bool) -> (r: Rebind)
        ensures
            r == self.after(wrote, bound),
    {
        match self {
            Rebind::Attempt(n) => {
                if wrote && bound {
                    Rebind::Recovered(n)
                } else if n < REBIND_ATTEMPTS {
                    Rebind::Attempt(n + 1)
                } else {
                    Rebind::GaveUp
                }
            },
            Rebind::Recovered(n) => Rebind::Recovered(n),
            Rebind::GaveUp => Rebind::GaveUp,
            Rebind::Absent => Rebind::Absent,
        }
    }

    /// The line about where rebinding ended; `None` while it goes on. `bound`: the device
    /// shows up as bound.
    pub open spec fn verdict(self, bound: bool) -> Option<Seq<char>> {
        match self {
            Rebind::Attempt(_) => None,
            Rebind::Recovered(n) => Some(
                if n == 1 {
                    "  touchpad rebind: ok"@
                } else {
                    "  touchpad rebind: ok (attempt "@ + number::decimal(n as nat) + ")"@
                },
            ),
            Rebind::GaveUp => Some(
                if bound {
                    "  touchpad rebind: FAILED (still bound; may still be wedged)"@
                } else {
                    "  ! touchpad rebind: FAILED \u{2014} device left UNBOUND; recover with: echo -n i2c-PIXA3854:00 | sudo tee /sys/bus/i2c/drivers/i2c_hid_acpi/bind"@
                },
            ),
            Rebind::Absent => Some("  touchpad rebind: skipped (device absent)"@),
        }
    }

    /// The line about where rebinding ended.
    pub fn line(self, bound: bool) -> (r: Option<String>)
        ensures
            text::opt_string(r) == self.verdict(bound),
    {
        match self {
            Rebind::Attempt(_) => None,
            Rebind::Recovered(n) => {
                if n == 1 {
                    Some(String::from_str("  touchpad rebind: ok"))
                } else {
                    Some(
                        text::concat3(
                            "  touchpad rebind: ok (attempt ",
                            number::u64_text(n as u64).as_str(),
                            ")",
                        ),
                    )
                }
            },
            Rebind::GaveUp => {
                if bound {
                    Some(
                        String::from_str(
                            "  touchpad rebind: FAILED (still bound; may still be wedged)",
                        ),
                    )
                } else {
                    Some(
                        String::from_str(
                            "  ! touchpad rebind: FAILED \u{2014} device left UNBOUND; recover with: echo -n i2c-PIXA3854:00 | sudo tee /sys/bus/i2c/drivers/i2c_hid_acpi/bind",
                        ),
                    )
                }
            },
            Rebind::Absent => Some(String::from_str("  touchpad rebind: skipped (device absent)")),
        }
    }
}

/// The line about an attempt that failed. `outcome`: how writing went.
pub fn attempt_failed_line(n: u32, outcome: &str) -> (r: String)
    ensures
        r@ == "  touchpad rebind: attempt "@ + number::decimal(n as nat) + " failed ("@ + outcome@
            + "); retrying"@,
{
    let mut out = text::concat3(
        "  touchpad rebind: attempt ",
        number::u64_text(n as u64).as_str(),
        " failed (",
    );
    out.append(outcome);
    out.append("); retrying");
    out
}

// ------------------------------------------------------------------------- laws

/// Rebinding after some attempts.
pub open spec fn after_attempts(r: Rebind, outcomes: Seq<(bool, bool)>) -> Rebind
    decreases outcomes.len(),
{
    if outcomes.len() == 0 {
        r
    } else {
        after_attempts(r, outcomes.drop_last()).after(outcomes.last().0, outcomes.last().1)
    }
}

proof fn lemma_attempts(outcomes: Seq<(bool, bool)>)
    ensures
        match after_attempts(Rebind::at_start(true), outcomes) {
            Rebind::Attempt(n) => n == outcomes.len() + 1 && n <= REBIND_ATTEMPTS,
            Rebind::Recovered(n) => 1 <= n <= outcomes.len() && n <= REBIND_ATTEMPTS
                && outcomes[n - 1] == (true, true),
            Rebind::GaveUp => outcomes.len() >= REBIND_ATTEMPTS,
            Rebind::Absent => false,
        },
    decreases outcomes.len(),
{
    if outcomes.len() > 0 {
        lemma_attempts(outcomes.drop_last());
        let n = outcomes.len() - 1;
        match after_attempts(Rebind::at_start(true), outcomes.drop_last()) {
            Rebind::Recovered(k) => {
                assert(outcomes.drop_last()[k - 1] == outcomes[k - 1]);
            },
            _ => {},
        }
    }
}

/// Rebinding always comes to an end: after as many attempts as there are, none is due.
pub proof fn rebinding_ends(outcomes: Seq<(bool, bool)>)
    requires
        outcomes.len() >= REBIND_ATTEMPTS,
    ensures
        !(after_attempts(Rebind::at_start(true), outcomes) is Attempt),
{
    lemma_attempts(outcomes);
}

/// Recovery is claimed only of an attempt whose write went through and after which the
/// device showed up as bound.
pub proof fn recovery_is_proven(outcomes: Seq<(bool, bool)>)
    ensures
        after_attempts(Rebind::at_start(true), outcomes) matches Rebind::Recovered(n) ==> 1 <= n
            <= outcomes.len() && outcomes[n - 1] == (true, true),
{
    lemma_attempts(outcomes);
}

/// A device on the bus is never skipped, bound or not.
pub proof fn present_devices_are_tried(outcomes: Seq<(bool, bool)>)
    ensures
        Rebind::at_start(true) == Rebind::Attempt(1),
        !(after_attempts(Rebind::at_start(true), outcomes) is Absent),
{
    lemma_attempts(outcomes);
}

} // verus!
