//! What the daemon makes of the world when it starts.
use vstd::prelude::*;

use crate::ctx::{ActiveProfile, ActiveView, Backlight, Context, Inputs, LightView, PowerState};
use crate::order;
use crate::power;
use crate::power::{parse_power_conf, LidMode, Percent, PowerConf};
use crate::toml_profile;
use crate::toml_profile::{TomlProfile, TomlView};
use crate::sysfs;
use crate::text;

verus! {

// ------------------------------------------------------------------- wake report

/// The USB controller whose wake setting is tracked.
pub const WAKE_USB_CONTROLLER: &'static str = "/sys/bus/pci/devices/0000:0e:00.3/power/wakeup";

/// A USB device as the kernel lists it.
#[derive(Debug)]
pub struct UsbDevice {
    pub name: String,
    pub vendor: Option<String>,
    pub product: Option<String>,
    /// The content of its wake setting.
    pub wakeup: Option<String>,
}

/// What a [`UsbDevice`] holds.
pub struct UsbView {
    pub name: Seq<char>,
    pub vendor: Option<Seq<char>>,
    pub product: Option<Seq<char>>,
    pub wakeup: Option<Seq<char>>,
}

impl View for UsbDevice {
    type V = UsbView;

    open spec fn view(&self) -> UsbView {
        UsbView {
            name: self.name@,
            vendor: text::opt_string(self.vendor),
            product: text::opt_string(self.product),
            wakeup: text::opt_string(self.wakeup),
        }
    }
}

pub open spec fn usb_views(s: Seq<UsbDevice>) -> Seq<UsbView> {
    s.map_values(|d: UsbDevice| d@)
}

/// The label of an input device that is tracked by vendor and product.
pub open spec fn wake_label(vendor: Seq<char>, product: Seq<char>) -> Option<Seq<char>> {
    if vendor == "3297"@ && product == "1977"@ {
        Some("ZSA Voyager (keyboard)"@)
    } else if vendor == "046d"@ && product == "c539"@ {
        Some("Logitech Lightspeed (mouse receiver)"@)
    } else {
        None
    }
}

/// The label of an input device that is tracked by vendor and product.
pub fn wake_usb_label(vendor: &str, product: &str) -> (r: Option<&'static str>)
    ensures
        text::opt_str(r) == wake_label(vendor@, product@),
{
    if text::str_eq(vendor, "3297") && text::str_eq(product, "1977") {
        Some("ZSA Voyager (keyboard)")
    } else if text::str_eq(vendor, "046d") && text::str_eq(product, "c539") {
        Some("Logitech Lightspeed (mouse receiver)")
    } else {
        None
    }
}

impl UsbView {
    /// The label under which a device is tracked: its name for a hub, or that of its
    /// vendor and product.
    pub open spec fn label(self) -> Option<Seq<char>> {
        if text::has_prefix(self.name, "usb"@) {
            Some(self.name)
        } else {
            match (self.vendor, self.product) {
                (Some(v), Some(p)) => wake_label(text::trimmed(v), text::trimmed(p)),
                _ => None,
            }
        }
    }
}

/// What the wake settings come to: the settings found, and the labels of those that
/// are not enabled.
pub struct WakeView {
    pub entries: Seq<Seq<char>>,
    pub bad: Seq<Seq<char>>,
}

/// The report with one more setting.
pub open spec fn noted(w: WakeView, label: Seq<char>, content: Option<Seq<char>>) -> WakeView {
    match content {
        Some(c) => {
            let state = text::trimmed(c);
            WakeView {
                entries: w.entries.push(label + "="@ + state),
                bad: if state == "enabled"@ {
                    w.bad
                } else {
                    w.bad.push(label)
                },
            }
        },
        None => w,
    }
}

/// The report on some devices.
pub open spec fn wake_of(controller: Option<Seq<char>>, devices: Seq<UsbView>) -> WakeView
    decreases devices.len(),
{
    if devices.len() == 0 {
        noted(WakeView { entries: seq![], bad: seq![] }, "controller"@, controller)
    } else {
        let w = wake_of(controller, devices.drop_last());
        let d = devices.last();
        match d.label() {
            Some(label) => noted(w, label, d.wakeup),
            None => w,
        }
    }
}

/// What the wake settings come to.
#[derive(Debug)]
pub struct WakeReport {
    pub entries: Vec<String>,
    pub bad: Vec<String>,
}

impl View for WakeReport {
    type V = WakeView;

    open spec fn view(&self) -> WakeView {
        WakeView { entries: text::strings(self.entries@), bad: text::strings(self.bad@) }
    }
}

fn note_wake(w: &mut WakeReport, label: &str, content: &Option<String>)
    ensures
        final(w)@ == noted(old(w)@, label@, text::opt_string(*content)),
{
    match content {
        Some(c) => {
            let ghost before = w@;
            let state = text::trim(c.as_str());
            if !text::str_eq(state, "enabled") {
                w.bad.push(String::from_str(label));
            }
            w.entries.push(text::concat3(label, "=", state));
            assert(w@.entries =~= before.entries.push(label@ + "="@ + state@));
            assert(w@.bad =~= if state@ == "enabled"@ {
                before.bad
            } else {
                before.bad.push(label@)
            });
        },
        None => {},
    }
}

/// Whether and under which label a device is tracked.
fn label_of(d: &UsbDevice) -> (r: Option<String>)
    ensures
        text::opt_string(r) == d@.label(),
{
    if text::starts_with(d.name.as_str(), "usb") {
        return Some(d.name.clone());
    }
    match (&d.vendor, &d.product) {
        (Some(v), Some(p)) => match wake_usb_label(text::trim(v.as_str()), text::trim(p.as_str())) {
            Some(label) => Some(String::from_str(label)),
            None => None,
        },
        _ => None,
    }
}

/// Gathers the wake settings of the controller, the hubs and the tracked input devices.
pub fn wake_state(controller: &Option<String>, devices: &Vec<UsbDevice>) -> (r: WakeReport)
    ensures
        r@ == wake_of(text::opt_string(*controller), usb_views(devices@)),
{
    let mut w = WakeReport { entries: Vec::new(), bad: Vec::new() };
    assert(w@.entries =~= seq![]);
    assert(w@.bad =~= seq![]);
    note_wake(&mut w, "controller", controller);
    let ghost all = usb_views(devices@);
    let mut i: usize = 0;
    while i < devices.len()
        invariant
            i <= devices@.len(),
            all == usb_views(devices@),
            w@ == wake_of(text::opt_string(*controller), all.take(i as int)),
        decreases devices@.len() - i,
    {
        proof {
            let next = all.take(i + 1);
            assert(next.drop_last() =~= all.take(i as int));
            assert(next.last() == devices@[i as int]@);
        }
        match label_of(&devices[i]) {
            Some(label) => {
                note_wake(&mut w, label.as_str(), &devices[i].wakeup);
            },
            None => {},
        }
        i += 1;
    }
    assert(all.take(all.len() as int) =~= all);
    w
}

impl WakeReport {
    /// The line of the log about the settings.
    pub fn summary(&self) -> (r: String)
        ensures
            r@ == if self@.entries.len() == 0 {
                "usb-wake state: (none of the tracked devices found)"@
            } else {
                "usb-wake state: "@ + text::joined(self@.entries, " "@)
            },
    {
        if self.entries.len() == 0 {
            String::from_str("usb-wake state: (none of the tracked devices found)")
        } else {
            text::concat2("usb-wake state: ", text::join(&self.entries, " ").as_str())
        }
    }

    /// The warning about settings that are not enabled.
    pub fn warning(&self) -> (r: Option<String>)
        ensures
            text::opt_string(r) == if self@.bad.len() == 0 {
                None
            } else {
                Some(
                    "wake disabled on: "@ + text::joined(self@.bad, ", "@)
                        + " \u{2014} check sleep hook install"@,
                )
            },
    {
        if self.bad.len() == 0 {
            return None;
        }
        let list = text::join(&self.bad, ", ");
        Some(text::concat3("wake disabled on: ", list.as_str(), " \u{2014} check sleep hook install"))
    }
}

// --------------------------------------------------------------------- backlight

/// The names of backlights that can be dimmed without a display bus.
pub open spec fn local_lights(names: Seq<Seq<char>>) -> Seq<Seq<char>>
    decreases names.len(),
{
    if names.len() == 0 {
        seq![]
    } else {
        let rest = local_lights(names.drop_last());
        if text::has_prefix(names.last(), "ddcci"@) {
            rest
        } else {
            rest.push(names.last())
        }
    }
}

/// The backlight is that of the internal panel.
pub open spec fn is_panel_light(name: Seq<char>) -> bool {
    ||| text::has_prefix(name, "amdgpu_bl"@)
    ||| text::has_prefix(name, "intel_backlight"@)
    ||| text::has_prefix(name, "acpi_video"@)
}

/// The first backlight of the internal panel.
pub open spec fn first_panel_light(names: Seq<Seq<char>>) -> Option<Seq<char>>
    decreases names.len(),
{
    if names.len() == 0 {
        None
    } else if is_panel_light(names[0]) {
        Some(names[0])
    } else {
        first_panel_light(names.skip(1))
    }
}

/// The backlight to work on: in the order of their names the first of the internal
/// panel, or else the first of all.
pub open spec fn light_of(names: Seq<Seq<char>>) -> Option<Seq<char>> {
    let sorted = order::sorted_texts(local_lights(names));
    match first_panel_light(sorted) {
        Some(n) => Some(n),
        None => if sorted.len() == 0 {
            None
        } else {
            Some(sorted[0])
        },
    }
}

fn local_names(names: &Vec<String>) -> (r: Vec<String>)
    ensures
        text::strings(r@) == local_lights(text::strings(names@)),
{
    let ghost all = text::strings(names@);
    let mut out: Vec<String> = Vec::new();
    assert(text::strings(out@) =~= local_lights(all.take(0)));
    let mut i: usize = 0;
    while i < names.len()
        invariant
            i <= names@.len(),
            all == text::strings(names@),
            text::strings(out@) == local_lights(all.take(i as int)),
        decreases names@.len() - i,
    {
        proof {
            let next = all.take(i + 1);
            assert(next.drop_last() =~= all.take(i as int));
            assert(next.last() == names@[i as int]@);
        }
        let ghost before = text::strings(out@);
        if !text::starts_with(names[i].as_str(), "ddcci") {
            out.push(names[i].clone());
            assert(text::strings(out@) =~= before.push(names@[i as int]@));
        }
        i += 1;
    }
    assert(all.take(all.len() as int) =~= all);
    out
}

/// Picks the backlight to work on.
pub fn backlight_device(names: &Vec<String>) -> (r: Option<String>)
    ensures
        text::opt_string(r) == light_of(text::strings(names@)),
{
    let local = local_names(names);
    let sorted = order::sort_texts(&local);
    let ghost all = text::strings(sorted@);
    let mut i: usize = 0;
    assert(all.skip(0) =~= all);
    while i < sorted.len()
        invariant
            i <= sorted@.len(),
            all == text::strings(sorted@),
            all == order::sorted_texts(local_lights(text::strings(names@))),
            first_panel_light(all) == first_panel_light(all.skip(i as int)),
        decreases sorted@.len() - i,
    {
        let name = sorted[i].as_str();
        assert(all.skip(i as int)[0] == sorted@[i as int]@);
        assert(all.skip(i as int).skip(1) =~= all.skip(i + 1));
        if text::starts_with(name, "amdgpu_bl") || text::starts_with(name, "intel_backlight")
            || text::starts_with(name, "acpi_video") {
            return Some(sorted[i].clone());
        }
        i += 1;
    }
    if sorted.len() == 0 {
        None
    } else {
        assert(all[0] == sorted@[0]@);
        Some(sorted[0].clone())
    }
}

/// The backlight after its greatest level was read. One without levels is left alone.
pub open spec fn light_found(l: LightView, dev: Seq<char>, max: u32) -> LightView {
    if max == 0 {
        l
    } else {
        LightView { dev: Some(dev), max, ..l }
    }
}

/// Takes a backlight on, with the content of its `max_brightness`.
pub fn discover_backlight(light: &mut Backlight, dev: String, max: Option<&str>)
    ensures
        final(light)@ == light_found(
            old(light)@,
            dev@,
            sysfs::int_in(text::opt_str(max), 0) as u32,
        ),
{
    let max: u32 = sysfs::read_int(max, 0) as u32;
    if max == 0 {
        return ;
    }
    light.dev = Some(dev);
    light.max = max;
}

// --------------------------------------------------------- profile, battery, charger

/// The profile in force when the daemon starts: what the link names, with the panel
/// policy of that profile.
pub open spec fn seeded(a: ActiveView, name: Option<Seq<char>>, list: Seq<TomlView>) -> ActiveView {
    match name {
        Some(n) => match toml_profile::named(list, n) {
            Some(p) => ActiveView { current: Some(n), rev: Some(p), edp_policy: p.inner.edp },
            None => ActiveView { current: Some(n), ..a },
        },
        None => a,
    }
}

/// Takes the profile that the link names as the one in force, so that it is not
/// applied again for nothing.
pub fn seed_profile(active: &mut ActiveProfile, name: Option<String>, list: &Vec<TomlProfile>)
    ensures
        final(active)@ == seeded(old(active)@, text::opt_string(name), toml_profile::views(list@)),
{
    match name {
        Some(n) => {
            match toml_profile::find_profile(list, n.as_str()) {
                Some(p) => {
                    active.edp_policy = p.inner.edp;
                    active.rev = Some(p.clone());
                },
                None => {},
            }
            active.current = Some(n);
        },
        None => {},
    }
}

/// The state of power policy with the first sample of the battery, or without a
/// battery.
pub open spec fn battery_found(p: PowerState, pct: Option<Percent>) -> PowerState {
    match pct {
        Some(v) => PowerState {
            battery_percent: pct,
            low_battery: v.at_most(p.battery_low_pct as int),
            ..p
        },
        None => PowerState { battery_percent: None, low_battery: false, ..p },
    }
}

/// Takes in the first sample of the battery, or that there is none.
pub fn seed_battery(p: &mut PowerState, pct: Option<Percent>)
    ensures
        *final(p) == battery_found(*old(p), pct),
{
    p.battery_percent = pct;
    p.low_battery = match pct {
        Some(v) => v.is_at_most(p.battery_low_pct),
        None => false,
    };
}

/// The power configuration in a file's content, with warnings; the defaults where there
/// is no file.
pub fn load_power_conf(content: Option<&str>) -> (r: (PowerConf, Vec<String>))
    ensures
        match content {
            Some(c) => r.0 == power::conf_of(c@).conf && text::strings(r.1@) == power::conf_of(
                c@,
            ).warnings,
            None => r.0 == power::default_conf() && r.1@.len() == 0,
        },
        1 <= r.0.battery_low_pct <= 50,
{
    match content {
        Some(c) => {
            proof {
                power::threshold_is_bounded(power::blank_conf(), text::lines_of(c@));
            }
            parse_power_conf(c)
        },
        None => (PowerConf::default(), Vec::new()),
    }
}

/// The state of power policy under a configuration.
pub open spec fn configured(p: PowerState, conf: PowerConf) -> PowerState {
    PowerState { policy: conf.policy, battery_low_pct: conf.battery_low_pct, ..p }
}

/// Takes the power configuration on.
pub fn configure(ctx: &mut Context, conf: &PowerConf)
    ensures
        final(ctx)@.power == configured(old(ctx)@.power, *conf),
        final(ctx)@.inputs == (Inputs {
            lid_present: conf.lid == LidMode::Present,
            ..old(ctx)@.inputs
        }),
        final(ctx)@.profile == old(ctx)@.profile,
        final(ctx)@.gpu == old(ctx)@.gpu,
        final(ctx)@.self_writes == old(ctx)@.self_writes,
        final(ctx)@.backlight == old(ctx)@.backlight,
        old(ctx)@.wf() && 1 <= conf.battery_low_pct <= 50 ==> final(ctx)@.wf(),
{
    ctx.power.policy = conf.policy;
    ctx.power.battery_low_pct = conf.battery_low_pct;
    ctx.inputs.lid_present = conf.lid == LidMode::Present;
}

// ------------------------------------------------------------------------- laws

/// A backlight that is taken on has at least one level.
pub proof fn found_lights_have_levels(l: LightView, dev: Seq<char>, max: u32)
    requires
        l.wf(),
    ensures
        light_found(l, dev, max).wf(),
{
}

/// A machine without a battery never counts as low.
pub proof fn no_battery_is_never_low(p: PowerState)
    ensures
        !battery_found(p, None).low_battery,
        !battery_found(p, Some(Percent::NotANumber)).low_battery,
{
}

/// A display bus is never dimmed.
pub proof fn display_bus_lights_are_left_out(names: Seq<Seq<char>>)
    ensures
        forall|i: int|
            0 <= i < local_lights(names).len() ==> !text::has_prefix(
                #[trigger] local_lights(names)[i],
                "ddcci"@,
            ),
    decreases names.len(),
{
    if names.len() > 0 {
        display_bus_lights_are_left_out(names.drop_last());
        let rest = local_lights(names.drop_last());
        assert forall|i: int| 0 <= i < local_lights(names).len() implies !text::has_prefix(
            #[trigger] local_lights(names)[i],
            "ddcci"@,
        ) by {
            if i < rest.len() {
                assert(local_lights(names)[i] == rest[i]);
            }
        }
    }
}

} // verus!
