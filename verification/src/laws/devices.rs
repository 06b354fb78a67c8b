//! What the machine's own files, the compositor and the first look at the hardware tell.
use vstd::prelude::*;

use crate::ctx::{ActiveView, LightView, PowerState};
use crate::hypr_instance;
use crate::hyprctl;
use crate::hyprctl::MonitorSnapshot;
use crate::json;
use crate::laws::texts;
use crate::number;
use crate::order;
use crate::power::{Percent, PowerConf};
use crate::startup;
use crate::startup::{UsbView, WakeView};
use crate::sysfs;
use crate::sysfs::{ConnectorView, DriView, Found};
use crate::text;
use crate::toml_profile::TomlView;

verus! {

// ------------------------------------------------------------------------ plain files

/// A number is read in decimal, and behind `0x` in hexadecimal; white space round it does
/// not count.
pub proof fn files_state_numbers(n: u64, hex: Seq<char>, blank: Seq<char>)
    requires
        number::all_hex(hex),
        hex.len() > 0,
        number::hex_value(hex) <= u64::MAX,
        forall|i: int| 0 <= i < blank.len() ==> text::is_white(#[trigger] blank[i]),
    ensures
        sysfs::int_in(Some(number::decimal(n as nat) + blank), 0) == n,
        sysfs::int_in(Some("0x"@ + hex + blank), 0) == number::hex_value(hex),
        sysfs::int_in(None, 7) == 7,
        sysfs::int_in(Some(blank), 7) == 7,
{
    reveal_strlit("0x");
    reveal_strlit("0X");
    let none = Seq::<char>::empty();
    let d = number::decimal(n as nat);
    number::lemma_decimal_digits(n as nat);
    assert(number::is_digit(d[0]));
    assert(number::is_digit(d.last()));
    texts::trimming_drops_what_is_round_a_text(none, d, blank);
    assert(none + d + blank =~= d + blank);
    if d.len() >= 2 {
        assert(number::is_digit(d[1]));
        assert(d.take(2)[1] == d[1]);
    }
    let h = "0x"@ + hex;
    assert(h.take(2) =~= "0x"@);
    assert(h.skip(2) =~= hex);
    assert(number::hex_digit(hex.last()) is Some);
    assert(number::hex_digit(hex[0]) is Some);
    assert(h.last() == hex.last());
    texts::trimming_drops_what_is_round_a_text(none, h, blank);
    assert(none + h + blank =~= "0x"@ + hex + blank);
    texts::trimming_drops_what_is_round_a_text(blank, d, none);
    assert(text::trimmed(blank) =~= none);
}

/// The first lid that tells its state decides: closed where that word is in it.
pub proof fn the_first_lid_that_tells_decides(
    before: Seq<char>,
    after: Seq<char>,
    rest: Seq<Option<Seq<char>>>,
)
    ensures
        sysfs::lid_closed_in(seq![Some(before + "closed"@ + after)] + rest),
        sysfs::lid_closed_in(seq![None] + rest) == sysfs::lid_closed_in(rest),
        !sysfs::lid_closed_in(Seq::empty()),
        !sysfs::lid_closed_in(seq![Some("open"@)] + rest),
{
    let s = before + "closed"@ + after;
    let n = before.len() as int;
    assert(s.subrange(n, n + "closed"@.len()) =~= "closed"@);
    assert(text::occurs_at(s, "closed"@, n));
    assert((seq![Some(s)] + rest)[0] == Some(s));
    assert((seq![None::<Seq<char>>] + rest).skip(1) =~= rest);
    reveal_strlit("open");
    reveal_strlit("closed");
    assert((seq![Some("open"@)] + rest)[0] == Some("open"@));
    assert(!text::has_part("open"@, "closed"@));
}

// -------------------------------------------------------------------------- outputs

/// A connected output of a card counts, as a panel where its name says so and as external
/// where it does not; one that is not connected, or another card's, does not count.
pub proof fn connected_outputs_are_counted(
    conns: Seq<ConnectorView>,
    card: Seq<char>,
    output: Seq<char>,
    status: Seq<char>,
)
    requires
        !text::has_part(card + "-"@ + output, "-Writeback-"@),
    ensures
        ({
            let name = card + "-"@ + output;
            let entry = ConnectorView { name, status: Some(status) };
            let dark = ConnectorView { name, status: None };
            let (external, panels) = sysfs::connected(conns, card);
            let lit = text::trimmed(status) == "connected"@;
            &&& lit && !text::has_part(name, "eDP"@) ==> sysfs::connected(conns.push(entry), card)
                == (external + 1, panels)
            &&& lit && text::has_part(name, "eDP"@) ==> sysfs::connected(conns.push(entry), card)
                == (external, panels + 1)
            &&& !lit ==> sysfs::connected(conns.push(entry), card) == (external, panels)
            &&& sysfs::connected(conns.push(dark), card) == (external, panels)
            &&& sysfs::connected(Seq::empty(), card) == (0nat, 0nat)
        }),
{
    let name = card + "-"@ + output;
    let entry = ConnectorView { name, status: Some(status) };
    let dark = ConnectorView { name, status: None };
    assert(conns.push(entry).drop_last() =~= conns);
    assert(conns.push(dark).drop_last() =~= conns);
    assert(name.take((card + "-"@).len() as int) =~= card + "-"@);
}

/// A connector that only writes back into memory is no output, connected or not.
pub proof fn writeback_connectors_are_no_outputs(
    conns: Seq<ConnectorView>,
    card: Seq<char>,
    before: Seq<char>,
    after: Seq<char>,
    status: Option<Seq<char>>,
)
    ensures
        ({
            let name = before + "-Writeback-"@ + after;
            sysfs::connected(conns.push(ConnectorView { name, status }), card) == sysfs::connected(
                conns,
                card,
            )
        }),
{
    let name = before + "-Writeback-"@ + after;
    let n = before.len() as int;
    assert(name.subrange(n, n + "-Writeback-"@.len()) =~= "-Writeback-"@);
    assert(text::occurs_at(name, "-Writeback-"@, n));
    let entry = ConnectorView { name, status };
    assert(conns.push(entry).drop_last() =~= conns);
}

/// An entry for a graphics card behind PCI becomes a card, with the numbers that its files
/// state and the outputs that are connected to it; one behind something else counts only
/// by the display that is connected to it. A card that was seen already, or an entry that
/// is no card's, adds nothing.
pub proof fn cards_are_found(f: Found, e: DriView, conns: Seq<ConnectorView>)
    ensures
        ({
            let g = sysfs::with_entry(f, e, conns);
            let fresh = text::has_suffix(e.path, "-card"@) && text::has_prefix(e.card, "card"@)
                && !f.seen.contains(e.card);
            let name = text::after_last(e.path, '/');
            let pci = text::has_prefix(name, "pci-"@) && !text::has_part(name, "-usb-"@)
                && !text::has_part(name, "-usbv2-"@) && e.class is Some && text::has_prefix(
                text::trimmed(e.class->0),
                "0x03"@,
            );
            let (external, panels) = sysfs::connected(conns, e.card);
            &&& !fresh ==> g == f
            &&& fresh ==> g.seen == f.seen.push(e.card)
            &&& fresh && !pci ==> g.cards == f.cards
            &&& fresh && pci ==> g.cards.len() == f.cards.len() + 1 && g.cards.drop_last()
                == f.cards && g.non_pci_display == f.non_pci_display && {
                let c = g.cards.last();
                &&& c.path == e.path
                &&& c.card == e.card
                &&& c.boot_vga == sysfs::int_in(e.boot_vga, 0) as u32
                &&& c.vram == sysfs::int_in(e.vram, 0) as u64
                &&& c.external == external as u32
                &&& c.edp == panels as u32
            }
            &&& fresh && !pci && (external as u32) + (panels as u32) > 0 ==> g.non_pci_display
            &&& fresh && !pci && (external as u32) + (panels as u32) == 0 ==> g.non_pci_display
                == f.non_pci_display
        }),
{
    let g = sysfs::with_entry(f, e, conns);
    if g.cards.len() == f.cards.len() + 1 {
        assert(g.cards.drop_last() =~= f.cards);
    }
}

/// A connected output is known by what stands behind its card's name.
pub proof fn outputs_are_known_by_card_and_name(card: Seq<char>, output: Seq<char>)
    requires
        !card.contains('-'),
        !text::has_part(card + seq!['-'] + output, "-Writeback-"@),
    ensures
        sysfs::output_of(
            ConnectorView { name: card + seq!['-'] + output, status: Some("connected"@) },
        ) == Some((output, card)),
        sysfs::output_of(
            ConnectorView { name: card + seq!['-'] + output, status: Some("disconnected"@) },
        ) is None,
{
    reveal_strlit("-");
    reveal_strlit("connected");
    reveal_strlit("disconnected");
    let name = card + seq!['-'] + output;
    let n = card.len() as int;
    assert forall|i: int| 0 <= i < n implies name[i] != '-' by {
        assert(name[i] == card[i]);
        assert(card.contains(card[i]));
    }
    assert(name[n] == '-');
    text::lemma_find(name, '-', n);
    assert(name.take(n) =~= card);
    assert(name.skip(n + 1) =~= output);
    assert(name.take(n + 1) =~= card + "-"@);
    let none = Seq::<char>::empty();
    texts::trimming_drops_what_is_round_a_text(none, "connected"@, none);
    assert(none + "connected"@ + none =~= "connected"@);
    texts::trimming_drops_what_is_round_a_text(none, "disconnected"@, none);
    assert(none + "disconnected"@ + none =~= "disconnected"@);
    assert("connected"@[0] != "disconnected"@[0]);
}

// -------------------------------------------------------------------- the compositor

/// Every monitor whose name does not start like a panel's is external, and counts once.
pub proof fn external_monitors_are_counted(s: Seq<MonitorSnapshot>, m: MonitorSnapshot)
    ensures
        text::has_prefix(m.name@, "eDP"@) ==> hyprctl::external_count(s.push(m))
            == hyprctl::external_count(s),
        !text::has_prefix(m.name@, "eDP"@) ==> hyprctl::external_count(s.push(m))
            == hyprctl::external_count(s) + 1,
        hyprctl::external_count(Seq::empty()) == 0,
        m.is_dark() == (!m.disabled && !m.dpms_status),
{
    assert(s.push(m).drop_last() =~= s);
}

/// The session is locked where the compositor says so in that word, and unlocked where it
/// says the other; any other answer, and a command that failed, tells nothing.
pub proof fn the_compositor_tells_of_its_lock(word: Seq<char>, success: bool)
    requires
        text::trimmed(word) != "true"@,
        text::trimmed(word) != "false"@,
    ensures
        hyprctl::locked_of(true, "true"@ + "\n"@) == Some(true),
        hyprctl::locked_of(true, "false"@ + "\n"@) == Some(false),
        hyprctl::locked_of(success, word) is None,
        hyprctl::locked_of(false, "true"@ + "\n"@) is None,
{
    reveal_strlit("true");
    reveal_strlit("false");
    reveal_strlit("\n");
    let none = Seq::<char>::empty();
    texts::trimming_drops_what_is_round_a_text(none, "true"@, "\n"@);
    texts::trimming_drops_what_is_round_a_text(none, "false"@, "\n"@);
    assert(none + "true"@ + "\n"@ =~= "true"@ + "\n"@);
    assert(none + "false"@ + "\n"@ =~= "false"@ + "\n"@);
    assert("true"@[0] != "false"@[0]);
}

/// A workspace on the monitor is reported by its number, in the order of the reply; a
/// special one, or one elsewhere, is not.
pub proof fn workspaces_of_a_monitor_are_reported(
    rows: Seq<json::Json>,
    row: json::Json,
    monitor: Seq<char>,
)
    ensures
        ({
            let on = row.text_at("monitor"@) == Some(monitor);
            let id = row.integer_at("id"@);
            let before = hyprctl::workspaces_of(rows, monitor);
            let after = hyprctl::workspaces_of(rows.push(row), monitor);
            &&& on && id is Some && id->0 > 0 ==> after == before.push(id->0)
            &&& !on || id is None || id->0 <= 0 ==> after == before
        }),
{
    assert(rows.push(row).drop_last() =~= rows);
}

/// The first row that names no panel is the monitor that takes workspaces.
pub proof fn the_first_external_monitor_is_taken(row: json::Json, rest: Seq<json::Json>)
    ensures
        ({
            let name = row.text_at("name"@);
            let first = hyprctl::first_external_of(seq![row] + rest);
            &&& name is Some && !text::has_prefix(name->0, "eDP"@) ==> first == name
            &&& name is None || text::has_prefix(name->0, "eDP"@) ==> first
                == hyprctl::first_external_of(rest)
            &&& hyprctl::first_external_of(Seq::empty()) is None
        }),
{
    assert((seq![row] + rest).skip(1) =~= rest);
}

/// The cursor is where the reply has it, across and down.
pub proof fn the_cursor_is_where_it_is_told(doc: json::Json, x: int, y: int)
    ensures
        doc.integer_at("x"@) == Some(x) && doc.integer_at("y"@) == Some(y)
            ==> hyprctl::position_of(doc) == Some((x, y)),
        doc.integer_at("x"@) is None || doc.integer_at("y"@) is None ==> hyprctl::position_of(
            doc,
        ) is None,
{
}

/// A member of an object is read by its name and kind: a number that fits, or a text; and
/// what is no object has no members.
pub proof fn members_are_read_by_name(
    m: Map<Seq<char>, json::Json>,
    key: Seq<char>,
    n: int,
    s: Seq<char>,
    other: json::Json,
)
    requires
        !(other is Object),
    ensures
        i64::MIN <= n <= i64::MAX ==> json::Json::Object(
            m.insert(key, json::Json::Integer(n)),
        ).integer_at(key) == Some(n),
        n < i64::MIN || n > i64::MAX ==> json::Json::Object(
            m.insert(key, json::Json::Integer(n)),
        ).integer_at(key) is None,
        json::Json::Object(m.insert(key, json::Json::Text(s))).text_at(key) == Some(s),
        json::Json::Object(m.insert(key, json::Json::Text(s))).integer_at(key) is None,
        json::Json::Object(m.insert(key, json::Json::Integer(n))).text_at(key) is None,
        json::Json::Object(m.remove(key)).integer_at(key) is None,
        json::Json::Object(m.remove(key)).text_at(key) is None,
        other.integer_at(key) is None && other.text_at(key) is None,
{
}

/// The device list of a session is what stands behind its variable in the environment,
/// piece by piece.
pub proof fn the_session_lists_its_devices(value: Seq<u8>, rest: Seq<u8>)
    requires
        !value.contains(0),
    ensures
        ({
            let key = vstd::utf8::encode_utf8("AQ_DRM_DEVICES="@);
            &&& hypr_instance::devices_in(key + value) == hypr_instance::nonempty(
                text::split_of(hypr_instance::lossy_text(value), ':'),
            )
            &&& hypr_instance::devices_in(key + value + seq![0u8] + rest)
                == hypr_instance::nonempty(
                text::split_of(hypr_instance::lossy_text(value), ':'),
            )
            &&& hypr_instance::devices_in(Seq::empty()).len() == 0
        }),
{
    reveal_strlit("AQ_DRM_DEVICES=");
    let name = "AQ_DRM_DEVICES="@;
    let key = vstd::utf8::encode_utf8(name);
    assert(vstd::utf8::is_ascii_chars(name));
    vstd::utf8::is_ascii_chars_encode_utf8(name);
    assert(!key.contains(0)) by {
        if key.contains(0) {
            let i = choose|i: int| 0 <= i < key.len() && key[i] == 0;
            assert(name[i] as u8 == key[i]);
        }
    }
    let none = Seq::<u8>::empty();
    assert(!hypr_instance::bytes_prefix(none, key));
    variables_are_found_in_the_environment(none, key, value, rest);
}

/// The first line of the lock file holds the process id.
pub proof fn lock_files_hold_the_process_id(pid: u32, rest: Seq<char>)
    ensures
        hypr_instance::pid_in(number::decimal(pid as nat) + seq!['\n'] + rest) == Some(pid as int),
        hypr_instance::pid_in(Seq::empty()) is None,
{
    let d = number::decimal(pid as nat);
    number::lemma_decimal_digits(pid as nat);
    assert(number::is_digit(d[0]));
    assert(number::is_digit(d.last()));
    assert forall|i: int| 0 <= i < d.len() implies d[i] != '\n' by {
        assert(number::is_digit(d[i]));
    }
    texts::lines_end_at_line_feeds(d, rest);
    let none = Seq::<char>::empty();
    texts::trimming_drops_what_is_round_a_text(none, d, none);
    assert(none + d + none =~= d);
    assert(d[0] != '+');
}

/// The value of a variable is what stands behind it in the environment, up to the next
/// zero; variables before it are passed over.
pub proof fn variables_are_found_in_the_environment(
    other: Seq<u8>,
    key: Seq<u8>,
    value: Seq<u8>,
    rest: Seq<u8>,
)
    requires
        !other.contains(0),
        !key.contains(0),
        !value.contains(0),
        !hypr_instance::bytes_prefix(other, key),
    ensures
        hypr_instance::env_value(key + value + seq![0u8] + rest, key) == Some(value),
        hypr_instance::env_value(key + value, key) == Some(value),
        hypr_instance::env_value(other + seq![0u8] + (key + value), key) == Some(value),
        hypr_instance::env_value(other, key) is None,
{
    let here = key + value + seq![0u8] + rest;
    let alone = key + value;
    let n = alone.len() as int;
    assert forall|i: int| 0 <= i < n implies alone[i] != 0 by {
        if i < key.len() {
            assert(alone[i] == key[i]);
            assert(key.contains(key[i]));
        } else {
            assert(alone[i] == value[i - key.len()]);
            assert(value.contains(value[i - key.len()]));
        }
    }
    assert forall|i: int| 0 <= i < n implies here[i] != 0 by {
        assert(here[i] == alone[i]);
    }
    assert(here[n] == 0);
    lemma_zero_at(here, n);
    lemma_zero_at(alone, n);
    assert(here.take(n) =~= alone);
    assert(alone.take(n) =~= alone);
    assert(alone.take(key.len() as int) =~= key);
    assert(alone.skip(key.len() as int) =~= value);
    let after = other + seq![0u8] + alone;
    let m = other.len() as int;
    assert forall|i: int| 0 <= i < m implies after[i] != 0 && other[i] != 0 by {
        assert(after[i] == other[i]);
        assert(other.contains(other[i]));
    }
    assert(after[m] == 0);
    lemma_zero_at(after, m);
    lemma_zero_at(other, m);
    assert(after.take(m) =~= other);
    assert(other.take(m) =~= other);
    assert(after.skip(m + 1) =~= alone);
}

proof fn lemma_zero_at(s: Seq<u8>, k: int)
    requires
        0 <= k <= s.len(),
        forall|i: int| 0 <= i < k ==> #[trigger] s[i] != 0,
        k == s.len() || s[k] == 0,
    ensures
        hypr_instance::until_zero(s) == k,
    decreases k,
{
    if k > 0 {
        let t = s.skip(1);
        assert forall|i: int| 0 <= i < k - 1 implies #[trigger] t[i] != 0 by {
            assert(t[i] == s[i + 1]);
        }
        assert(s[0] != 0);
        lemma_zero_at(t, k - 1);
    }
}

// ------------------------------------------------------------------------- the start

/// A backlight of the panel itself is preferred to any other; one on a display bus is
/// never taken; where there is nothing else, there is none.
pub proof fn the_panel_light_is_taken(names: Seq<Seq<char>>, i: int)
    requires
        0 <= i < names.len(),
        !text::has_prefix(names[i], "ddcci"@),
    ensures
        startup::light_of(names) is Some,
        names.contains(startup::light_of(names)->0),
        !text::has_prefix(startup::light_of(names)->0, "ddcci"@),
        text::has_prefix(names[i], "amdgpu_bl"@) || text::has_prefix(names[i], "intel_backlight"@)
            || text::has_prefix(names[i], "acpi_video"@) ==> {
            let light = startup::light_of(names)->0;
            text::has_prefix(light, "amdgpu_bl"@) || text::has_prefix(light, "intel_backlight"@)
                || text::has_prefix(light, "acpi_video"@)
        },
{
    let local = startup::local_lights(names);
    let sorted = order::sorted_texts(local);
    lemma_local(names, names[i]);
    startup::display_bus_lights_are_left_out(names);
    order::sorted_texts_hold(local);
    assert(sorted.contains(names[i]));
    let k = choose|k: int| 0 <= k < sorted.len() && sorted[k] == names[i];
    lemma_first_panel(sorted, k);
    let light = startup::light_of(names)->0;
    assert(sorted.contains(light));
    assert(local.contains(light));
    let j = choose|j: int| 0 <= j < local.len() && local[j] == light;
    assert(!text::has_prefix(local[j], "ddcci"@));
    lemma_local(names, light);
}

proof fn lemma_local(names: Seq<Seq<char>>, name: Seq<char>)
    ensures
        startup::local_lights(names).contains(name) <==> names.contains(name) && !text::has_prefix(
            name,
            "ddcci"@,
        ),
    decreases names.len(),
{
    if names.len() > 0 {
        let init = names.drop_last();
        let last = names.last();
        lemma_local(init, name);
        let rest = startup::local_lights(init);
        assert(names =~= init.push(last));
        if names.contains(name) {
            let k = choose|k: int| 0 <= k < names.len() && names[k] == name;
            if k < init.len() {
                assert(init[k] == name);
            }
        }
        if init.contains(name) {
            let k = choose|k: int| 0 <= k < init.len() && init[k] == name;
            assert(names[k] == name);
        }
        assert(names[names.len() - 1] == last);
        if rest.contains(name) {
            let k = choose|k: int| 0 <= k < rest.len() && rest[k] == name;
            assert(rest.push(last)[k] == name);
        }
        assert(rest.push(last)[rest.len() as int] == last);
        if rest.push(last).contains(name) {
            let k = choose|k: int| 0 <= k < rest.push(last).len() && rest.push(last)[k] == name;
            if k < rest.len() {
                assert(rest[k] == name);
            }
        }
    }
}

proof fn lemma_first_panel(s: Seq<Seq<char>>, k: int)
    requires
        0 <= k < s.len(),
    ensures
        startup::is_panel_light(s[k]) ==> startup::first_panel_light(s) is Some,
        startup::first_panel_light(s) is Some ==> s.contains(startup::first_panel_light(s)->0)
            && startup::is_panel_light(startup::first_panel_light(s)->0),
    decreases s.len(),
{
    assert(s.contains(s[0]));
    if !startup::is_panel_light(s[0]) && s.len() == 1 {
        assert(startup::first_panel_light(s.skip(1)) is None);
    } else if !startup::is_panel_light(s[0]) {
        let rest = s.skip(1);
        if k > 0 {
            lemma_first_panel(rest, k - 1);
        } else {
            lemma_first_panel(rest, 0);
        }
        if startup::first_panel_light(rest) is Some {
            let light = startup::first_panel_light(rest)->0;
            let j = choose|j: int| 0 <= j < rest.len() && rest[j] == light;
            assert(s[j + 1] == light);
        }
    }
}

/// A backlight is taken on with its range, unless it has none.
pub proof fn lights_are_taken_on_with_their_range(l: LightView, dev: Seq<char>, max: u32)
    ensures
        ({
            let r = startup::light_found(l, dev, max);
            &&& max == 0 ==> r == l
            &&& max > 0 ==> r.dev == Some(dev) && r.max == max
            &&& r.set == l.set && r.saved == l.saved
        }),
{
}

/// The profile that the link names is in force from the start, with its body and its say
/// over the panel; without a link nothing is.
pub proof fn the_linked_profile_is_in_force(
    a: ActiveView,
    name: Seq<char>,
    p: TomlView,
    rest: Seq<TomlView>,
)
    ensures
        ({
            let r = startup::seeded(a, Some(name), seq![p] + rest);
            &&& r.current == Some(name)
            &&& p.inner.name == name ==> r.rev == Some(p) && r.edp_policy == p.inner.edp
        }),
        startup::seeded(a, Some(name), Seq::empty()).current == Some(name),
        startup::seeded(a, Some(name), Seq::empty()).rev == a.rev,
        startup::seeded(a, Some(name), Seq::empty()).edp_policy == a.edp_policy,
        startup::seeded(a, None, rest) == a,
{
    assert((seq![p] + rest)[0] == p);
}

/// The first sample of the battery is kept, and counts as low at the threshold and below.
pub proof fn the_first_sample_counts(p: PowerState, whole: i64, fraction: bool)
    ensures
        ({
            let q = startup::battery_found(p, Some(Percent::Known { whole, fraction }));
            &&& q.battery_percent == Some(Percent::Known { whole, fraction })
            &&& whole < p.battery_low_pct ==> q.low_battery
            &&& whole == p.battery_low_pct && !fraction ==> q.low_battery
            &&& whole > p.battery_low_pct ==> !q.low_battery
            &&& q.policy == p.policy && q.manual == p.manual && q.applied == p.applied
                && q.on_ac_settled == p.on_ac_settled
        }),
        startup::battery_found(p, None).battery_percent is None,
        !startup::battery_found(p, None).low_battery,
{
}

/// A configuration sets the policy and the threshold, and nothing else.
pub proof fn configurations_are_taken_on(p: PowerState, conf: PowerConf)
    ensures
        ({
            let q = startup::configured(p, conf);
            &&& q.policy == conf.policy
            &&& q.battery_low_pct == conf.battery_low_pct
            &&& q.manual == p.manual && q.applied == p.applied && q.low_battery == p.low_battery
                && q.on_ac_settled == p.on_ac_settled
        }),
{
}

/// A wake setting is noted under its label as it is, and complained about unless it is
/// enabled. The controller comes first, and then the hubs and the input devices in turn.
pub proof fn wake_settings_are_noted(w: WakeView, label: Seq<char>, state: Seq<char>)
    requires
        state.len() > 0,
        !text::is_white(state[0]),
        !text::is_white(state.last()),
    ensures
        ({
            let r = startup::noted(w, label, Some(state + "\n"@));
            &&& r.entries == w.entries.push(label + "="@ + state)
            &&& state == "enabled"@ ==> r.bad == w.bad
            &&& state != "enabled"@ ==> r.bad == w.bad.push(label)
        }),
        startup::noted(w, label, None) == w,
{
    reveal_strlit("\n");
    let none = Seq::<char>::empty();
    texts::trimming_drops_what_is_round_a_text(none, state, "\n"@);
    assert(none + state + "\n"@ =~= state + "\n"@);
}

/// A hub is known by its own name; the keyboard and the receiver of the mouse by their
/// makers' numbers; nothing else is looked at.
pub proof fn hubs_and_input_devices_are_tracked(d: UsbView, vendor: Seq<char>, product: Seq<char>)
    ensures
        text::has_prefix(d.name, "usb"@) ==> d.label() == Some(d.name),
        startup::wake_label("3297"@, "1977"@) == Some("ZSA Voyager (keyboard)"@),
        startup::wake_label("046d"@, "c539"@) == Some("Logitech Lightspeed (mouse receiver)"@),
        vendor != "3297"@ && vendor != "046d"@ ==> startup::wake_label(vendor, product) is None,
        product != "1977"@ && product != "c539"@ ==> startup::wake_label(vendor, product) is None,
        !text::has_prefix(d.name, "usb"@) && (d.vendor is None || d.product is None)
            ==> d.label() is None,
        !text::has_prefix(d.name, "usb"@) && d.vendor == Some("3297"@) && d.product == Some(
            "1977"@,
        ) ==> d.label() == Some("ZSA Voyager (keyboard)"@),
{
    reveal_strlit("3297");
    reveal_strlit("046d");
    reveal_strlit("1977");
    assert("3297"@[0] != "046d"@[0]);
    let none = Seq::<char>::empty();
    texts::trimming_drops_what_is_round_a_text(none, "3297"@, none);
    assert(none + "3297"@ + none =~= "3297"@);
    texts::trimming_drops_what_is_round_a_text(none, "1977"@, none);
    assert(none + "1977"@ + none =~= "1977"@);
}

/// The controller's wake setting is noted first, and then that of each device that is
/// tracked, in turn.
pub proof fn wake_settings_are_noted_in_turn(
    controller: Option<Seq<char>>,
    devices: Seq<UsbView>,
    d: UsbView,
)
    ensures
        ({
            let before = startup::wake_of(controller, devices);
            let after = startup::wake_of(controller, devices.push(d));
            &&& d.label() is None ==> after == before
            &&& d.label() is Some ==> after == startup::noted(before, d.label()->0, d.wakeup)
            &&& startup::wake_of(controller, Seq::empty()) == startup::noted(
                WakeView { entries: Seq::empty(), bad: Seq::empty() },
                "controller"@,
                controller,
            )
        }),
{
    assert(devices.push(d).drop_last() =~= devices);
}

/// Entries are looked at one after another, and in the order of their paths.
pub proof fn entries_are_looked_at_by_path(
    entries: Seq<DriView>,
    e: DriView,
    conns: Seq<ConnectorView>,
    a: DriView,
    b: DriView,
)
    requires
        text::text_less(a.path, b.path),
    ensures
        sysfs::found(entries.push(e), conns) == sysfs::with_entry(
            sysfs::found(entries, conns),
            e,
            conns,
        ),
        sysfs::found(Seq::empty(), conns).cards.len() == 0,
        !sysfs::found(Seq::empty(), conns).non_pci_display,
        sysfs::in_path_order(seq![a, b]) == seq![a, b],
        sysfs::in_path_order(seq![b, a]) == seq![a, b],
{
    assert(entries.push(e).drop_last() =~= entries);
    text::lemma_text_irreflexive(a.path);
    if text::text_less(b.path, a.path) {
        text::lemma_text_transitive(a.path, b.path, a.path);
    }
    reveal_with_fuel(order::order, 3);
    reveal_with_fuel(order::place, 3);
    let kept = sysfs::by_path(seq![a, b]);
    let turned = sysfs::by_path(seq![b, a]);
    assert(!kept(1, 0));
    assert(turned(1, 0));
    assert(order::order(kept, 0) =~= Seq::<int>::empty());
    assert(order::order(kept, 1) =~= seq![0int]);
    assert(order::order(kept, 2) =~= seq![0int, 1int]);
    assert(order::order(turned, 0) =~= Seq::<int>::empty());
    assert(order::order(turned, 1) =~= seq![0int]);
    assert(seq![0int].drop_last() =~= Seq::<int>::empty());
    assert(order::place(turned, seq![0int], 1) =~= seq![1int, 0int]);
    assert(order::order(turned, 2) =~= seq![1int, 0int]);
    assert(sysfs::in_path_order(seq![a, b]) =~= seq![a, b]);
    assert(sysfs::in_path_order(seq![b, a]) =~= seq![a, b]);
}

/// The connected outputs are gathered in order.
pub proof fn connected_outputs_are_gathered(conns: Seq<ConnectorView>, c: ConnectorView)
    ensures
        sysfs::output_of(c) is Some ==> sysfs::outputs_of(conns.push(c)) == sysfs::outputs_of(
            conns,
        ).push(sysfs::output_of(c)->0),
        sysfs::output_of(c) is None ==> sysfs::outputs_of(conns.push(c)) == sysfs::outputs_of(
            conns,
        ),
        sysfs::outputs_of(Seq::empty()).len() == 0,
{
    assert(conns.push(c).drop_last() =~= conns);
}

} // verus!
