//! What the compositor's control replies say.
use vstd::prelude::*;

use crate::hypr_instance;
use crate::hypr_instance::decode_lossy;
use crate::json;
use crate::number;
use crate::text;

verus! {

/// The internal panel.
pub const EDP_MONITOR: &'static str = "eDP-2";

/// One monitor of a `monitors` reply.
#[derive(Debug)]
pub struct MonitorSnapshot {
    pub name: String,
    pub description: String,
    pub disabled: bool,
    pub dpms_status: bool,
}

impl Clone for MonitorSnapshot {
    fn clone(&self) -> (r: Self)
        ensures
            r == *self,
    {
        MonitorSnapshot {
            name: self.name.clone(),
            description: self.description.clone(),
            disabled: self.disabled,
            dpms_status: self.dpms_status,
        }
    }
}

impl MonitorSnapshot {
    /// The monitor is no internal panel.
    pub open spec fn is_external(self) -> bool {
        !text::has_prefix(self.name@, "eDP"@)
    }

    /// The monitor is enabled but dark.
    pub open spec fn is_dark(self) -> bool {
        !self.disabled && !self.dpms_status
    }
}

/// How many monitors are no internal panel.
pub open spec fn external_count(s: Seq<MonitorSnapshot>) -> nat
    decreases s.len(),
{
    if s.len() == 0 {
        0
    } else {
        external_count(s.drop_last()) + (if s.last().is_external() {
            1nat
        } else {
            0
        })
    }
}

/// The number of external monitors. Where the reply failed the previous count
/// stands: a transient failure must not look like an undock.
pub fn ext_monitor_count_in(monitors: Option<&[MonitorSnapshot]>, prev: u32) -> (r: u32)
    ensures
        r == (match monitors {
            Some(m) => external_count(m@) as u32,
            None => prev,
        }),
{
    match monitors {
        Some(m) => {
            let mut n: usize = 0;
            let mut i: usize = 0;
            while i < m.len()
                invariant
                    i <= m@.len(),
                    n <= i,
                    n == external_count(m@.take(i as int)),
                decreases m@.len() - i,
            {
                proof {
                    assert(m@.take(i + 1).drop_last() =~= m@.take(i as int));
                    assert(m@.take(i + 1).last() == m@[i as int]);
                }
                if !text::starts_with(m[i].name.as_str(), "eDP") {
                    n += 1;
                }
                i += 1;
            }
            assert(m@.take(m@.len() as int) =~= m@);
            n as u32
        },
        None => prev,
    }
}

/// The descriptions of monitors, in order.
pub open spec fn descriptions(s: Seq<MonitorSnapshot>) -> Seq<Seq<char>> {
    Seq::new(s.len(), |i: int| s[i].description@)
}

/// The descriptions of the connected monitors; none where the reply failed.
pub fn monitor_signature(monitors: Option<&[MonitorSnapshot]>) -> (r: Vec<String>)
    ensures
        text::strings(r@) == (match monitors {
            Some(m) => descriptions(m@),
            None => seq![],
        }),
{
    let mut out: Vec<String> = Vec::new();
    match monitors {
        Some(m) => {
            let mut i: usize = 0;
            while i < m.len()
                invariant
                    i <= m@.len(),
                    out@.len() == i,
                    forall|k: int| 0 <= k < i ==> (#[trigger] out@[k])@ == m@[k].description@,
                decreases m@.len() - i,
            {
                out.push(m[i].description.clone());
                i += 1;
            }
            assert(text::strings(out@) =~= descriptions(m@));
        },
        None => {
            assert(text::strings(out@) =~= Seq::<Seq<char>>::empty());
        },
    }
    out
}

/// The first monitor of a given name is the one at `i`.
pub open spec fn first_named(s: Seq<MonitorSnapshot>, name: Seq<char>, i: int) -> bool {
    &&& 0 <= i < s.len()
    &&& s[i].name@ == name
    &&& forall|j: int| 0 <= j < i ==> (#[trigger] s[j]).name@ != name
}

/// Whether the internal panel is disabled; `None` where no monitor is it.
pub fn edp_is_disabled_in(monitors: &[MonitorSnapshot]) -> (r: Option<bool>)
    ensures
        match r {
            Some(d) => exists|i: int|
                first_named(monitors@, EDP_MONITOR@, i) && d == monitors@[i].disabled,
            None => forall|i: int|
                0 <= i < monitors@.len() ==> (#[trigger] monitors@[i]).name@ != EDP_MONITOR@,
        },
{
    let mut i: usize = 0;
    while i < monitors.len()
        invariant
            i <= monitors@.len(),
            forall|j: int| 0 <= j < i ==> (#[trigger] monitors@[j]).name@ != EDP_MONITOR@,
        decreases monitors@.len() - i,
    {
        if text::str_eq(monitors[i].name.as_str(), EDP_MONITOR) {
            assert(first_named(monitors@, EDP_MONITOR@, i as int));
            return Some(monitors[i].disabled);
        }
        i += 1;
    }
    None
}

/// Whether any enabled output is dark. Disabled outputs do not count: a disabled
/// panel reports DPMS off forever.
pub fn any_enabled_monitor_dpms_off_in(monitors: &[MonitorSnapshot]) -> (r: bool)
    ensures
        r == exists|i: int| 0 <= i < monitors@.len() && (#[trigger] monitors@[i]).is_dark(),
{
    let mut i: usize = 0;
    while i < monitors.len()
        invariant
            i <= monitors@.len(),
            forall|j: int| 0 <= j < i ==> !(#[trigger] monitors@[j]).is_dark(),
        decreases monitors@.len() - i,
    {
        if !monitors[i].disabled && !monitors[i].dpms_status {
            assert(monitors@[i as int].is_dark());
            return true;
        }
        i += 1;
    }
    false
}

/// What a `locked` reply says: nothing where the command failed or the answer is
/// neither `true` nor `false`.
pub open spec fn locked_of(success: bool, reply: Seq<char>) -> Option<bool> {
    if success && text::trimmed(reply) == "true"@ {
        Some(true)
    } else if success && text::trimmed(reply) == "false"@ {
        Some(false)
    } else {
        None
    }
}

/// Whether the compositor holds a session lock, going by what its `locked` command
/// printed.
pub fn session_is_locked(success: bool, stdout: &[u8]) -> (r: Option<bool>)
    ensures
        r == locked_of(success, hypr_instance::lossy_text(stdout@)),
{
    locked_reply(success, decode_lossy(stdout).as_str())
}

/// Whether the compositor holds a session lock, going by its `locked` reply.
pub fn locked_reply(success: bool, reply: &str) -> (r: Option<bool>)
    ensures
        r == locked_of(success, reply@),
{
    proof {
        reveal_strlit("true");
        reveal_strlit("false");
        assert("true"@[0] != "false"@[0]);
    }
    if !success {
        return None;
    }
    let word = text::trim(reply);
    if text::str_eq(word, "true") {
        Some(true)
    } else if text::str_eq(word, "false") {
        Some(false)
    } else {
        None
    }
}

/// Whether a live locker holds the session. The compositor's own lock is the proof; a
/// hint that contradicts it spoils it, and one that merely lingers proves nothing.
pub fn live_locker(hint: Option<bool>, compositor: Option<bool>) -> (r: bool)
    ensures
        r == (compositor == Some(true) && hint != Some(false)),
{
    let held = match compositor {
        Some(b) => b,
        None => false,
    };
    let denied = match hint {
        Some(b) => !b,
        None => false,
    };
    held && !denied
}

/// The position that a `cursorpos` document states.
pub open spec fn position_of(doc: json::Json) -> Option<(int, int)> {
    match (doc.integer_at("x"@), doc.integer_at("y"@)) {
        (Some(x), Some(y)) => Some((x, y)),
        _ => None,
    }
}

/// The cursor position that a parsed `cursorpos` reply states.
pub fn cursor_position(doc: &serde_json::Value) -> (r: Option<(i64, i64)>)
    ensures
        match r {
            Some((x, y)) => position_of(json::json_of(*doc)) == Some((x as int, y as int)),
            None => position_of(json::json_of(*doc)) is None,
        },
{
    match (json::integer_at(doc, "x"), json::integer_at(doc, "y")) {
        (Some(x), Some(y)) => Some((x, y)),
        _ => None,
    }
}

/// The cursor position out of a raw `cursorpos` reply. It reads fine while the
/// outputs are dark, which is what makes it a sign of someone's presence.
pub fn cursor_pos(reply: &[u8]) -> (r: Option<(i64, i64)>)
    ensures
        match r {
            Some((x, y)) => json::parsed_json(reply@) is Some && position_of(
                json::parsed_json(reply@)->0,
            ) == Some((x as int, y as int)),
            None => json::parsed_json(reply@) is Some ==> position_of(
                json::parsed_json(reply@)->0,
            ) is None,
        },
{
    match json::parse(reply) {
        Ok(doc) => cursor_position(&doc),
        Err(_) => None,
    }
}

/// The regular workspaces of `rows` that are on a given monitor, in order. Special
/// workspaces have negative ids and do not count.
pub open spec fn workspaces_of(rows: Seq<json::Json>, monitor: Seq<char>) -> Seq<int>
    decreases rows.len(),
{
    if rows.len() == 0 {
        seq![]
    } else {
        let init = workspaces_of(rows.drop_last(), monitor);
        let row = rows.last();
        match row.integer_at("id"@) {
            Some(id) => if row.text_at("monitor"@) == Some(monitor) && id > 0 {
                init.push(id)
            } else {
                init
            },
            None => init,
        }
    }
}

/// The numbers that a list of machine integers holds.
pub open spec fn ints(s: Seq<i64>) -> Seq<int> {
    Seq::new(s.len(), |i: int| s[i] as int)
}

/// The regular workspaces on a monitor, going by the rows of a `workspaces` reply.
pub fn workspaces_in(rows: &Vec<serde_json::Value>, monitor: &str) -> (r: Vec<i64>)
    ensures
        ints(r@) == workspaces_of(json::jsons(rows@), monitor@),
{
    let ghost all = json::jsons(rows@);
    let mut out: Vec<i64> = Vec::new();
    let mut i: usize = 0;
    assert(ints(out@) =~= workspaces_of(all.take(0), monitor@));
    while i < rows.len()
        invariant
            i <= rows@.len(),
            all == json::jsons(rows@),
            ints(out@) == workspaces_of(all.take(i as int), monitor@),
        decreases rows@.len() - i,
    {
        proof {
            assert(all.take(i + 1).drop_last() =~= all.take(i as int));
            assert(all.take(i + 1).last() == json::json_of(rows@[i as int]));
        }
        let ghost before = ints(out@);
        if text::opt_is(json::text_at(&rows[i], "monitor"), monitor) {
            match json::integer_at(&rows[i], "id") {
                Some(id) => {
                    if id > 0 {
                        out.push(id);
                        assert(ints(out@) =~= before.push(id as int));
                    }
                },
                None => {},
            }
        }
        i += 1;
    }
    assert(all.take(all.len() as int) =~= all);
    out
}

/// The regular workspaces on a monitor, going by a whole `workspaces` reply; none
/// where the reply failed or is no list.
pub fn workspaces_on_monitor(reply: Option<&serde_json::Value>, monitor: &str) -> (r: Vec<i64>)
    ensures
        ints(r@) == (match reply {
            Some(v) => match json::json_of(*v) {
                json::Json::List(rows) => workspaces_of(rows, monitor@),
                _ => seq![],
            },
            None => seq![],
        }),
{
    let empty: Vec<i64> = Vec::new();
    assert(ints(empty@) =~= Seq::<int>::empty());
    match reply {
        Some(v) => match json::elements(v) {
            Some(rows) => workspaces_in(rows, monitor),
            None => empty,
        },
        None => empty,
    }
}

/// The name of a row that is no internal panel.
pub open spec fn external_name(row: json::Json) -> Option<Seq<char>> {
    match row.text_at("name"@) {
        Some(n) => if text::has_prefix(n, "eDP"@) {
            None
        } else {
            Some(n)
        },
        None => None,
    }
}

/// The first external name among the rows.
pub open spec fn first_external_of(rows: Seq<json::Json>) -> Option<Seq<char>>
    decreases rows.len(),
{
    if rows.len() == 0 {
        None
    } else if external_name(rows[0]) is Some {
        external_name(rows[0])
    } else {
        first_external_of(rows.skip(1))
    }
}

/// The first external monitor, going by the rows of a `monitors` reply.
pub fn first_external_in(rows: &Vec<serde_json::Value>) -> (r: Option<String>)
    ensures
        text::opt_string(r) == first_external_of(json::jsons(rows@)),
{
    let ghost all = json::jsons(rows@);
    let mut i: usize = 0;
    assert(all.skip(0) =~= all);
    while i < rows.len()
        invariant
            i <= rows@.len(),
            all == json::jsons(rows@),
            first_external_of(all) == first_external_of(all.skip(i as int)),
        decreases rows@.len() - i,
    {
        proof {
            assert(all.skip(i as int)[0] == json::json_of(rows@[i as int]));
            assert(all.skip(i as int).skip(1) =~= all.skip(i + 1));
        }
        match json::text_at(&rows[i], "name") {
            Some(name) => {
                if !text::starts_with(name, "eDP") {
                    return Some(String::from_str(name));
                }
            },
            None => {},
        }
        i += 1;
    }
    None
}

/// The first enabled external monitor, going by a whole `monitors` reply, which
/// lists enabled outputs only: the set that can receive a workspace.
pub fn first_external_monitor(reply: Option<&serde_json::Value>) -> (r: Option<String>)
    ensures
        text::opt_string(r) == (match reply {
            Some(v) => match json::json_of(*v) {
                json::Json::List(rows) => first_external_of(rows),
                _ => None,
            },
            None => None,
        }),
{
    match reply {
        Some(v) => match json::elements(v) {
            Some(rows) => first_external_in(rows),
            None => None,
        },
        None => None,
    }
}

// ---------------------------------------------------------------------- laws

/// Every workspace that is reported is a regular one.
pub proof fn reported_workspaces_are_regular(rows: Seq<json::Json>, monitor: Seq<char>)
    ensures
        forall|i: int|
            0 <= i < workspaces_of(rows, monitor).len() ==> #[trigger] workspaces_of(rows, monitor)[i]
                > 0,
    decreases rows.len(),
{
    if rows.len() > 0 {
        let init = workspaces_of(rows.drop_last(), monitor);
        reported_workspaces_are_regular(rows.drop_last(), monitor);
        let all = workspaces_of(rows, monitor);
        assert forall|i: int| 0 <= i < all.len() implies #[trigger] all[i] > 0 by {
            if i < init.len() {
                assert(all[i] == init[i]);
            }
        }
    }
}

/// A monitor that is reported as external is no internal panel.
pub proof fn reported_external_is_no_panel(rows: Seq<json::Json>)
    ensures
        first_external_of(rows) matches Some(n) ==> !text::has_prefix(n, "eDP"@),
    decreases rows.len(),
{
    if rows.len() > 0 {
        reported_external_is_no_panel(rows.skip(1));
    }
}

} // verus!
