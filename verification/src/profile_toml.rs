//! Profiles as TOML documents, and the comparison of a profile with what it was
//! converted from.
use vstd::prelude::*;

use crate::json;
use crate::number;
use crate::profiles::{EdpPolicy, GpuPref};
use crate::text;

verus! {

// ---------------------------------------------------------------------- documents

/// A monitor of a profile.
#[derive(Debug)]
pub struct MonitorDoc {
    pub output: String,
    /// The mode as text.
    pub mode: Option<String>,
    /// The scale with two decimals; `None` for a scale of one.
    pub scale: Option<String>,
    pub position: Option<(i32, i32)>,
    pub transform: u32,
    pub enabled: bool,
}

/// What a [`MonitorDoc`] holds.
pub struct MonitorView {
    pub output: Seq<char>,
    pub mode: Option<Seq<char>>,
    pub scale: Option<Seq<char>>,
    pub position: Option<(i32, i32)>,
    pub transform: u32,
    pub enabled: bool,
}

impl View for MonitorDoc {
    type V = MonitorView;

    open spec fn view(&self) -> MonitorView {
        MonitorView {
            output: self.output@,
            mode: text::opt_string(self.mode),
            scale: text::opt_string(self.scale),
            position: self.position,
            transform: self.transform,
            enabled: self.enabled,
        }
    }
}

pub open spec fn monitor_views(s: Seq<MonitorDoc>) -> Seq<MonitorView> {
    Seq::new(s.len(), |i: int| s[i]@)
}

/// A workspace of a profile.
#[derive(Debug)]
pub struct WorkspaceDoc {
    pub workspace: String,
    pub monitor: String,
    pub default: bool,
}

/// What a [`WorkspaceDoc`] holds.
pub struct WorkspaceView {
    pub workspace: Seq<char>,
    pub monitor: Seq<char>,
    pub default: bool,
}

impl View for WorkspaceDoc {
    type V = WorkspaceView;

    open spec fn view(&self) -> WorkspaceView {
        WorkspaceView {
            workspace: self.workspace@,
            monitor: self.monitor@,
            default: self.default,
        }
    }
}

pub open spec fn workspace_views(s: Seq<WorkspaceDoc>) -> Seq<WorkspaceView> {
    Seq::new(s.len(), |i: int| s[i]@)
}

/// A whole profile.
#[derive(Debug)]
pub struct ProfileDoc {
    pub name: String,
    pub description: String,
    pub matches: Vec<String>,
    pub edp: EdpPolicy,
    pub gpu: GpuPref,
    pub hooks: Vec<String>,
    pub priority: i64,
    pub monitors: Vec<MonitorDoc>,
    pub workspaces: Vec<WorkspaceDoc>,
}

/// What a [`ProfileDoc`] holds.
pub struct DocView {
    pub name: Seq<char>,
    pub description: Seq<char>,
    pub matches: Seq<Seq<char>>,
    pub edp: EdpPolicy,
    pub gpu: GpuPref,
    pub hooks: Seq<Seq<char>>,
    pub priority: int,
    pub monitors: Seq<MonitorView>,
    pub workspaces: Seq<WorkspaceView>,
}

impl View for ProfileDoc {
    type V = DocView;

    open spec fn view(&self) -> DocView {
        DocView {
            name: self.name@,
            description: self.description@,
            matches: text::strings(self.matches@),
            edp: self.edp,
            gpu: self.gpu,
            hooks: text::strings(self.hooks@),
            priority: self.priority as int,
            monitors: monitor_views(self.monitors@),
            workspaces: workspace_views(self.workspaces@),
        }
    }
}

// ------------------------------------------------------------------------- writing

/// A number with decimals, without the zeros at its end.
pub open spec fn plain_number(s: Seq<char>) -> Seq<char> {
    text::without_tail(text::without_tail(s, '0'), '.')
}

/// A number with decimals, without the zeros at its end.
pub fn format_number(s: &str) -> (r: &str)
    ensures
        r@ == plain_number(s@),
{
    text::trim_end_char(text::trim_end_char(s, '0'), '.')
}

/// Strings between brackets.
pub open spec fn quoted_list(s: Seq<Seq<char>>) -> Seq<char> {
    "["@ + text::joined(Seq::new(s.len(), |i: int| json::quoted(s[i])), ", "@) + "]"@
}

fn quote_list(s: &Vec<String>) -> (r: String)
    ensures
        r@ == quoted_list(text::strings(s@)),
{
    let ghost all = text::strings(s@);
    let mut parts: Vec<String> = Vec::new();
    let mut i: usize = 0;
    while i < s.len()
        invariant
            i <= s@.len(),
            all == text::strings(s@),
            parts@.len() == i,
            forall|k: int| 0 <= k < i ==> (#[trigger] parts@[k])@ == json::quoted(all[k]),
        decreases s@.len() - i,
    {
        assert(all[i as int] == s@[i as int]@);
        parts.push(json::quote(s[i].as_str()));
        i += 1;
    }
    assert(text::strings(parts@) =~= Seq::new(all.len(), |i: int| json::quoted(all[i])));
    text::concat3("[", text::join(&parts, ", ").as_str(), "]")
}

/// The lines about a profile as a whole.
pub open spec fn head_of(d: DocView) -> Seq<char> {
    (if d.description.len() > 0 {
        "description = "@ + json::quoted(d.description) + "\n"@
    } else {
        seq![]
    }) + ("match = "@ + quoted_list(d.matches) + "\n"@) + (if d.edp != EdpPolicy::Auto {
        "edp = "@ + text::debug_of(d.edp.word()) + "\n"@
    } else {
        seq![]
    }) + (if d.gpu != GpuPref::Auto {
        "gpu = "@ + text::debug_of(d.gpu.word()) + "\n"@
    } else {
        seq![]
    }) + (if d.hooks.len() > 0 {
        "hooks = "@ + quoted_list(d.hooks) + "\n"@
    } else {
        seq![]
    }) + (if d.priority != d.matches.len() {
        "priority = "@ + number::signed_decimal(d.priority) + "\n"@
    } else {
        seq![]
    })
}

/// The table of one monitor. What has its default value is left out.
pub open spec fn monitor_of(m: MonitorView) -> Seq<char> {
    "\n[[monitor]]\n"@ + ("output = "@ + json::quoted(m.output) + "\n"@) + (match m.mode {
        Some(mode) => "mode = "@ + json::quoted(mode) + "\n"@,
        None => seq![],
    }) + (match m.scale {
        Some(scale) => "scale = "@ + plain_number(scale) + "\n"@,
        None => seq![],
    }) + (match m.position {
        Some(p) => "position = ["@ + number::signed_decimal(p.0 as int) + ", "@
            + number::signed_decimal(p.1 as int) + "]\n"@,
        None => seq![],
    }) + (if m.transform != 0 {
        "transform = "@ + number::decimal(m.transform as nat) + "\n"@
    } else {
        seq![]
    }) + (if m.enabled {
        seq![]
    } else {
        "enabled = false\n"@
    })
}

/// The table of one workspace.
pub open spec fn workspace_of(w: WorkspaceView) -> Seq<char> {
    "\n[[workspace]]\n"@ + ("workspace = "@ + json::quoted(w.workspace) + "\n"@) + ("monitor = "@
        + json::quoted(w.monitor) + "\n"@) + (if w.default {
        "default = true\n"@
    } else {
        seq![]
    })
}

pub open spec fn monitors_of(s: Seq<MonitorView>) -> Seq<char>
    decreases s.len(),
{
    if s.len() == 0 {
        seq![]
    } else {
        monitors_of(s.drop_last()) + monitor_of(s.last())
    }
}

pub open spec fn workspaces_of(s: Seq<WorkspaceView>) -> Seq<char>
    decreases s.len(),
{
    if s.len() == 0 {
        seq![]
    } else {
        workspaces_of(s.drop_last()) + workspace_of(s.last())
    }
}

/// A profile as a TOML document.
pub open spec fn toml_of(d: DocView) -> Seq<char> {
    head_of(d) + monitors_of(d.monitors) + workspaces_of(d.workspaces)
}

/// One line: a key, its value and the end of the line.
fn key_line(key: &str, value: &str) -> (r: String)
    ensures
        r@ == key@ + value@ + "\n"@,
{
    text::concat3(key, value, "\n")
}

fn head(d: &ProfileDoc) -> (r: String)
    ensures
        r@ == head_of(d@),
{
    let mut out = String::new();
    assert(out@ =~= seq![]);
    if d.description.as_str().unicode_len() > 0 {
        out.append(key_line("description = ", json::quote(d.description.as_str()).as_str()).as_str());
    }
    out.append(key_line("match = ", quote_list(&d.matches).as_str()).as_str());
    if d.edp != EdpPolicy::Auto {
        out.append(key_line("edp = ", text::debug_text(d.edp.as_str()).as_str()).as_str());
    }
    if d.gpu != GpuPref::Auto {
        out.append(key_line("gpu = ", text::debug_text(d.gpu.as_str()).as_str()).as_str());
    }
    if d.hooks.len() > 0 {
        out.append(key_line("hooks = ", quote_list(&d.hooks).as_str()).as_str());
    }
    if d.priority < 0 || d.priority as u64 != d.matches.len() as u64 {
        out.append(key_line("priority = ", number::i64_text(d.priority).as_str()).as_str());
    }
    assert(out@ =~= head_of(d@));
    out
}

fn position_text(p: (i32, i32)) -> (r: String)
    ensures
        r@ == "position = ["@ + number::signed_decimal(p.0 as int) + ", "@ + number::signed_decimal(
            p.1 as int,
        ) + "]\n"@,
{
    let mut out = text::concat3("position = [", number::i64_text(p.0 as i64).as_str(), ", ");
    out.append(number::i64_text(p.1 as i64).as_str());
    out.append("]\n");
    out
}

fn monitor_text(m: &MonitorDoc) -> (r: String)
    ensures
        r@ == monitor_of(m@),
{
    let mut out = String::from_str("\n[[monitor]]\n");
    out.append(key_line("output = ", json::quote(m.output.as_str()).as_str()).as_str());
    match &m.mode {
        Some(mode) => {
            out.append(key_line("mode = ", json::quote(mode.as_str()).as_str()).as_str());
        },
        None => {},
    }
    match &m.scale {
        Some(scale) => {
            out.append(key_line("scale = ", format_number(scale.as_str())).as_str());
        },
        None => {},
    }
    match m.position {
        Some(p) => {
            out.append(position_text(p).as_str());
        },
        None => {},
    }
    if m.transform != 0 {
        out.append(key_line("transform = ", number::u64_text(m.transform as u64).as_str()).as_str());
    }
    if !m.enabled {
        out.append("enabled = false\n");
    }
    assert(out@ =~= monitor_of(m@));
    out
}

fn workspace_text(w: &WorkspaceDoc) -> (r: String)
    ensures
        r@ == workspace_of(w@),
{
    let mut out = String::from_str("\n[[workspace]]\n");
    out.append(key_line("workspace = ", json::quote(w.workspace.as_str()).as_str()).as_str());
    out.append(key_line("monitor = ", json::quote(w.monitor.as_str()).as_str()).as_str());
    if w.default {
        out.append("default = true\n");
    }
    assert(out@ =~= workspace_of(w@));
    out
}

/// Writes a profile as a TOML document. What has its default value is left out.
pub fn to_toml(d: &ProfileDoc) -> (r: String)
    ensures
        r@ == toml_of(d@),
{
    let mut out = head(d);
    let ghost all = monitor_views(d.monitors@);
    let mut i: usize = 0;
    assert(out@ =~= head_of(d@) + monitors_of(all.take(0)));
    while i < d.monitors.len()
        invariant
            i <= d.monitors@.len(),
            all == monitor_views(d.monitors@),
            out@ == head_of(d@) + monitors_of(all.take(i as int)),
        decreases d.monitors@.len() - i,
    {
        proof {
            assert(all.take(i + 1).drop_last() =~= all.take(i as int));
            assert(all.take(i + 1).last() == d.monitors@[i as int]@);
        }
        out.append(monitor_text(&d.monitors[i]).as_str());
        assert(out@ =~= head_of(d@) + monitors_of(all.take(i + 1)));
        i += 1;
    }
    assert(all.take(all.len() as int) =~= all);
    let ghost before = out@;
    let ghost rows = workspace_views(d.workspaces@);
    let mut j: usize = 0;
    assert(out@ =~= before + workspaces_of(rows.take(0)));
    while j < d.workspaces.len()
        invariant
            j <= d.workspaces@.len(),
            rows == workspace_views(d.workspaces@),
            out@ == before + workspaces_of(rows.take(j as int)),
        decreases d.workspaces@.len() - j,
    {
        proof {
            assert(rows.take(j + 1).drop_last() =~= rows.take(j as int));
            assert(rows.take(j + 1).last() == d.workspaces@[j as int]@);
        }
        out.append(workspace_text(&d.workspaces[j]).as_str());
        assert(out@ =~= before + workspaces_of(rows.take(j + 1)));
        j += 1;
    }
    assert(rows.take(rows.len() as int) =~= rows);
    out
}

} // verus!
