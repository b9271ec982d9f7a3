//! The wire types that agents push to the relay and dashboards pull from it.
//!
//! A usage figure that the dashboard shows as a float is carried here as the
//! IEEE-754 bit pattern of that `f64`, which round-trips exactly.

use vstd::prelude::*;

verus! {

/// `Option<String>` taken to its character sequence.
pub open spec fn opt_text(o: Option<String>) -> Option<Seq<char>> {
    match o {
        Some(s) => Some(s@),
        None => None,
    }
}

/// A copy of an optional string.
pub fn copy_opt_text(o: &Option<String>) -> (r: Option<String>)
    ensures
        opt_text(r) == opt_text(*o),
{
    match o {
        Some(s) => Some(s.clone()),
        None => None,
    }
}

/// How a progress line is rendered.
pub enum ProgressFormat {
    Percent,
    Dollars,
    Count { suffix: String },
}

pub enum ProgressFormatView {
    Percent,
    Dollars,
    Count { suffix: Seq<char> },
}

impl View for ProgressFormat {
    type V = ProgressFormatView;

    open spec fn view(&self) -> ProgressFormatView {
        match self {
            ProgressFormat::Percent => ProgressFormatView::Percent,
            ProgressFormat::Dollars => ProgressFormatView::Dollars,
            ProgressFormat::Count { suffix } => ProgressFormatView::Count { suffix: suffix@ },
        }
    }
}

impl Clone for ProgressFormat {
    fn clone(&self) -> (r: Self)
        ensures
            r@ == self@,
    {
        match self {
            ProgressFormat::Percent => ProgressFormat::Percent,
            ProgressFormat::Dollars => ProgressFormat::Dollars,
            ProgressFormat::Count { suffix } => ProgressFormat::Count { suffix: suffix.clone() },
        }
    }
}

/// One line of a provider's usage report.
pub enum MetricLine {
    Text { label: String, value: String, color: Option<String>, subtitle: Option<String> },
    Progress {
        label: String,
        /// The bits of the `f64` amount used.
        used_bits: u64,
        /// The bits of the `f64` limit.
        limit_bits: u64,
        format: ProgressFormat,
        resets_at: Option<String>,
        period_duration_ms: Option<u64>,
        color: Option<String>,
    },
    Badge { label: String, text: String, color: Option<String>, subtitle: Option<String> },
}

pub enum MetricLineView {
    Text {
        label: Seq<char>,
        value: Seq<char>,
        color: Option<Seq<char>>,
        subtitle: Option<Seq<char>>,
    },
    Progress {
        label: Seq<char>,
        used_bits: u64,
        limit_bits: u64,
        format: ProgressFormatView,
        resets_at: Option<Seq<char>>,
        period_duration_ms: Option<u64>,
        color: Option<Seq<char>>,
    },
    Badge {
        label: Seq<char>,
        text: Seq<char>,
        color: Option<Seq<char>>,
        subtitle: Option<Seq<char>>,
    },
}

impl View for MetricLine {
    type V = MetricLineView;

    open spec fn view(&self) -> MetricLineView {
        match self {
            MetricLine::Text { label, value, color, subtitle } => MetricLineView::Text {
                label: label@,
                value: value@,
                color: opt_text(*color),
                subtitle: opt_text(*subtitle),
            },
            MetricLine::Progress {
                label,
                used_bits,
                limit_bits,
                format,
                resets_at,
                period_duration_ms,
                color,
            } => MetricLineView::Progress {
                label: label@,
                used_bits: *used_bits,
                limit_bits: *limit_bits,
                format: format@,
                resets_at: opt_text(*resets_at),
                period_duration_ms: *period_duration_ms,
                color: opt_text(*color),
            },
            MetricLine::Badge { label, text, color, subtitle } => MetricLineView::Badge {
                label: label@,
                text: text@,
                color: opt_text(*color),
                subtitle: opt_text(*subtitle),
            },
        }
    }
}

impl Clone for MetricLine {
    fn clone(&self) -> (r: Self)
        ensures
            r@ == self@,
    {
        match self {
            MetricLine::Text { label, value, color, subtitle } => MetricLine::Text {
                label: label.clone(),
                value: value.clone(),
                color: copy_opt_text(color),
                subtitle: copy_opt_text(subtitle),
            },
            MetricLine::Progress {
                label,
                used_bits,
                limit_bits,
                format,
                resets_at,
                period_duration_ms,
                color,
            } => MetricLine::Progress {
                label: label.clone(),
                used_bits: *used_bits,
                limit_bits: *limit_bits,
                format: format.clone(),
                resets_at: copy_opt_text(resets_at),
                period_duration_ms: *period_duration_ms,
                color: copy_opt_text(color),
            },
            MetricLine::Badge { label, text, color, subtitle } => MetricLine::Badge {
                label: label.clone(),
                text: text.clone(),
                color: copy_opt_text(color),
                subtitle: copy_opt_text(subtitle),
            },
        }
    }
}

/// The views of a list of metric lines.
pub open spec fn lines_view(v: Seq<MetricLine>) -> Seq<MetricLineView> {
    v.map_values(|l: MetricLine| l@)
}

/// A copy of a list of metric lines.
pub fn copy_lines(v: &Vec<MetricLine>) -> (r: Vec<MetricLine>)
    ensures
        lines_view(r@) == lines_view(v@),
{
    let mut out: Vec<MetricLine> = Vec::new();
    let mut i: usize = 0;
    while i < v.len()
        invariant
            i <= v@.len(),
            out@.len() == i,
            forall|k: int| 0 <= k < i ==> #[trigger] out@[k]@ == v@[k]@,
        decreases v@.len() - i,
    {
        out.push(v[i].clone());
        i = i + 1;
    }
    assert(lines_view(out@) =~= lines_view(v@));
    out
}

/// One provider's usage report, as last fetched on a machine.
pub struct PluginSnapshot {
    pub provider_id: String,
    pub display_name: String,
    pub plan: Option<String>,
    pub lines: Vec<MetricLine>,
    pub fetched_at: String,
}

pub struct PluginSnapshotView {
    pub provider_id: Seq<char>,
    pub display_name: Seq<char>,
    pub plan: Option<Seq<char>>,
    pub lines: Seq<MetricLineView>,
    pub fetched_at: Seq<char>,
}

impl View for PluginSnapshot {
    type V = PluginSnapshotView;

    open spec fn view(&self) -> PluginSnapshotView {
        PluginSnapshotView {
            provider_id: self.provider_id@,
            display_name: self.display_name@,
            plan: opt_text(self.plan),
            lines: lines_view(self.lines@),
            fetched_at: self.fetched_at@,
        }
    }
}

impl Clone for PluginSnapshot {
    fn clone(&self) -> (r: Self)
        ensures
            r@ == self@,
    {
        PluginSnapshot {
            provider_id: self.provider_id.clone(),
            display_name: self.display_name.clone(),
            plan: copy_opt_text(&self.plan),
            lines: copy_lines(&self.lines),
            fetched_at: self.fetched_at.clone(),
        }
    }
}

/// The views of a list of snapshots.
pub open spec fn snapshots_view(v: Seq<PluginSnapshot>) -> Seq<PluginSnapshotView> {
    v.map_values(|s: PluginSnapshot| s@)
}

/// A copy of a list of snapshots.
pub fn copy_snapshots(v: &Vec<PluginSnapshot>) -> (r: Vec<PluginSnapshot>)
    ensures
        snapshots_view(r@) == snapshots_view(v@),
{
    let mut out: Vec<PluginSnapshot> = Vec::new();
    let mut i: usize = 0;
    while i < v.len()
        invariant
            i <= v@.len(),
            out@.len() == i,
            forall|k: int| 0 <= k < i ==> #[trigger] out@[k]@ == v@[k]@,
        decreases v@.len() - i,
    {
        out.push(v[i].clone());
        i = i + 1;
    }
    assert(snapshots_view(out@) =~= snapshots_view(v@));
    out
}

/// What an agent pushes to the relay.
pub struct MachinePush {
    pub machine_id: String,
    pub machine_name: String,
    pub snapshots: Vec<PluginSnapshot>,
    pub pushed_at: String,
    pub agent_version: String,
}

pub struct MachinePushView {
    pub machine_id: Seq<char>,
    pub machine_name: Seq<char>,
    pub snapshots: Seq<PluginSnapshotView>,
    pub pushed_at: Seq<char>,
    pub agent_version: Seq<char>,
}

impl View for MachinePush {
    type V = MachinePushView;

    open spec fn view(&self) -> MachinePushView {
        MachinePushView {
            machine_id: self.machine_id@,
            machine_name: self.machine_name@,
            snapshots: snapshots_view(self.snapshots@),
            pushed_at: self.pushed_at@,
            agent_version: self.agent_version@,
        }
    }
}

/// What the relay stores, and hands back, for one machine.
pub struct MachineEntry {
    pub machine_id: String,
    pub machine_name: String,
    pub snapshots: Vec<PluginSnapshot>,
    pub pushed_at: String,
    pub last_seen_at: String,
}

pub struct MachineEntryView {
    pub machine_id: Seq<char>,
    pub machine_name: Seq<char>,
    pub snapshots: Seq<PluginSnapshotView>,
    pub pushed_at: Seq<char>,
    pub last_seen_at: Seq<char>,
}

impl View for MachineEntry {
    type V = MachineEntryView;

    open spec fn view(&self) -> MachineEntryView {
        MachineEntryView {
            machine_id: self.machine_id@,
            machine_name: self.machine_name@,
            snapshots: snapshots_view(self.snapshots@),
            pushed_at: self.pushed_at@,
            last_seen_at: self.last_seen_at@,
        }
    }
}

impl Clone for MachineEntry {
    fn clone(&self) -> (r: Self)
        ensures
            r@ == self@,
    {
        MachineEntry {
            machine_id: self.machine_id.clone(),
            machine_name: self.machine_name.clone(),
            snapshots: copy_snapshots(&self.snapshots),
            pushed_at: self.pushed_at.clone(),
            last_seen_at: self.last_seen_at.clone(),
        }
    }
}

/// The entry that the relay records for `push`, seen at `last_seen_at`.
pub open spec fn entry_for_push(push: MachinePushView, last_seen_at: Seq<char>) -> MachineEntryView {
    MachineEntryView {
        machine_id: push.machine_id,
        machine_name: push.machine_name,
        snapshots: push.snapshots,
        pushed_at: push.pushed_at,
        last_seen_at,
    }
}

/// The relay's answer to a dashboard's pull.
pub struct SyncPullResponse {
    pub machines: Vec<MachineEntry>,
}

/// The views of a list of machine entries.
pub open spec fn entries_view(v: Seq<MachineEntry>) -> Seq<MachineEntryView> {
    v.map_values(|e: MachineEntry| e@)
}

impl View for SyncPullResponse {
    type V = Seq<MachineEntryView>;

    open spec fn view(&self) -> Seq<MachineEntryView> {
        entries_view(self.machines@)
    }
}

} // verus!
