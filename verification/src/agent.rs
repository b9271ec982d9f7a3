//! The agent's decisions: which settings and identity it runs with, where its snapshots
//! come from, which plugins it runs, and how a plugin's report reads.

use vstd::prelude::*;
use vstd::string::*;
use crate::text::str_eq;
use crate::wire::{
    lines_view, snapshots_view, MachinePush, MachinePushView, MetricLine, MetricLineView,
    PluginSnapshot,
};

verus! {

/// The token and relay that the agent pushes with, as saved between runs.
pub struct AgentConfig {
    pub token: String,
    pub relay: String,
}

/// A setting that neither the command line nor a saved configuration supplies.
pub enum MissingSetting {
    Token,
    Relay,
}

/// The value given on the command line, else the saved one.
pub open spec fn chosen(given: Option<String>, saved: Option<Seq<char>>) -> Option<Seq<char>> {
    match given {
        Some(g) => Some(g@),
        None => saved,
    }
}

/// The saved token, if there is a saved configuration.
pub open spec fn saved_token(saved: Option<AgentConfig>) -> Option<Seq<char>> {
    match saved {
        Some(c) => Some(c.token@),
        None => None,
    }
}

/// The saved relay, if there is a saved configuration.
pub open spec fn saved_relay(saved: Option<AgentConfig>) -> Option<Seq<char>> {
    match saved {
        Some(c) => Some(c.relay@),
        None => None,
    }
}

/// The token and relay that the agent runs with: each from the command line where given,
/// else from the saved configuration. The token is looked for first.
pub fn resolve_credentials(
    given_token: Option<String>,
    given_relay: Option<String>,
    saved: Option<AgentConfig>,
) -> (r: Result<AgentConfig, MissingSetting>)
    ensures
        chosen(given_token, saved_token(saved)) is None ==> r matches Err(MissingSetting::Token),
        chosen(given_token, saved_token(saved)) is Some && chosen(given_relay, saved_relay(saved)) is None
            ==> r matches Err(MissingSetting::Relay),
        r matches Ok(c) ==> Some(c.token@) == chosen(given_token, saved_token(saved)) && Some(
            c.relay@,
        ) == chosen(given_relay, saved_relay(saved)),
        r is Ok <==> chosen(given_token, saved_token(saved)) is Some && chosen(
            given_relay,
            saved_relay(saved),
        ) is Some,
{
    let (saved_t, saved_r) = match saved {
        Some(c) => (Some(c.token), Some(c.relay)),
        None => (None, None),
    };
    let token = match given_token {
        Some(t) => t,
        None => match saved_t {
            Some(t) => t,
            None => return Err(MissingSetting::Token),
        },
    };
    let relay = match given_relay {
        Some(r) => r,
        None => match saved_r {
            Some(r) => r,
            None => return Err(MissingSetting::Relay),
        },
    };
    Ok(AgentConfig { token, relay })
}

/// The machine id that the agent pushes under: the host name, else `unknown-machine`.
pub fn resolve_machine_id(hostname: Option<String>) -> (r: String)
    ensures
        r@ == match hostname {
            Some(h) => h@,
            None => "unknown-machine"@,
        },
{
    match hostname {
        Some(h) => h,
        None => String::from_str("unknown-machine"),
    }
}

/// The machine id and display name: the name given on the command line, else the id.
pub fn resolve_identity(hostname: Option<String>, given_name: Option<String>) -> (r: (String, String))
    ensures
        r.0@ == match hostname {
            Some(h) => h@,
            None => "unknown-machine"@,
        },
        r.1@ == match given_name {
            Some(n) => n@,
            None => r.0@,
        },
{
    let id = resolve_machine_id(hostname);
    let name = match given_name {
        Some(n) => n,
        None => id.clone(),
    };
    (id, name)
}

/// Where the agent's snapshots come from.
pub enum SourceMode {
    /// Run the plugins here.
    Probe,
    /// Ask a running desktop app over its local HTTP API.
    LocalApi,
    /// Read the desktop app's cache file.
    CacheFile,
    /// A mode the agent does not know.
    Unknown,
}

/// The mode that the `--source` text names.
pub open spec fn source_mode_of(s: Seq<char>) -> SourceMode {
    if s == "probe"@ {
        SourceMode::Probe
    } else if s == "local-api"@ {
        SourceMode::LocalApi
    } else if s == "cache-file"@ {
        SourceMode::CacheFile
    } else {
        SourceMode::Unknown
    }
}

impl SourceMode {
    /// The mode that the `--source` text names.
    pub fn parse(s: &str) -> (r: SourceMode)
        ensures
            r == source_mode_of(s@),
    {
        if str_eq(s, "probe") {
            SourceMode::Probe
        } else if str_eq(s, "local-api") {
            SourceMode::LocalApi
        } else if str_eq(s, "cache-file") {
            SourceMode::CacheFile
        } else {
            SourceMode::Unknown
        }
    }
}

/// The bundled plugins are unpacked at start-up only in probe mode, and only when no
/// plugin directory was given.
pub fn should_extract_bundled(mode: &SourceMode, plugins_dir_given: bool) -> (r: bool)
    ensures
        r == (*mode is Probe && !plugins_dir_given),
{
    matches!(mode, SourceMode::Probe) && !plugins_dir_given
}

/// The log filter when none is set: quieter for the one-shot check.
pub fn default_log_filter(check: bool) -> (r: &'static str)
    ensures
        r@ == if check {
            "error,openusage_agent=info"@
        } else {
            "info"@
        },
{
    if check {
        "error,openusage_agent=info"
    } else {
        "info"
    }
}

/// The desktop app's local API: the URL given, else `http://127.0.0.1:6736`.
pub fn local_api_or_default(given: Option<String>) -> (r: String)
    ensures
        r@ == match given {
            Some(g) => g@,
            None => "http://127.0.0.1:6736"@,
        },
{
    match given {
        Some(g) => g,
        None => String::from_str("http://127.0.0.1:6736"),
    }
}

/// A plugin kept out of real dashboards.
pub open spec fn is_excluded(id: Seq<char>) -> bool {
    id == "mock"@
}

/// Whether the plugin `id` is a test plugin that the agent never runs or unpacks.
pub fn is_excluded_plugin(id: &str) -> (r: bool)
    ensures
        r == is_excluded(id@),
{
    str_eq(id, "mock")
}

/// One entry of the bundled plugin directory.
pub struct BundledEntry {
    /// The entry's file name, or the empty text where it has none that is UTF-8.
    pub name: String,
    /// The entry is a directory.
    pub is_dir: bool,
}

/// The names of the bundled entries to unpack: directories that are not excluded, in order.
pub open spec fn bundled_selection(es: Seq<BundledEntry>) -> Seq<Seq<char>>
    decreases es.len(),
{
    if es.len() == 0 {
        Seq::empty()
    } else {
        let rest = bundled_selection(es.drop_last());
        let e = es.last();
        if e.is_dir && !is_excluded(e.name@) {
            rest.push(e.name@)
        } else {
            rest
        }
    }
}

/// The views of a list of strings.
pub open spec fn texts(v: Seq<String>) -> Seq<Seq<char>> {
    v.map_values(|s: String| s@)
}

/// Which bundled plugin directories to unpack.
pub fn select_bundled_plugins(entries: &Vec<BundledEntry>) -> (r: Vec<String>)
    ensures
        texts(r@) == bundled_selection(entries@),
{
    let mut out: Vec<String> = Vec::new();
    let mut i: usize = 0;
    while i < entries.len()
        invariant
            i <= entries@.len(),
            texts(out@) == bundled_selection(entries@.subrange(0, i as int)),
        decreases entries@.len() - i,
    {
        assert(entries@.subrange(0, i + 1).drop_last() =~= entries@.subrange(0, i as int));
        let e = &entries[i];
        if e.is_dir && !is_excluded_plugin(e.name.as_str()) {
            out.push(e.name.clone());
            assert(texts(out@) =~= bundled_selection(entries@.subrange(0, i as int)).push(
                e.name@,
            ));
        }
        i = i + 1;
    }
    assert(entries@.subrange(0, entries@.len() as int) =~= entries@);
    out
}

/// Why the agent has nothing to probe.
pub enum ProbeError {
    /// The plugin directory holds no plugin.
    NoPlugins,
}

/// The positions of the plugins to run: all but the excluded ones, in order.
pub open spec fn probe_positions(ids: Seq<Seq<char>>) -> Seq<usize>
    decreases ids.len(),
{
    if ids.len() == 0 {
        Seq::empty()
    } else {
        let rest = probe_positions(ids.drop_last());
        if is_excluded(ids.last()) {
            rest
        } else {
            rest.push((ids.len() - 1) as usize)
        }
    }
}

/// Which of the loaded plugins (by id) a probe round runs; none loaded is an error.
pub fn select_probe_targets(ids: &Vec<String>) -> (r: Result<Vec<usize>, ProbeError>)
    ensures
        r is Err <==> ids@.len() == 0,
        r matches Ok(v) ==> v@ == probe_positions(texts(ids@)),
        r matches Ok(v) ==> forall|k: int|
            0 <= k < v@.len() ==> (#[trigger] v@[k] as int) < ids@.len() && ids@[v@[k] as int]@
                != "mock"@,
        r matches Ok(v) ==> forall|a: int, b: int|
            0 <= a < b < v@.len() ==> #[trigger] v@[a] < #[trigger] v@[b],
        r matches Ok(v) ==> forall|i: int|
            0 <= i < ids@.len() && #[trigger] ids@[i]@ != "mock"@ ==> v@.contains(i as usize),
{
    if ids.len() == 0 {
        return Err(ProbeError::NoPlugins);
    }
    let mut out: Vec<usize> = Vec::new();
    let mut i: usize = 0;
    while i < ids.len()
        invariant
            i <= ids@.len(),
            out@ == probe_positions(texts(ids@.subrange(0, i as int))),
        decreases ids@.len() - i,
    {
        assert(texts(ids@.subrange(0, i + 1)).drop_last() =~= texts(ids@.subrange(0, i as int)));
        assert(texts(ids@.subrange(0, i + 1)).last() == ids@[i as int]@);
        if !is_excluded_plugin(ids[i].as_str()) {
            out.push(i);
        }
        i = i + 1;
    }
    assert(ids@.subrange(0, ids@.len() as int) =~= ids@);
    proof {
        law_probe_targets(texts(ids@));
        assert forall|i: int| 0 <= i < ids@.len() && #[trigger] ids@[i]@ != "mock"@ implies out@.contains(
            i as usize,
        ) by {
            assert(texts(ids@)[i] == ids@[i]@);
        }
        assert forall|k: int| 0 <= k < out@.len() implies (#[trigger] out@[k] as int) < ids@.len()
            && ids@[out@[k] as int]@ != "mock"@ by {
            assert(texts(ids@)[out@[k] as int] == ids@[out@[k] as int]@);
        }
    }
    Ok(out)
}

/// A probe round runs every loaded plugin but `mock`, each once and in load order, and
/// nothing else: each position names a loaded plugin that is not `mock`, the positions
/// rise, and every loaded plugin that is not `mock` has its position among them.
pub proof fn law_probe_targets(ids: Seq<Seq<char>>)
    requires
        ids.len() <= usize::MAX,
    ensures
        forall|k: int|
            0 <= k < probe_positions(ids).len() ==> (#[trigger] probe_positions(ids)[k] as int)
                < ids.len() && ids[probe_positions(ids)[k] as int] != "mock"@,
        forall|a: int, b: int|
            0 <= a < b < probe_positions(ids).len() ==> #[trigger] probe_positions(ids)[a]
                < #[trigger] probe_positions(ids)[b],
        forall|i: int|
            0 <= i < ids.len() && #[trigger] ids[i] != "mock"@ ==> probe_positions(ids).contains(
                i as usize,
            ),
    decreases ids.len(),
{
    if ids.len() > 0 {
        let pre = ids.drop_last();
        law_probe_targets(pre);
        let rest = probe_positions(pre);
        let all = probe_positions(ids);
        let last = (ids.len() - 1) as usize;
        assert forall|k: int| 0 <= k < rest.len() implies (#[trigger] rest[k] as int) < ids.len()
            - 1 && ids[rest[k] as int] != "mock"@ by {
            assert(pre[rest[k] as int] == ids[rest[k] as int]);
        }
        assert forall|i: int| 0 <= i < ids.len() && #[trigger] ids[i] != "mock"@ implies all.contains(
            i as usize,
        ) by {
            if i < ids.len() - 1 {
                assert(pre[i] == ids[i]);
                assert(rest.contains(i as usize));
                let j = choose|j: int| 0 <= j < rest.len() && rest[j] == i as usize;
                assert(all[j] == i as usize);
            } else {
                assert(all == rest.push(last));
                assert(all[rest.len() as int] == i as usize);
            }
        }
    }
}

/// How a plugin's probe went.
pub enum PluginStatus {
    /// It reported this many lines.
    Ready { lines: usize },
    /// It reported an error badge with this text.
    Error(String),
}

pub enum PluginStatusView {
    Ready { lines: nat },
    Error(Seq<char>),
}

impl View for PluginStatus {
    type V = PluginStatusView;

    open spec fn view(&self) -> PluginStatusView {
        match self {
            PluginStatus::Ready { lines } => PluginStatusView::Ready { lines: *lines as nat },
            PluginStatus::Error(msg) => PluginStatusView::Error(msg@),
        }
    }
}

/// A report is an error report when it is one badge labelled `Error`.
pub open spec fn is_error_report(lines: Seq<MetricLineView>) -> bool {
    &&& lines.len() == 1
    &&& lines[0] matches MetricLineView::Badge { label, .. } && label == "Error"@
}

/// What a report says of its plugin: the error badge's text, else the number of lines.
pub open spec fn report_status(lines: Seq<MetricLineView>) -> PluginStatusView {
    if is_error_report(lines) {
        match lines[0] {
            MetricLineView::Badge { text, .. } => PluginStatusView::Error(text),
            _ => PluginStatusView::Error("unknown"@),
        }
    } else {
        PluginStatusView::Ready { lines: lines.len() }
    }
}

/// Whether a plugin's report is one error badge.
pub fn is_error_output(lines: &Vec<MetricLine>) -> (r: bool)
    ensures
        r == is_error_report(lines_view(lines@)),
{
    if lines.len() != 1 {
        return false;
    }
    match &lines[0] {
        MetricLine::Badge { label, .. } => str_eq(label.as_str(), "Error"),
        _ => false,
    }
}

/// What a plugin's report says of the plugin.
pub fn probe_status(lines: &Vec<MetricLine>) -> (r: PluginStatus)
    ensures
        r@ == report_status(lines_view(lines@)),
{
    if is_error_output(lines) {
        match &lines[0] {
            MetricLine::Badge { text, .. } => PluginStatus::Error(text.clone()),
            _ => PluginStatus::Error(String::from_str("unknown")),
        }
    } else {
        PluginStatus::Ready { lines: lines.len() }
    }
}

/// One plugin's probe: its id and the lines it reported.
pub struct PluginProbe {
    pub id: String,
    pub lines: Vec<MetricLine>,
}

/// The readiness list of a diagnostic run: each probe that is not excluded, with what its
/// report says, in order.
pub open spec fn diagnosis(probes: Seq<PluginProbe>) -> Seq<(Seq<char>, PluginStatusView)>
    decreases probes.len(),
{
    if probes.len() == 0 {
        Seq::empty()
    } else {
        let rest = diagnosis(probes.drop_last());
        let p = probes.last();
        if is_excluded(p.id@) {
            rest
        } else {
            rest.push((p.id@, report_status(lines_view(p.lines@))))
        }
    }
}

/// The views of a diagnosis list.
pub open spec fn diagnosis_view(v: Seq<(String, PluginStatus)>) -> Seq<(Seq<char>, PluginStatusView)> {
    v.map_values(|e: (String, PluginStatus)| (e.0@, e.1@))
}

/// How ready each plugin is, from the probes of a diagnostic run.
pub fn diagnose_plugins(probes: &Vec<PluginProbe>) -> (r: Vec<(String, PluginStatus)>)
    ensures
        diagnosis_view(r@) == diagnosis(probes@),
{
    let mut out: Vec<(String, PluginStatus)> = Vec::new();
    let mut i: usize = 0;
    while i < probes.len()
        invariant
            i <= probes@.len(),
            diagnosis_view(out@) == diagnosis(probes@.subrange(0, i as int)),
        decreases probes@.len() - i,
    {
        assert(probes@.subrange(0, i + 1).drop_last() =~= probes@.subrange(0, i as int));
        let p = &probes[i];
        if !is_excluded_plugin(p.id.as_str()) {
            let status = probe_status(&p.lines);
            out.push((p.id.clone(), status));
            assert(diagnosis_view(out@) =~= diagnosis(probes@.subrange(0, i as int)).push(
                (p.id@, report_status(lines_view(p.lines@))),
            ));
        }
        i = i + 1;
    }
    assert(probes@.subrange(0, probes@.len() as int) =~= probes@);
    out
}

/// How one tick of the agent's loop collects snapshots.
pub enum CollectStep {
    /// Run the plugins here.
    RunProbe,
    /// Ask the desktop app's local API.
    QueryLocalApi,
    /// Read the cache file.
    ReadCacheFile,
    /// Cache-file mode without a cache file: log it and wait for the next tick.
    MissingCacheFile,
    /// A source mode the agent does not know: the collect fails.
    UnknownMode,
}

/// The collect step of a tick in `mode`.
pub open spec fn collect_step_of(mode: SourceMode, cache_file_given: bool) -> CollectStep {
    match mode {
        SourceMode::Probe => CollectStep::RunProbe,
        SourceMode::LocalApi => CollectStep::QueryLocalApi,
        SourceMode::CacheFile => if cache_file_given {
            CollectStep::ReadCacheFile
        } else {
            CollectStep::MissingCacheFile
        },
        SourceMode::Unknown => CollectStep::UnknownMode,
    }
}

/// How a tick of the agent's loop collects snapshots in `mode`.
pub fn collect_step(mode: &SourceMode, cache_file_given: bool) -> (r: CollectStep)
    ensures
        r == collect_step_of(*mode, cache_file_given),
        *mode is Probe <==> r is RunProbe,
        *mode is LocalApi <==> r is QueryLocalApi,
        *mode is CacheFile && cache_file_given <==> r is ReadCacheFile,
        *mode is CacheFile && !cache_file_given <==> r is MissingCacheFile,
        *mode is Unknown <==> r is UnknownMode,
{
    match mode {
        SourceMode::Probe => CollectStep::RunProbe,
        SourceMode::LocalApi => CollectStep::QueryLocalApi,
        SourceMode::CacheFile => if cache_file_given {
            CollectStep::ReadCacheFile
        } else {
            CollectStep::MissingCacheFile
        },
        SourceMode::Unknown => CollectStep::UnknownMode,
    }
}

/// A tick collects the way its mode says, whether a cache file was given or not: it runs
/// the plugins in probe mode, asks the local API in local-api mode, and reads the cache
/// file in cache-file mode, where alone a missing cache file stops it; an unknown mode
/// fails.
pub proof fn law_collect_step_follows_mode(mode: SourceMode, cache_file_given: bool)
    ensures
        mode is Probe <==> collect_step_of(mode, cache_file_given) is RunProbe,
        mode is LocalApi <==> collect_step_of(mode, cache_file_given) is QueryLocalApi,
        mode is CacheFile && cache_file_given <==> collect_step_of(mode, cache_file_given) is ReadCacheFile,
        mode is CacheFile && !cache_file_given <==> collect_step_of(mode, cache_file_given) is MissingCacheFile,
        mode is Unknown <==> collect_step_of(mode, cache_file_given) is UnknownMode,
        collect_step_of(mode, true) is QueryLocalApi <==> collect_step_of(mode, false) is QueryLocalApi,
{
}

/// What a tick pushes after its collect: nothing when the collect failed, else every
/// collected snapshot (none at all too, so the dashboard still sees the machine).
pub fn push_for_tick(
    collected: Result<Vec<PluginSnapshot>, String>,
    machine_id: &String,
    machine_name: &String,
    pushed_at: String,
    agent_version: String,
) -> (r: Option<MachinePush>)
    ensures
        collected is Err ==> r is None,
        collected matches Ok(s) ==> r matches Some(p) && p@ == (MachinePushView {
            machine_id: machine_id@,
            machine_name: machine_name@,
            snapshots: snapshots_view(s@),
            pushed_at: pushed_at@,
            agent_version: agent_version@,
        }),
{
    match collected {
        Ok(snapshots) => Some(
            MachinePush {
                machine_id: machine_id.clone(),
                machine_name: machine_name.clone(),
                snapshots,
                pushed_at,
                agent_version,
            },
        ),
        Err(_) => None,
    }
}


/// What `serde_json` makes of `content`: the parse error's text, or, under `key` of the
/// top-level object, the compact JSON text of each member of that object in key order
/// (`None` where the top level is no object or `key` holds no object).
pub uninterp spec fn json_object_member_texts(content: Seq<char>, key: Seq<char>) -> Result<
    Option<Seq<Seq<char>>>,
    Seq<char>,
>;

/// The views of a parse result that holds texts.
pub open spec fn member_texts_view(r: Result<Option<Vec<String>>, String>) -> Result<
    Option<Seq<Seq<char>>>,
    Seq<char>,
> {
    match r {
        Err(e) => Err(e@),
        Ok(None) => Ok(None),
        Ok(Some(v)) => Ok(Some(texts(v@))),
    }
}

/// Parses `content` with `serde_json::from_str` into a `serde_json::Value`, takes
/// `Value::get(key)` and, where that is an object, the `to_string` of each of its values in
/// the map's order; a parse error comes back as its `to_string`. The contract only names
/// the result (`json_object_member_texts`) as a function of the two texts.
#[verifier::external_body]
fn object_member_texts(content: &str, key: &str) -> (r: Result<Option<Vec<String>>, String>)
    ensures
        member_texts_view(r) == json_object_member_texts(content@, key@),
{
    match serde_json::from_str::<serde_json::Value>(content) {
        Err(e) => Err(e.to_string()),
        Ok(v) => Ok(match v.get(key) {
            Some(serde_json::Value::Object(m)) => Some(m.values().map(|x| x.to_string()).collect()),
            _ => None,
        }),
    }
}

/// The snapshots of a cache file, each as the JSON text that holds it: the members of the
/// top-level `snapshots` object. A file that does not parse, or that has no such object,
/// is refused with the reason.
pub fn cache_snapshots(content: &str) -> (r: Result<Vec<String>, String>)
    ensures
        match json_object_member_texts(content@, "snapshots"@) {
            Err(e) => r matches Err(m) && m@ == "invalid cache JSON: "@ + e,
            Ok(None) => r matches Err(m) && m@ == "cache file missing 'snapshots' object"@,
            Ok(Some(vs)) => r matches Ok(v) && texts(v@) == vs,
        },
{
    match object_member_texts(content, "snapshots") {
        Err(e) => {
            let mut m = String::from_str("invalid cache JSON: ");
            m.append(e.as_str());
            Err(m)
        },
        Ok(None) => Err(String::from_str("cache file missing 'snapshots' object")),
        Ok(Some(v)) => Ok(v),
    }
}

/// What `serde_json` makes of `body`: the parse error's text, or the length of the array
/// under `key` of the top-level object (`None` where there is no such array).
pub uninterp spec fn json_member_array_len(body: Seq<char>, key: Seq<char>) -> Result<
    Option<nat>,
    Seq<char>,
>;

/// The views of a parse result that holds a length.
pub open spec fn member_len_view(r: Result<Option<usize>, String>) -> Result<Option<nat>, Seq<char>> {
    match r {
        Err(e) => Err(e@),
        Ok(None) => Ok(None),
        Ok(Some(n)) => Ok(Some(n as nat)),
    }
}

/// Parses `body` with `serde_json::from_str` into a `serde_json::Value`, takes
/// `Value::get(key)`, `as_array` and `len`; a parse error comes back as its `to_string`.
/// The contract only names the result (`json_member_array_len`) as a function of the two
/// texts.
#[verifier::external_body]
fn member_array_len(body: &str, key: &str) -> (r: Result<Option<usize>, String>)
    ensures
        member_len_view(r) == json_member_array_len(body@, key@),
{
    match serde_json::from_str::<serde_json::Value>(body) {
        Err(e) => Err(e.to_string()),
        Ok(v) => Ok(v.get(key).and_then(|m| m.as_array()).map(|a| a.len())),
    }
}

/// How many machines a relay's pull reply lists: the length of its `machines` array, or
/// none where the reply has no such array. A reply that does not parse is refused.
pub fn reported_machine_count(body: &str) -> (r: Result<usize, String>)
    ensures
        match json_member_array_len(body@, "machines"@) {
            Err(e) => r matches Err(m) && m@ == "invalid relay response: "@ + e,
            Ok(None) => r == Ok::<usize, String>(0),
            Ok(Some(n)) => r matches Ok(c) && c == n,
        },
{
    match member_array_len(body, "machines") {
        Err(e) => {
            let mut m = String::from_str("invalid relay response: ");
            m.append(e.as_str());
            Err(m)
        },
        Ok(None) => Ok(0),
        Ok(Some(n)) => Ok(n),
    }
}

/// The configuration the agent starts from: the per-user one where it could be read,
/// else the system-wide one.
pub fn prefer_user_config(user: Option<AgentConfig>, system: Option<AgentConfig>) -> (r: Option<AgentConfig>)
    ensures
        r == (match user {
            Some(u) => Some(u),
            None => system,
        }),
{
    match user {
        Some(u) => Some(u),
        None => system,
    }
}

} // verus!
