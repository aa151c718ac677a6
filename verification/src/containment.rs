//! The isolation-runtime backend adapter's pure half. The runtime is
//! driven through subprocess invocations of a fixed executable —
//! `list`, `run --config <json> --id-only`, `stop <id>` — with a JSON
//! container spec built from the agent's configuration. Resource
//! statistics come from the runtime's own accounting files, and log
//! streaming is a bounded periodic poll of a log file's size delta:
//! an inherent limitation of this backend, preserved here.

use vstd::prelude::*;

verus! {

use crate::bytes::{
    spec_lines, spec_split, spec_chars_of, spec_u64_digits, spec_trim, lines_of, split_bytes,
    slice_to_vec_u8, ascii_str, format_u64, trim_bytes, parse_u64, bytes_starts_with, split_ws,
    push_string,
};
use crate::errors::EngineError;
use crate::policy::{build_environment, spec_build_environment};
use crate::types::{
    AgentConfig, AgentStatus, LogEntry, ResourceUsage, VolumeMount, VolumeMountView,
};
use crate::validation::{
    spec_valid_target, spec_valid_source, validate_container_target, validate_volume_source,
    ValidationError,
};

/// How often the log file is polled for new content, in milliseconds.
pub const LOG_POLL_INTERVAL_MS: u64 = 500;

/// The isolation-runtime adapter: the executable to invoke and, on a
/// host that runs the runtime through a compatibility layer, the
/// distribution to route the invocation through.
#[derive(Clone, Debug)]
pub struct ContainmentClient {
    /// Path or name of the runtime executable, or of the
    /// compatibility-layer command that wraps it.
    pub runtime_path: String,
    /// Compatibility-layer distribution, on hosts that need one.
    pub wsl_distro: Option<String>,
}

impl ContainmentClient {
    /// The adapter for a host that runs the runtime directly.
    pub fn new() -> (r: Result<Self, EngineError>)
        ensures
            r is Ok,
            r matches Ok(c) ==> c.runtime_path@ == "openclaw-runtime"@ && c.wsl_distro is None,
    {
        Ok(ContainmentClient { runtime_path: "openclaw-runtime".to_owned(), wsl_distro: None })
    }

    /// The adapter for a host that wraps the runtime through a
    /// compatibility layer.
    pub fn with_compat_layer(command: String, distro: String) -> (r: Self)
        ensures
            r.runtime_path@ == command@,
            r.wsl_distro matches Some(d) && d@ == distro@,
    {
        ContainmentClient { runtime_path: command, wsl_distro: Some(distro) }
    }

    /// The program and leading arguments of every runtime invocation:
    /// the executable itself on a direct host; the compatibility-layer
    /// command routed into the distribution otherwise.
    pub fn build_command(&self) -> (r: (String, Vec<String>))
        ensures
            r.0@ == self.runtime_path@,
            match self.wsl_distro {
                Some(d) => r.1.deep_view() == seq!["-d"@, d@, "--"@, "openclaw-runtime"@],
                None => r.1.deep_view() == Seq::<Seq<char>>::empty(),
            },
    {
        let mut args: Vec<String> = Vec::new();
        match &self.wsl_distro {
            Some(d) => {
                push_string(&mut args, "-d".to_owned());
                push_string(&mut args, d.clone());
                push_string(&mut args, "--".to_owned());
                push_string(&mut args, "openclaw-runtime".to_owned());
                proof {
                    assert(args.deep_view() =~= seq![
                        "-d"@,
                        self.wsl_distro->0@,
                        "--"@,
                        "openclaw-runtime"@,
                    ]);
                }
            },
            None => {
                proof {
                    assert(args.deep_view() =~= Seq::<Seq<char>>::empty());
                }
            },
        }
        (self.runtime_path.clone(), args)
    }
}

/// One row of the runtime's `list` table: tab-separated columns, the
/// identifier first, the name second, the status fourth.
#[derive(Clone, Debug)]
pub struct IsolationRow {
    pub id: Vec<u8>,
    pub name: Vec<u8>,
    pub status: AgentStatus,
}

/// Spec-level value of one `list` row.
pub ghost struct IsolationRowView {
    pub id: Seq<u8>,
    pub name: Seq<u8>,
    pub status: AgentStatus,
}

impl View for IsolationRow {
    type V = IsolationRowView;

    open spec fn view(&self) -> IsolationRowView {
        IsolationRowView { id: self.id@, name: self.name@, status: self.status }
    }
}

impl DeepView for IsolationRow {
    type V = IsolationRowView;

    open spec fn deep_view(&self) -> IsolationRowView {
        self.view()
    }
}

/// The lifecycle state an isolation `list` status column stands for.
pub open spec fn spec_isolation_status(s: Seq<u8>) -> AgentStatus {
    if s == "running"@.map(|_i: int, c: char| c as u8) {
        AgentStatus::Running
    } else if s == "stopped"@.map(|_i: int, c: char| c as u8) || s == "exited"@.map(
        |_i: int, c: char| c as u8,
    ) {
        AgentStatus::Stopped
    } else {
        AgentStatus::Error
    }
}

/// Map one status column to a lifecycle state.
pub fn isolation_status(s: &[u8]) -> (r: AgentStatus)
    ensures
        r == spec_isolation_status(s@),
{
    proof {
        reveal_strlit("running");
        reveal_strlit("stopped");
        reveal_strlit("exited");
        assert(vstd::string::is_ascii("running"));
        assert(vstd::string::is_ascii("stopped"));
        assert(vstd::string::is_ascii("exited"));
    }
    if crate::bytes::eq_ascii(s, "running") {
        AgentStatus::Running
    } else if crate::bytes::eq_ascii(s, "stopped") || crate::bytes::eq_ascii(s, "exited") {
        AgentStatus::Stopped
    } else {
        AgentStatus::Error
    }
}

/// The rows of a `list` body: each line after the header with at
/// least four tab-separated columns becomes one row.
pub open spec fn spec_isolation_rows_of(lines: Seq<Seq<u8>>) -> Seq<IsolationRowView>
    decreases lines.len(),
{
    if lines.len() == 0 {
        Seq::empty()
    } else {
        let rest = spec_isolation_rows_of(lines.drop_first());
        let t = spec_split(lines[0], 9);
        if t.len() >= 4 {
            seq![
                IsolationRowView { id: t[0], name: t[1], status: spec_isolation_status(t[3]) },
            ] + rest
        } else {
            rest
        }
    }
}

/// The rows of a whole `list` output: the header line is skipped.
pub open spec fn spec_parse_isolation_list(out: Seq<u8>) -> Seq<IsolationRowView> {
    let lines = spec_lines(out);
    if lines.len() == 0 {
        Seq::empty()
    } else {
        spec_isolation_rows_of(lines.drop_first())
    }
}

/// Parse the isolation runtime's `list` output.
#[verifier::loop_isolation(false)]
pub fn parse_isolation_list(out: &[u8]) -> (r: Vec<IsolationRow>)
    ensures
        r.deep_view() == spec_parse_isolation_list(out@),
{
    let lines = lines_of(out);
    let ghost lv = Seq::new(lines@.len(), |j: int| lines@[j]@);
    proof {
        assert(lv =~= spec_lines(out@));
    }
    let mut r: Vec<IsolationRow> = Vec::new();
    let ghost mut acc: Seq<IsolationRowView> = Seq::empty();
    if lines.len() == 0 {
        proof {
            assert(r.deep_view() =~= spec_parse_isolation_list(out@));
        }
        return r;
    }
    let mut i: usize = 1;
    proof {
        assert(lv.subrange(1, lv.len() as int) =~= lv.drop_first());
        assert(acc + spec_isolation_rows_of(lv.drop_first()) =~= spec_isolation_rows_of(
            lv.drop_first(),
        ));
    }
    while i < lines.len()
        invariant
            1 <= i <= lv.len(),
            r@.len() == acc.len(),
            forall|j: int| 0 <= j < acc.len() ==> (#[trigger] r@[j])@ == acc[j],
            spec_isolation_rows_of(lv.drop_first()) == acc + spec_isolation_rows_of(
                lv.subrange(i as int, lv.len() as int),
            ),
        decreases lv.len() - i,
    {
        let ghost rem = lv.subrange(i as int, lv.len() as int);
        proof {
            assert(rem[0] == lv[i as int]);
            assert(rem.drop_first() =~= lv.subrange(i + 1, lv.len() as int));
        }
        let fields = split_bytes(lines[i].as_slice(), 9);
        if fields.len() >= 4 {
            let id = slice_to_vec_u8(fields[0].as_slice());
            let name = slice_to_vec_u8(fields[1].as_slice());
            let status = isolation_status(fields[3].as_slice());
            r.push(IsolationRow { id, name, status });
            proof {
                acc = acc.push(
                    IsolationRowView {
                        id: spec_split(lv[i as int], 9)[0],
                        name: spec_split(lv[i as int], 9)[1],
                        status: spec_isolation_status(spec_split(lv[i as int], 9)[3]),
                    },
                );
            }
        }
        i = i + 1;
    }
    proof {
        assert(lv.subrange(lv.len() as int, lv.len() as int).len() == 0);
        assert(r.deep_view() =~= acc);
        assert(acc =~= spec_isolation_rows_of(lv.drop_first()));
    }
    r
}

/// Whether a container with this identifier appears in the rows.
pub fn isolation_exists(rows: &Vec<IsolationRow>, id: &[u8]) -> (r: bool)
    ensures
        r == (exists|j: int| 0 <= j < rows@.len() && (#[trigger] rows@[j]).id@ == id@),
{
    let mut i: usize = 0;
    while i < rows.len()
        invariant
            i <= rows@.len(),
            forall|j: int| 0 <= j < i ==> (#[trigger] rows@[j]).id@ != id@,
        decreases rows@.len() - i,
    {
        if crate::bytes::bytes_eq(rows[i].id.as_slice(), id) {
            return true;
        }
        i = i + 1;
    }
    false
}

/// Whether a container with this identifier is in the rows and
/// running: the minimum viable health check.
pub fn isolation_is_running(rows: &Vec<IsolationRow>, id: &[u8]) -> (r: bool)
    ensures
        r == (exists|j: int|
            0 <= j < rows@.len() && (#[trigger] rows@[j]).id@ == id@ && rows@[j].status
                == AgentStatus::Running),
{
    let mut i: usize = 0;
    while i < rows.len()
        invariant
            i <= rows@.len(),
            forall|j: int|
                0 <= j < i ==> !((#[trigger] rows@[j]).id@ == id@ && rows@[j].status
                    == AgentStatus::Running),
        decreases rows@.len() - i,
    {
        if crate::bytes::bytes_eq(rows[i].id.as_slice(), id) && rows[i].status
            == AgentStatus::Running {
            return true;
        }
        i = i + 1;
    }
    false
}

/// The in-memory container spec handed to the runtime as JSON: name,
/// image, command, environment, resource limits, namespace flags and
/// the validated mounts. The embedding program serialises it onto the
/// `run --config` argument.
#[derive(Clone, Debug)]
pub struct IsolationSpec {
    pub name: String,
    pub image: String,
    pub command: Vec<String>,
    pub env: Vec<(String, String)>,
    /// The `resources.memory` value, `<N>M`.
    pub memory: String,
    /// The `resources.cpu` value, in fractional cores.
    pub cpu: String,
    /// Namespace flags: pid, network, mount and uts are all isolated.
    pub ns_pid: bool,
    pub ns_network: bool,
    pub ns_mount: bool,
    pub ns_uts: bool,
    pub mounts: Vec<VolumeMount>,
}

/// The volumes that survive the mount policy: a target matching the
/// allow-pattern and a source with no traversal and no deny-listed
/// host path. Anything else is dropped, never mounted.
pub open spec fn spec_allowed_mounts(volumes: Seq<VolumeMountView>) -> Seq<VolumeMountView> {
    volumes.filter(
        |v: VolumeMountView|
            spec_valid_target(vstd::utf8::encode_utf8(v.target)) && spec_valid_source(
                vstd::utf8::encode_utf8(v.source),
            ),
    )
}

/// Filter a volume list down to the mounts the policy allows.
#[verifier::loop_isolation(false)]
pub fn build_mounts(volumes: &Vec<VolumeMount>) -> (r: Vec<VolumeMount>)
    ensures
        r.deep_view() == spec_allowed_mounts(volumes.deep_view()),
{
    let ghost dv = volumes.deep_view();
    let ghost pred = |v: VolumeMountView|
        spec_valid_target(vstd::utf8::encode_utf8(v.target)) && spec_valid_source(
            vstd::utf8::encode_utf8(v.source),
        );
    let mut r: Vec<VolumeMount> = Vec::new();
    let mut i: usize = 0;
    proof {
        reveal(Seq::filter);
        assert(r.deep_view() =~= dv.subrange(0, 0).filter(pred));
    }
    while i < volumes.len()
        invariant
            i <= volumes@.len(),
            dv.len() == volumes@.len(),
            forall|j: int| 0 <= j < dv.len() ==> dv[j] == volumes@[j]@,
            r.deep_view() == dv.subrange(0, i as int).filter(pred),
        decreases volumes@.len() - i,
    {
        let ghost pre = dv.subrange(0, i as int);
        let ghost cur = dv.subrange(0, i + 1);
        proof {
            reveal(Seq::filter);
            assert(cur.drop_last() =~= pre);
            assert(cur.last() == dv[i as int]);
        }
        let target_ok = validate_container_target(volumes[i].target.as_str()).is_ok();
        let source_ok = validate_volume_source(volumes[i].source.as_str()).is_ok();
        if target_ok && source_ok {
            let copy = volumes[i].clone_mount();
            push_mount(&mut r, copy);
            proof {
                assert(cur.filter(pred) =~= pre.filter(pred).push(dv[i as int]));
                assert(r.deep_view() =~= cur.filter(pred));
            }
        } else {
            proof {
                assert(cur.filter(pred) =~= pre.filter(pred));
            }
        }
        i = i + 1;
    }
    proof {
        assert(dv.subrange(0, dv.len() as int) =~= dv);
    }
    r
}

/// Append one mount, tracked at the deep-view level.
fn push_mount(v: &mut Vec<VolumeMount>, m: VolumeMount)
    ensures
        final(v).deep_view() == old(v).deep_view().push(m@),
{
    let ghost mv = m@;
    v.push(m);
    proof {
        assert forall|j: int| 0 <= j < v@.len() implies #[trigger] v.deep_view()[j] == old(
            v,
        ).deep_view().push(mv)[j] by {
            assert(v.deep_view()[j] == v@[j]@);
            if j < v@.len() - 1 {
                assert(v@[j] == old(v)@[j]);
                assert(old(v).deep_view()[j] == old(v)@[j]@);
            }
        }
        assert(v.deep_view() =~= old(v).deep_view().push(mv));
    }
}

/// Build the isolation container spec. The name and the resource
/// bounds are validated first; volumes the mount policy refuses are
/// filtered out rather than failing the creation, and all four
/// namespaces are always isolated.
pub fn build_isolation_spec(name: &str, config: &AgentConfig) -> (r: Result<
    IsolationSpec,
    ValidationError,
>)
    ensures
        r is Ok <==> crate::validation::spec_valid_name(vstd::utf8::encode_utf8(name@))
            && crate::validation::MIN_MEMORY_MB <= config.memory_mb
            <= crate::validation::MAX_MEMORY_MB && crate::validation::MIN_CPU_MILLICORES
            <= config.cpu_millicores <= crate::validation::MAX_CPU_MILLICORES,
        r matches Err(e) ==> (e == ValidationError::InvalidName || e
            == ValidationError::InvalidMemory || e == ValidationError::InvalidCpu),
        r matches Ok(s) ==> {
            &&& s.name@ == name@
            &&& s.image@ == "openclaw-agent:latest"@
            &&& s.command.deep_view() == seq!["openclaw"@, "agent"@, "--local"@]
            &&& s.env.deep_view() == spec_build_environment(config@, None)
            &&& s.memory@ == spec_chars_of(spec_u64_digits(config.memory_mb as int)) + "M"@
            &&& s.cpu@ == spec_chars_of(
                crate::container::spec_cores_bytes(config.cpu_millicores as int),
            )
            &&& s.ns_pid && s.ns_network && s.ns_mount && s.ns_uts
            &&& s.mounts.deep_view() == spec_allowed_mounts(config.volumes.deep_view())
        },
{
    if let Err(e) = crate::validation::validate_container_name(name) {
        return Err(e);
    }
    if let Err(e) = crate::validation::validate_memory_mb(config.memory_mb) {
        return Err(e);
    }
    if let Err(e) = crate::validation::validate_cpu_millicores(config.cpu_millicores) {
        return Err(e);
    }
    let mut command: Vec<String> = Vec::new();
    push_string(&mut command, "openclaw".to_owned());
    push_string(&mut command, "agent".to_owned());
    push_string(&mut command, "--local".to_owned());
    proof {
        assert(command.deep_view() =~= seq!["openclaw"@, "agent"@, "--local"@]);
    }
    let mem_digits = format_u64(config.memory_mb as u64);
    proof {
        crate::bytes::lemma_u64_digits_ascii(config.memory_mb as int);
    }
    let mut memory = ascii_str(mem_digits.as_slice());
    memory.append("M");
    Ok(
        IsolationSpec {
            name: name.to_owned(),
            image: "openclaw-agent:latest".to_owned(),
            command,
            env: build_environment(config, None),
            memory,
            cpu: crate::container::format_cores(config.cpu_millicores),
            ns_pid: true,
            ns_network: true,
            ns_mount: true,
            ns_uts: true,
            mounts: build_mounts(&config.volumes),
        },
    )
}

/// The `run` invocation's arguments around the serialised spec.
pub fn isolation_run_args(spec_json: String) -> (r: Vec<String>)
    ensures
        r.deep_view() == seq!["run"@, "--config"@, spec_json@, "--id-only"@],
{
    let ghost jv = spec_json@;
    let mut r: Vec<String> = Vec::new();
    push_string(&mut r, "run".to_owned());
    push_string(&mut r, "--config".to_owned());
    push_string(&mut r, spec_json);
    push_string(&mut r, "--id-only".to_owned());
    proof {
        assert(r.deep_view() =~= seq!["run"@, "--config"@, jv, "--id-only"@]);
    }
    r
}

/// The `stop` invocation's arguments.
pub fn isolation_stop_args(id: &str) -> (r: Vec<String>)
    ensures
        r.deep_view() == seq!["stop"@, id@],
{
    let mut r: Vec<String> = Vec::new();
    push_string(&mut r, "stop".to_owned());
    push_string(&mut r, id.to_owned());
    proof {
        assert(r.deep_view() =~= seq!["stop"@, id@]);
    }
    r
}

/// The number a counter text stands for: the trimmed digits, or zero
/// when the text is not a number the counter width holds.
pub open spec fn spec_counter_val(content: Seq<u8>) -> int {
    let t = spec_trim(content);
    if crate::bytes::spec_all_digits(t) && t.len() > 0 && crate::bytes::spec_digits_val(t)
        <= u64::MAX {
        crate::bytes::spec_digits_val(t)
    } else {
        0
    }
}

/// Memory use in bytes, read from the runtime's accounting file.
pub fn parse_memory_current(content: &[u8]) -> (r: u64)
    ensures
        r as int == spec_counter_val(content@),
{
    let t = trim_bytes(content);
    match parse_u64(t.as_slice()) {
        Some(v) => v,
        None => 0,
    }
}

/// The value the second column of a counter line stands for.
pub open spec fn spec_usage_line_val(line: Seq<u8>) -> int {
    let t = crate::bytes::spec_split_ws(line);
    if t.len() >= 2 {
        spec_counter_val(t[1])
    } else {
        0
    }
}

/// The `usage_usec` counter of a CPU accounting text: the second
/// column of the first line that starts with `usage_usec`, zero when
/// no such line exists.
pub open spec fn spec_cpu_usec(lines: Seq<Seq<u8>>) -> int
    decreases lines.len(),
{
    if lines.len() == 0 {
        0
    } else if crate::bytes::spec_starts_with(
        lines[0],
        "usage_usec"@.map(|_i: int, c: char| c as u8),
    ) {
        spec_usage_line_val(lines[0])
    } else {
        spec_cpu_usec(lines.drop_first())
    }
}

/// Read the `usage_usec` counter from the runtime's CPU accounting
/// file content.
#[verifier::loop_isolation(false)]
pub fn parse_cpu_usage_usec(content: &[u8]) -> (r: u64)
    ensures
        r as int == spec_cpu_usec(spec_lines(content@)),
{
    let lines = lines_of(content);
    let ghost lv = Seq::new(lines@.len(), |j: int| lines@[j]@);
    proof {
        reveal_strlit("usage_usec");
        assert(vstd::string::is_ascii("usage_usec"));
        assert(lv =~= spec_lines(content@));
        assert(lv.subrange(0, lv.len() as int) =~= lv);
    }
    let prefix = "usage_usec".as_bytes();
    proof {
        broadcast use vstd::string::is_ascii_spec_bytes;

        assert(prefix@ =~= "usage_usec"@.map(|_i: int, c: char| c as u8));
    }
    let mut i: usize = 0;
    while i < lines.len()
        invariant
            i <= lv.len(),
            lv.len() == lines@.len(),
            forall|j: int| 0 <= j < lv.len() ==> lv[j] == lines@[j]@,
            prefix@ == "usage_usec"@.map(|_i: int, c: char| c as u8),
            spec_cpu_usec(lv) == spec_cpu_usec(lv.subrange(i as int, lv.len() as int)),
        decreases lv.len() - i,
    {
        let ghost rem = lv.subrange(i as int, lv.len() as int);
        proof {
            assert(rem[0] == lv[i as int]);
            assert(rem.drop_first() =~= lv.subrange(i + 1, lv.len() as int));
        }
        if bytes_starts_with(lines[i].as_slice(), prefix) {
            let tokens = split_ws(lines[i].as_slice());
            if tokens.len() >= 2 {
                let t = trim_bytes(tokens[1].as_slice());
                return match parse_u64(t.as_slice()) {
                    Some(v) => v,
                    None => 0,
                };
            }
            return 0;
        }
        i = i + 1;
    }
    proof {
        assert(lv.subrange(lv.len() as int, lv.len() as int).len() == 0);
    }
    0
}

/// The resource snapshot the accounting counters stand for: memory in
/// MB (floor), and a rough CPU percentage derived from the
/// microsecond counter.
pub fn isolation_snapshot(memory_bytes: u64, cpu_usec: u64) -> (r: ResourceUsage)
    ensures
        r.memory_mb as int == memory_bytes as int / 1048576,
        r.cpu_percent as int == (cpu_usec as int / 1000000) % 100,
        r.network_rx_bytes == 0,
        r.network_tx_bytes == 0,
{
    ResourceUsage {
        memory_mb: memory_bytes / (1024 * 1024),
        cpu_percent: ((cpu_usec / 1_000_000) % 100) as u32,
        network_rx_bytes: 0,
        network_tx_bytes: 0,
    }
}

#[verifier::external_type_specification]
#[verifier::external_body]
pub struct ExValue(serde_json::Value);

/// Relies on `serde_json::from_str::<Value>`: parses one JSON
/// document, or reports that the text is not one. The parsed value is
/// opaque here; the verified logic below is proved for every value the
/// parser can hand back.
#[verifier::external_body]
fn json_parse(line: &str) -> (r: Option<serde_json::Value>) {
    serde_json::from_str(line).ok()
}

/// Relies on `serde_json::Value::get`: the member under a key of a
/// JSON object, or nothing.
#[verifier::external_body]
fn json_get<'a>(v: &'a serde_json::Value, key: &str) -> (r: Option<&'a serde_json::Value>) {
    v.get(key)
}

/// Relies on `serde_json::Value::as_str`: the text of a JSON string
/// value, or nothing for any other kind of value.
#[verifier::external_body]
fn json_as_str<'a>(v: &'a serde_json::Value) -> (r: Option<&'a str>) {
    v.as_str()
}

/// The record one log line stands for, given what the JSON probe
/// found: a parsed line contributes its `timestamp`, `level` and
/// `message` fields with their defaults; an unparsed line is wrapped
/// whole with a synthesized timestamp.
pub open spec fn spec_log_entry(
    line: Seq<char>,
    now: Seq<char>,
    fields: Option<(Option<Seq<char>>, Option<Seq<char>>, Option<Seq<char>>)>,
) -> crate::types::LogEntryView {
    match fields {
        Some((ts, lvl, msg)) => crate::types::LogEntryView {
            timestamp: match ts {
                Some(t) => t,
                None => ""@,
            },
            level: match lvl {
                Some(l) => l,
                None => "info"@,
            },
            message: match msg {
                Some(m) => m,
                None => line,
            },
        },
        None => crate::types::LogEntryView { timestamp: now, level: "info"@, message: line },
    }
}

/// Build one log record from a line and the fields the JSON probe
/// found in it.
pub fn log_entry_from_fields(
    line: &str,
    now: &str,
    fields: Option<(Option<String>, Option<String>, Option<String>)>,
) -> (r: LogEntry)
    ensures
        r@ == spec_log_entry(
            line@,
            now@,
            match fields {
                Some(f) => Some((f.0.deep_view(), f.1.deep_view(), f.2.deep_view())),
                None => None,
            },
        ),
{
    match fields {
        Some((ts, lvl, msg)) => LogEntry {
            timestamp: match ts {
                Some(t) => t,
                None => "".to_owned(),
            },
            level: match lvl {
                Some(l) => l,
                None => "info".to_owned(),
            },
            message: match msg {
                Some(m) => m,
                None => line.to_owned(),
            },
        },
        None => LogEntry {
            timestamp: now.to_owned(),
            level: "info".to_owned(),
            message: line.to_owned(),
        },
    }
}

/// Parse one log line: a line that is a JSON document contributes its
/// fields, any other line is wrapped whole. Whatever the parser hands
/// back, the record is the one `spec_log_entry` lays down for it.
pub fn parse_log_line(line: &str, now: &str) -> (r: LogEntry)
    ensures
        exists|fields: Option<(Option<Seq<char>>, Option<Seq<char>>, Option<Seq<char>>)>|
            r@ == spec_log_entry(line@, now@, fields),
{
    let fields = match json_parse(line) {
        Some(v) => {
            let ts = match json_get(&v, "timestamp") {
                Some(x) => match json_as_str(x) {
                    Some(s) => Some(s.to_owned()),
                    None => None,
                },
                None => None,
            };
            let lvl = match json_get(&v, "level") {
                Some(x) => match json_as_str(x) {
                    Some(s) => Some(s.to_owned()),
                    None => None,
                },
                None => None,
            };
            let msg = match json_get(&v, "message") {
                Some(x) => match json_as_str(x) {
                    Some(s) => Some(s.to_owned()),
                    None => None,
                },
                None => None,
            };
            Some((ts, lvl, msg))
        },
        None => None,
    };
    let ghost fv: Option<(Option<Seq<char>>, Option<Seq<char>>, Option<Seq<char>>)> = match &fields {
        Some(f) => Some((f.0.deep_view(), f.1.deep_view(), f.2.deep_view())),
        None => None,
    };
    let r = log_entry_from_fields(line, now, fields);
    proof {
        assert(r@ == spec_log_entry(line@, now@, fv));
    }
    r
}

/// A record shaped as one log line stands for, under some probe
/// outcome.
pub open spec fn spec_is_log_shape(e: crate::types::LogEntryView, now: Seq<char>) -> bool {
    exists|fields: Option<(Option<Seq<char>>, Option<Seq<char>>, Option<Seq<char>>)>, line: Seq<
        char,
    >| e == spec_log_entry(line, now, fields)
}

/// The most-recent `tail` lines of a log content: fewer if the history
/// is shorter, none — not an error — if the content is empty.
#[verifier::loop_isolation(false)]
pub fn containment_get_logs(content: &[u8], tail: usize, now: &str) -> (r: Vec<LogEntry>)
    ensures
        r@.len() == (if spec_lines(content@).len() <= tail {
            spec_lines(content@).len() as int
        } else {
            tail as int
        }),
        forall|j: int| 0 <= j < r@.len() ==> spec_is_log_shape((#[trigger] r@[j])@, now@),
{
    let lines = lines_of(content);
    let start = if lines.len() > tail {
        lines.len() - tail
    } else {
        0
    };
    let mut r: Vec<LogEntry> = Vec::new();
    let mut i: usize = start;
    while i < lines.len()
        invariant
            start <= i <= lines@.len(),
            r@.len() == i - start,
            forall|j: int| 0 <= j < r@.len() ==> spec_is_log_shape((#[trigger] r@[j])@, now@),
        decreases lines@.len() - i,
    {
        let s = crate::bytes::bytes_to_string(lines[i].as_slice());
        let entry = parse_log_line(s.as_str(), now);
        let ghost ev = entry@;
        let ghost sv = s@;
        proof {
            let w = choose|fields: Option<(Option<Seq<char>>, Option<Seq<char>>, Option<
                Seq<char>,
            >)>| ev == spec_log_entry(sv, now@, fields);
            assert(ev == spec_log_entry(sv, now@, w));
            assert(spec_is_log_shape(ev, now@));
        }
        r.push(entry);
        i = i + 1;
    }
    r
}

/// The next region of the log file a poll must read: the suffix that
/// grew since the last poll, or nothing when the file did not grow.
pub fn new_log_region(last_size: u64, size: u64) -> (r: Option<(u64, u64)>)
    ensures
        size > last_size ==> r == Some((last_size, (size - last_size) as u64)),
        size <= last_size ==> r is None,
{
    if size > last_size {
        Some((last_size, size - last_size))
    } else {
        None
    }
}

} // verus!
