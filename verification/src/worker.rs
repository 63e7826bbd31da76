//! The worker's message handling: each command becomes a framed wire
//! message, and the aggregation store is driven along the way.
//!
//! The worker itself is a loop around a socket and a pair of channels; the
//! decisions it takes per command are here, as functions from state and
//! command to the bytes that go out.

use vstd::prelude::*;
use crate::hello::{Hello, MatchResult, HELLO_SIZE};
use crate::log_msg::{EventLog, SpanLog};
use crate::sink::{CallSiteInfo, Span, SpanControl};
use crate::store::{SpanStore, index_of_key, spec_datasets};
use crate::wire::{ClientRecord, Metadata, MsgType, Payload, PayloadRef, Project, SpanAlloc,
    SpanDataset, SpanEvent, SpanFollows, SpanParent, SpanUpdate, ServerConfig, Target, spec_frame,
    frame_message, TYPE_SPAN_ALLOC, TYPE_SPAN_EVENT, TYPE_PROJECT, TYPE_SPAN_DATASET};

verus! {

/// Capacity of the payload area of one outbound frame.
pub const NET_PAYLOAD_CAP: usize = 1024;

/// The host CPU as plain values.
pub struct CpuInfo {
    pub name: Vec<u8>,
    pub core_count: u32,
}

/// The build target triple as plain values.
pub struct TargetInfo {
    pub os: Vec<u8>,
    pub family: Vec<u8>,
    pub arch: Vec<u8>,
}

/// Frames a fixed-layout message that carries no payload.
pub fn frame_fixed(ty: MsgType, header: &Vec<u8>) -> (r: Vec<u8>)
    ensures
        r@ == spec_frame(ty.spec_byte(), header@, None),
{
    frame_message(ty.to_byte(), header, None)
}

/// The payload that travels with a call-site registration: its strings
/// back to back, in the order name, target, module, file.
pub open spec fn spec_alloc_payload(info: CallSiteInfo) -> Seq<u8> {
    info.name@ + info.target@ + (match info.module {
        Some(m) => m@,
        None => Seq::<u8>::empty(),
    }) + (match info.file {
        Some(f) => f@,
        None => Seq::<u8>::empty(),
    })
}

/// The whole `SpanAlloc` frame registering a call-site: the header with
/// its references into the payload, then the payload itself.
pub open spec fn spec_alloc_frame(node: u32, info: CallSiteInfo) -> Seq<u8> {
    let module_bytes = match info.module {
        Some(m) => m@,
        None => Seq::<u8>::empty(),
    };
    let header = SpanAlloc {
        id: node,
        metadata: Metadata {
            level: info.level,
            line: info.line,
            name: PayloadRef { length: info.name@.len() as u16, offset: 0 },
            target: PayloadRef {
                length: info.target@.len() as u16,
                offset: info.name@.len() as u16,
            },
            module: match info.module {
                Some(m) => Some(
                    PayloadRef {
                        length: m@.len() as u16,
                        offset: (info.name@.len() + info.target@.len()) as u16,
                    },
                ),
                None => None,
            },
            file: match info.file {
                Some(f) => Some(
                    PayloadRef {
                        length: f@.len() as u16,
                        offset: (info.name@.len() + info.target@.len()
                            + module_bytes.len()) as u16,
                    },
                ),
                None => None,
            },
        },
    };
    spec_frame(TYPE_SPAN_ALLOC, header.spec_encode(), Some(spec_alloc_payload(info)))
}

/// How much payload a call-site's strings need.
pub open spec fn spec_alloc_payload_len(info: CallSiteInfo) -> int {
    spec_alloc_payload(info).len() as int
}

/// Builds the `SpanAlloc` frame registering a call-site: the node id and
/// its metadata, with the strings in the payload, in the order name,
/// target, module, file.
pub fn encode_span_alloc(node: u32, info: &CallSiteInfo) -> (r: Vec<u8>)
    requires
        spec_alloc_payload_len(*info) <= NET_PAYLOAD_CAP,
    ensures
        r@ == spec_alloc_frame(node, *info),
{
    let mut payload = Payload::new(NET_PAYLOAD_CAP);
    let name_ref = payload.write_object(&info.name);
    let target_ref = payload.write_object(&info.target);
    let module_ref = match &info.module {
        Some(m) => Some(payload.write_object(m)),
        None => None,
    };
    let file_ref = match &info.file {
        Some(f) => Some(payload.write_object(f)),
        None => None,
    };
    proof {
        assert(payload.buf@ =~= info.name@ + info.target@ + (match info.module {
            Some(m) => m@,
            None => Seq::<u8>::empty(),
        }) + (match info.file {
            Some(f) => f@,
            None => Seq::<u8>::empty(),
        }));
    }
    let header = SpanAlloc {
        id: node,
        metadata: Metadata {
            level: info.level,
            line: info.line,
            name: name_ref,
            target: target_ref,
            module: module_ref,
            file: file_ref,
        },
    };
    let mut head: Vec<u8> = Vec::new();
    header.encode(&mut head);
    let frame = frame_message(TYPE_SPAN_ALLOC, &head, Some(&payload.buf));
    proof {
        assert(payload.buf@ == spec_alloc_payload(*info));
        assert(frame@ == spec_alloc_frame(node, *info));
    }
    frame
}

/// Builds the `Project` frame describing the instrumented program, with
/// the strings in the payload, in the order application, crate, version,
/// command line, OS, family, architecture, CPU name.
pub fn encode_project(
    app_name: &Vec<u8>,
    name: &Vec<u8>,
    version: &Vec<u8>,
    cmd_line: &Vec<u8>,
    target: &TargetInfo,
    cpu: &Option<CpuInfo>,
) -> (r: Vec<u8>)
    requires
        app_name@.len() + name@.len() + version@.len() + cmd_line@.len() + target.os@.len()
            + target.family@.len() + target.arch@.len() + (match cpu {
            Some(c) => c.name@.len(),
            None => 0nat,
        }) <= NET_PAYLOAD_CAP,
    ensures
        ({
            let cpu_bytes = match cpu {
                Some(c) => c.name@,
                None => Seq::<u8>::empty(),
            };
            r@ == spec_frame(
                TYPE_PROJECT,
                spec_project_header(*app_name, *name, *version, *cmd_line, *target, *cpu),
                Some(
                    app_name@ + name@ + version@ + cmd_line@ + target.os@ + target.family@
                        + target.arch@ + cpu_bytes,
                ),
            )
        }),
{
    let mut payload = Payload::new(NET_PAYLOAD_CAP);
    let app_ref = payload.write_object(app_name);
    let name_ref = payload.write_object(name);
    let version_ref = payload.write_object(version);
    let cmd_ref = payload.write_object(cmd_line);
    let os_ref = payload.write_object(&target.os);
    let family_ref = payload.write_object(&target.family);
    let arch_ref = payload.write_object(&target.arch);
    let cpu_field = match cpu {
        Some(c) => Some(
            crate::wire::Cpu { name: payload.write_object(&c.name), core_count: c.core_count },
        ),
        None => None,
    };
    proof {
        assert(payload.buf@ =~= app_name@ + name@ + version@ + cmd_line@ + target.os@
            + target.family@ + target.arch@ + (match cpu {
            Some(c) => c.name@,
            None => Seq::<u8>::empty(),
        }));
    }
    let header = Project {
        app_name: app_ref,
        name: name_ref,
        version: version_ref,
        cmd_line: cmd_ref,
        target: Target { os: os_ref, family: family_ref, arch: arch_ref },
        cpu: cpu_field,
    };
    let mut head: Vec<u8> = Vec::new();
    header.encode(&mut head);
    proof {
        assert(head@ == spec_project_header(*app_name, *name, *version, *cmd_line, *target, *cpu));
    }
    frame_message(TYPE_PROJECT, &head, Some(&payload.buf))
}

/// The `Project` header bytes for the given strings laid out back to back
/// in the payload.
pub open spec fn spec_project_header(
    app_name: Vec<u8>,
    name: Vec<u8>,
    version: Vec<u8>,
    cmd_line: Vec<u8>,
    target: TargetInfo,
    cpu: Option<CpuInfo>,
) -> Seq<u8> {
    let l0 = app_name@.len() as int;
    let l1 = name@.len() as int;
    let l2 = version@.len() as int;
    let l3 = cmd_line@.len() as int;
    let l4 = target.os@.len() as int;
    let l5 = target.family@.len() as int;
    let l6 = target.arch@.len() as int;
    Project {
        app_name: PayloadRef { length: l0 as u16, offset: 0 },
        name: PayloadRef { length: l1 as u16, offset: l0 as u16 },
        version: PayloadRef { length: l2 as u16, offset: (l0 + l1) as u16 },
        cmd_line: PayloadRef { length: l3 as u16, offset: (l0 + l1 + l2) as u16 },
        target: Target {
            os: PayloadRef { length: l4 as u16, offset: (l0 + l1 + l2 + l3) as u16 },
            family: PayloadRef { length: l5 as u16, offset: (l0 + l1 + l2 + l3 + l4) as u16 },
            arch: PayloadRef { length: l6 as u16, offset: (l0 + l1 + l2 + l3 + l4 + l5) as u16 },
        },
        cpu: match cpu {
            Some(c) => Some(
                crate::wire::Cpu {
                    name: PayloadRef {
                        length: c.name@.len() as u16,
                        offset: (l0 + l1 + l2 + l3 + l4 + l5 + l6) as u16,
                    },
                    core_count: c.core_count,
                },
            ),
            None => None,
        },
    }.spec_encode()
}

/// Builds the `SpanEvent` frame shipping one event record: the sealed
/// record bytes travel as the payload.
pub fn encode_span_event(event: &EventLog) -> (r: Vec<u8>)
    requires
        event.wf(),
    ensures
        ({
            let bytes = event.spec_bytes();
            let header = SpanEvent {
                id: match event.id {
                    Some(v) => v,
                    None => 0,
                },
                timestamp: event.timestamp,
                level: event.level,
                message: PayloadRef { length: bytes.len() as u16, offset: 0 },
            };
            r@ == spec_frame(TYPE_SPAN_EVENT, header.spec_encode(), Some(bytes))
        }),
{
    let bytes = event.as_bytes();
    let header = SpanEvent {
        id: match event.id {
            Some(v) => v,
            None => 0,
        },
        timestamp: event.timestamp,
        level: event.level,
        message: PayloadRef { length: bytes.len() as u16, offset: 0 },
    };
    let mut head: Vec<u8> = Vec::new();
    header.encode(&mut head);
    frame_message(TYPE_SPAN_EVENT, &head, Some(&bytes))
}

/// Handles one span-channel command: drives the store and returns the
/// frame to write. Registering a call-site both reserves its slot in the
/// store and emits the wire registration, so the wire sees a `SpanAlloc`
/// for a node before any update or dataset for it.
pub fn handle_span_command(store: &mut SpanStore, cmd: &Span<SpanControl>, now_ms: u64) -> (r: Vec<
    u8,
>)
    requires
        old(store).wf(),
        cmd.id.wf(),
        match cmd.ty {
            SpanControl::Alloc { info } => spec_alloc_payload_len(info) <= NET_PAYLOAD_CAP,
            SpanControl::Follows { follows } => follows.wf(),
            _ => true,
        },
    ensures
        final(store).wf(),
        match cmd.ty {
            SpanControl::Alloc { info } => {
                let node = cmd.id.spec_node() as u32;
                // The registration is framed in full, and the store now
                // carries a fresh slot for the node, so later runs and
                // datasets for it are accepted.
                &&& r@ == spec_alloc_frame(node, info)
                &&& match index_of_key(old(store).span_data@, node) {
                    Some(i) => final(store).span_data@ == old(store).span_data@.update(
                        i,
                        final(store).span_data@[i],
                    ) && final(store).span_data@[i].0 == node && crate::store::is_fresh(
                        final(store).span_data@[i].1,
                        now_ms,
                    ),
                    None => final(store).span_data@ == old(store).span_data@.push(
                        final(store).span_data@.last(),
                    ) && final(store).span_data@.last().0 == node && crate::store::is_fresh(
                        final(store).span_data@.last().1,
                        now_ms,
                    ),
                }
            },
            SpanControl::UpdateParent { parent } => r@ == spec_frame(
                MsgType::SpanParent.spec_byte(),
                SpanParent {
                    id: cmd.id.spec_node() as u32,
                    parent_node: match parent {
                        Some(p) => p,
                        None => 0,
                    },
                }.spec_encode(),
                None,
            ) && final(store).span_data@ == old(store).span_data@,
            SpanControl::Follows { follows } => r@ == spec_frame(
                MsgType::SpanFollows.spec_byte(),
                SpanFollows {
                    id: cmd.id.spec_node() as u32,
                    follows: follows.spec_node() as u32,
                }.spec_encode(),
                None,
            ) && final(store).span_data@ == old(store).span_data@,
        },
{
    match &cmd.ty {
        SpanControl::Alloc { info } => {
            store.reserve_span(cmd.id.get_id(), now_ms);
            encode_span_alloc(cmd.id.get_id(), info)
        },
        SpanControl::UpdateParent { parent } => {
            let header = SpanParent {
                id: cmd.id.get_id(),
                parent_node: match parent {
                    Some(p) => *p,
                    None => 0,
                },
            };
            let mut head: Vec<u8> = Vec::new();
            header.encode(&mut head);
            frame_fixed(MsgType::SpanParent, &head)
        },
        SpanControl::Follows { follows } => {
            let header = SpanFollows { id: cmd.id.get_id(), follows: follows.get_id() };
            let mut head: Vec<u8> = Vec::new();
            header.encode(&mut head);
            frame_fixed(MsgType::SpanFollows, &head)
        },
    }
}

/// Handles one finished span run: folds it into the store and frames the
/// aggregate push when one is due.
pub fn handle_span_log(store: &mut SpanStore, log: SpanLog, now_ms: u64) -> (r: Option<Vec<u8>>)
    requires
        old(store).wf(),
        log.wf(),
    ensures
        final(store).wf(),
        match index_of_key(old(store).span_data@, log.id) {
            None => r is None && final(store).span_data@ == old(store).span_data@,
            Some(i) => {
                let before = old(store).span_data@[i].1;
                let after = final(store).span_data@[i].1;
                let since: int = if now_ms >= before.last_display_time {
                    now_ms - before.last_display_time
                } else {
                    0
                };
                // A frame goes out exactly when the node's push period has
                // elapsed, and it carries the node's refreshed aggregates.
                &&& (r is Some) == (since >= old(store).period)
                &&& r matches Some(frame) ==> frame@ == spec_frame(
                    MsgType::SpanUpdate.spec_byte(),
                    SpanUpdate {
                        id: log.id,
                        run_count: after.row_count,
                        average_time: crate::store::spec_wire_duration(
                            crate::store::spec_average(after),
                        ),
                        min_time: crate::store::spec_wire_duration(after.min_time),
                        max_time: crate::store::spec_wire_duration(after.max_time),
                    }.spec_encode(),
                    None,
                )
            },
        },
{
    let ghost entries = store.span_data@;
    match store.record(log, now_ms) {
        Some(update) => {
            let mut head: Vec<u8> = Vec::new();
            update.encode(&mut head);
            let frame = frame_fixed(MsgType::SpanUpdate, &head);
            proof {
                let u = update;
                assert(frame@ == spec_frame(
                    MsgType::SpanUpdate.spec_byte(),
                    u.spec_encode(),
                    None,
                ));
            }
            Some(frame)
        },
        None => None,
    }
}

/// Ends the recording window: one `SpanDataset` frame per node that
/// recorded anything, each carrying that node's buffered runs.
pub fn drain_datasets(store: &mut SpanStore) -> (r: Vec<Vec<u8>>)
    requires
        old(store).wf(),
        forall|i: int|
            0 <= i < old(store).span_data@.len() ==> (#[trigger] old(store).span_data@[i]).1.runs_file@.len() <= u32::MAX,
    ensures
        final(store).wf(),
        !final(store).enable_recording,
        r@.len() == spec_datasets(old(store).span_data@).len(),
        forall|k: int|
            0 <= k < r@.len() ==> (#[trigger] r@[k])@ == spec_frame(
                TYPE_SPAN_DATASET,
                spec_datasets(old(store).span_data@)[k].0.spec_encode(),
                Some(spec_datasets(old(store).span_data@)[k].1),
            ),
{
    proof {
        crate::store::lemma_spec_datasets_bounded(store.span_data@, u32::MAX as int);
    }
    let datasets = store.stop_recording();
    let mut out: Vec<Vec<u8>> = Vec::new();
    let n = datasets.len();
    let mut i: usize = 0;
    while i < n
        invariant
            i <= n,
            n == datasets@.len(),
            datasets@.len() == spec_datasets(old(store).span_data@).len(),
            forall|k: int|
                0 <= k < n ==> (#[trigger] datasets@[k]).0 == spec_datasets(
                    old(store).span_data@,
                )[k].0 && datasets@[k].1@ == spec_datasets(old(store).span_data@)[k].1,
            forall|k: int|
                0 <= k < spec_datasets(old(store).span_data@).len() ==> (
                #[trigger] spec_datasets(old(store).span_data@)[k]).1.len() <= u32::MAX,
            out@.len() == i,
            forall|k: int|
                0 <= k < i ==> (#[trigger] out@[k])@ == spec_frame(
                    TYPE_SPAN_DATASET,
                    spec_datasets(old(store).span_data@)[k].0.spec_encode(),
                    Some(spec_datasets(old(store).span_data@)[k].1),
                ),
        decreases n - i,
    {
        let mut head: Vec<u8> = Vec::new();
        datasets[i].0.encode(&mut head);
        let frame = frame_message(TYPE_SPAN_DATASET, &head, Some(&datasets[i].1));
        out.push(frame);
        i += 1;
    }
    out
}

/// Handles the client's recording toggle: starting a window changes only
/// the store; stopping one drains the buffered datasets onto the wire.
pub fn handle_client_record(store: &mut SpanStore, rec: &ClientRecord) -> (r: Vec<Vec<u8>>)
    requires
        old(store).wf(),
        forall|i: int|
            0 <= i < old(store).span_data@.len() ==> (#[trigger] old(store).span_data@[i]).1.runs_file@.len() <= u32::MAX,
    ensures
        final(store).wf(),
        rec.enable ==> r@.len() == 0 && final(store).enable_recording && final(store).max_rows
            == if rec.max_rows > old(store).global_max_rows {
            old(store).global_max_rows
        } else {
            rec.max_rows
        },
        !rec.enable ==> !final(store).enable_recording && r@.len() == spec_datasets(
            old(store).span_data@,
        ).len(),
{
    if rec.enable {
        store.start_recording(rec.max_rows);
        Vec::new()
    } else {
        drain_datasets(store)
    }
}

/// Frames the server's opening configuration.
pub fn encode_server_config(max_rows: u32, min_period: u16) -> (r: Vec<u8>)
    ensures
        r@ == spec_frame(
            MsgType::ServerConfig.spec_byte(),
            ServerConfig { max_rows, min_period }.spec_encode(),
            None,
        ),
{
    let header = ServerConfig { max_rows, min_period };
    let mut head: Vec<u8> = Vec::new();
    header.encode(&mut head);
    frame_fixed(MsgType::ServerConfig, &head)
}

/// What the handshake decides for a local packet against the client's raw
/// bytes: the signatures must agree byte for byte; then either both sides
/// carry the same pre-release tag, or neither does and the major versions
/// agree.
pub open spec fn spec_hello_check(local: Hello, block: Seq<u8>) -> MatchResult {
    if local.signature@ != block.subrange(0, 8) {
        MatchResult::SignatureMismatch
    } else if (if block[16] == 0 {
        local.version.pre_release is None && local.version.major == crate::codec::u64_from_le(
            block.subrange(8, 16),
        )
    } else {
        local.version.pre_release matches Some(p) && p@ == block.subrange(16, HELLO_SIZE as int)
    }) {
        MatchResult::Accepted
    } else {
        MatchResult::VersionMismatch
    }
}

/// Decides the handshake: decodes the client's 40 bytes and compares them
/// with the local packet. Only an exact signature and version match lets
/// the session continue.
pub fn check_client_hello(local: &Hello, block: &Vec<u8>) -> (r: MatchResult)
    requires
        local.wf(),
        block@.len() == HELLO_SIZE,
    ensures
        r == spec_hello_check(*local, block@),
{
    let remote = Hello::from_bytes(block);
    local.matches(&remote)
}

} // verus!
