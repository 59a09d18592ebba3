//! Handle-proxy transfer protocol: moves a local handle's traffic across a
//! bound pair of substreams and collapses multi-hop forwarding chains.
//!
//! Discovery is driven by the router, an external collaborator.  The logic
//! here is split at the router boundary: `recv` decides what to ask the
//! router for a given stream reference, and the `recv_finish_*` functions
//! turn the router's answer into the final outcome — either a running
//! forwarding task or a direct drain into the final handle (a fused
//! chain).  Ownership of handles follows Rust moves, so a fused handle is
//! delivered to its final consumer exactly once.

use vstd::prelude::*;

verus! {

/// Opaque mesh-wide identifier of a participant, compared by equality.
#[derive(Debug, Clone, Copy, PartialEq, Eq, Structural)]
pub struct NodeId(pub u64);

/// Identifier of one substream within a link's transport.
#[derive(Debug, Clone, Copy, PartialEq, Eq, Structural)]
pub struct StreamId {
    pub id: u64,
}

/// Token minted when a handle is handed off through an intermediate node;
/// pairs the transfer's initiator with its waiter.
#[derive(Debug, Clone, Copy, PartialEq, Eq, Structural)]
pub struct TransferKey(pub u64);

/// A local communication endpoint being transported across the mesh.
#[derive(Debug, Clone, Copy, PartialEq, Eq, Structural)]
pub struct Handle {
    pub id: u64,
}

/// How the remote end of a to-be-proxied handle is discovered.
#[derive(Debug, Clone, Copy, PartialEq, Eq, Structural)]
pub enum StreamRef {
    /// A brand-new substream pair on the given id.
    Creating { stream_id: StreamId },
    /// This side drains the old substream while opening a new one toward
    /// the destination node.
    TransferInitiator {
        stream_id: StreamId,
        new_destination_node: NodeId,
        transfer_key: TransferKey,
    },
    /// This side blocks on the router resolving the paired initiator.
    TransferWaiter { stream_id: StreamId, transfer_key: TransferKey },
}

/// The router's answer to an `open_transfer` request.
#[derive(Debug, Clone, Copy, PartialEq, Eq, Structural)]
pub enum OpenedTransfer {
    /// The chain collapsed entirely; no further proxy is needed.
    Fused,
    /// A genuine proxy must still run on the given substream pair, moving
    /// the handle the router handed back.
    Remote(StreamId, StreamId, Handle),
}

/// The router's answer to a `find_transfer` request.
#[derive(Debug, Clone, Copy, PartialEq, Eq, Structural)]
pub enum FoundTransfer {
    /// The chain collapsed; the old substream drains into this handle.
    Fused(Handle),
    /// A genuine proxy must still run on the given substream pair.
    Remote(StreamId, StreamId),
}

/// Errors of the discovery protocol.
#[derive(Debug, Clone, Copy, PartialEq, Eq, Structural)]
pub enum ProxyError {
    /// The router reference was torn down concurrently; discovery aborts
    /// and the caller closes the would-be handle.
    RouterGone,
}

/// Message accounting carried by a proxy.
#[derive(Debug, Clone, Copy, PartialEq, Eq, Structural)]
pub struct MessageStats {
    pub messages_sent: u64,
    pub bytes_sent: u64,
}

impl MessageStats {
    /// Fresh accounting with both counters at zero.
    pub fn new() -> (s: MessageStats)
        ensures
            s.messages_sent == 0,
            s.bytes_sent == 0,
    {
        MessageStats { messages_sent: 0, bytes_sent: 0 }
    }
}

/// Non-owning view of the router: the proxy holds a weak back-reference
/// and checks liveness before each discovery request.
#[derive(Debug, Clone, Copy, PartialEq, Eq, Structural)]
pub struct RouterStatus {
    pub alive: bool,
}

impl RouterStatus {
    /// Liveness check, failing with `RouterGone` when the router was
    /// dropped.
    pub fn check(&self) -> (r: Result<(), ProxyError>)
        ensures
            r is Ok <==> self.alive,
            r is Err ==> r == Err::<(), ProxyError>(ProxyError::RouterGone),
    {
        if self.alive {
            Ok(())
        } else {
            Err(ProxyError::RouterGone)
        }
    }
}

/// An owned pairing of the local handle, the router back-reference and
/// the message-accounting stats; owns the handle exclusively until it is
/// fused away or the proxy terminates.
#[derive(Debug, Clone, Copy, PartialEq, Eq, Structural)]
pub struct Proxy {
    pub hdl: Handle,
    pub router: RouterStatus,
    pub stats: MessageStats,
}

impl Proxy {
    /// Take ownership of `hdl` for proxying.
    pub fn new(hdl: Handle, router: RouterStatus, stats: MessageStats) -> (p: Proxy)
        ensures
            p.hdl == hdl,
            p.router == router,
            p.stats == stats,
    {
        Proxy { hdl, router, stats }
    }
}

/// A forwarding task ready to run: the proxy bound to its substream pair,
/// with an optional old substream to drain first.
#[derive(Debug, Clone, Copy, PartialEq, Eq, Structural)]
pub struct ProxyTask {
    pub proxy: Proxy,
    pub stream_writer: StreamId,
    pub initial_stream_reader: Option<StreamId>,
    pub stream_reader: StreamId,
}

/// A direct drain: the old substream empties into the final handle and no
/// steady-state proxy runs afterwards.
#[derive(Debug, Clone, Copy, PartialEq, Eq, Structural)]
pub struct DrainTask {
    pub from_stream: StreamId,
    pub into_handle: Handle,
}

/// Allocator of fresh local handle pairs; every minted handle is distinct
/// from every other one it has minted.
pub struct HandleSource {
    next_id: u64,
}

impl HandleSource {
    /// The next id this source will mint.
    pub closed spec fn next(&self) -> int {
        self.next_id as int
    }

    pub fn new() -> (s: HandleSource)
        ensures
            s.next() == 0,
    {
        HandleSource { next_id: 0 }
    }

    /// Mint a fresh local/remote handle pair; the two are distinct.
    pub fn create_handles(&mut self) -> (r: (Handle, Handle))
        requires
            old(self).next() + 2 <= u64::MAX,
        ensures
            final(self).next() == old(self).next() + 2,
            r.0.id == old(self).next(),
            r.1.id == old(self).next() + 1,
            r.0 != r.1,
    {
        let a = Handle { id: self.next_id };
        let b = Handle { id: self.next_id + 1 };
        self.next_id = self.next_id + 2;
        (a, b)
    }
}

/// Start proxying `hdl`'s traffic over the given substream pair.  The
/// returned task pair (local-to-remote and remote-to-local forwarding) is
/// run by the caller's executor.
pub fn send(
    hdl: Handle,
    stream_writer: StreamId,
    stream_reader: StreamId,
    stats: MessageStats,
    router: RouterStatus,
) -> (t: ProxyTask)
    ensures
        t.proxy.hdl == hdl,
        t.proxy.router == router,
        t.proxy.stats == stats,
        t.stream_writer == stream_writer,
        t.initial_stream_reader is None,
        t.stream_reader == stream_reader,
{
    ProxyTask {
        proxy: Proxy::new(hdl, router, stats),
        stream_writer,
        initial_stream_reader: None,
        stream_reader,
    }
}

/// Discovery state after `recv` asked the router to open a transfer: the
/// created handle pair, the request's coordinates and the old substream
/// to drain.  The remote-side handle went to the router with the request.
#[derive(Debug, Clone, Copy, PartialEq, Eq, Structural)]
pub struct PendingInitiator {
    pub app_chan: Handle,
    pub mesh_chan: Handle,
    pub new_destination_node: NodeId,
    pub transfer_key: TransferKey,
    pub initial_stream_reader: StreamId,
}

impl PendingInitiator {
    /// The two created handles are distinct ends of one pair.
    pub open spec fn wf(self) -> bool {
        self.app_chan != self.mesh_chan
    }
}

/// Discovery state after `recv` asked the router to find a transfer.
#[derive(Debug, Clone, Copy, PartialEq, Eq, Structural)]
pub struct PendingWaiter {
    pub transfer_key: TransferKey,
    pub initial_stream_reader: StreamId,
}

/// Outcome of discovery: the handle handed to the application, whether a
/// steady-state proxy now runs, and the task or drain to execute.
#[derive(Debug, Clone, Copy, PartialEq, Eq, Structural)]
pub struct RecvOutcome {
    pub handle: Handle,
    pub is_proxying: bool,
    pub task: Option<ProxyTask>,
    pub drain: Option<DrainTask>,
}

/// What `recv` needs from the router before it can finish, if anything.
#[derive(Debug, Clone, Copy, PartialEq, Eq, Structural)]
pub enum RecvStep {
    /// No router round-trip was needed; discovery is complete.
    Done(RecvOutcome),
    /// Ask the router to `open_transfer` toward the new destination,
    /// handing it the pending pair's remote-side handle, then call
    /// `recv_finish_open` with its answer.
    OpenTransfer(PendingInitiator),
    /// Ask the router to `find_transfer` for the key, then call
    /// `recv_finish_find` with its answer.
    FindTransfer(PendingWaiter),
}

/// Discovery entry point for an inbound stream reference.  `Creating`
/// completes immediately with a running proxy; the two transfer variants
/// fail fast when the router is gone and otherwise return the request the
/// caller must put to the router.
pub fn recv(
    handles: &mut HandleSource,
    stream_ref: StreamRef,
    router: RouterStatus,
    stats: MessageStats,
) -> (r: Result<RecvStep, ProxyError>)
    requires
        old(handles).next() + 2 <= u64::MAX,
    ensures
        final(handles).next() >= old(handles).next(),
        match stream_ref {
            StreamRef::Creating { stream_id } => r matches Ok(RecvStep::Done(out)) && {
                &&& out.is_proxying
                &&& out.drain is None
                &&& out.task matches Some(t) && t.proxy.hdl != out.handle && t.stream_writer
                    == stream_id && t.stream_reader == stream_id && t.initial_stream_reader
                    is None && t.proxy.router == router && t.proxy.stats == stats
            },
            StreamRef::TransferInitiator { stream_id, new_destination_node, transfer_key } => {
                &&& !router.alive ==> r == Err::<RecvStep, ProxyError>(ProxyError::RouterGone)
                &&& router.alive ==> (r matches Ok(RecvStep::OpenTransfer(p)) && {
                    &&& p.wf()
                    &&& p.new_destination_node == new_destination_node
                    &&& p.transfer_key == transfer_key
                    &&& p.initial_stream_reader == stream_id
                })
            },
            StreamRef::TransferWaiter { stream_id, transfer_key } => {
                &&& !router.alive ==> r == Err::<RecvStep, ProxyError>(ProxyError::RouterGone)
                &&& router.alive ==> r == Ok::<RecvStep, ProxyError>(
                    RecvStep::FindTransfer(
                        PendingWaiter { transfer_key, initial_stream_reader: stream_id },
                    ),
                )
            },
        },
{
    match stream_ref {
        StreamRef::Creating { stream_id } => {
            let (app_chan, mesh_chan) = handles.create_handles();
            let task = ProxyTask {
                proxy: Proxy::new(mesh_chan, router, stats),
                stream_writer: stream_id,
                initial_stream_reader: None,
                stream_reader: stream_id,
            };
            Ok(
                RecvStep::Done(
                    RecvOutcome {
                        handle: app_chan,
                        is_proxying: true,
                        task: Some(task),
                        drain: None,
                    },
                ),
            )
        },
        StreamRef::TransferInitiator { stream_id, new_destination_node, transfer_key } => {
            router.check()?;
            let (app_chan, mesh_chan) = handles.create_handles();
            Ok(
                RecvStep::OpenTransfer(
                    PendingInitiator {
                        app_chan,
                        mesh_chan,
                        new_destination_node,
                        transfer_key,
                        initial_stream_reader: stream_id,
                    },
                ),
            )
        },
        StreamRef::TransferWaiter { stream_id, transfer_key } => {
            router.check()?;
            Ok(
                RecvStep::FindTransfer(
                    PendingWaiter { transfer_key, initial_stream_reader: stream_id },
                ),
            )
        },
    }
}

/// Finish an initiator's discovery with the router's answer.  A `Fused`
/// answer leaves no proxy running: the old substream drains straight into
/// the application's handle.  A `Remote` answer starts a full forwarding
/// task on the new substream pair, and the handle handed to the
/// application stays distinct from the proxied one.
pub fn recv_finish_open(
    pending: PendingInitiator,
    opened: OpenedTransfer,
    router: RouterStatus,
    stats: MessageStats,
) -> (r: RecvOutcome)
    requires
        pending.wf(),
    ensures
        r.is_proxying <==> opened is Remote,
        r.handle == pending.app_chan,
        opened is Fused ==> r.task is None && r.drain == Some(
            DrainTask {
                from_stream: pending.initial_stream_reader,
                into_handle: pending.app_chan,
            },
        ),
        opened matches OpenedTransfer::Remote(w, rd, h) ==> r.drain is None && r.task
            == Some(
            ProxyTask {
                proxy: Proxy { hdl: h, router, stats },
                stream_writer: w,
                initial_stream_reader: Some(pending.initial_stream_reader),
                stream_reader: rd,
            },
        ),
        (opened matches OpenedTransfer::Remote(_, _, h) && h == pending.mesh_chan) ==> (
        opened matches OpenedTransfer::Remote(_, _, h2) ==> r.handle != h2),
{
    match opened {
        OpenedTransfer::Fused => RecvOutcome {
            handle: pending.app_chan,
            is_proxying: false,
            task: None,
            drain: Some(
                DrainTask {
                    from_stream: pending.initial_stream_reader,
                    into_handle: pending.app_chan,
                },
            ),
        },
        OpenedTransfer::Remote(stream_writer, stream_reader, mesh_chan) => RecvOutcome {
            handle: pending.app_chan,
            is_proxying: true,
            task: Some(
                ProxyTask {
                    proxy: Proxy::new(mesh_chan, router, stats),
                    stream_writer,
                    initial_stream_reader: Some(pending.initial_stream_reader),
                    stream_reader,
                },
            ),
            drain: None,
        },
    }
}

/// Finish a waiter's discovery with the router's answer.  A `Fused` answer
/// drains the old substream into the handle the router found; a `Remote`
/// answer creates a fresh handle pair and starts forwarding, handing the
/// application a handle distinct from the proxied one.
pub fn recv_finish_find(
    handles: &mut HandleSource,
    pending: PendingWaiter,
    found: FoundTransfer,
    router: RouterStatus,
    stats: MessageStats,
) -> (r: RecvOutcome)
    requires
        old(handles).next() + 2 <= u64::MAX,
    ensures
        r.is_proxying <==> found is Remote,
        found matches FoundTransfer::Fused(h) ==> r.handle == h && r.task is None && r.drain
            == Some(
            DrainTask { from_stream: pending.initial_stream_reader, into_handle: h },
        ),
        found matches FoundTransfer::Remote(w, rd) ==> {
            &&& r.drain is None
            &&& r.task matches Some(t) && t.stream_writer == w && t.stream_reader == rd
                && t.initial_stream_reader == Some(pending.initial_stream_reader)
                && t.proxy.router == router && t.proxy.stats == stats && t.proxy.hdl != r.handle
        },
{
    match found {
        FoundTransfer::Fused(handle) => RecvOutcome {
            handle,
            is_proxying: false,
            task: None,
            drain: Some(
                DrainTask { from_stream: pending.initial_stream_reader, into_handle: handle },
            ),
        },
        FoundTransfer::Remote(stream_writer, stream_reader) => {
            let (app_chan, mesh_chan) = handles.create_handles();
            RecvOutcome {
                handle: app_chan,
                is_proxying: true,
                task: Some(
                    ProxyTask {
                        proxy: Proxy::new(mesh_chan, router, stats),
                        stream_writer,
                        initial_stream_reader: Some(pending.initial_stream_reader),
                        stream_reader,
                    },
                ),
                drain: None,
            }
        },
    }
}

} // verus!
