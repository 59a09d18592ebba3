use meshcore::proxy::recv;
use meshcore::proxy::recv_finish_find;
use meshcore::proxy::recv_finish_open;
use meshcore::proxy::send;
use meshcore::proxy::FoundTransfer;
use meshcore::proxy::Handle;
use meshcore::proxy::HandleSource;
use meshcore::proxy::MessageStats;
use meshcore::proxy::NodeId;
use meshcore::proxy::OpenedTransfer;
use meshcore::proxy::ProxyError;
use meshcore::proxy::RecvStep;
use meshcore::proxy::RouterStatus;
use meshcore::proxy::StreamId;
use meshcore::proxy::StreamRef;
use meshcore::proxy::TransferKey;

fn live_router() -> RouterStatus {
    RouterStatus { alive: true }
}

#[test]
fn send_builds_a_forwarding_task() {
    let hdl = Handle { id: 9 };
    let task = send(
        hdl,
        StreamId { id: 4 },
        StreamId { id: 4 },
        MessageStats::new(),
        live_router(),
    );
    assert_eq!(task.proxy.hdl, hdl);
    assert_eq!(task.stream_writer, StreamId { id: 4 });
    assert_eq!(task.stream_reader, StreamId { id: 4 });
    assert_eq!(task.initial_stream_reader, None);
}

#[test]
fn creating_stream_starts_a_proxy_immediately() {
    let mut handles = HandleSource::new();
    let step = recv(
        &mut handles,
        StreamRef::Creating { stream_id: StreamId { id: 7 } },
        live_router(),
        MessageStats::new(),
    )
    .unwrap();
    match step {
        RecvStep::Done(out) => {
            assert!(out.is_proxying);
            assert!(out.drain.is_none());
            let task = out.task.unwrap();
            assert_eq!(task.stream_writer, StreamId { id: 7 });
            assert_eq!(task.stream_reader, StreamId { id: 7 });
            assert_ne!(task.proxy.hdl, out.handle);
        }
        _ => panic!("a creating stream needs no router round-trip"),
    }
}

#[test]
fn initiator_resolving_to_fused_does_not_proxy() {
    let mut handles = HandleSource::new();
    let step = recv(
        &mut handles,
        StreamRef::TransferInitiator {
            stream_id: StreamId { id: 3 },
            new_destination_node: NodeId(12),
            transfer_key: TransferKey(99),
        },
        live_router(),
        MessageStats::new(),
    )
    .unwrap();
    let pending = match step {
        RecvStep::OpenTransfer(p) => p,
        _ => panic!("an initiator must ask the router to open the transfer"),
    };
    assert_eq!(pending.new_destination_node, NodeId(12));
    assert_eq!(pending.transfer_key, TransferKey(99));
    assert_eq!(pending.initial_stream_reader, StreamId { id: 3 });
    let out = recv_finish_open(pending, OpenedTransfer::Fused, live_router(), MessageStats::new());
    assert!(!out.is_proxying);
    assert!(out.task.is_none());
    let drain = out.drain.unwrap();
    assert_eq!(drain.from_stream, StreamId { id: 3 });
    assert_eq!(drain.into_handle, out.handle);
}

#[test]
fn initiator_resolving_to_remote_proxies_a_distinct_handle() {
    let mut handles = HandleSource::new();
    let step = recv(
        &mut handles,
        StreamRef::TransferInitiator {
            stream_id: StreamId { id: 3 },
            new_destination_node: NodeId(12),
            transfer_key: TransferKey(99),
        },
        live_router(),
        MessageStats::new(),
    )
    .unwrap();
    let pending = match step {
        RecvStep::OpenTransfer(p) => p,
        _ => panic!("an initiator must ask the router to open the transfer"),
    };
    // The router hands the proxied handle back with the new substream pair.
    let opened = OpenedTransfer::Remote(
        StreamId { id: 8 },
        StreamId { id: 9 },
        pending.mesh_chan,
    );
    let out = recv_finish_open(pending, opened, live_router(), MessageStats::new());
    assert!(out.is_proxying);
    assert!(out.drain.is_none());
    let task = out.task.unwrap();
    assert_eq!(task.stream_writer, StreamId { id: 8 });
    assert_eq!(task.stream_reader, StreamId { id: 9 });
    assert_eq!(task.initial_stream_reader, Some(StreamId { id: 3 }));
    assert_ne!(out.handle, task.proxy.hdl);
}

#[test]
fn waiter_resolving_to_fused_does_not_proxy() {
    let mut handles = HandleSource::new();
    let step = recv(
        &mut handles,
        StreamRef::TransferWaiter {
            stream_id: StreamId { id: 5 },
            transfer_key: TransferKey(42),
        },
        live_router(),
        MessageStats::new(),
    )
    .unwrap();
    let pending = match step {
        RecvStep::FindTransfer(p) => p,
        _ => panic!("a waiter must ask the router to find the transfer"),
    };
    let found_handle = Handle { id: 77 };
    let out = recv_finish_find(
        &mut handles,
        pending,
        FoundTransfer::Fused(found_handle),
        live_router(),
        MessageStats::new(),
    );
    assert!(!out.is_proxying);
    assert_eq!(out.handle, found_handle);
    let drain = out.drain.unwrap();
    assert_eq!(drain.from_stream, StreamId { id: 5 });
    assert_eq!(drain.into_handle, found_handle);
}

#[test]
fn waiter_resolving_to_remote_proxies_a_distinct_handle() {
    let mut handles = HandleSource::new();
    let step = recv(
        &mut handles,
        StreamRef::TransferWaiter {
            stream_id: StreamId { id: 5 },
            transfer_key: TransferKey(42),
        },
        live_router(),
        MessageStats::new(),
    )
    .unwrap();
    let pending = match step {
        RecvStep::FindTransfer(p) => p,
        _ => panic!("a waiter must ask the router to find the transfer"),
    };
    let out = recv_finish_find(
        &mut handles,
        pending,
        FoundTransfer::Remote(StreamId { id: 8 }, StreamId { id: 9 }),
        live_router(),
        MessageStats::new(),
    );
    assert!(out.is_proxying);
    let task = out.task.unwrap();
    assert_eq!(task.initial_stream_reader, Some(StreamId { id: 5 }));
    assert_ne!(out.handle, task.proxy.hdl);
}

#[test]
fn transfers_fail_fast_when_the_router_is_gone() {
    let gone = RouterStatus { alive: false };
    let mut handles = HandleSource::new();
    let r = recv(
        &mut handles,
        StreamRef::TransferInitiator {
            stream_id: StreamId { id: 1 },
            new_destination_node: NodeId(2),
            transfer_key: TransferKey(3),
        },
        gone,
        MessageStats::new(),
    );
    assert_eq!(r, Err(ProxyError::RouterGone));
    let r = recv(
        &mut handles,
        StreamRef::TransferWaiter { stream_id: StreamId { id: 1 }, transfer_key: TransferKey(3) },
        gone,
        MessageStats::new(),
    );
    assert_eq!(r, Err(ProxyError::RouterGone));
    // A creating stream needs no router and still succeeds.
    let r = recv(
        &mut handles,
        StreamRef::Creating { stream_id: StreamId { id: 1 } },
        gone,
        MessageStats::new(),
    );
    assert!(r.is_ok());
}
