use std::cell::RefCell;
use std::rc::Rc;

use ktr::controller::{Controller, ControllerConfig, ControllerResult, SafeTerminationReason, TraceId};
use ktr::ip::IpAddress;
use ktr::metadata::{Asn, Network};
use ktr::packet::{PacketId, TracerouteError, TracerouteResult};
use ktr::trace::{
    Hop, NetworkDb, PeeringDbError, RawChannel, RdnsError, RdnsResolver, TerminationReason,
    TraceConfig,
};
use ktr::whois::{WhoisRead, WhoisSockets};

fn v4(a: u8, b: u8, c: u8, d: u8) -> IpAddress {
    IpAddress::V4(u32::from_be_bytes([a, b, c, d]))
}

type Queue = Rc<RefCell<Vec<TracerouteResult>>>;

struct FakeChannel {
    incoming: Queue,
    sent: Rc<RefCell<Vec<(IpAddress, u8, PacketId)>>>,
}

impl RawChannel for FakeChannel {
    fn send_echo(&mut self, dst: &IpAddress, ttl: u8, id: PacketId) -> Result<(), TracerouteError> {
        self.sent.borrow_mut().push((*dst, ttl, id));
        Ok(())
    }

    fn poll(&mut self) -> Result<Option<TracerouteResult>, TracerouteError> {
        let mut q = self.incoming.borrow_mut();
        if q.is_empty() {
            Ok(None)
        } else {
            Ok(Some(q.remove(0)))
        }
    }
}

struct StubRdns;

impl RdnsResolver for StubRdns {
    fn reverse_dns(&mut self, _ip: &IpAddress) -> Result<Option<String>, RdnsError> {
        Ok(None)
    }
}

struct StubDb;

impl NetworkDb for StubDb {
    fn network_by_asn(&self, _asn: Asn) -> Result<Option<Network>, PeeringDbError> {
        Ok(None)
    }
}

struct SilentWhois;

impl WhoisSockets for SilentWhois {
    fn connect(&mut self, _ip: &IpAddress, _server: &[u8]) -> Option<usize> {
        None
    }

    fn read_line(&mut self, _handle: usize) -> WhoisRead {
        WhoisRead::NoData
    }
}

type Ctl = Controller<FakeChannel, StubDb, StubRdns, SilentWhois>;

fn controller() -> (Ctl, Queue) {
    let incoming: Queue = Rc::new(RefCell::new(Vec::new()));
    let ctl = Controller::new(ControllerConfig {
        traceroute_channel: FakeChannel {
            incoming: incoming.clone(),
            sent: Rc::new(RefCell::new(Vec::new())),
        },
        peeringdb: StubDb,
        rdns: StubRdns,
        whois: SilentWhois,
        trace_config: TraceConfig {
            max_hops: 4,
            wait_time_per_hop: 50,
            retry_frequency: 10_000,
            destination_timeout: 10_000,
            completion_timeout: 10_000,
            asn_cache_size: 16,
        },
    });
    (ctl, incoming)
}

fn first_pending_id(ctl: &Ctl, id: TraceId) -> PacketId {
    match &ctl.hops_of(id).expect("trace is live")[0] {
        Hop::Pending { id } => *id,
        other => panic!("hop 0 is not pending: {:?}", other),
    }
}

#[test]
fn empty_controller_yields_nothing() {
    let (mut ctl, _q) = controller();
    assert!(ctl.try_next(0).is_none());
}

#[test]
fn packet_updates_only_the_matching_trace() {
    let (mut ctl, q) = controller();
    let a = ctl.start_trace(v4(1, 1, 1, 1));
    let b = ctl.start_trace(v4(2, 2, 2, 2));
    assert_eq!(a, TraceId(0));
    assert_eq!(b, TraceId(1));

    // each trace sends its first probe on its round-robin turn
    match ctl.try_next(0) {
        Some(ControllerResult::TraceUpdate { id }) => assert_eq!(id, a),
        other => panic!("expected an update for the first trace: {:?}", other),
    }
    match ctl.try_next(0) {
        Some(ControllerResult::TraceUpdate { id }) => assert_eq!(id, b),
        other => panic!("expected an update for the second trace: {:?}", other),
    }

    let id_a = first_pending_id(&ctl, a);
    let b_hops_before = ctl.hops_of(b).unwrap().clone();

    q.borrow_mut().push(TracerouteResult::IcmpTimeExceeded(v4(10, 0, 0, 1), id_a));
    match ctl.try_next(0) {
        Some(ControllerResult::TraceUpdate { id }) => assert_eq!(id, a),
        other => panic!("expected the packet to update the matching trace: {:?}", other),
    }
    assert!(matches!(&ctl.hops_of(a).unwrap()[0], Hop::Done { .. }));
    assert_eq!(*ctl.hops_of(b).unwrap(), b_hops_before);
}

#[test]
fn finished_trace_frees_its_slot_for_reuse() {
    let (mut ctl, q) = controller();
    let a = ctl.start_trace(v4(1, 1, 1, 1));
    let b = ctl.start_trace(v4(2, 2, 2, 2));
    ctl.try_next(0);
    ctl.try_next(0);

    q.borrow_mut().push(TracerouteResult::IcmpDestinationUnreachable(v4(1, 1, 1, 1)));
    match ctl.try_next(0) {
        Some(ControllerResult::TraceDone { id, reason, hops }) => {
            assert_eq!(id, a);
            assert!(matches!(
                reason,
                SafeTerminationReason::Termination(TerminationReason::DestinationUnreachable)
            ));
            assert_eq!(hops.len(), 1);
        },
        other => panic!("expected the trace to finish: {:?}", other),
    }
    assert!(ctl.hops_of(a).is_none());
    assert!(ctl.hops_of(b).is_some());

    // the freed slot is the lowest free index, so it is reused
    let c = ctl.start_trace(v4(3, 3, 3, 3));
    assert_eq!(c, TraceId(0));
}

#[test]
fn fruitless_cycle_returns_nothing_and_rotates() {
    let (mut ctl, _q) = controller();
    let a = ctl.start_trace(v4(1, 1, 1, 1));
    ctl.try_next(0);
    // the only trace has sent its probe; with no replies and no deadlines
    // due, a full cycle produces nothing
    assert!(ctl.try_next(1).is_none());
    assert!(ctl.hops_of(a).is_some());
}

#[test]
fn lookup_asn_reads_the_database() {
    let (ctl, _q) = controller();
    assert!(ctl.lookup_asn(Asn(64500)).is_none());
}
