use ktr::ip::IpAddress;
use ktr::metadata::{Asn, GeographicScope, Network, NetworkType, Organization};
use ktr::packet::{PacketId, TracerouteError, TracerouteResult};
use ktr::trace::{
    DidUpdate, Hop, NetworkDb, PeeringDbError, RawChannel, RdnsError, RdnsResolver,
    TerminationReason, Trace, TraceConfig, TraceError,
};
use ktr::whois::{WhoisRead, WhoisSockets};

fn v4(a: u8, b: u8, c: u8, d: u8) -> IpAddress {
    IpAddress::V4(u32::from_be_bytes([a, b, c, d]))
}

struct FakeChannel {
    incoming: Vec<TracerouteResult>,
    sent: Vec<(IpAddress, u8, PacketId)>,
}

impl FakeChannel {
    fn new() -> FakeChannel {
        FakeChannel { incoming: Vec::new(), sent: Vec::new() }
    }
}

impl RawChannel for FakeChannel {
    fn send_echo(&mut self, dst: &IpAddress, ttl: u8, id: PacketId) -> Result<(), TracerouteError> {
        self.sent.push((*dst, ttl, id));
        Ok(())
    }

    fn poll(&mut self) -> Result<Option<TracerouteResult>, TracerouteError> {
        if self.incoming.is_empty() {
            Ok(None)
        } else {
            Ok(Some(self.incoming.remove(0)))
        }
    }
}

struct BrokenChannel;

impl RawChannel for BrokenChannel {
    fn send_echo(&mut self, _dst: &IpAddress, _t: u8, _id: PacketId) -> Result<(), TracerouteError> {
        Ok(())
    }

    fn poll(&mut self) -> Result<Option<TracerouteResult>, TracerouteError> {
        Err(TracerouteError::RxChannelIo)
    }
}

struct StubRdns;

impl RdnsResolver for StubRdns {
    fn reverse_dns(&mut self, _ip: &IpAddress) -> Result<Option<String>, RdnsError> {
        Ok(None)
    }
}

struct FailingRdns;

impl RdnsResolver for FailingRdns {
    fn reverse_dns(&mut self, _ip: &IpAddress) -> Result<Option<String>, RdnsError> {
        Err(RdnsError { message: "resolver broke".to_string() })
    }
}

struct StubDb {
    records: Vec<(u32, Network)>,
}

impl StubDb {
    fn empty() -> StubDb {
        StubDb { records: Vec::new() }
    }
}

impl NetworkDb for StubDb {
    fn network_by_asn(&self, asn: Asn) -> Result<Option<Network>, PeeringDbError> {
        for (a, n) in &self.records {
            if *a == asn.0 {
                return Ok(Some(n.clone()));
            }
        }
        Ok(None)
    }
}

struct FailingDb;

impl NetworkDb for FailingDb {
    fn network_by_asn(&self, _asn: Asn) -> Result<Option<Network>, PeeringDbError> {
        Err(PeeringDbError { message: "backing store broke".to_string() })
    }
}

struct FakeWhois {
    scripts: Vec<(String, Vec<WhoisRead>)>,
    handles: Vec<Vec<WhoisRead>>,
    connects: Vec<String>,
}

impl FakeWhois {
    fn new(scripts: Vec<(&str, Vec<WhoisRead>)>) -> FakeWhois {
        FakeWhois {
            scripts: scripts.into_iter().map(|(n, r)| (n.to_string(), r)).collect(),
            handles: Vec::new(),
            connects: Vec::new(),
        }
    }

    fn silent() -> FakeWhois {
        FakeWhois::new(vec![])
    }
}

impl WhoisSockets for FakeWhois {
    fn connect(&mut self, _ip: &IpAddress, server: &[u8]) -> Option<usize> {
        let name = String::from_utf8_lossy(server).to_string();
        self.connects.push(name.clone());
        if let Some(pos) = self.scripts.iter().position(|(n, _)| *n == name) {
            let (_, reads) = self.scripts.remove(pos);
            self.handles.push(reads);
            Some(self.handles.len() - 1)
        } else {
            None
        }
    }

    fn read_line(&mut self, handle: usize) -> WhoisRead {
        if handle < self.handles.len() && !self.handles[handle].is_empty() {
            self.handles[handle].remove(0)
        } else {
            WhoisRead::NoData
        }
    }
}

fn line(s: &str) -> WhoisRead {
    WhoisRead::Line(s.to_string())
}

fn cfg(max_hops: u8, wait: u64, retry: u64, dest: u64, completion: u64) -> TraceConfig {
    TraceConfig {
        max_hops,
        wait_time_per_hop: wait,
        retry_frequency: retry,
        destination_timeout: dest,
        completion_timeout: completion,
        asn_cache_size: 64,
    }
}

fn pending_id(trace: &Trace, index: usize) -> PacketId {
    match &trace.hops()[index] {
        Hop::Pending { id } => *id,
        other => panic!("hop {} is not pending: {:?}", index, other),
    }
}

#[test]
fn three_hop_trace_completes() {
    // dst 9.9.9.9, five hop budget; a private router, a documentation-range
    // router (not public, so no WHOIS lookup), then the destination itself,
    // whose ASN comes from the WHOIS race.
    let dst = v4(9, 9, 9, 9);
    let config = cfg(5, 50, 1000, 1000, 1000);
    let mut chan = FakeChannel::new();
    let db = StubDb::empty();
    let mut rdns = StubRdns;
    let mut whois = FakeWhois::new(vec![("whois.iana.org", vec![line("OriginAS: AS19281")])]);
    let mut trace = Trace::new(dst, &config);

    let (du, term) = trace.poll(&mut chan, &db, &mut rdns, &mut whois, 0).unwrap();
    assert_eq!(du, DidUpdate::Yes);
    assert_eq!(term, None);
    assert_eq!(trace.hops().len(), 1);
    assert_eq!(chan.sent.len(), 1);
    assert_eq!(chan.sent[0].1, 1); // TTL 1 for the first hop

    let id0 = pending_id(&trace, 0);
    chan.incoming.push(TracerouteResult::IcmpTimeExceeded(v4(10, 0, 0, 1), id0));
    trace.poll(&mut chan, &db, &mut rdns, &mut whois, 1).unwrap();
    assert!(matches!(
        &trace.hops()[0],
        Hop::Done { ip, network_info: None, .. } if *ip == v4(10, 0, 0, 1)
    ));
    assert_eq!(trace.hops().len(), 2);
    assert_eq!(chan.sent[1].1, 2); // TTL 2 for the second hop

    let id1 = pending_id(&trace, 1);
    chan.incoming.push(TracerouteResult::IcmpTimeExceeded(v4(192, 0, 2, 1), id1));
    trace.poll(&mut chan, &db, &mut rdns, &mut whois, 2).unwrap();
    // 192.0.2.1 lies in a documentation range, hence is not public: the hop
    // finishes bare, without any WHOIS contact.
    assert!(matches!(
        &trace.hops()[1],
        Hop::Done { ip, network_info: None, .. } if *ip == v4(192, 0, 2, 1)
    ));
    assert_eq!(whois.connects.len(), 0);
    assert_eq!(trace.hops().len(), 3);

    let id2 = pending_id(&trace, 2);
    chan.incoming.push(TracerouteResult::IcmpReply(dst, id2));
    trace.poll(&mut chan, &db, &mut rdns, &mut whois, 3).unwrap();
    match &trace.hops()[2] {
        Hop::Done { ip, network_info: Some(info), .. } => {
            assert_eq!(*ip, dst);
            assert_eq!(info.asn, Asn(19281));
        },
        other => panic!("destination hop not enriched: {:?}", other),
    }
    assert_eq!(trace.hops().len(), 3);

    let (du, term) = trace.poll(&mut chan, &db, &mut rdns, &mut whois, 4).unwrap();
    assert_eq!(du, DidUpdate::Yes);
    assert_eq!(term, Some(TerminationReason::Done));
}

#[test]
fn public_hop_is_enriched_via_whois_and_peeringdb() {
    let dst = v4(9, 9, 9, 9);
    let config = cfg(5, 50, 1000, 1000, 1000);
    let mut chan = FakeChannel::new();
    let record = Network {
        id: 7,
        name: "Example Net".to_string(),
        organization: Organization { id: 3, name: "Example Org".to_string(), url: "".to_string() },
        url: "https://example.net".to_string(),
        geographic_scope: GeographicScope::Global,
        asn: Asn(64500),
        network_type: NetworkType::Nsp,
        protocols: None,
    };
    let db = StubDb { records: vec![(64500, record)] };
    let mut rdns = StubRdns;
    let mut whois = FakeWhois::new(vec![("whois.iana.org", vec![line("OriginAS: AS64500")])]);
    let mut trace = Trace::new(dst, &config);

    trace.poll(&mut chan, &db, &mut rdns, &mut whois, 0).unwrap();
    let id0 = pending_id(&trace, 0);
    chan.incoming.push(TracerouteResult::IcmpTimeExceeded(v4(11, 22, 33, 44), id0));
    trace.poll(&mut chan, &db, &mut rdns, &mut whois, 1).unwrap();
    match &trace.hops()[0] {
        Hop::Done { ip, network_info: Some(info), .. } => {
            assert_eq!(*ip, v4(11, 22, 33, 44));
            assert_eq!(info.asn, Asn(64500));
            assert_eq!(info.network.as_ref().unwrap().name, "Example Net");
        },
        other => panic!("hop not enriched: {:?}", other),
    }
    assert!(whois.connects.len() >= 3);
}

#[test]
fn destination_timeout_leaves_pending_snapshot() {
    // dst 203.0.113.1, three hops; the first two answer, the third never
    // does, so the trace times out waiting for the destination.
    let dst = v4(203, 0, 113, 1);
    let config = cfg(3, 50, 10_000, 200, 1000);
    let mut chan = FakeChannel::new();
    let db = StubDb::empty();
    let mut rdns = StubRdns;
    let mut whois = FakeWhois::new(vec![
        ("whois.iana.org", vec![line("OriginAS: AS64496")]),
        ("whois.iana.org", vec![line("OriginAS: AS64497")]),
    ]);
    let mut trace = Trace::new(dst, &config);

    trace.poll(&mut chan, &db, &mut rdns, &mut whois, 0).unwrap();
    let id0 = pending_id(&trace, 0);
    chan.incoming.push(TracerouteResult::IcmpTimeExceeded(v4(11, 0, 0, 1), id0));
    trace.poll(&mut chan, &db, &mut rdns, &mut whois, 1).unwrap();
    let id1 = pending_id(&trace, 1);
    chan.incoming.push(TracerouteResult::IcmpTimeExceeded(v4(12, 0, 0, 1), id1));
    trace.poll(&mut chan, &db, &mut rdns, &mut whois, 2).unwrap();
    assert_eq!(trace.hops().len(), 3);

    // the wait deadline passes: all probes are now out
    let (_, term) = trace.poll(&mut chan, &db, &mut rdns, &mut whois, 60).unwrap();
    assert_eq!(term, None);

    // 201 ms after the last probe the destination timeout fires
    let (du, term) = trace.poll(&mut chan, &db, &mut rdns, &mut whois, 261).unwrap();
    assert_eq!(du, DidUpdate::Yes);
    assert_eq!(term, Some(TerminationReason::DestinationTimeout));
    assert!(matches!(&trace.hops()[0], Hop::Done { network_info: Some(i), .. } if i.asn == Asn(64496)));
    assert!(matches!(&trace.hops()[1], Hop::Done { network_info: Some(i), .. } if i.asn == Asn(64497)));
    assert!(matches!(&trace.hops()[2], Hop::Pending { .. }));
}

#[test]
fn destination_unreachable_terminates() {
    let dst = v4(198, 51, 100, 5);
    let config = cfg(3, 50, 1000, 1000, 1000);
    let mut chan = FakeChannel::new();
    let db = StubDb::empty();
    let mut rdns = StubRdns;
    let mut whois = FakeWhois::silent();
    let mut trace = Trace::new(dst, &config);

    trace.poll(&mut chan, &db, &mut rdns, &mut whois, 0).unwrap();
    chan.incoming.push(TracerouteResult::IcmpDestinationUnreachable(dst));
    let (du, term) = trace.poll(&mut chan, &db, &mut rdns, &mut whois, 1).unwrap();
    assert_eq!(du, DidUpdate::Yes);
    assert_eq!(term, Some(TerminationReason::DestinationUnreachable));
}

#[test]
fn unreachable_from_elsewhere_is_discarded() {
    let dst = v4(198, 51, 100, 5);
    let config = cfg(3, 50, 1000, 1000, 1000);
    let mut chan = FakeChannel::new();
    let db = StubDb::empty();
    let mut rdns = StubRdns;
    let mut whois = FakeWhois::silent();
    let mut trace = Trace::new(dst, &config);

    trace.poll(&mut chan, &db, &mut rdns, &mut whois, 0).unwrap();
    chan.incoming.push(TracerouteResult::IcmpDestinationUnreachable(v4(10, 0, 0, 1)));
    let (_, term) = trace.poll(&mut chan, &db, &mut rdns, &mut whois, 1).unwrap();
    assert_eq!(term, None);
}

#[test]
fn single_hop_answered_terminates_done() {
    let dst = v4(5, 5, 5, 5);
    let config = cfg(1, 50, 10_000, 200, 1000);
    let mut chan = FakeChannel::new();
    let db = StubDb::empty();
    let mut rdns = StubRdns;
    let mut whois = FakeWhois::silent();
    let mut trace = Trace::new(dst, &config);

    trace.poll(&mut chan, &db, &mut rdns, &mut whois, 0).unwrap();
    assert_eq!(chan.sent.len(), 1);
    let id0 = pending_id(&trace, 0);
    chan.incoming.push(TracerouteResult::IcmpReply(dst, id0));
    trace.poll(&mut chan, &db, &mut rdns, &mut whois, 1).unwrap();
    let (_, term) = trace.poll(&mut chan, &db, &mut rdns, &mut whois, 2).unwrap();
    assert_eq!(term, Some(TerminationReason::Done));
    assert_eq!(chan.sent.len(), 1);
}

#[test]
fn single_hop_unanswered_times_out_with_one_probe() {
    let dst = v4(5, 5, 5, 5);
    let config = cfg(1, 50, 10_000, 200, 1000);
    let mut chan = FakeChannel::new();
    let db = StubDb::empty();
    let mut rdns = StubRdns;
    let mut whois = FakeWhois::silent();
    let mut trace = Trace::new(dst, &config);

    trace.poll(&mut chan, &db, &mut rdns, &mut whois, 0).unwrap();
    let (_, term) = trace.poll(&mut chan, &db, &mut rdns, &mut whois, 60).unwrap();
    assert_eq!(term, None);
    let (_, term) = trace.poll(&mut chan, &db, &mut rdns, &mut whois, 261).unwrap();
    assert_eq!(term, Some(TerminationReason::DestinationTimeout));
    assert_eq!(chan.sent.len(), 1);
}

#[test]
fn cached_negative_answer_skips_whois() {
    let dst = v4(7, 7, 7, 7);
    let config = cfg(5, 1000, 10_000, 10_000, 10_000);
    let mut chan = FakeChannel::new();
    let db = StubDb::empty();
    let mut rdns = StubRdns;
    let mut whois = FakeWhois::silent();
    let mut trace = Trace::new(dst, &config);

    trace.poll(&mut chan, &db, &mut rdns, &mut whois, 0).unwrap();
    let id0 = pending_id(&trace, 0);
    chan.incoming.push(TracerouteResult::IcmpTimeExceeded(v4(66, 66, 66, 66), id0));
    trace.poll(&mut chan, &db, &mut rdns, &mut whois, 1).unwrap();
    // the router was public and uncached: all three servers were tried and
    // none answered, so the negative result went into the cache
    assert_eq!(whois.connects.len(), 3);
    assert!(matches!(&trace.hops()[0], Hop::Done { network_info: None, .. }));

    let id1 = pending_id(&trace, 1);
    chan.incoming.push(TracerouteResult::IcmpTimeExceeded(v4(66, 66, 66, 66), id1));
    trace.poll(&mut chan, &db, &mut rdns, &mut whois, 2).unwrap();
    // same router again: answered from the cache, no new WHOIS connection
    assert!(matches!(&trace.hops()[1], Hop::Done { network_info: None, .. }));
    assert_eq!(whois.connects.len(), 3);
}

#[test]
fn same_packet_twice_is_a_no_op() {
    let dst = v4(9, 9, 9, 9);
    let config = cfg(5, 50, 1000, 1000, 1000);
    let mut chan = FakeChannel::new();
    let db = StubDb::empty();
    let mut rdns = StubRdns;
    let mut whois = FakeWhois::silent();
    let mut trace = Trace::new(dst, &config);

    trace.poll(&mut chan, &db, &mut rdns, &mut whois, 0).unwrap();
    let id0 = pending_id(&trace, 0);
    let packet = TracerouteResult::IcmpTimeExceeded(v4(10, 0, 0, 1), id0);
    chan.incoming.push(packet);
    trace.poll(&mut chan, &db, &mut rdns, &mut whois, 1).unwrap();
    let snapshot = trace.hops().clone();

    chan.incoming.push(packet);
    trace.poll(&mut chan, &db, &mut rdns, &mut whois, 1).unwrap();
    assert_eq!(*trace.hops(), snapshot);
}

#[test]
fn terminated_trace_reports_again_without_work() {
    let dst = v4(198, 51, 100, 5);
    let config = cfg(3, 50, 1000, 1000, 1000);
    let mut chan = FakeChannel::new();
    let db = StubDb::empty();
    let mut rdns = StubRdns;
    let mut whois = FakeWhois::silent();
    let mut trace = Trace::new(dst, &config);

    trace.poll(&mut chan, &db, &mut rdns, &mut whois, 0).unwrap();
    chan.incoming.push(TracerouteResult::IcmpDestinationUnreachable(dst));
    trace.poll(&mut chan, &db, &mut rdns, &mut whois, 1).unwrap();
    let sent_before = chan.sent.len();
    let (du, term) = trace.poll(&mut chan, &db, &mut rdns, &mut whois, 99_999).unwrap();
    assert_eq!(du, DidUpdate::Yes);
    assert_eq!(term, Some(TerminationReason::DestinationUnreachable));
    assert_eq!(chan.sent.len(), sent_before);
}

#[test]
fn retries_resend_pending_probes() {
    let dst = v4(5, 5, 5, 5);
    let config = cfg(1, 50, 100, 10_000, 10_000);
    let mut chan = FakeChannel::new();
    let db = StubDb::empty();
    let mut rdns = StubRdns;
    let mut whois = FakeWhois::silent();
    let mut trace = Trace::new(dst, &config);

    trace.poll(&mut chan, &db, &mut rdns, &mut whois, 0).unwrap();
    let id0 = pending_id(&trace, 0);
    trace.poll(&mut chan, &db, &mut rdns, &mut whois, 60).unwrap(); // all probes out
    assert_eq!(chan.sent.len(), 1);
    trace.poll(&mut chan, &db, &mut rdns, &mut whois, 161).unwrap(); // retry due
    assert_eq!(chan.sent.len(), 2);
    assert_eq!(chan.sent[1], (dst, 1, id0)); // original TTL and identifier
}

#[test]
fn channel_error_surfaces_as_traceroute_error() {
    let dst = v4(5, 5, 5, 5);
    let config = cfg(3, 50, 1000, 1000, 1000);
    let mut chan = BrokenChannel;
    let db = StubDb::empty();
    let mut rdns = StubRdns;
    let mut whois = FakeWhois::silent();
    let mut trace = Trace::new(dst, &config);

    let err = trace.poll(&mut chan, &db, &mut rdns, &mut whois, 0).unwrap_err();
    assert_eq!(err, TraceError::Traceroute(TracerouteError::RxChannelIo));
}

#[test]
fn rdns_error_surfaces() {
    let dst = v4(9, 9, 9, 9);
    let config = cfg(5, 50, 1000, 1000, 1000);
    let mut chan = FakeChannel::new();
    let db = StubDb::empty();
    let mut rdns = FailingRdns;
    let mut whois = FakeWhois::silent();
    let mut trace = Trace::new(dst, &config);

    trace.poll(&mut chan, &db, &mut rdns, &mut whois, 0).unwrap();
    let id0 = pending_id(&trace, 0);
    chan.incoming.push(TracerouteResult::IcmpTimeExceeded(v4(10, 0, 0, 1), id0));
    let err = trace.poll(&mut chan, &db, &mut rdns, &mut whois, 1).unwrap_err();
    assert!(matches!(err, TraceError::Rdns(_)));
}

#[test]
fn peeringdb_error_surfaces() {
    let dst = v4(9, 9, 9, 9);
    let config = cfg(5, 50, 1000, 1000, 1000);
    let mut chan = FakeChannel::new();
    let db = FailingDb;
    let mut rdns = StubRdns;
    let mut whois = FakeWhois::new(vec![("whois.iana.org", vec![line("OriginAS: AS64500")])]);
    let mut trace = Trace::new(dst, &config);

    trace.poll(&mut chan, &db, &mut rdns, &mut whois, 0).unwrap();
    let id0 = pending_id(&trace, 0);
    chan.incoming.push(TracerouteResult::IcmpTimeExceeded(v4(11, 22, 33, 44), id0));
    let err = trace.poll(&mut chan, &db, &mut rdns, &mut whois, 1).unwrap_err();
    assert!(matches!(err, TraceError::PeeringDb(_)));
}

#[test]
fn completion_timeout_fires_when_hops_lag() {
    let dst = v4(9, 9, 9, 9);
    let config = cfg(3, 50, 10_000, 10_000, 200);
    let mut chan = FakeChannel::new();
    let db = StubDb::empty();
    let mut rdns = StubRdns;
    // hop 0's lookup never answers: the source stays pending forever
    let mut whois = FakeWhois::new(vec![("whois.iana.org", vec![line("remarks: thinking")])]);
    let mut trace = Trace::new(dst, &config);

    trace.poll(&mut chan, &db, &mut rdns, &mut whois, 0).unwrap();
    let id0 = pending_id(&trace, 0);
    chan.incoming.push(TracerouteResult::IcmpTimeExceeded(v4(11, 0, 0, 1), id0));
    trace.poll(&mut chan, &db, &mut rdns, &mut whois, 1).unwrap();
    let id1 = pending_id(&trace, 1);
    chan.incoming.push(TracerouteResult::IcmpReply(dst, id1));
    trace.poll(&mut chan, &db, &mut rdns, &mut whois, 2).unwrap();
    // destination reached at t=2, but hop 0 is still finding its ASN
    let (_, term) = trace.poll(&mut chan, &db, &mut rdns, &mut whois, 100).unwrap();
    assert_eq!(term, None);
    let (du, term) = trace.poll(&mut chan, &db, &mut rdns, &mut whois, 203).unwrap();
    assert_eq!(du, DidUpdate::Yes);
    assert_eq!(term, Some(TerminationReason::CompletionTimeout));
}

#[test]
fn to_hops_hands_the_buffer_out() {
    let dst = v4(5, 5, 5, 5);
    let config = cfg(2, 50, 1000, 1000, 1000);
    let mut chan = FakeChannel::new();
    let db = StubDb::empty();
    let mut rdns = StubRdns;
    let mut whois = FakeWhois::silent();
    let mut trace = Trace::new(dst, &config);

    trace.poll(&mut chan, &db, &mut rdns, &mut whois, 0).unwrap();
    let snapshot = trace.hops().clone();
    let hops = trace.to_hops();
    assert_eq!(hops, snapshot);
    assert_eq!(hops.len(), 1);
}
