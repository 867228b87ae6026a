use vstd::prelude::*;
use vstd::pervasive::VecAdditionalExecFns;
use crate::ip::IpAddress;
use crate::metadata::{Asn, Network};
use crate::trace::{
    DidUpdate,
    Hop,
    NetworkDb,
    RawChannel,
    RdnsResolver,
    TerminationReason,
    Trace,
    TraceConfig,
    TraceError,
    TraceState,
    hop_order,
    lemma_hop_order_transitive,
};
use crate::whois::WhoisSockets;

verus! {

/// Index of a trace slot in the controller; freed slots are reused.
#[derive(Debug, Clone, Copy, PartialEq, Eq, Hash, Structural)]
pub struct TraceId(pub usize);

/// Why a trace left the controller: its own termination, or an error its
/// poll surfaced. The controller never panics on either.
#[derive(Debug, Clone, PartialEq, Eq)]
pub enum SafeTerminationReason {
    Termination(TerminationReason),
    Error(TraceError),
}

/// An event the controller hands to its caller. On an update, the current
/// hops are read through `Controller::hops_of`; a finished trace carries
/// its hops out and frees its slot.
#[derive(Debug)]
pub enum ControllerResult {
    TraceUpdate { id: TraceId },
    TraceDone { id: TraceId, hops: Vec<Hop>, reason: SafeTerminationReason },
}

/// Everything a controller runs over: the capture channel, the PeeringDB
/// view, the reverse-DNS and WHOIS transports, and the per-trace policy.
pub struct ControllerConfig<C: RawChannel, D: NetworkDb, R: RdnsResolver, W: WhoisSockets> {
    pub traceroute_channel: C,
    pub peeringdb: D,
    pub rdns: R,
    pub whois: W,
    pub trace_config: TraceConfig,
}

/// One trace only ever moves forward: same destination and policy, hops
/// never dropped, and each hop only along the hop order.
pub open spec fn trace_evolves(a: Trace, b: Trace) -> bool {
    &&& b.dst_spec() == a.dst_spec()
    &&& b.config_spec() == a.config_spec()
    &&& a.hops_seq().len() <= b.hops_seq().len()
    &&& forall|i: int|
        0 <= i < a.hops_seq().len() ==> hop_order(a.hops_seq()[i], #[trigger] b.hops_seq()[i])
}

/// The forward evolution of traces composes.
pub proof fn lemma_trace_evolves_trans(a: Trace, b: Trace, c: Trace)
    requires
        trace_evolves(a, b),
        trace_evolves(b, c),
    ensures
        trace_evolves(a, c),
{
    assert forall|i: int| 0 <= i < a.hops_seq().len() implies hop_order(
        a.hops_seq()[i],
        #[trigger] c.hops_seq()[i],
    ) by {
        lemma_hop_order_transitive(a.hops_seq()[i], b.hops_seq()[i], c.hops_seq()[i]);
    }
}

/// How one slot may stand after a controller step, compared to before it:
/// a live trace evolved forward, an empty slot stayed empty, and a slot
/// was freed only by handing its trace out as the event `freed`.
pub open spec fn slot_steps(a: Option<Trace>, b: Option<Trace>, freed: bool) -> bool {
    match (a, b) {
        (Some(x), Some(y)) => trace_evolves(x, y),
        (None, y) => y is None,
        (Some(_), None) => freed,
    }
}

/// Multiplexes any number of concurrent traces over one capture channel,
/// with fair round-robin polling and reuse of freed slot indices.
pub struct Controller<C: RawChannel, D: NetworkDb, R: RdnsResolver, W: WhoisSockets> {
    traceroute_channel: C,
    peeringdb: D,
    rdns: R,
    whois: W,
    trace_config: TraceConfig,
    traces: Vec<Option<Trace>>,
    next_id: usize,
    iter_cursor: usize,
}

impl<C: RawChannel, D: NetworkDb, R: RdnsResolver, W: WhoisSockets> Controller<C, D, R, W> {
    pub closed spec fn traces_seq(&self) -> Seq<Option<Trace>> {
        self.traces@
    }

    pub closed spec fn config_spec(&self) -> TraceConfig {
        self.trace_config
    }

    /// The invariant: every live trace is well formed and runs under the
    /// controller's policy; the `next_id` hint is the lowest free slot (or
    /// the end when all slots are live); the round-robin cursor stays in
    /// range.
    pub closed spec fn well_formed(&self) -> bool {
        &&& self.trace_config.max_hops >= 1
        &&& (forall|i: int|
            0 <= i < self.traces@.len() ==> (match #[trigger] self.traces@[i] {
                Some(t) => t.well_formed() && t.config_spec() == self.trace_config,
                None => true,
            }))
        &&& self.next_id <= self.traces@.len()
        &&& (self.next_id < self.traces@.len() ==> self.traces@[self.next_id as int] is None)
        &&& (forall|j: int| 0 <= j < self.next_id ==> (#[trigger] self.traces@[j]) is Some)
        &&& self.iter_cursor <= self.traces@.len()
    }

    /// A controller with no traces yet.
    pub fn new(config: ControllerConfig<C, D, R, W>) -> (ctl: Controller<C, D, R, W>)
        requires
            config.trace_config.max_hops >= 1,
        ensures
            ctl.well_formed(),
            ctl.traces_seq().len() == 0,
            ctl.config_spec() == config.trace_config,
    {
        Controller {
            traceroute_channel: config.traceroute_channel,
            peeringdb: config.peeringdb,
            rdns: config.rdns,
            whois: config.whois,
            trace_config: config.trace_config,
            traces: Vec::new(),
            next_id: 0,
            iter_cursor: 0,
        }
    }

    /// The current hops of a live trace, or `None` for a freed or unknown id.
    pub fn hops_of(&self, id: TraceId) -> (r: Option<&Vec<Hop>>)
        ensures
            match r {
                Some(hops) => id.0 < self.traces_seq().len() && (match self.traces_seq()[id.0 as int] {
                    Some(t) => hops@ == t.hops_seq(),
                    None => false,
                }),
                None => id.0 >= self.traces_seq().len() || self.traces_seq()[id.0 as int] is None,
            },
    {
        if id.0 < self.traces.len() {
            match &self.traces[id.0] {
                Some(t) => Some(t.hops()),
                None => None,
            }
        } else {
            None
        }
    }

    /// Starts a trace to `ip` in the lowest free slot, appending one when
    /// all slots are live. The slot index is the trace's id.
    pub fn start_trace(&mut self, ip: IpAddress) -> (id: TraceId)
        requires
            old(self).well_formed(),
        ensures
            final(self).well_formed(),
            final(self).config_spec() == old(self).config_spec(),
            id.0 < final(self).traces_seq().len(),
            id.0 <= old(self).traces_seq().len(),
            id.0 < old(self).traces_seq().len() ==> old(self).traces_seq()[id.0 as int] is None,
            forall|j: int| 0 <= j < id.0 ==> (#[trigger] old(self).traces_seq()[j]) is Some,
            match final(self).traces_seq()[id.0 as int] {
                Some(t) => t.dst_spec() == ip && t.state_spec() == TraceState::NotStarted
                    && t.hops_seq().len() == 0,
                None => false,
            },
            forall|j: int|
                0 <= j < old(self).traces_seq().len() && j != id.0
                    ==> final(self).traces_seq()[j] == old(self).traces_seq()[j],
    {
        if self.next_id < self.traces.len() {
            let id = self.next_id;
            self.traces.set(id, Some(Trace::new(ip, &self.trace_config)));
            self.next_id = find_free_from(&self.traces, id + 1);
            TraceId(id)
        } else {
            self.traces.push(Some(Trace::new(ip, &self.trace_config)));
            self.next_id = self.traces.len();
            TraceId(self.next_id - 1)
        }
    }

    /// The PeeringDB record for an ASN; a backing-store error reads as
    /// "no record" rather than failing the controller.
    pub fn lookup_asn(&self, asn: Asn) -> (r: Option<Network>)
    {
        match self.peeringdb.network_by_asn(asn) {
            Ok(network) => network,
            Err(_) => None,
        }
    }

    /// One non-blocking step: drain at most one captured packet and offer
    /// it to every live trace; then advance traces with time-driven work in
    /// round-robin order from the cursor, rotating it. The first trace that
    /// reports an update or finishes produces the event; a finished or
    /// failed trace is consumed and its slot freed, lowering the `next_id`
    /// hint.
    pub fn try_next(&mut self, now: u64) -> (r: Option<ControllerResult>)
        requires
            old(self).well_formed(),
        ensures
            final(self).well_formed(),
            final(self).config_spec() == old(self).config_spec(),
            final(self).traces_seq().len() == old(self).traces_seq().len(),
            forall|j: int|
                0 <= j < old(self).traces_seq().len() ==> slot_steps(
                    old(self).traces_seq()[j],
                    #[trigger] final(self).traces_seq()[j],
                    r matches Some(ControllerResult::TraceDone { id, .. }) && id.0 == j,
                ),
            match r {
                Some(ControllerResult::TraceUpdate { id }) => id.0
                    < final(self).traces_seq().len() && old(self).traces_seq()[id.0 as int]
                    is Some && final(self).traces_seq()[id.0 as int] is Some,
                Some(ControllerResult::TraceDone { id, hops, .. }) => id.0
                    < final(self).traces_seq().len() && final(self).traces_seq()[id.0 as int]
                    is None && (match old(self).traces_seq()[id.0 as int] {
                    Some(t) => t.hops_seq().len() <= hops@.len() && (forall|i: int|
                        0 <= i < t.hops_seq().len() ==> hop_order(
                            t.hops_seq()[i],
                            #[trigger] hops@[i],
                        )),
                    None => false,
                }),
                None => forall|j: int|
                    0 <= j < old(self).traces_seq().len() ==> ((#[trigger] old(
                        self,
                    ).traces_seq()[j]) is Some <==> final(self).traces_seq()[j] is Some),
            },
    {
        let n = self.traces.len();
        if n == 0 {
            return None;
        }
        let packet = match self.traceroute_channel.poll() {
            Ok(p) => p,
            Err(_) => None,
        };
        if let Some(pkt) = packet {
            let mut i: usize = 0;
            while i < n
                invariant
                    old(self).well_formed(),
                    self.well_formed(),
                    self.config_spec() == old(self).config_spec(),
                    n == self.traces@.len(),
                    n == old(self).traces_seq().len(),
                    0 <= i <= n,
                    forall|j: int|
                        0 <= j < n ==> slot_steps(
                            old(self).traces_seq()[j],
                            #[trigger] self.traces@[j],
                            false,
                        ),
                decreases n - i,
            {
                let mut slot: Option<Trace> = None;
                self.traces.set_and_swap(i, &mut slot);
                match slot {
                    None => {},
                    Some(mut trace) => {
                        let ghost pre_trace = trace;
                        let poll_result = trace.handle_packet(
                            &pkt,
                            &mut self.traceroute_channel,
                            &self.peeringdb,
                            &mut self.rdns,
                            &mut self.whois,
                            now,
                        );
                        proof {
                            lemma_step_after_step(
                                old(self).traces_seq()[i as int],
                                pre_trace,
                                trace,
                            );
                        }
                        match poll_result {
                            Ok((DidUpdate::No, _)) => {
                                self.traces.set(i, Some(trace));
                            },
                            Ok((DidUpdate::Yes, None)) => {
                                self.traces.set(i, Some(trace));
                                return Some(ControllerResult::TraceUpdate { id: TraceId(i) });
                            },
                            Ok((DidUpdate::Yes, Some(reason))) => {
                                if i < self.next_id {
                                    self.next_id = i;
                                }
                                return Some(
                                    ControllerResult::TraceDone {
                                        id: TraceId(i),
                                        hops: trace.to_hops(),
                                        reason: SafeTerminationReason::Termination(reason),
                                    },
                                );
                            },
                            Err(error) => {
                                if i < self.next_id {
                                    self.next_id = i;
                                }
                                return Some(
                                    ControllerResult::TraceDone {
                                        id: TraceId(i),
                                        hops: trace.to_hops(),
                                        reason: SafeTerminationReason::Error(error),
                                    },
                                );
                            },
                        }
                    },
                }
                i += 1;
            }
        }
        let start = if self.iter_cursor < n {
            self.iter_cursor
        } else {
            0
        };
        let mut k: usize = 0;
        while k < n
            invariant
                old(self).well_formed(),
                self.well_formed(),
                self.config_spec() == old(self).config_spec(),
                n == self.traces@.len(),
                n == old(self).traces_seq().len(),
                1 <= n,
                start < n,
                0 <= k <= n,
                forall|j: int|
                    0 <= j < n ==> slot_steps(
                        old(self).traces_seq()[j],
                        #[trigger] self.traces@[j],
                        false,
                    ),
            decreases n - k,
        {
            let idx = if k < n - start {
                start + k
            } else {
                k - (n - start)
            };
            let mut slot: Option<Trace> = None;
            self.traces.set_and_swap(idx, &mut slot);
            match slot {
                None => {},
                Some(mut trace) => {
                    let ghost pre_trace = trace;
                    let poll_result = trace.non_packet_poll(
                        &mut self.traceroute_channel,
                        &self.peeringdb,
                        &mut self.rdns,
                        &mut self.whois,
                        now,
                    );
                    proof {
                        lemma_step_after_step(old(self).traces_seq()[idx as int], pre_trace, trace);
                    }
                    match poll_result {
                        Ok((DidUpdate::No, _)) => {
                            self.traces.set(idx, Some(trace));
                        },
                        Ok((DidUpdate::Yes, None)) => {
                            self.traces.set(idx, Some(trace));
                            self.iter_cursor = if idx + 1 < n {
                                idx + 1
                            } else {
                                0
                            };
                            return Some(ControllerResult::TraceUpdate { id: TraceId(idx) });
                        },
                        Ok((DidUpdate::Yes, Some(reason))) => {
                            self.iter_cursor = if idx + 1 < n {
                                idx + 1
                            } else {
                                0
                            };
                            if idx < self.next_id {
                                self.next_id = idx;
                            }
                            return Some(
                                ControllerResult::TraceDone {
                                    id: TraceId(idx),
                                    hops: trace.to_hops(),
                                    reason: SafeTerminationReason::Termination(reason),
                                },
                            );
                        },
                        Err(error) => {
                            self.iter_cursor = if idx + 1 < n {
                                idx + 1
                            } else {
                                0
                            };
                            if idx < self.next_id {
                                self.next_id = idx;
                            }
                            return Some(
                                ControllerResult::TraceDone {
                                    id: TraceId(idx),
                                    hops: trace.to_hops(),
                                    reason: SafeTerminationReason::Error(error),
                                },
                            );
                        },
                    }
                },
            }
            k += 1;
        }
        self.iter_cursor = if start + 1 < n {
            start + 1
        } else {
            0
        };
        None
    }
}

/// Evolution from the step's start composes with one more trace poll.
proof fn lemma_step_after_step(pre_slot: Option<Trace>, mid: Trace, post: Trace)
    requires
        slot_steps(pre_slot, Some(mid), false),
        trace_evolves(mid, post),
    ensures
        slot_steps(pre_slot, Some(post), false),
{
    match pre_slot {
        Some(a) => {
            lemma_trace_evolves_trans(a, mid, post);
        },
        None => {},
    }
}

fn find_free_from(traces: &Vec<Option<Trace>>, from: usize) -> (r: usize)
    requires
        from <= traces@.len(),
    ensures
        from <= r <= traces@.len(),
        r < traces@.len() ==> traces@[r as int] is None,
        forall|j: int| from <= j < r ==> (#[trigger] traces@[j]) is Some,
{
    let n = traces.len();
    let mut i = from;
    while i < n
        invariant
            from <= i <= n,
            n == traces@.len(),
            forall|j: int| from <= j < i ==> (#[trigger] traces@[j]) is Some,
        decreases n - i,
    {
        let free = match &traces[i] {
            None => true,
            Some(_) => false,
        };
        if free {
            return i;
        }
        i += 1;
    }
    n
}

} // verus!
