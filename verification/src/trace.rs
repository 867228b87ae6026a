use vstd::prelude::*;
use vstd::set_lib::lemma_len_subset;
use vstd::arithmetic::div_mod::lemma_fundamental_div_mod;
use vstd::pervasive::VecAdditionalExecFns;
use crate::cache::{AsnCache, cache_contents};
use crate::ip::{IpAddress, is_public, is_public_spec};
use crate::metadata::{Asn, Network};
use crate::packet::{PacketId, TracerouteError, TracerouteResult};
use crate::whois::{AsnFinder, AsnResult, WhoisSockets};

verus! {

/// Whether a poll step changed the observable hops or state of a trace.
#[derive(Debug, Clone, Copy, PartialEq, Eq, Structural)]
pub enum DidUpdate {
    Yes,
    No,
}

impl DidUpdate {
    pub fn or(&self, other: Self) -> (r: Self)
        ensures
            r is Yes <==> (*self is Yes || other is Yes),
    {
        match (self, other) {
            (DidUpdate::Yes, _) => DidUpdate::Yes,
            (_, DidUpdate::Yes) => DidUpdate::Yes,
            (DidUpdate::No, DidUpdate::No) => DidUpdate::No,
        }
    }
}

/// A reverse-DNS failure other than "no such host".
#[derive(Debug, Clone, PartialEq, Eq)]
pub struct RdnsError {
    pub message: String,
}

/// A failure of the PeeringDB backing store.
#[derive(Debug, Clone, PartialEq, Eq)]
pub struct PeeringDbError {
    pub message: String,
}

/// Errors a trace poll can surface to its caller. A WHOIS socket failure
/// (`AsnLookup`) degrades that source to "not found" rather than failing
/// the poll, so the variant is reserved for callers that map transport
/// failures themselves.
#[derive(Debug, Clone, PartialEq, Eq)]
pub enum TraceError {
    Traceroute(TracerouteError),
    AsnLookup,
    Rdns(RdnsError),
    PeeringDb(PeeringDbError),
}

/// The raw traceroute channel a trace drives: sends one TTL-limited Echo
/// Request, and polls for one captured, already-classified reply.
pub trait RawChannel {
    fn send_echo(&mut self, dst: &IpAddress, ttl: u8, id: PacketId) -> Result<(), TracerouteError>;

    fn poll(&mut self) -> Result<Option<TracerouteResult>, TracerouteError>;
}

/// Reverse DNS: the hostname for an address; `Ok(None)` when there is none.
pub trait RdnsResolver {
    fn reverse_dns(&mut self, ip: &IpAddress) -> Result<Option<String>, RdnsError>;
}

/// The PeeringDB view a trace consults: one keyed read by ASN, returning
/// the network record when the ASN is known.
pub trait NetworkDb {
    fn network_by_asn(&self, asn: Asn) -> Result<Option<Network>, PeeringDbError>;
}

/// Per-trace policy. All durations are in milliseconds.
#[derive(Debug, Clone, Copy, PartialEq, Eq, Structural, Default)]
pub struct TraceConfig {
    /// The maximum number of hops (at least 1 for a usable trace).
    pub max_hops: u8,
    /// How long to wait for a response from each hop before moving on.
    pub wait_time_per_hop: u64,
    /// After all initial probes are sent, how long between retries.
    pub retry_frequency: u64,
    /// How long to wait to reach the destination before giving up.
    pub destination_timeout: u64,
    /// After reaching the destination, how long to wait for every hop
    /// before giving up.
    pub completion_timeout: u64,
    /// Capacity of the per-trace cache of WHOIS conclusions.
    pub asn_cache_size: usize,
}

/// The enrichment attached to a finished hop: its ASN, and the PeeringDB
/// record when one exists.
#[derive(Debug, Clone, PartialEq, Eq)]
pub struct NetworkInfo {
    pub asn: Asn,
    pub network: Option<Network>,
}

/// One slot of the hop buffer.
#[derive(Debug, Clone, PartialEq, Eq)]
pub enum Hop {
    Unused,
    Pending { id: PacketId },
    FindingAsn { ip: IpAddress, finder: AsnFinder },
    Done { ip: IpAddress, hostname: Option<String>, network_info: Option<NetworkInfo> },
}

/// Why a trace ended.
#[derive(Debug, Clone, Copy, PartialEq, Eq, Structural)]
pub enum TerminationReason {
    Done,
    DestinationUnreachable,
    DestinationTimeout,
    CompletionTimeout,
}

/// Where a trace stands. Timestamps are the caller's monotonic clock in
/// milliseconds, as passed to `poll`.
#[derive(Debug, Clone, Copy, PartialEq, Eq, Structural)]
pub enum TraceState {
    NotStarted,
    OnHop { when: u64, index: u8 },
    SentAllRequests { when: u64, last_retry: u64 },
    ReachedDestination { when: u64, last_retry: u64 },
    Terminated(TerminationReason),
}

/// Milliseconds from `since` to `now`, zero when the clock ran backwards.
pub open spec fn elapsed_spec(now: u64, since: u64) -> int {
    if now >= since {
        now - since
    } else {
        0
    }
}

fn elapsed(now: u64, since: u64) -> (r: u64)
    ensures
        r == elapsed_spec(now, since),
{
    if now >= since {
        now - since
    } else {
        0
    }
}

/// The identifiers of the currently pending hops.
pub open spec fn pending_id_set(hops: Seq<Hop>) -> Set<u16> {
    Set::new(
        |x: u16|
            exists|i: int|
                0 <= i < hops.len() && ((#[trigger] hops[i]) matches Hop::Pending { id }
                    && id.0 == x),
    )
}

/// The first hop pending with the given identifier, if any.
pub open spec fn find_pending(hops: Seq<Hop>, id: PacketId) -> Option<int>
    decreases hops.len(),
{
    if hops.len() == 0 {
        None
    } else if hops[0] matches Hop::Pending { id: h } && h == id {
        Some(0int)
    } else {
        match find_pending(hops.drop_first(), id) {
            Some(j) => Some(j + 1),
            None => None,
        }
    }
}

pub proof fn lemma_find_pending_none(hops: Seq<Hop>, id: PacketId)
    ensures
        (find_pending(hops, id) is None) <==> !pending_id_set(hops).contains(id.0),
    decreases hops.len(),
{
    if hops.len() == 0 {
        assert(!pending_id_set(hops).contains(id.0));
    } else {
        lemma_find_pending_none(hops.drop_first(), id);
        let rest = hops.drop_first();
        if hops[0] matches Hop::Pending { id: h } && h == id {
            assert(pending_id_set(hops).contains(id.0));
        } else {
            assert(pending_id_set(rest).contains(id.0) ==> pending_id_set(hops).contains(id.0))
                by {
                if pending_id_set(rest).contains(id.0) {
                    let i = choose|i: int|
                        0 <= i < rest.len() && ((#[trigger] rest[i]) matches Hop::Pending { id: h }
                            && h.0 == id.0);
                    assert(hops[i + 1] == rest[i]);
                }
            }
            assert(pending_id_set(hops).contains(id.0) ==> pending_id_set(rest).contains(id.0))
                by {
                if pending_id_set(hops).contains(id.0) {
                    let i = choose|i: int|
                        0 <= i < hops.len() && ((#[trigger] hops[i]) matches Hop::Pending { id: h }
                            && h.0 == id.0);
                    if i == 0 {
                        assert(hops[0] matches Hop::Pending { id: h } && h.0 == id.0);
                        assert(hops[0] matches Hop::Pending { id: h } && h == id);
                    } else {
                        assert(rest[i - 1] == hops[i]);
                    }
                }
            }
        }
    }
}

pub proof fn lemma_find_pending_some(hops: Seq<Hop>, id: PacketId)
    requires
        find_pending(hops, id) is Some,
    ensures
        ({
            let i = find_pending(hops, id)->Some_0;
            &&& 0 <= i < hops.len()
            &&& hops[i] matches Hop::Pending { id: h } && h == id
            &&& forall|j: int|
                0 <= j < i ==> !((#[trigger] hops[j]) matches Hop::Pending { id: h } && h == id)
        }),
    decreases hops.len(),
{
    if hops[0] matches Hop::Pending { id: h } && h == id {
    } else {
        let rest = hops.drop_first();
        lemma_find_pending_some(rest, id);
        let i = find_pending(hops, id)->Some_0;
        assert(hops[i] == rest[i - 1]);
        assert forall|j: int|
            0 <= j < i implies !((#[trigger] hops[j]) matches Hop::Pending { id: h } && h == id)
        by {
            if j > 0 {
                assert(hops[j] == rest[j - 1]);
            }
        }
    }
}

/// How a single hop may move: forward along
/// `Pending -> FindingAsn -> Done`, never backwards, and never changing
/// the router address once it is known.
pub open spec fn hop_order(a: Hop, b: Hop) -> bool {
    ||| b == a
    ||| (a matches Hop::Pending { .. } && (b matches Hop::FindingAsn { .. } || b matches Hop::Done {
        ..
    }))
    ||| (a matches Hop::FindingAsn { ip: i1, .. } && b matches Hop::FindingAsn { ip: i2, .. }
        && i2 == i1)
    ||| (a matches Hop::FindingAsn { ip: i1, .. } && b matches Hop::Done { ip: i2, .. } && i2
        == i1)
}

/// The hop order is transitive: over any number of polls a hop still only
/// moves forward.
pub proof fn lemma_hop_order_transitive(a: Hop, b: Hop, c: Hop)
    requires
        hop_order(a, b),
        hop_order(b, c),
    ensures
        hop_order(a, c),
{
}

pub open spec fn all_hops_done_spec(hops: Seq<Hop>) -> bool {
    forall|i: int| 0 <= i < hops.len() ==> (#[trigger] hops[i]) matches Hop::Done { .. }
}

/// Relies on rand::random: a fresh random value; nothing can be promised
/// of which one.
pub assume_specification<T>[ rand::random::<T> ]() -> (r: T)
    where
        rand::distributions::Standard: rand::distributions::Distribution<T>,
;

pub open spec fn wrap_add16(a: u16, k: int) -> u16 {
    ((a + k) % 0x10000) as u16
}

proof fn lemma_free_id_exists(taken: Set<u16>, seed: u16, n: int)
    requires
        taken.finite(),
        taken.len() < n,
        1 <= n <= 65536,
    ensures
        exists|k: int| 0 <= k < n && !taken.contains(#[trigger] wrap_add16(seed, k)),
    decreases n,
{
    let c0 = wrap_add16(seed, 0);
    assert(c0 == seed);
    if taken.contains(c0) {
        let t2 = taken.remove(c0);
        assert(t2.len() == taken.len() - 1);
        let seed2 = wrap_add16(seed, 1);
        lemma_free_id_exists(t2, seed2, n - 1);
        let k2 = choose|k: int| 0 <= k < n - 1 && !t2.contains(#[trigger] wrap_add16(seed2, k));
        let c = wrap_add16(seed2, k2);
        assert(c == wrap_add16(seed, k2 + 1)) by {
            assert(seed2 == ((seed + 1) % 0x10000) as u16);
            lemma_fundamental_div_mod(seed + 1, 0x10000);
            lemma_fundamental_div_mod(seed2 + k2, 0x10000);
            lemma_fundamental_div_mod(seed + 1 + k2, 0x10000);
            assert((seed2 + k2) % 0x10000 == (seed + 1 + k2) % 0x10000) by (nonlinear_arith)
                requires
                    seed2 == (seed + 1) - 0x10000 * ((seed + 1) / 0x10000),
                    0 <= seed2 < 0x10000,
                    0 <= k2 < 65536,
            ;
        }
        assert(c != c0) by {
            if c == c0 {
                lemma_fundamental_div_mod(seed + 1 + k2, 0x10000);
                assert((seed + 1 + k2) % 0x10000 == seed);
                assert(seed + 1 + k2 == 0x10000 * ((seed + 1 + k2) / 0x10000) + seed);
                assert(1 + k2 == 0x10000 * ((seed + 1 + k2) / 0x10000));
                assert(0 < 1 + k2 < 0x10000);
                assert(false) by (nonlinear_arith)
                    requires
                        1 + k2 == 0x10000 * ((seed + 1 + k2) / 0x10000),
                        0 < 1 + k2 < 0x10000,
                ;
            }
        }
        assert(!taken.contains(c));
        assert(0 <= k2 + 1 < n);
    } else {
        assert(!taken.contains(wrap_add16(seed, 0)));
    }
}

fn is_id_taken(hops: &Vec<Hop>, id: u16, forbid: Option<PacketId>) -> (r: bool)
    ensures
        r == (pending_id_set(hops@).contains(id) || (forbid matches Some(f) && f.0 == id)),
{
    let n = hops.len();
    let mut i: usize = 0;
    while i < n
        invariant
            n == hops@.len(),
            0 <= i <= n,
            forall|j: int|
                0 <= j < i ==> !((#[trigger] hops@[j]) matches Hop::Pending { id: h } && h.0
                    == id),
        decreases n - i,
    {
        let taken = match &hops[i] {
            Hop::Pending { id: h } => h.0 == id,
            _ => false,
        };
        if taken {
            return true;
        }
        i += 1;
    }
    assert(!pending_id_set(hops@).contains(id));
    match forbid {
        Some(f) => f.0 == id,
        None => false,
    }
}

/// Draws a fresh identifier for a new probe: random, re-drawn by stepping
/// until it collides with no pending hop's identifier nor the forbidden one.
fn fresh_id(hops: &Vec<Hop>, forbid: Option<PacketId>) -> (id: PacketId)
    requires
        hops@.len() <= 255,
    ensures
        !pending_id_set(hops@).contains(id.0),
        forbid != Some(id),
{
    let seed: u16 = rand::random::<u16>();
    let n = hops.len() + 2;
    let ghost taken = pending_id_set(hops@).insert(
        match forbid {
            Some(f) => f.0,
            None => 0u16,
        },
    );
    proof {
        lemma_taken_small(hops@, forbid);
        lemma_free_id_exists(taken, seed, n as int);
    }
    let mut k: usize = 0;
    while k < n
        invariant
            n == hops@.len() + 2,
            n <= 257,
            0 <= k <= n,
            taken == pending_id_set(hops@).insert(
                match forbid {
                    Some(f) => f.0,
                    None => 0u16,
                },
            ),
            exists|j: int| 0 <= j < n && !taken.contains(#[trigger] wrap_add16(seed, j)),
            forall|j: int| 0 <= j < k ==> taken.contains(#[trigger] wrap_add16(seed, j)),
        decreases n - k,
    {
        let cand: u16 = seed.wrapping_add(k as u16);
        proof {
            assert(cand == wrap_add16(seed, k as int)) by {
                lemma_fundamental_div_mod(seed + k, 0x10000);
            }
        }
        if !is_id_taken(hops, cand, forbid) {
            proof {
                assert(!pending_id_set(hops@).contains(cand));
            }
            return PacketId(cand);
        }
        proof {
            assert(taken.contains(wrap_add16(seed, k as int)));
        }
        k += 1;
    }
    proof {
        let j = choose|j: int| 0 <= j < n && !taken.contains(#[trigger] wrap_add16(seed, j));
        assert(taken.contains(wrap_add16(seed, j)));
        assert(false);
    }
    PacketId(0)
}

proof fn lemma_taken_small(hops: Seq<Hop>, forbid: Option<PacketId>)
    requires
        hops.len() <= 255,
    ensures
        ({
            let taken = pending_id_set(hops).insert(
                match forbid {
                    Some(f) => f.0,
                    None => 0u16,
                },
            );
            taken.finite() && taken.len() <= hops.len() + 1
        }),
{
    let ids = Seq::new(
        hops.len(),
        |i: int|
            match hops[i] {
                Hop::Pending { id } => id.0,
                _ => 0u16,
            },
    );
    let idset = ids.to_set();
    assert(pending_id_set(hops).subset_of(idset)) by {
        assert forall|x: u16| pending_id_set(hops).contains(x) implies idset.contains(x) by {
            let i = choose|i: int|
                0 <= i < hops.len() && ((#[trigger] hops[i]) matches Hop::Pending { id }
                    && id.0 == x);
            assert(ids[i] == x);
            assert(ids.contains(x));
        }
    }
    ids.lemma_cardinality_of_set();
    lemma_len_subset(pending_id_set(hops), idset);
    let f0 = match forbid {
        Some(f) => f.0,
        None => 0u16,
    };
    assert(pending_id_set(hops).insert(f0).len() <= pending_id_set(hops).len() + 1);
}

fn find_pending_hop(hops: &Vec<Hop>, id: PacketId) -> (r: Option<usize>)
    ensures
        match r {
            Some(i) => find_pending(hops@, id) == Some(i as int),
            None => find_pending(hops@, id) is None,
        },
{
    let n = hops.len();
    proof {
        assert(hops@.skip(0) =~= hops@);
    }
    let mut i: usize = 0;
    while i < n
        invariant
            n == hops@.len(),
            0 <= i <= n,
            find_pending(hops@, id) == (match find_pending(hops@.skip(i as int), id) {
                Some(j) => Some(j + i),
                None => None::<int>,
            }),
        decreases n - i,
    {
        let hit = match &hops[i] {
            Hop::Pending { id: h } => h.0 == id.0,
            _ => false,
        };
        proof {
            assert(hops@.skip(i as int)[0] == hops@[i as int]);
            assert(hops@.skip(i as int).drop_first() =~= hops@.skip(i as int + 1));
        }
        if hit {
            proof {
                let h = hops@[i as int]->Pending_id;
                assert(h.0 == id.0);
                assert(h == id);
            }
            return Some(i);
        }
        i += 1;
    }
    proof {
        assert(hops@.skip(i as int).len() == 0);
    }
    None
}

/// A finished hop as packet handling leaves it, given the cache before the
/// packet: a public router with a cached conclusion (positive or negative)
/// is `Done` at once, and the cache is not re-consulted through WHOIS; a
/// public router not in the cache starts an ASN lookup; a non-public
/// router is `Done` with no network information.
pub open spec fn hop_done_for(h: Hop, src: IpAddress, cache: Map<(bool, u128), Option<u32>>) -> bool {
    if is_public_spec(src) {
        if cache.dom().contains(src.key_spec()) {
            match cache[src.key_spec()] {
                Some(asn) => h matches Hop::Done { ip, hostname: _, network_info } && ip == src
                    && (network_info matches Some(info) && info.asn.0 == asn),
                None => h matches Hop::Done { ip, hostname: _, network_info } && ip == src
                    && network_info is None,
            }
        } else {
            h matches Hop::FindingAsn { ip, finder: _ } && ip == src
        }
    } else {
        h matches Hop::Done { ip, hostname: _, network_info } && ip == src && network_info is None
    }
}

/// How an Echo Reply or Time Exceeded packet `(src, id)` changes a trace.
/// With no pending hop under `id` it changes nothing. Otherwise the matched
/// hop completes (`hop_done_for`), every other existing hop stays; a reply
/// from the destination moves the trace to `ReachedDestination`; a reply
/// that resolves the currently probed hop starts the next probe at once
/// (with a fresh identifier, never the one just consumed) or, when all
/// probes are out, moves to `SentAllRequests`.
pub open spec fn reply_step(pre: Trace, post: Trace, src: IpAddress, id: PacketId, now: u64, du: DidUpdate) -> bool {
    match find_pending(pre.hops_seq(), id) {
        None => post == pre && du == DidUpdate::No,
        Some(i) => {
            let pn = pre.hops_seq().len() as int;
            &&& du == DidUpdate::Yes
            &&& hop_done_for(post.hops_seq()[i], src, pre.cache_spec())
            &&& post.cache_spec() == pre.cache_spec()
            &&& (forall|j: int|
                0 <= j < pn && j != i ==> post.hops_seq()[j] == pre.hops_seq()[j])
            &&& (if src == pre.dst_spec() {
                post.state_spec() == (TraceState::ReachedDestination { when: now, last_retry: now })
                    && post.hops_seq().len() == pn
            } else if pre.state_spec() matches TraceState::OnHop { when, index } && index as int
                == i {
                if i + 1 < pre.config_spec().max_hops as int {
                    &&& post.hops_seq().len() == pn + 1
                    &&& (match post.hops_seq().last() {
                        Hop::Pending { id: nid } => nid != id,
                        _ => false,
                    })
                    &&& post.state_spec() == (TraceState::OnHop {
                        when: now,
                        index: (i + 1) as u8,
                    })
                } else {
                    &&& post.hops_seq().len() == pn
                    &&& post.state_spec() == (TraceState::SentAllRequests {
                        when: now,
                        last_retry: now,
                    })
                }
            } else {
                post.state_spec() == pre.state_spec() && post.hops_seq().len() == pn
            })
        },
    }
}

/// How one captured packet changes a trace: replies are handled by
/// `reply_step`; a Destination Unreachable from the destination terminates
/// the trace; one from anywhere else is discarded.
pub open spec fn packet_step(pre: Trace, post: Trace, pkt: TracerouteResult, now: u64, du: DidUpdate) -> bool {
    match pkt {
        TracerouteResult::IcmpReply(src, id) => reply_step(pre, post, src, id, now, du),
        TracerouteResult::IcmpTimeExceeded(src, id) => reply_step(pre, post, src, id, now, du),
        TracerouteResult::IcmpDestinationUnreachable(src) => if src == pre.dst_spec() {
            &&& post.state_spec() == TraceState::Terminated(
                TerminationReason::DestinationUnreachable,
            )
            &&& post.hops_seq() == pre.hops_seq()
            &&& post.cache_spec() == pre.cache_spec()
            &&& du == DidUpdate::Yes
        } else {
            post == pre && du == DidUpdate::No
        },
    }
}

/// The cache only ever grows with conclusions for routers whose ASN was
/// being looked up: every cached pair was already cached, or its key is the
/// address of a hop that was in `FindingAsn` when the step began.
pub open spec fn cache_grows_by_lookups(
    pre_hops: Seq<Hop>,
    pre_cache: Map<(bool, u128), Option<u32>>,
    post_cache: Map<(bool, u128), Option<u32>>,
) -> bool {
    forall|k: (bool, u128), v: Option<u32>|
        #[trigger] post_cache.contains_pair(k, v) ==> pre_cache.contains_pair(k, v) || (exists|
            i: int,
        |
            0 <= i < pre_hops.len() && ((#[trigger] pre_hops[i]) matches Hop::FindingAsn {
                ip,
                ..
            } && ip.key_spec() == k))
}

proof fn lemma_cache_grows_after_append(
    pre_hops: Seq<Hop>,
    mid_hops: Seq<Hop>,
    pre_cache: Map<(bool, u128), Option<u32>>,
    post_cache: Map<(bool, u128), Option<u32>>,
)
    requires
        pre_hops.len() <= mid_hops.len(),
        forall|i: int| 0 <= i < pre_hops.len() ==> mid_hops[i] == pre_hops[i],
        forall|i: int|
            pre_hops.len() <= i < mid_hops.len() ==> !((#[trigger] mid_hops[i])
                matches Hop::FindingAsn { .. }),
        cache_grows_by_lookups(mid_hops, pre_cache, post_cache),
    ensures
        cache_grows_by_lookups(pre_hops, pre_cache, post_cache),
{
    assert forall|k: (bool, u128), v: Option<u32>|
        #[trigger] post_cache.contains_pair(k, v) implies pre_cache.contains_pair(k, v) || (
    exists|i: int|
        0 <= i < pre_hops.len() && ((#[trigger] pre_hops[i]) matches Hop::FindingAsn { ip, .. }
            && ip.key_spec() == k)) by {
        if !pre_cache.contains_pair(k, v) {
            let i = choose|i: int|
                0 <= i < mid_hops.len() && ((#[trigger] mid_hops[i]) matches Hop::FindingAsn {
                    ip,
                    ..
                } && ip.key_spec() == k);
            assert(i < pre_hops.len());
            assert(pre_hops[i] == mid_hops[i]);
        }
    }
}

proof fn lemma_cache_grow_step(
    pre_hops: Seq<Hop>,
    pre_cache: Map<(bool, u128), Option<u32>>,
    prev: Map<(bool, u128), Option<u32>>,
    post: Map<(bool, u128), Option<u32>>,
    i: int,
    ip: IpAddress,
)
    requires
        cache_grows_by_lookups(pre_hops, pre_cache, prev),
        0 <= i < pre_hops.len(),
        match pre_hops[i] {
            Hop::FindingAsn { ip: b, .. } => b == ip,
            _ => false,
        },
        forall|k: (bool, u128), v: Option<u32>|
            #[trigger] post.contains_pair(k, v) ==> k == ip.key_spec() || prev.contains_pair(k, v),
    ensures
        cache_grows_by_lookups(pre_hops, pre_cache, post),
{
    assert forall|k: (bool, u128), v: Option<u32>|
        #[trigger] post.contains_pair(k, v) implies pre_cache.contains_pair(k, v) || (exists|
        i2: int,
    |
        0 <= i2 < pre_hops.len() && ((#[trigger] pre_hops[i2]) matches Hop::FindingAsn { ip, .. }
            && ip.key_spec() == k)) by {
        if k == ip.key_spec() {
            assert(match pre_hops[i] {
                Hop::FindingAsn { ip: b, .. } => b.key_spec() == k,
                _ => false,
            });
        }
    }
}

/// The trace of one destination: a fixed policy, a growing hop buffer, and
/// a state machine driven by externally supplied time and captured packets.
pub struct Trace {
    dst_ip: IpAddress,
    state: TraceState,
    config: TraceConfig,
    hops_buffer: Vec<Hop>,
    asn_cache: AsnCache,
}

impl Trace {
    /// The hops recorded so far, oldest first.
    pub closed spec fn hops_seq(&self) -> Seq<Hop> {
        self.hops_buffer@
    }

    pub closed spec fn state_spec(&self) -> TraceState {
        self.state
    }

    pub closed spec fn dst_spec(&self) -> IpAddress {
        self.dst_ip
    }

    pub closed spec fn config_spec(&self) -> TraceConfig {
        self.config
    }

    /// The conclusions cached so far, by address key.
    pub closed spec fn cache_spec(&self) -> Map<(bool, u128), Option<u32>> {
        cache_contents(self.asn_cache)
    }

    /// The internal invariant: the buffer never exceeds `max_hops`; every
    /// recorded hop is in use; no two pending hops share an identifier; and
    /// the state agrees with how many hops have been started.
    pub closed spec fn well_formed(&self) -> bool {
        &&& self.config.max_hops >= 1
        &&& self.hops_buffer@.len() <= self.config.max_hops as int
        &&& (forall|i: int|
            0 <= i < self.hops_buffer@.len() ==> !((#[trigger] self.hops_buffer@[i])
                matches Hop::Unused))
        &&& (forall|i: int, j: int|
            #![trigger self.hops_buffer@[i], self.hops_buffer@[j]]
            0 <= i < j < self.hops_buffer@.len() ==> (match (
                self.hops_buffer@[i],
                self.hops_buffer@[j],
            ) {
                (Hop::Pending { id: a }, Hop::Pending { id: b }) => a != b,
                _ => true,
            }))
        &&& match self.state {
            TraceState::NotStarted => self.hops_buffer@.len() == 0,
            TraceState::OnHop { when, index } => index < self.config.max_hops
                && self.hops_buffer@.len() == index as int + 1,
            TraceState::SentAllRequests { .. } => self.hops_buffer@.len()
                == self.config.max_hops as int,
            TraceState::ReachedDestination { .. } => self.hops_buffer@.len() >= 1,
            TraceState::Terminated(_) => true,
        }
    }

    /// Creates a trace for `dst_ip` in state `NotStarted`; no probe is sent
    /// and nothing is cached yet.
    pub fn new(dst_ip: IpAddress, config: &TraceConfig) -> (t: Trace)
        requires
            config.max_hops >= 1,
        ensures
            t.well_formed(),
            t.dst_spec() == dst_ip,
            t.config_spec() == *config,
            t.state_spec() == TraceState::NotStarted,
            t.hops_seq().len() == 0,
            forall|k: (bool, u128)| !t.cache_spec().dom().contains(k),
    {
        Trace {
            dst_ip,
            state: TraceState::NotStarted,
            config: *config,
            hops_buffer: Vec::new(),
            asn_cache: AsnCache::new(config.asn_cache_size),
        }
    }

    /// The hops in use. Its length equals `used_hops`.
    pub fn hops(&self) -> (r: &Vec<Hop>)
        ensures
            r@ == self.hops_seq(),
    {
        &self.hops_buffer
    }

    /// How many hop slots have been used; never more than `max_hops`.
    pub fn used_hops(&self) -> (n: u8)
        requires
            self.well_formed(),
        ensures
            n as int == self.hops_seq().len(),
    {
        self.hops_buffer.len() as u8
    }

    /// Consumes the trace, returning its hops.
    pub fn to_hops(self) -> (r: Vec<Hop>)
        ensures
            r@ == self.hops_seq(),
    {
        self.hops_buffer
    }

    /// Whether every recorded hop has finished.
    pub fn all_hops_done(&self) -> (r: bool)
        ensures
            r == all_hops_done_spec(self.hops_seq()),
    {
        let n = self.hops_buffer.len();
        let mut i: usize = 0;
        while i < n
            invariant
                n == self.hops_buffer@.len(),
                0 <= i <= n,
                forall|j: int|
                    0 <= j < i ==> (#[trigger] self.hops_buffer@[j]) matches Hop::Done { .. },
            decreases n - i,
        {
            let done = match &self.hops_buffer[i] {
                Hop::Done { .. } => true,
                _ => false,
            };
            if !done {
                return false;
            }
            i += 1;
        }
        true
    }

    /// Resends the probe of every still-pending hop at its original TTL and
    /// identifier.
    fn retry_ping<C: RawChannel>(&self, channel: &mut C) -> (r: Result<(), TraceError>)
        requires
            self.well_formed(),
        ensures
            r matches Err(e) ==> e is Traceroute,
    {
        let n = self.hops_buffer.len();
        let mut i: usize = 0;
        while i < n
            invariant
                self.well_formed(),
                n == self.hops_buffer@.len(),
                0 <= i <= n,
            decreases n - i,
        {
            let id = match &self.hops_buffer[i] {
                Hop::Pending { id } => Some(*id),
                _ => None,
            };
            if let Some(id) = id {
                proof {
                    assert(self.hops_buffer@.len() <= self.config.max_hops as int <= 255);
                }
                match channel.send_echo(&self.dst_ip, (i as u8) + 1, id) {
                    Ok(()) => {},
                    Err(e) => {
                        return Err(TraceError::Traceroute(e));
                    },
                }
            }
            i += 1;
        }
        Ok(())
    }

    /// Starts the probe for the next hop: appends a pending slot with a
    /// fresh identifier, moves to `OnHop` on it, and sends the Echo
    /// Request. A send failure surfaces after the slot is recorded.
    fn start_hop<C: RawChannel>(
        &mut self,
        channel: &mut C,
        now: u64,
        forbid: Option<PacketId>,
    ) -> (r: Result<(), TraceError>)
        requires
            old(self).well_formed(),
            old(self).hops_seq().len() < old(self).config_spec().max_hops as int,
        ensures
            final(self).well_formed(),
            final(self).dst_spec() == old(self).dst_spec(),
            final(self).config_spec() == old(self).config_spec(),
            final(self).cache_spec() == old(self).cache_spec(),
            final(self).hops_seq().len() == old(self).hops_seq().len() + 1,
            forall|i: int|
                0 <= i < old(self).hops_seq().len() ==> final(self).hops_seq()[i] == old(
                    self,
                ).hops_seq()[i],
            match final(self).hops_seq().last() {
                Hop::Pending { id } => forbid != Some(id),
                _ => false,
            },
            final(self).state_spec() == (TraceState::OnHop {
                when: now,
                index: old(self).hops_seq().len() as u8,
            }),
            r matches Err(e) ==> e is Traceroute,
    {
        let id = fresh_id(&self.hops_buffer, forbid);
        let index = self.hops_buffer.len() as u8;
        self.state = TraceState::OnHop { when: now, index };
        self.hops_buffer.push(Hop::Pending { id });
        proof {
            let hops = self.hops_buffer@;
            let pn = hops.len() - 1;
            assert forall|i: int, j: int|
                #![trigger hops[i], hops[j]]
                0 <= i < j < hops.len() implies (match (hops[i], hops[j]) {
                (Hop::Pending { id: a }, Hop::Pending { id: b }) => a != b,
                _ => true,
            }) by {
                if j == pn {
                    match hops[i] {
                        Hop::Pending { id: a } => {
                            if a == id {
                                assert(pending_id_set(old(self).hops_buffer@).contains(id.0));
                            }
                        },
                        _ => {},
                    }
                }
            }
        }
        match channel.send_echo(&self.dst_ip, index + 1, id) {
            Ok(()) => Ok(()),
            Err(e) => Err(TraceError::Traceroute(e)),
        }
    }

    /// Offers one captured packet to the trace, as `packet_step` describes.
    /// A terminated trace does nothing and reports its reason again.
    pub fn handle_packet<C: RawChannel, D: NetworkDb, R: RdnsResolver, W: WhoisSockets>(
        &mut self,
        packet: &TracerouteResult,
        channel: &mut C,
        peeringdb: &D,
        rdns: &mut R,
        whois: &mut W,
        now: u64,
    ) -> (r: Result<(DidUpdate, Option<TerminationReason>), TraceError>)
        requires
            old(self).well_formed(),
        ensures
            final(self).well_formed(),
            final(self).dst_spec() == old(self).dst_spec(),
            final(self).config_spec() == old(self).config_spec(),
            old(self).hops_seq().len() <= final(self).hops_seq().len(),
            forall|i: int|
                0 <= i < old(self).hops_seq().len() ==> hop_order(
                    old(self).hops_seq()[i],
                    #[trigger] final(self).hops_seq()[i],
                ),
            old(self).state_spec() matches TraceState::Terminated(reason) ==> *final(self) == *old(
                self,
            ) && r == Ok::<_, TraceError>((DidUpdate::Yes, Some(reason))),
            !(old(self).state_spec() is Terminated) ==> match r {
                Ok((du, term)) => packet_step(*old(self), *final(self), *packet, now, du) && (match
                    final(self).state_spec() {
                    TraceState::Terminated(reason) => term == Some(reason),
                    _ => term is None,
                }),
                Err(e) => !(e is AsnLookup),
            },
            // packets that trigger no fallible call always succeed
            !(old(self).state_spec() is Terminated) ==> match *packet {
                TracerouteResult::IcmpDestinationUnreachable(src) => if src == old(
                    self,
                ).dst_spec() {
                    r == Ok::<_, TraceError>(
                        (DidUpdate::Yes, Some(TerminationReason::DestinationUnreachable)),
                    )
                } else {
                    r == Ok::<_, TraceError>((DidUpdate::No, None::<TerminationReason>))
                },
                TracerouteResult::IcmpReply(src, id) => find_pending(old(self).hops_seq(), id)
                    is None ==> r == Ok::<_, TraceError>(
                    (DidUpdate::No, None::<TerminationReason>),
                ) && *final(self) == *old(self),
                TracerouteResult::IcmpTimeExceeded(src, id) => find_pending(
                    old(self).hops_seq(),
                    id,
                ) is None ==> r == Ok::<_, TraceError>(
                    (DidUpdate::No, None::<TerminationReason>),
                ) && *final(self) == *old(self),
            },
            // a packet never touches the cache
            final(self).cache_spec() == old(self).cache_spec(),
    {
        if let TraceState::Terminated(reason) = self.state {
            return Ok((DidUpdate::Yes, Some(reason)));
        }
        match packet {
            TracerouteResult::IcmpDestinationUnreachable(src) => {
                if *src == self.dst_ip {
                    self.state = TraceState::Terminated(TerminationReason::DestinationUnreachable);
                    Ok((DidUpdate::Yes, Some(TerminationReason::DestinationUnreachable)))
                } else {
                    Ok((DidUpdate::No, None))
                }
            },
            TracerouteResult::IcmpReply(src, id) => self.handle_reply(
                *src,
                *id,
                channel,
                peeringdb,
                rdns,
                whois,
                now,
            ),
            TracerouteResult::IcmpTimeExceeded(src, id) => self.handle_reply(
                *src,
                *id,
                channel,
                peeringdb,
                rdns,
                whois,
                now,
            ),
        }
    }

    fn handle_reply<C: RawChannel, D: NetworkDb, R: RdnsResolver, W: WhoisSockets>(
        &mut self,
        src: IpAddress,
        id: PacketId,
        channel: &mut C,
        peeringdb: &D,
        rdns: &mut R,
        whois: &mut W,
        now: u64,
    ) -> (r: Result<(DidUpdate, Option<TerminationReason>), TraceError>)
        requires
            old(self).well_formed(),
            !(old(self).state_spec() is Terminated),
        ensures
            final(self).well_formed(),
            final(self).dst_spec() == old(self).dst_spec(),
            final(self).config_spec() == old(self).config_spec(),
            old(self).hops_seq().len() <= final(self).hops_seq().len(),
            forall|i: int|
                0 <= i < old(self).hops_seq().len() ==> hop_order(
                    old(self).hops_seq()[i],
                    #[trigger] final(self).hops_seq()[i],
                ),
            match r {
                Ok((du, term)) => reply_step(*old(self), *final(self), src, id, now, du) && term
                    is None,
                Err(e) => !(e is AsnLookup),
            },
            find_pending(old(self).hops_seq(), id) is None ==> r == Ok::<_, TraceError>(
                (DidUpdate::No, None::<TerminationReason>),
            ) && *final(self) == *old(self),
            final(self).cache_spec() == old(self).cache_spec(),
    {
        let idx_opt = find_pending_hop(&self.hops_buffer, id);
        match idx_opt {
            None => Ok((DidUpdate::No, None)),
            Some(i) => {
                proof {
                    lemma_find_pending_some(self.hops_buffer@, id);
                }
                let is_destination = src == self.dst_ip;
                let public = is_public(&src);
                let new_hop: Hop = if public {
                    match self.asn_cache.get(&src) {
                        Some(maybe_asn) => {
                            let hostname = match rdns.reverse_dns(&src) {
                                Ok(h) => h,
                                Err(e) => {
                                    return Err(TraceError::Rdns(e));
                                },
                            };
                            let network_info = match maybe_asn {
                                Some(asn) => {
                                    let network = match peeringdb.network_by_asn(asn) {
                                        Ok(n) => n,
                                        Err(e) => {
                                            return Err(TraceError::PeeringDb(e));
                                        },
                                    };
                                    Some(NetworkInfo { asn, network })
                                },
                                None => None,
                            };
                            Hop::Done { ip: src, hostname, network_info }
                        },
                        None => Hop::FindingAsn { ip: src, finder: AsnFinder::lookup(src, whois) },
                    }
                } else {
                    let hostname = match rdns.reverse_dns(&src) {
                        Ok(h) => h,
                        Err(e) => {
                            return Err(TraceError::Rdns(e));
                        },
                    };
                    Hop::Done { ip: src, hostname, network_info: None }
                };
                self.hops_buffer.set(i, new_hop);
                if is_destination {
                    self.state = TraceState::ReachedDestination { when: now, last_retry: now };
                    Ok((DidUpdate::Yes, None))
                } else {
                    let advance = match self.state {
                        TraceState::OnHop { index, .. } => index as usize == i,
                        _ => false,
                    };
                    if advance {
                        if (i + 1) < self.config.max_hops as usize {
                            match self.start_hop(channel, now, Some(id)) {
                                Ok(()) => {},
                                Err(e) => {
                                    return Err(e);
                                },
                            }
                        } else {
                            self.state = TraceState::SentAllRequests {
                                when: now,
                                last_retry: now,
                            };
                        }
                    }
                    Ok((DidUpdate::Yes, None))
                }
            },
        }
    }

    /// Polls every in-flight ASN lookup once. A found ASN is cached and the
    /// hop finishes with its network information; a lookup that settled
    /// without an answer is cached negatively and the hop finishes bare;
    /// a still-pending lookup stays in place. State and hop count never
    /// change here.
    fn finder_pass<D: NetworkDb, R: RdnsResolver, W: WhoisSockets>(
        &mut self,
        peeringdb: &D,
        rdns: &mut R,
        whois: &mut W,
    ) -> (r: Result<DidUpdate, TraceError>)
        requires
            old(self).well_formed(),
        ensures
            final(self).well_formed(),
            final(self).dst_spec() == old(self).dst_spec(),
            final(self).config_spec() == old(self).config_spec(),
            final(self).state_spec() == old(self).state_spec(),
            final(self).hops_seq().len() == old(self).hops_seq().len(),
            forall|i: int|
                0 <= i < old(self).hops_seq().len() ==> hop_order(
                    old(self).hops_seq()[i],
                    #[trigger] final(self).hops_seq()[i],
                ),
            forall|i: int|
                0 <= i < old(self).hops_seq().len() && ((#[trigger] old(self).hops_seq()[i])
                    matches Hop::Pending { .. }) ==> final(self).hops_seq()[i] == old(
                    self,
                ).hops_seq()[i],
            cache_grows_by_lookups(
                old(self).hops_seq(),
                old(self).cache_spec(),
                final(self).cache_spec(),
            ),
    {
        let n = self.hops_buffer.len();
        let mut i: usize = 0;
        let mut changed = false;
        while i < n
            invariant
                self.well_formed(),
                self.dst_spec() == old(self).dst_spec(),
                self.config_spec() == old(self).config_spec(),
                self.state_spec() == old(self).state_spec(),
                n == self.hops_buffer@.len(),
                n == old(self).hops_seq().len(),
                0 <= i <= n,
                forall|j: int|
                    0 <= j < n ==> hop_order(
                        old(self).hops_seq()[j],
                        #[trigger] self.hops_buffer@[j],
                    ),
                forall|j: int|
                    0 <= j < n && ((#[trigger] old(self).hops_seq()[j]) matches Hop::Pending {
                        ..
                    }) ==> self.hops_buffer@[j] == old(self).hops_seq()[j],
                forall|j: int|
                    0 <= j < n ==> match (#[trigger] self.hops_buffer@[j], old(self).hops_seq()[j]) {
                        (Hop::FindingAsn { ip: a, .. }, Hop::FindingAsn { ip: b, .. }) => a == b,
                        (Hop::FindingAsn { .. }, _) => false,
                        _ => true,
                    },
                cache_grows_by_lookups(
                    old(self).hops_seq(),
                    old(self).cache_spec(),
                    self.cache_spec(),
                ),
            decreases n - i,
        {
            let is_finding = match &self.hops_buffer[i] {
                Hop::FindingAsn { .. } => true,
                _ => false,
            };
            if is_finding {
                let mut slot = Hop::Unused;
                self.hops_buffer.set_and_swap(i, &mut slot);
                match slot {
                    Hop::FindingAsn { ip, mut finder } => {
                        match finder.poll(whois) {
                            AsnResult::Pending => {
                                self.hops_buffer.set(i, Hop::FindingAsn { ip, finder });
                            },
                            AsnResult::Found(asn) => {
                                let ghost prev_cache = self.cache_spec();
                                self.asn_cache.insert(&ip, Some(asn));
                                proof {
                                    lemma_cache_grow_step(
                                        old(self).hops_seq(),
                                        old(self).cache_spec(),
                                        prev_cache,
                                        self.cache_spec(),
                                        i as int,
                                        ip,
                                    );
                                }
                                let hostname = match rdns.reverse_dns(&ip) {
                                    Ok(h) => h,
                                    Err(e) => {
                                        self.hops_buffer.set(i, Hop::FindingAsn { ip, finder });
                                        return Err(TraceError::Rdns(e));
                                    },
                                };
                                let network = match peeringdb.network_by_asn(asn) {
                                    Ok(nw) => nw,
                                    Err(e) => {
                                        self.hops_buffer.set(i, Hop::FindingAsn { ip, finder });
                                        return Err(TraceError::PeeringDb(e));
                                    },
                                };
                                self.hops_buffer.set(
                                    i,
                                    Hop::Done {
                                        ip,
                                        hostname,
                                        network_info: Some(NetworkInfo { asn, network }),
                                    },
                                );
                                changed = true;
                            },
                            AsnResult::NotFound => {
                                let ghost prev_cache = self.cache_spec();
                                self.asn_cache.insert(&ip, None);
                                proof {
                                    lemma_cache_grow_step(
                                        old(self).hops_seq(),
                                        old(self).cache_spec(),
                                        prev_cache,
                                        self.cache_spec(),
                                        i as int,
                                        ip,
                                    );
                                }
                                let hostname = match rdns.reverse_dns(&ip) {
                                    Ok(h) => h,
                                    Err(e) => {
                                        self.hops_buffer.set(i, Hop::FindingAsn { ip, finder });
                                        return Err(TraceError::Rdns(e));
                                    },
                                };
                                self.hops_buffer.set(
                                    i,
                                    Hop::Done { ip, hostname, network_info: None },
                                );
                                changed = true;
                            },
                        }
                    },
                    other => {
                        self.hops_buffer.set(i, other);
                    },
                }
            }
            i += 1;
        }
        Ok(
            if changed {
                DidUpdate::Yes
            } else {
                DidUpdate::No
            },
        )
    }

    /// Advances the time-driven part of the machine and polls the in-flight
    /// ASN lookups; no captured packet is consumed. From `NotStarted` the
    /// first probe goes out. From `OnHop` the wait deadline starts the next
    /// probe, or, when all probes are out, moves to `SentAllRequests`. In
    /// `SentAllRequests` the destination timeout terminates the trace, and
    /// the retry deadline resends every pending probe. In
    /// `ReachedDestination` the completion timeout terminates an incomplete
    /// trace, an all-done trace terminates with `Done`, and the retry
    /// deadline resends. A terminated trace only reports its reason.
    pub fn non_packet_poll<C: RawChannel, D: NetworkDb, R: RdnsResolver, W: WhoisSockets>(
        &mut self,
        channel: &mut C,
        peeringdb: &D,
        rdns: &mut R,
        whois: &mut W,
        now: u64,
    ) -> (r: Result<(DidUpdate, Option<TerminationReason>), TraceError>)
        requires
            old(self).well_formed(),
        ensures
            final(self).well_formed(),
            final(self).dst_spec() == old(self).dst_spec(),
            final(self).config_spec() == old(self).config_spec(),
            old(self).hops_seq().len() <= final(self).hops_seq().len(),
            forall|i: int|
                0 <= i < old(self).hops_seq().len() ==> hop_order(
                    old(self).hops_seq()[i],
                    #[trigger] final(self).hops_seq()[i],
                ),
            old(self).state_spec() matches TraceState::Terminated(reason) ==> *final(self) == *old(
                self,
            ) && r == Ok::<_, TraceError>((DidUpdate::Yes, Some(reason))),
            r matches Ok((du, term)) ==> (match final(self).state_spec() {
                TraceState::Terminated(rr) => term == Some(rr),
                _ => term is None,
            }),
            cache_grows_by_lookups(
                old(self).hops_seq(),
                old(self).cache_spec(),
                final(self).cache_spec(),
            ),
            // the time-driven transitions, by the state the poll began in;
            // branches that make no outside call always succeed
            match old(self).state_spec() {
                TraceState::Terminated(_) => true,
                TraceState::NotStarted => {
                    &&& final(self).state_spec() == (TraceState::OnHop { when: now, index: 0 })
                    &&& final(self).hops_seq().len() == 1
                    &&& final(self).hops_seq()[0] matches Hop::Pending { .. }
                    &&& (r is Ok ==> r == Ok::<_, TraceError>(
                        (DidUpdate::Yes, None::<TerminationReason>),
                    ))
                },
                TraceState::OnHop { when, index } => {
                    if elapsed_spec(now, when) > old(self).config_spec().wait_time_per_hop as int {
                        &&& final(self).state_spec() == (if index as int + 1 < old(
                            self,
                        ).config_spec().max_hops as int {
                            TraceState::OnHop { when: now, index: (index + 1) as u8 }
                        } else {
                            TraceState::SentAllRequests { when: now, last_retry: now }
                        })
                        &&& (index as int + 1 < old(self).config_spec().max_hops as int ==> final(self).hops_seq().len() == old(self).hops_seq().len() + 1 && final(self).hops_seq().last() matches Hop::Pending { .. })
                        &&& (r is Ok ==> r == Ok::<_, TraceError>(
                            (DidUpdate::Yes, None::<TerminationReason>),
                        ))
                    } else {
                        &&& final(self).state_spec() == old(self).state_spec()
                        &&& final(self).hops_seq().len() == old(self).hops_seq().len()
                    }
                },
                TraceState::SentAllRequests { when, last_retry } => {
                    if elapsed_spec(now, when) > old(
                        self,
                    ).config_spec().destination_timeout as int {
                        &&& r == Ok::<_, TraceError>(
                            (DidUpdate::Yes, Some(TerminationReason::DestinationTimeout)),
                        )
                        &&& final(self).state_spec() == TraceState::Terminated(
                            TerminationReason::DestinationTimeout,
                        )
                        &&& final(self).hops_seq() == old(self).hops_seq()
                    } else if elapsed_spec(now, last_retry) > old(
                        self,
                    ).config_spec().retry_frequency as int {
                        &&& final(self).state_spec() == (TraceState::SentAllRequests {
                            when,
                            last_retry: now,
                        })
                        &&& final(self).hops_seq() == old(self).hops_seq()
                        &&& (r is Ok ==> r == Ok::<_, TraceError>(
                            (DidUpdate::No, None::<TerminationReason>),
                        ))
                    } else {
                        &&& final(self).state_spec() == old(self).state_spec()
                        &&& final(self).hops_seq().len() == old(self).hops_seq().len()
                    }
                },
                TraceState::ReachedDestination { when, last_retry } => {
                    if elapsed_spec(now, when) > old(self).config_spec().completion_timeout as int
                        && !all_hops_done_spec(old(self).hops_seq()) {
                        &&& r == Ok::<_, TraceError>(
                            (DidUpdate::Yes, Some(TerminationReason::CompletionTimeout)),
                        )
                        &&& final(self).state_spec() == TraceState::Terminated(
                            TerminationReason::CompletionTimeout,
                        )
                        &&& final(self).hops_seq() == old(self).hops_seq()
                    } else if elapsed_spec(now, last_retry) > old(
                        self,
                    ).config_spec().retry_frequency as int {
                        &&& final(self).state_spec() == (TraceState::ReachedDestination {
                            when,
                            last_retry: now,
                        })
                        &&& final(self).hops_seq() == old(self).hops_seq()
                        &&& (r is Ok ==> r == Ok::<_, TraceError>(
                            (DidUpdate::No, None::<TerminationReason>),
                        ))
                    } else if all_hops_done_spec(old(self).hops_seq()) {
                        &&& r == Ok::<_, TraceError>(
                            (DidUpdate::Yes, Some(TerminationReason::Done)),
                        )
                        &&& final(self).state_spec() == TraceState::Terminated(
                            TerminationReason::Done,
                        )
                        &&& final(self).hops_seq() == old(self).hops_seq()
                    } else {
                        &&& final(self).state_spec() == old(self).state_spec()
                        &&& final(self).hops_seq().len() == old(self).hops_seq().len()
                    }
                },
            },
    {
        match self.state {
            TraceState::Terminated(reason) => Ok((DidUpdate::Yes, Some(reason))),
            TraceState::NotStarted => {
                match self.start_hop(channel, now, None) {
                    Ok(()) => {},
                    Err(e) => {
                        return Err(e);
                    },
                }
                let ghost mid = *self;
                proof {
                    assert(mid.hops_seq().last() == mid.hops_seq()[0]);
                }
                match self.finder_pass(peeringdb, rdns, whois) {
                    Ok(_) => {},
                    Err(e) => {
                        proof {
                            assert(self.hops_seq()[0] == mid.hops_seq()[0]);
                            lemma_cache_grows_after_append(
                                old(self).hops_seq(),
                                mid.hops_seq(),
                                old(self).cache_spec(),
                                self.cache_spec(),
                            );
                        }
                        return Err(e);
                    },
                }
                proof {
                    assert(self.hops_seq()[0] == mid.hops_seq()[0]);
                    lemma_cache_grows_after_append(
                        old(self).hops_seq(),
                        mid.hops_seq(),
                        old(self).cache_spec(),
                        self.cache_spec(),
                    );
                }
                Ok((DidUpdate::Yes, None))
            },
            TraceState::OnHop { when, index } => {
                if elapsed(now, when) > self.config.wait_time_per_hop {
                    if (index as usize) + 1 < self.config.max_hops as usize {
                        match self.start_hop(channel, now, None) {
                            Ok(()) => {},
                            Err(e) => {
                                return Err(e);
                            },
                        }
                    } else {
                        self.state = TraceState::SentAllRequests { when: now, last_retry: now };
                    }
                    let ghost mid = *self;
                    proof {
                        let last = mid.hops_seq().len() - 1;
                        assert(mid.hops_seq().last() == mid.hops_seq()[last]);
                    }
                    match self.finder_pass(peeringdb, rdns, whois) {
                        Ok(_) => {},
                        Err(e) => {
                            proof {
                                let last = mid.hops_seq().len() - 1;
                                match mid.hops_seq().last() {
                                    Hop::Pending { .. } => {
                                        assert(self.hops_seq()[last] == mid.hops_seq()[last]);
                                    },
                                    _ => {},
                                }
                                lemma_cache_grows_after_append(
                                    old(self).hops_seq(),
                                    mid.hops_seq(),
                                    old(self).cache_spec(),
                                    self.cache_spec(),
                                );
                            }
                            return Err(e);
                        },
                    }
                    proof {
                        let last = mid.hops_seq().len() - 1;
                        match mid.hops_seq().last() {
                            Hop::Pending { .. } => {
                                assert(self.hops_seq()[last] == mid.hops_seq()[last]);
                            },
                            _ => {},
                        }
                        lemma_cache_grows_after_append(
                            old(self).hops_seq(),
                            mid.hops_seq(),
                            old(self).cache_spec(),
                            self.cache_spec(),
                        );
                    }
                    Ok((DidUpdate::Yes, None))
                } else {
                    let du = match self.finder_pass(peeringdb, rdns, whois) {
                        Ok(du) => du,
                        Err(e) => {
                            return Err(e);
                        },
                    };
                    Ok((du, None))
                }
            },
            TraceState::SentAllRequests { when, last_retry } => {
                if elapsed(now, when) > self.config.destination_timeout {
                    self.state = TraceState::Terminated(TerminationReason::DestinationTimeout);
                    Ok((DidUpdate::Yes, Some(TerminationReason::DestinationTimeout)))
                } else if elapsed(now, last_retry) > self.config.retry_frequency {
                    self.state = TraceState::SentAllRequests { when, last_retry: now };
                    match self.retry_ping(channel) {
                        Ok(()) => {},
                        Err(e) => {
                            return Err(e);
                        },
                    }
                    Ok((DidUpdate::No, None))
                } else {
                    let du = match self.finder_pass(peeringdb, rdns, whois) {
                        Ok(du) => du,
                        Err(e) => {
                            return Err(e);
                        },
                    };
                    Ok((du, None))
                }
            },
            TraceState::ReachedDestination { when, last_retry } => {
                let all_done = self.all_hops_done();
                if elapsed(now, when) > self.config.completion_timeout && !all_done {
                    self.state = TraceState::Terminated(TerminationReason::CompletionTimeout);
                    Ok((DidUpdate::Yes, Some(TerminationReason::CompletionTimeout)))
                } else if elapsed(now, last_retry) > self.config.retry_frequency {
                    self.state = TraceState::ReachedDestination { when, last_retry: now };
                    match self.retry_ping(channel) {
                        Ok(()) => {},
                        Err(e) => {
                            return Err(e);
                        },
                    }
                    Ok((DidUpdate::No, None))
                } else if all_done {
                    self.state = TraceState::Terminated(TerminationReason::Done);
                    Ok((DidUpdate::Yes, Some(TerminationReason::Done)))
                } else {
                    let du = match self.finder_pass(peeringdb, rdns, whois) {
                        Ok(du) => du,
                        Err(e) => {
                            return Err(e);
                        },
                    };
                    Ok((du, None))
                }
            },
        }
    }

    /// One full poll step: consume at most one captured packet, then the
    /// time-driven transitions and one pass over the in-flight ASN lookups.
    /// Never blocks beyond the channel's own bounded read. `DidUpdate::Yes`
    /// means the observable hops or state changed; a returned reason means
    /// the trace has terminated, and every later poll repeats it.
    pub fn poll<C: RawChannel, D: NetworkDb, R: RdnsResolver, W: WhoisSockets>(
        &mut self,
        channel: &mut C,
        peeringdb: &D,
        rdns: &mut R,
        whois: &mut W,
        now: u64,
    ) -> (r: Result<(DidUpdate, Option<TerminationReason>), TraceError>)
        requires
            old(self).well_formed(),
        ensures
            final(self).well_formed(),
            final(self).dst_spec() == old(self).dst_spec(),
            final(self).config_spec() == old(self).config_spec(),
            old(self).hops_seq().len() <= final(self).hops_seq().len(),
            forall|i: int|
                0 <= i < old(self).hops_seq().len() ==> hop_order(
                    old(self).hops_seq()[i],
                    #[trigger] final(self).hops_seq()[i],
                ),
            old(self).state_spec() matches TraceState::Terminated(reason) ==> *final(self) == *old(
                self,
            ) && r == Ok::<_, TraceError>((DidUpdate::Yes, Some(reason))),
            r matches Ok((du, term)) ==> (match final(self).state_spec() {
                TraceState::Terminated(rr) => term == Some(rr),
                _ => term is None,
            }),
            // a fresh trace that does not terminate at once starts hop 0
            (old(self).state_spec() is NotStarted && r is Ok && !(final(self).state_spec()
                is Terminated)) ==> final(self).state_spec() == (TraceState::OnHop {
                when: now,
                index: 0,
            }) && final(self).hops_seq().len() == 1 && (final(self).hops_seq()[0]
                matches Hop::Pending { .. }),
            // once the destination timeout has expired, a successful poll
            // leaves the trace terminated, unless this very poll's packet
            // reached the destination first
            match old(self).state_spec() {
                TraceState::SentAllRequests { when, last_retry } => (r is Ok && elapsed_spec(
                    now,
                    when,
                ) > old(self).config_spec().destination_timeout as int) ==> (final(self).state_spec()
                    == TraceState::Terminated(TerminationReason::DestinationTimeout)
                    || final(self).state_spec() == (TraceState::ReachedDestination {
                    when: now,
                    last_retry: now,
                }) || final(self).state_spec() == TraceState::Terminated(TerminationReason::Done)
                    || final(self).state_spec() == TraceState::Terminated(
                    TerminationReason::DestinationUnreachable,
                )),
                _ => true,
            },
    {
        if let TraceState::Terminated(reason) = self.state {
            return Ok((DidUpdate::Yes, Some(reason)));
        }
        let packet = match channel.poll() {
            Ok(p) => p,
            Err(e) => {
                return Err(TraceError::Traceroute(e));
            },
        };
        let ghost pre = *self;
        let du1 = match packet {
            Some(pkt) => {
                let (du, term) = match self.handle_packet(&pkt, channel, peeringdb, rdns, whois, now) {
                    Ok(x) => x,
                    Err(e) => {
                        return Err(e);
                    },
                };
                if let Some(reason) = term {
                    return Ok((du, Some(reason)));
                }
                du
            },
            None => DidUpdate::No,
        };
        let ghost mid = *self;
        let (du2, term) = match self.non_packet_poll(channel, peeringdb, rdns, whois, now) {
            Ok(x) => x,
            Err(e) => {
                proof {
                    lemma_hop_order_seq_trans(pre.hops_seq(), mid.hops_seq(), self.hops_seq());
                }
                return Err(e);
            },
        };
        proof {
            lemma_hop_order_seq_trans(pre.hops_seq(), mid.hops_seq(), self.hops_seq());
        }
        Ok((du1.or(du2), term))
    }
}

/// Invariants of a well-formed trace: the hop buffer holds exactly the used
/// hops and never more than `max_hops`; no hop in use is `Unused`; and no
/// two pending hops share a packet identifier.
pub proof fn lemma_trace_invariants(t: &Trace)
    requires
        t.well_formed(),
    ensures
        t.hops_seq().len() <= t.config_spec().max_hops as int,
        forall|i: int|
            0 <= i < t.hops_seq().len() ==> !((#[trigger] t.hops_seq()[i]) matches Hop::Unused),
        forall|i: int, j: int|
            #![trigger t.hops_seq()[i], t.hops_seq()[j]]
            0 <= i < j < t.hops_seq().len() ==> (match (t.hops_seq()[i], t.hops_seq()[j]) {
                (Hop::Pending { id: a }, Hop::Pending { id: b }) => a != b,
                _ => true,
            }),
{
}

/// A reply from the destination that matches a pending hop moves the trace
/// to `ReachedDestination` within that same packet step.
pub proof fn lemma_destination_reply_reaches(
    pre: Trace,
    post: Trace,
    src: IpAddress,
    id: PacketId,
    now: u64,
    du: DidUpdate,
)
    requires
        reply_step(pre, post, src, id, now, du),
        src == pre.dst_spec(),
        find_pending(pre.hops_seq(), id) is Some,
    ensures
        post.state_spec() == (TraceState::ReachedDestination { when: now, last_retry: now }),
{
}

/// Feeding the same captured reply twice is idempotent: the first
/// application consumes the pending hop, and the second application
/// changes nothing.
pub proof fn lemma_packet_idempotent(
    pre: Trace,
    mid: Trace,
    post: Trace,
    src: IpAddress,
    id: PacketId,
    now1: u64,
    now2: u64,
    du1: DidUpdate,
    du2: DidUpdate,
)
    requires
        pre.well_formed(),
        find_pending(pre.hops_seq(), id) is Some,
        reply_step(pre, mid, src, id, now1, du1),
        reply_step(mid, post, src, id, now2, du2),
    ensures
        post == mid,
        du2 == DidUpdate::No,
{
    let i = find_pending(pre.hops_seq(), id)->Some_0;
    lemma_find_pending_some(pre.hops_seq(), id);
    let pn = pre.hops_seq().len() as int;
    assert(!pending_id_set(mid.hops_seq()).contains(id.0)) by {
        if pending_id_set(mid.hops_seq()).contains(id.0) {
            let j = choose|j: int|
                0 <= j < mid.hops_seq().len() && ((#[trigger] mid.hops_seq()[j])
                    matches Hop::Pending { id: h } && h.0 == id.0);
            assert(mid.hops_seq()[j] matches Hop::Pending { id: h } && h == id);
            if j == i {
                assert(hop_done_for(mid.hops_seq()[i], src, pre.cache_spec()));
                assert(false);
            } else if j < pn {
                assert(mid.hops_seq()[j] == pre.hops_seq()[j]);
                assert(pre.hops_seq()[i] matches Hop::Pending { id: h } && h == id);
                assert(false);
            } else {
                assert(j == mid.hops_seq().len() - 1);
                assert(match mid.hops_seq().last() {
                    Hop::Pending { id: nid } => nid != id,
                    _ => false,
                });
                assert(false);
            }
        }
    }
    lemma_find_pending_none(mid.hops_seq(), id);
}

proof fn lemma_hop_order_seq_trans(a: Seq<Hop>, b: Seq<Hop>, c: Seq<Hop>)
    requires
        a.len() <= b.len() <= c.len(),
        forall|i: int| 0 <= i < a.len() ==> hop_order(a[i], #[trigger] b[i]),
        forall|i: int| 0 <= i < b.len() ==> hop_order(b[i], #[trigger] c[i]),
    ensures
        forall|i: int| 0 <= i < a.len() ==> hop_order(a[i], #[trigger] c[i]),
{
    assert forall|i: int| 0 <= i < a.len() implies hop_order(a[i], #[trigger] c[i]) by {
        lemma_hop_order_transitive(a[i], b[i], c[i]);
    }
}

} // verus!
