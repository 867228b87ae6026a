use vstd::prelude::*;
use crate::ip::IpAddress;
use crate::metadata::Asn;

verus! {

/// Bounded cache of WHOIS conclusions per router address. Both found ASNs
/// (`Some`) and negative results (`None`) are kept, so a router is asked
/// about at most once while its entry lives. The collection itself comes
/// from the `quick_cache` crate and is held behind this opaque struct; what
/// it stores is named by `cache_contents`.
#[verifier::external_body]
pub struct AsnCache {
    inner: quick_cache::unsync::Cache<IpAddress, Option<Asn>>,
}

/// What an ASN cache currently stores: a map from address keys
/// (`IpAddress::key_spec`) to the cached conclusion for that address.
pub uninterp spec fn cache_contents(c: AsnCache) -> Map<(bool, u128), Option<u32>>;

/// The cached conclusion as a plain value.
pub open spec fn opt_asn_view(v: Option<Asn>) -> Option<u32> {
    match v {
        Some(a) => Some(a.0),
        None => None,
    }
}

impl AsnCache {
    /// Relies on quick_cache::unsync::Cache::new: a fresh cache stores nothing.
    #[verifier::external_body]
    pub(crate) fn new(capacity: usize) -> (cache: AsnCache)
        ensures
            forall|k: (bool, u128)| !cache_contents(cache).dom().contains(k),
    {
        AsnCache { inner: quick_cache::unsync::Cache::new(capacity) }
    }

    /// Relies on quick_cache::unsync::Cache::get: returns the value stored
    /// under the key when one is cached, and `None` otherwise.
    #[verifier::external_body]
    pub(crate) fn get(&self, ip: &IpAddress) -> (r: Option<Option<Asn>>)
        ensures
            match r {
                Some(v) => cache_contents(*self).contains_pair(ip.key_spec(), opt_asn_view(v)),
                None => !cache_contents(*self).dom().contains(ip.key_spec()),
            },
    {
        match self.inner.get(ip) {
            Some(v) => Some(*v),
            None => None,
        }
    }

    /// Relies on quick_cache::unsync::Cache::insert: afterwards every stored
    /// entry is the inserted pair or one that was already stored. (Inserting
    /// may evict, and a zero-capacity cache keeps nothing, so presence of
    /// the new pair is not promised.)
    #[verifier::external_body]
    pub(crate) fn insert(&mut self, ip: &IpAddress, value: Option<Asn>)
        ensures
            forall|k: (bool, u128), v: Option<u32>|
                cache_contents(*final(self)).contains_pair(k, v) ==> ((k == ip.key_spec() && v
                    == opt_asn_view(value)) || cache_contents(*old(self)).contains_pair(k, v)),
    {
        self.inner.insert(*ip, value);
    }
}

} // verus!
