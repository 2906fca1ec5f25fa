//! The cache of resolved names.

use crate::addr::IpAddress;
use crate::tunnel::dns::DnsRecord;
use quick_cache::unsync::Cache;
use rand::Rng;
use vstd::prelude::*;

verus! {

/// How many names the cache holds at most.
pub const DNS_CACHE_CAPACITY: usize = 1024;

/// The cache of quick_cache for use by one thread.
#[verifier::external_type_specification]
#[verifier::external_body]
#[verifier::reject_recursive_types(Key)]
#[verifier::reject_recursive_types(Val)]
#[verifier::reject_recursive_types(We)]
#[verifier::reject_recursive_types(B)]
#[verifier::reject_recursive_types(L)]
pub struct ExCache<Key, Val, We, B, L>(quick_cache::unsync::Cache<Key, Val, We, B, L>);

/// The weighter of a cache whose items all weigh one.
#[verifier::external_type_specification]
#[verifier::external_body]
pub struct ExUnitWeighter(quick_cache::UnitWeighter);

/// The default hash of quick_cache.
#[verifier::external_type_specification]
#[verifier::external_body]
pub struct ExHashBuilder(quick_cache::DefaultHashBuilder);

/// The default lifecycle of quick_cache, which does nothing.
#[verifier::external_type_specification]
#[verifier::external_body]
#[verifier::reject_recursive_types(Key)]
#[verifier::reject_recursive_types(Val)]
pub struct ExLifecycle<Key, Val>(quick_cache::unsync::DefaultLifecycle<Key, Val>);

/// An address with the time at which it expires, in nanoseconds.
pub type CachedRecord = (IpAddress, u128);

/// The names in a cache, each with its addresses.
pub uninterp spec fn cache_contents(cache: Cache<String, Vec<CachedRecord>>) -> Map<
    Seq<char>,
    Seq<CachedRecord>,
>;

/// No names at all.
pub open spec fn no_names() -> Map<Seq<char>, Seq<CachedRecord>> {
    Map::empty()
}

/// How many names a cache was made for.
pub uninterp spec fn cache_limit(cache: Cache<String, Vec<CachedRecord>>) -> nat;

/// `Cache::new` of quick_cache: an empty cache for this many items.
#[verifier::external_body]
fn new_cache(capacity: usize) -> (cache: Cache<String, Vec<CachedRecord>>)
    requires
        capacity > 0,
    ensures
        cache_contents(cache) == no_names(),
        cache_limit(cache) == capacity,
{
    Cache::new(capacity)
}

/// `Cache::get` of quick_cache: the value under this key, if the key is in the cache.
#[verifier::external_body]
fn cache_get<'a>(cache: &'a Cache<String, Vec<CachedRecord>>, key: &str) -> (res: Option<
    &'a Vec<CachedRecord>,
>)
    ensures
        match res {
            Some(value) => cache_contents(*cache).contains_pair(key@, value@),
            None => !cache_contents(*cache).contains_key(key@),
        },
{
    cache.get(key)
}

/// `Cache::insert` of quick_cache, with every item of weight one: a key that is in the cache
/// gets the new value, and so does a new key while there is room, with everything else kept.
/// In a full cache other keys may be dropped for a new one, and a new key that was dropped
/// from the cache before may itself be dropped. No other value changes, and the limit is kept.
#[verifier::external_body]
fn cache_insert(cache: &mut Cache<String, Vec<CachedRecord>>, key: String, value: Vec<CachedRecord>)
    requires
        cache_limit(*old(cache)) > 0,
    ensures
        cache_limit(*final(cache)) == cache_limit(*old(cache)),
        cache_contents(*final(cache)).submap_of(cache_contents(*old(cache)).insert(key@, value@)),
        cache_contents(*old(cache)).contains_key(key@) || cache_contents(*old(cache)).dom().len()
            < cache_limit(*old(cache)) ==> cache_contents(*final(cache)) == cache_contents(
            *old(cache),
        ).insert(key@, value@),
        cache_contents(*old(cache)).dom().len() <= cache_limit(*old(cache)) ==> cache_contents(
            *final(cache),
        ).dom().len() <= cache_limit(*old(cache)),
        cache_contents(*old(cache)).dom().finite() ==> cache_contents(
            *final(cache),
        ).dom().finite(),
{
    cache.insert(key, value)
}

/// `Rng::random_range` of rand on `0..count`: some number below `count`.
#[verifier::external_body]
pub(crate) fn random_below(count: usize) -> (n: usize)
    requires
        count > 0,
    ensures
        n < count,
{
    rand::rng().random_range(0..count)
}

/// The addresses that have not expired, in their order.
pub open spec fn valid_addresses(records: Seq<CachedRecord>, now: u64) -> Seq<IpAddress>
    decreases records.len(),
{
    if records.len() == 0 {
        Seq::empty()
    } else {
        let rest = valid_addresses(records.drop_last(), now);
        if records.last().1 > now {
            rest.push(records.last().0)
        } else {
            rest
        }
    }
}

/// The addresses of one family that have not expired, in their order.
pub open spec fn valid_of_family(records: Seq<CachedRecord>, now: u64, v6: bool) -> Seq<IpAddress>
    decreases records.len(),
{
    if records.len() == 0 {
        Seq::empty()
    } else {
        let rest = valid_of_family(records.drop_last(), now, v6);
        if records.last().1 > now && (records.last().0 is V6) == v6 {
            rest.push(records.last().0)
        } else {
            rest
        }
    }
}

/// The addresses that a single lookup chooses from: those of the preferred family, or those of
/// the other one where there are none.
pub open spec fn candidates(records: Seq<CachedRecord>, now: u64, prefer_ipv6: bool) -> Seq<
    IpAddress,
> {
    let preferred = valid_of_family(records, now, prefer_ipv6);
    if preferred.len() > 0 {
        preferred
    } else {
        valid_of_family(records, now, !prefer_ipv6)
    }
}

/// The addresses of one family that have not expired, in their order.
fn collect_family(records: &Vec<CachedRecord>, now: u64, v6: bool) -> (list: Vec<IpAddress>)
    ensures
        list@ == valid_of_family(records@, now, v6),
{
    let mut list: Vec<IpAddress> = Vec::new();
    let mut i: usize = 0;
    assert(records@.take(0) =~= Seq::empty());
    while i < records.len()
        invariant
            i <= records@.len(),
            list@ == valid_of_family(records@.take(i as int), now, v6),
        decreases records@.len() - i,
    {
        assert(records@.take(i + 1).drop_last() =~= records@.take(i as int));
        let (ip, expires) = records[i];
        let is_v6: bool = match ip {
            IpAddress::V6(_) => true,
            IpAddress::V4(_) => false,
        };
        if expires > now as u128 && is_v6 == v6 {
            list.push(ip);
        }
        i += 1;
    }
    assert(records@.take(i as int) =~= records@);
    list
}

/// The addresses that a single lookup chooses from.
pub fn lookup_candidates(records: &Vec<CachedRecord>, now: u64, prefer_ipv6: bool) -> (list: Vec<
    IpAddress,
>)
    ensures
        list@ == candidates(records@, now, prefer_ipv6),
{
    let preferred: Vec<IpAddress> = collect_family(records, now, prefer_ipv6);
    if preferred.len() > 0 {
        preferred
    } else {
        collect_family(records, now, !prefer_ipv6)
    }
}

/// All the addresses that have not expired, in their order; `None` where there are none.
pub fn valid_records(records: &Vec<CachedRecord>, now: u64) -> (res: Option<Vec<IpAddress>>)
    ensures
        match res {
            Some(list) => list@ == valid_addresses(records@, now) && list@.len() > 0,
            None => valid_addresses(records@, now).len() == 0,
        },
{
    let mut list: Vec<IpAddress> = Vec::new();
    let mut i: usize = 0;
    assert(records@.take(0) =~= Seq::empty());
    while i < records.len()
        invariant
            i <= records@.len(),
            list@ == valid_addresses(records@.take(i as int), now),
        decreases records@.len() - i,
    {
        assert(records@.take(i + 1).drop_last() =~= records@.take(i as int));
        let (ip, expires) = records[i];
        if expires > now as u128 {
            list.push(ip);
        }
        i += 1;
    }
    assert(records@.take(i as int) =~= records@);
    if list.len() == 0 {
        None
    } else {
        Some(list)
    }
}

/// What is kept of a list of records: each address until its time to live has passed.
pub open spec fn cached_records(records: Seq<DnsRecord>, now: u64) -> Seq<CachedRecord> {
    Seq::new(
        records.len(),
        |i: int| (records[i].address, (now + records[i].ttl * 1_000_000_000) as u128),
    )
}

fn make_records(records: &Vec<DnsRecord>, now: u64) -> (list: Vec<CachedRecord>)
    ensures
        list@ == cached_records(records@, now),
{
    let mut list: Vec<CachedRecord> = Vec::new();
    let mut i: usize = 0;
    while i < records.len()
        invariant
            i <= records@.len(),
            list@ =~= cached_records(records@, now).take(i as int),
        decreases records@.len() - i,
    {
        let expires: u128 = now as u128 + records[i].ttl as u128 * 1_000_000_000;
        list.push((records[i].address, expires));
        i += 1;
    }
    assert(list@ =~= cached_records(records@, now));
    list
}

/// The resolved names, each with its addresses.
pub struct DnsCache {
    cache: Cache<String, Vec<CachedRecord>>,
}

impl View for DnsCache {
    type V = Map<Seq<char>, Seq<CachedRecord>>;

    closed spec fn view(&self) -> Map<Seq<char>, Seq<CachedRecord>> {
        cache_contents(self.cache)
    }
}

impl DnsCache {
    /// The cache never holds more names than it was made for.
    pub closed spec fn wf(&self) -> bool {
        &&& cache_limit(self.cache) == 1024
        &&& cache_contents(self.cache).dom().finite()
        &&& cache_contents(self.cache).dom().len() <= 1024
    }

    /// An empty cache.
    pub fn new() -> (cache: DnsCache)
        ensures
            cache.wf(),
            cache@ == no_names(),
    {
        DnsCache { cache: new_cache(DNS_CACHE_CAPACITY) }
    }

    /// The cache holds at most 1024 names.
    pub proof fn never_overfull(&self)
        requires
            self.wf(),
        ensures
            self@.dom().finite(),
            self@.dom().len() <= 1024,
    {
    }
}

/// An address of `domain` that has not expired, chosen at random among those of the preferred
/// family, or else of the other one.
pub fn dns_cache_get(cache: &DnsCache, domain: &str, prefer_ipv6: bool, now: u64) -> (res: Option<
    IpAddress,
>)
    ensures
        match res {
            Some(ip) => cache@.contains_key(domain@) && candidates(
                cache@[domain@],
                now,
                prefer_ipv6,
            ).contains(ip),
            None => !cache@.contains_key(domain@) || candidates(
                cache@[domain@],
                now,
                prefer_ipv6,
            ).len() == 0,
        },
{
    match cache_get(&cache.cache, domain) {
        Some(records) => {
            let list: Vec<IpAddress> = lookup_candidates(records, now, prefer_ipv6);
            if list.len() == 0 {
                return None;
            }
            let idx: usize = random_below(list.len());
            assert(list@[idx as int] == list@[idx as int]);
            Some(list[idx])
        },
        None => None,
    }
}

/// All the addresses of `domain` that have not expired.
pub fn dns_cache_get_all(cache: &DnsCache, domain: &str, now: u64) -> (res: Option<Vec<IpAddress>>)
    ensures
        match res {
            Some(list) => cache@.contains_key(domain@) && list@ == valid_addresses(
                cache@[domain@],
                now,
            ) && list@.len() > 0,
            None => !cache@.contains_key(domain@) || valid_addresses(cache@[domain@], now).len()
                == 0,
        },
{
    match cache_get(&cache.cache, domain) {
        Some(records) => valid_records(records, now),
        None => None,
    }
}

/// Whether `after` is `before` with `domain` set to `records`: exactly, where `domain` was there
/// or there was room; otherwise names may have been dropped, and none has changed.
pub open spec fn inserted(
    before: Map<Seq<char>, Seq<CachedRecord>>,
    after: Map<Seq<char>, Seq<CachedRecord>>,
    domain: Seq<char>,
    records: Seq<CachedRecord>,
) -> bool {
    &&& after.submap_of(before.insert(domain, records))
    &&& before.contains_key(domain) || before.dom().len() < 1024 ==> after == before.insert(
        domain,
        records,
    )
}

/// Keeps the addresses of `domain`, each for its time to live.
pub fn dns_cache_insert(cache: &mut DnsCache, domain: String, records: &Vec<DnsRecord>, now: u64)
    requires
        old(cache).wf(),
    ensures
        final(cache).wf(),
        inserted(old(cache)@, final(cache)@, domain@, cached_records(records@, now)),
{
    let list: Vec<CachedRecord> = make_records(records, now);
    cache_insert(&mut cache.cache, domain, list);
}

/// The addresses of records that were kept at `now` and have not expired at `later`, in their order.
pub open spec fn still_fresh(records: Seq<DnsRecord>, now: u64, later: u64) -> Seq<IpAddress> {
    records.filter(|record: DnsRecord| now + record.ttl * 1_000_000_000 > later).map_values(
        |record: DnsRecord| record.address,
    )
}

proof fn fresh_ones_are_valid(records: Seq<DnsRecord>, now: u64, later: u64)
    ensures
        valid_addresses(cached_records(records, now), later) == still_fresh(records, now, later),
    decreases records.len(),
{
    reveal(Seq::filter);
    let kept = cached_records(records, now);
    let address = |record: DnsRecord| record.address;
    let fresh = |record: DnsRecord| now + record.ttl * 1_000_000_000 > later;
    if records.len() > 0 {
        let init = records.drop_last();
        let last = records.last();
        assert(kept.drop_last() =~= cached_records(init, now));
        fresh_ones_are_valid(init, now, later);
        assert(kept.last() == (last.address, (now + last.ttl * 1_000_000_000) as u128));
        assert(init.filter(fresh).push(last).map_values(address) =~= init.filter(fresh).map_values(
            address,
        ).push(last.address));
    } else {
        assert(records.filter(fresh).map_values(address) =~= Seq::empty());
    }
}

/// A lookup of all addresses gives back those of the addresses that were kept last that have not
/// expired, in their order, if the name is still in the cache.
pub proof fn cache_gives_back_what_was_kept(
    before: Map<Seq<char>, Seq<CachedRecord>>,
    after: Map<Seq<char>, Seq<CachedRecord>>,
    domain: Seq<char>,
    records: Seq<DnsRecord>,
    now: u64,
    later: u64,
)
    requires
        inserted(before, after, domain, cached_records(records, now)),
    ensures
        after.contains_key(domain) ==> valid_addresses(after[domain], later) == still_fresh(
            records,
            now,
            later,
        ),
        before.contains_key(domain) || before.dom().len() < 1024 ==> after.contains_key(domain),
{
    fresh_ones_are_valid(records, now, later);
    if after.contains_key(domain) {
        assert(before.insert(domain, cached_records(records, now)).contains_key(domain));
        assert(after[domain] == cached_records(records, now));
    }
}

/// A name that was not kept anew is not changed by keeping another one.
pub proof fn keeping_changes_no_other_name(
    before: Map<Seq<char>, Seq<CachedRecord>>,
    after: Map<Seq<char>, Seq<CachedRecord>>,
    domain: Seq<char>,
    records: Seq<CachedRecord>,
    other: Seq<char>,
)
    requires
        inserted(before, after, domain, records),
        other != domain,
    ensures
        after.contains_key(other) ==> before.contains_key(other) && after[other] == before[other],
{
    if after.contains_key(other) {
        assert(before.insert(domain, records).contains_key(other));
    }
}

proof fn valid_ones_of_a_family(records: Seq<CachedRecord>, now: u64, v6: bool, ip: IpAddress)
    ensures
        valid_of_family(records, now, v6).contains(ip) <==> exists|i: int|
            0 <= i < records.len() && (#[trigger] records[i]).0 == ip && records[i].1 > now && (
            ip is V6) == v6,
    decreases records.len(),
{
    if records.len() > 0 {
        let shorter = records.drop_last();
        let rest = valid_of_family(shorter, now, v6);
        let all = valid_of_family(records, now, v6);
        valid_ones_of_a_family(shorter, now, v6, ip);
        assert forall|i: int| 0 <= i < shorter.len() implies records[i] == #[trigger] shorter[i] by {}
        if rest.contains(ip) {
            let k = rest.index_of(ip);
            assert(all[k] == ip);
            let i = choose|i: int|
                0 <= i < shorter.len() && (#[trigger] shorter[i]).0 == ip && shorter[i].1 > now && (
                ip is V6) == v6;
            assert(records[i].0 == ip);
        }
        if all.contains(ip) && !rest.contains(ip) {
            let k = all.index_of(ip);
            if k < rest.len() {
                assert(rest[k] == ip);
            }
            assert(records[records.len() - 1].0 == ip);
        }
        if exists|i: int|
            0 <= i < records.len() && (#[trigger] records[i]).0 == ip && records[i].1 > now && (ip
                is V6) == v6 {
            let i = choose|i: int|
                0 <= i < records.len() && (#[trigger] records[i]).0 == ip && records[i].1 > now && (
                ip is V6) == v6;
            if i < shorter.len() {
                assert(shorter[i].0 == ip);
            } else {
                assert(all[all.len() - 1] == ip);
            }
        }
    }
}

proof fn some_valid_one(records: Seq<CachedRecord>, now: u64, v6: bool)
    ensures
        valid_of_family(records, now, v6).len() > 0 <==> exists|i: int|
            0 <= i < records.len() && records[i].1 > now && ((#[trigger] records[i]).0 is V6) == v6,
{
    let list = valid_of_family(records, now, v6);
    if list.len() > 0 {
        assert(list.contains(list[0]));
        valid_ones_of_a_family(records, now, v6, list[0]);
    }
    if exists|i: int|
        0 <= i < records.len() && records[i].1 > now && ((#[trigger] records[i]).0 is V6) == v6 {
        let i = choose|i: int|
            0 <= i < records.len() && records[i].1 > now && ((#[trigger] records[i]).0 is V6) == v6;
        valid_ones_of_a_family(records, now, v6, records[i].0);
    }
}

/// An address of a name may be given if and only if it is in a record that has not expired, and is
/// of the preferred family or no record of that family is left.
pub proof fn which_addresses_may_be_given(
    records: Seq<CachedRecord>,
    now: u64,
    prefer_ipv6: bool,
    ip: IpAddress,
)
    ensures
        candidates(records, now, prefer_ipv6).contains(ip) <==> {
            &&& exists|i: int|
                0 <= i < records.len() && (#[trigger] records[i]).0 == ip && records[i].1 > now
            &&& {
                ||| (ip is V6) == prefer_ipv6
                ||| forall|i: int|
                    0 <= i < records.len() && records[i].1 > now ==> ((#[trigger] records[i]).0
                        is V6) != prefer_ipv6
            }
        },
        candidates(records, now, prefer_ipv6).len() == 0 <==> forall|i: int|
            0 <= i < records.len() ==> (#[trigger] records[i]).1 <= now,
{
    valid_ones_of_a_family(records, now, prefer_ipv6, ip);
    valid_ones_of_a_family(records, now, !prefer_ipv6, ip);
    some_valid_one(records, now, prefer_ipv6);
    some_valid_one(records, now, !prefer_ipv6);
}

/// All addresses of a name are those of its records that have not expired, in their order.
pub proof fn all_that_has_not_expired(records: Seq<CachedRecord>, now: u64)
    ensures
        valid_addresses(records, now) == records.filter(|r: CachedRecord| r.1 > now).map_values(
            |r: CachedRecord| r.0,
        ),
    decreases records.len(),
{
    reveal(Seq::filter);
    let fresh = |r: CachedRecord| r.1 > now;
    let address = |r: CachedRecord| r.0;
    if records.len() > 0 {
        all_that_has_not_expired(records.drop_last(), now);
        let rest = records.drop_last().filter(fresh);
        assert(rest.push(records.last()).map_values(address) =~= rest.map_values(address).push(
            records.last().0,
        ));
    }
    assert(valid_addresses(records, now) =~= records.filter(fresh).map_values(address));
}

/// A record is kept with its address, until its time to live is over.
pub proof fn records_are_kept_for_their_time(records: Seq<DnsRecord>, now: u64, i: int)
    requires
        0 <= i < records.len(),
    ensures
        cached_records(records, now).len() == records.len(),
        cached_records(records, now)[i].0 == records[i].address,
        cached_records(records, now)[i].1 == now + records[i].ttl * 1_000_000_000,
{
}

} // verus!
