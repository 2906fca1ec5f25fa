//! Name resolution: for every name an A and an AAAA query are asked at once, and answered
//! together.

use crate::addr::IpAddress;
use crate::manager::dns_cache::{
    cached_records, candidates, dns_cache_get, dns_cache_get_all, dns_cache_insert, inserted,
    valid_addresses, CachedRecord, DnsCache,
};
use crate::manager::{ManagerError, ManagerFault};
use crate::table::Table;
use crate::tunnel::dns::{
    addresses_of, build_dns_query, get_dns_local_port, hickory_message, hickory_query, is_selected,
    parse_dns_response_with_id, query_result, response_records, round_place, select_dns_server,
    DnsError, DnsFault, DnsRecord, DnsRecordType, DNS_FIRST_LOCAL_PORT,
};
use crate::tunnel::stack::{stack_fault_text, StackError};
use vstd::prelude::*;

verus! {

/// A query that waits for its response.
#[derive(Debug, Clone, Copy, PartialEq, Eq, Structural)]
pub struct DnsQueryState {
    pub group_id: u32,
    pub query_type: DnsRecordType,
}

/// The two queries for one name, and who waits for them. A responder is known by a number.
#[derive(Debug)]
pub struct DnsQueryGroup {
    pub domain: String,
    pub response: Option<u64>,
    pub response_all: Option<u64>,
    pub ipv4_result: Option<Result<Vec<DnsRecord>, DnsError>>,
    pub ipv6_result: Option<Result<Vec<DnsRecord>, DnsError>>,
    pub created_at: u64,
    pub prefer_ipv6: bool,
}

/// The outcome of one query as values.
pub type OutcomeView = Result<Seq<DnsRecord>, DnsFault>;

/// A group as values.
pub struct GroupView {
    pub domain: Seq<char>,
    pub response: Option<u64>,
    pub response_all: Option<u64>,
    pub ipv4: Option<OutcomeView>,
    pub ipv6: Option<OutcomeView>,
    pub created_at: u64,
    pub prefer_ipv6: bool,
}

pub open spec fn outcome_view(outcome: Result<Vec<DnsRecord>, DnsError>) -> OutcomeView {
    match outcome {
        Ok(records) => Ok(records@),
        Err(e) => Err(e@),
    }
}

pub open spec fn outcome_slot(slot: Option<Result<Vec<DnsRecord>, DnsError>>) -> Option<
    OutcomeView,
> {
    match slot {
        Some(outcome) => Some(outcome_view(outcome)),
        None => None,
    }
}

impl View for DnsQueryGroup {
    type V = GroupView;

    open spec fn view(&self) -> GroupView {
        GroupView {
            domain: self.domain@,
            response: self.response,
            response_all: self.response_all,
            ipv4: outcome_slot(self.ipv4_result),
            ipv6: outcome_slot(self.ipv6_result),
            created_at: self.created_at,
            prefer_ipv6: self.prefer_ipv6,
        }
    }
}

/// An answer to someone who waits.
#[derive(Debug)]
pub enum DnsReply {
    One { responder: u64, address: Result<IpAddress, ManagerError> },
    All { responder: u64, addresses: Result<Vec<IpAddress>, ManagerError> },
}

/// An answer as values.
pub enum ReplyView {
    One { responder: u64, address: Result<IpAddress, ManagerFault> },
    All { responder: u64, addresses: Result<Seq<IpAddress>, ManagerFault> },
}

impl View for DnsReply {
    type V = ReplyView;

    open spec fn view(&self) -> ReplyView {
        match self {
            DnsReply::One { responder, address } => ReplyView::One {
                responder: *responder,
                address: match *address {
                    Ok(ip) => Ok(ip),
                    Err(e) => Err(e@),
                },
            },
            DnsReply::All { responder, addresses } => ReplyView::All {
                responder: *responder,
                addresses: match *addresses {
                    Ok(list) => Ok(list@),
                    Err(e) => Err(e@),
                },
            },
        }
    }
}

/// The values of a list of answers.
pub open spec fn reply_views(list: Seq<DnsReply>) -> Seq<ReplyView> {
    Seq::new(list.len(), |i: int| list[i]@)
}

/// The error of a name with no addresses: that of the first query if it says more than that
/// there are no records, or else that of the second one if it does.
pub open spec fn group_error(first: OutcomeView, second: OutcomeView) -> DnsFault {
    if first matches Err(e) && !(e is NoRecords) {
        first->Err_0
    } else if second matches Err(e) && !(e is NoRecords) {
        second->Err_0
    } else {
        DnsFault::NoRecords
    }
}

/// Whether a query has brought addresses.
pub open spec fn has_addresses(outcome: Option<OutcomeView>) -> bool {
    outcome matches Some(Ok(records)) && records.len() > 0
}

/// The first address that a query has brought.
pub open spec fn first_address(outcome: Option<OutcomeView>) -> IpAddress {
    outcome->0->Ok_0[0].address
}

/// The answer to someone who waits for one address, once it is clear: the first address of the
/// preferred family; or, the first one of the other family as soon as that is there; an error
/// when both queries have brought none.
pub open spec fn single_answer(group: GroupView) -> Option<Result<IpAddress, DnsFault>> {
    let (first, second) = if group.prefer_ipv6 {
        (group.ipv6, group.ipv4)
    } else {
        (group.ipv4, group.ipv6)
    };
    if has_addresses(first) {
        Some(Ok(first_address(first)))
    } else if has_addresses(second) {
        Some(Ok(first_address(second)))
    } else if first is Some && second is Some {
        Some(Err(group_error(first->0, second->0)))
    } else {
        None
    }
}

/// The addresses that one query has brought.
pub open spec fn records_in(outcome: Option<OutcomeView>) -> Seq<DnsRecord> {
    match outcome {
        Some(Ok(records)) => records,
        _ => Seq::empty(),
    }
}

/// All addresses of a group: those of IPv4 first.
pub open spec fn all_records(group: GroupView) -> Seq<DnsRecord> {
    records_in(group.ipv4) + records_in(group.ipv6)
}

/// Whether both queries have come to an end.
pub open spec fn is_done(group: GroupView) -> bool {
    group.ipv4 is Some && group.ipv6 is Some
}

/// The answer to someone who waits for all addresses, when both queries have come to an end.
pub open spec fn all_answer(group: GroupView) -> Result<Seq<IpAddress>, ManagerFault> {
    let records = all_records(group);
    if records.len() == 0 {
        Err(ManagerFault::Dns(group_error(group.ipv4->0, group.ipv6->0)))
    } else {
        Ok(Seq::new(records.len(), |i: int| records[i].address))
    }
}

/// The answer to the one who waits for one address, if it is clear.
pub open spec fn single_replies(group: GroupView) -> Seq<ReplyView> {
    match (group.response, single_answer(group)) {
        (Some(responder), Some(Ok(ip))) => seq![ReplyView::One { responder, address: Ok(ip) }],
        (Some(responder), Some(Err(fault))) => seq![
            ReplyView::One { responder, address: Err(ManagerFault::Dns(fault)) },
        ],
        _ => Seq::empty(),
    }
}

/// The answer to the one who waits for all addresses, if it is clear.
pub open spec fn all_replies(group: GroupView) -> Seq<ReplyView> {
    match group.response_all {
        Some(responder) => if is_done(group) {
            seq![ReplyView::All { responder, addresses: all_answer(group) }]
        } else {
            Seq::empty()
        },
        None => Seq::empty(),
    }
}

/// The answers that a group can give.
pub open spec fn group_replies(group: GroupView) -> Seq<ReplyView> {
    single_replies(group) + all_replies(group)
}

/// A group after its answers were given: nobody is answered twice.
pub open spec fn answered(group: GroupView) -> GroupView {
    if single_answer(group) is Some {
        GroupView { response: None, ..group }
    } else {
        group
    }
}

/// The queries and groups as values, and the cache.
#[verifier::ext_equal]
pub struct DnsView {
    pub queries: Map<u64, DnsQueryState>,
    pub groups: Map<u64, GroupView>,
    pub cache: Map<Seq<char>, Seq<CachedRecord>>,
}

/// The queries that belong to another group than `group_id`.
pub open spec fn queries_without(queries: Map<u64, DnsQueryState>, group_id: u32) -> Map<
    u64,
    DnsQueryState,
> {
    Map::new(
        |key: u64| queries.contains_key(key) && queries[key].group_id != group_id,
        |key: u64| queries[key],
    )
}

/// Whether `after` is what `before` becomes when a group is asked for its answers: nothing
/// changes for a group that is not there; one that is done is removed with its queries, and
/// its addresses are kept in the cache; any other keeps waiting.
pub open spec fn resolve_step(before: DnsView, after: DnsView, group_id: u32, now: u64) -> bool {
    if !before.groups.contains_key(group_id as u64) {
        after == before
    } else {
        let group = before.groups[group_id as u64];
        if is_done(group) {
            &&& after.groups == before.groups.remove(group_id as u64)
            &&& after.queries == queries_without(before.queries, group_id)
            &&& if all_records(group).len() > 0 {
                inserted(
                    before.cache,
                    after.cache,
                    group.domain,
                    cached_records(all_records(group), now),
                )
            } else {
                after.cache == before.cache
            }
        } else {
            &&& after.groups == before.groups.insert(group_id as u64, answered(group))
            &&& after.queries == before.queries
            &&& after.cache == before.cache
        }
    }
}

/// The answers that a group can give; none if it is not there.
pub open spec fn resolve_replies(before: DnsView, group_id: u32) -> Seq<ReplyView> {
    if before.groups.contains_key(group_id as u64) {
        group_replies(before.groups[group_id as u64])
    } else {
        Seq::empty()
    }
}

/// A group with the outcome of one of its queries.
pub open spec fn with_outcome(group: GroupView, query_type: DnsRecordType, outcome: OutcomeView) ->
    GroupView {
    match query_type {
        DnsRecordType::A => GroupView { ipv4: Some(outcome), ..group },
        DnsRecordType::AAAA => GroupView { ipv6: Some(outcome), ..group },
    }
}

/// The state with the outcome of a query, if its group is still there.
pub open spec fn recorded(
    state: DnsView,
    group_id: u32,
    query_type: DnsRecordType,
    outcome: OutcomeView,
) -> DnsView {
    if state.groups.contains_key(group_id as u64) {
        DnsView {
            groups: state.groups.insert(
                group_id as u64,
                with_outcome(state.groups[group_id as u64], query_type, outcome),
            ),
            ..state
        }
    } else {
        state
    }
}

/// The counters that all managers share.
#[derive(Debug, Clone, Copy, PartialEq, Eq, Structural)]
pub struct DnsCounters {
    pub transaction_id: u16,
    pub local_port: u16,
    pub group_id: u32,
    pub server_index: usize,
}

impl DnsCounters {
    /// The counters after some transaction numbers were tried.
    pub open spec fn after_tries(self, tried: int) -> DnsCounters {
        DnsCounters { transaction_id: later_id(self.transaction_id, tried), ..self }
    }

    /// The counters after a resolution was started, with a list of `servers` DNS servers.
    pub open spec fn after_start(self, servers: nat) -> DnsCounters {
        DnsCounters {
            group_id: next_u32(self.group_id),
            server_index: if servers == 0 {
                self.server_index
            } else if self.server_index == usize::MAX {
                0
            } else {
                (self.server_index + 1) as usize
            },
            ..self
        }
    }

    /// The counters at the start of the program.
    pub fn new() -> (counters: DnsCounters)
        ensures
            counters == (DnsCounters {
                transaction_id: 1,
                local_port: 50000,
                group_id: 1,
                server_index: 0,
            }),
    {
        DnsCounters {
            transaction_id: 1,
            local_port: DNS_FIRST_LOCAL_PORT,
            group_id: 1,
            server_index: 0,
        }
    }
}

/// The sockets that queries are sent from, one for each family. A socket is known by a number.
#[derive(Debug, Clone, Copy, PartialEq, Eq, Structural)]
pub struct DnsSockets {
    pub v4: Option<u64>,
    pub v6: Option<u64>,
}

impl DnsSockets {
    /// The sockets that are open: the one for IPv4 first.
    pub open spec fn numbers(&self) -> Seq<u64> {
        match (self.v4, self.v6) {
            (Some(a), Some(b)) => seq![a, b],
            (Some(a), None) => seq![a],
            (None, Some(b)) => seq![b],
            (None, None) => Seq::empty(),
        }
    }

    /// The socket for a server.
    pub open spec fn slot(&self, server: IpAddress) -> Option<u64> {
        match server {
            IpAddress::V4(_) => self.v4,
            IpAddress::V6(_) => self.v6,
        }
    }

    /// No sockets yet.
    pub fn new() -> (sockets: DnsSockets)
        ensures
            sockets.v4 is None,
            sockets.v6 is None,
    {
        DnsSockets { v4: None, v6: None }
    }

    /// The socket for a server; or, where there is none yet, the local port that a new one is to
    /// be bound to.
    pub fn ensure_socket(&self, server: IpAddress, counters: &mut DnsCounters) -> (res: Result<
        u64,
        u16,
    >)
        ensures
            match self.slot(server) {
                Some(handle) => res == Ok::<u64, u16>(handle) && *final(counters) == *old(counters),
                None => res == Err::<u64, u16>(old(counters).local_port) && *final(counters) == (
                DnsCounters {
                    local_port: if old(counters).local_port == u16::MAX {
                        0
                    } else {
                        (old(counters).local_port + 1) as u16
                    },
                    ..*old(counters)
                }),
            },
    {
        let slot: Option<u64> = match server {
            IpAddress::V4(_) => self.v4,
            IpAddress::V6(_) => self.v6,
        };
        match slot {
            Some(handle) => Ok(handle),
            None => {
                let mut port: u16 = counters.local_port;
                let local_port: u16 = get_dns_local_port(&mut port);
                counters.local_port = port;
                Err(local_port)
            },
        }
    }

    /// Takes the new socket for a server, or says why there is none.
    pub fn on_bound(&mut self, server: IpAddress, bound: Result<u64, StackError>) -> (res: Result<
        u64,
        DnsError,
    >)
        ensures
            match bound {
                Ok(handle) => res == Ok::<u64, DnsError>(handle) && *final(self) == match server {
                    IpAddress::V4(_) => DnsSockets { v4: Some(handle), ..*old(self) },
                    IpAddress::V6(_) => DnsSockets { v6: Some(handle), ..*old(self) },
                },
                Err(e) => *final(self) == *old(self) && (res matches Err(DnsError::SocketError(text))
                    && text@ == stack_fault_text(e@)),
            },
    {
        match bound {
            Ok(handle) => {
                match server {
                    IpAddress::V4(_) => {
                        self.v4 = Some(handle);
                    },
                    IpAddress::V6(_) => {
                        self.v6 = Some(handle);
                    },
                }
                Ok(handle)
            },
            Err(e) => Err(DnsError::SocketError(e.text())),
        }
    }

    /// The sockets that there are, that of IPv4 first.
    pub fn handles(&self) -> (list: Vec<u64>)
        ensures
            list@ == self.numbers(),
    {
        let mut list: Vec<u64> = Vec::new();
        match self.v4 {
            Some(handle) => list.push(handle),
            None => {},
        }
        match self.v6 {
            Some(handle) => list.push(handle),
            None => {},
        }
        list
    }
}

/// The queries that wait, their groups, and the cache.
pub struct DnsState {
    queries: Table<DnsQueryState>,
    groups: Table<DnsQueryGroup>,
    cache: DnsCache,
}

pub open spec fn group_views(groups: Map<u64, DnsQueryGroup>) -> Map<u64, GroupView> {
    Map::new(|key: u64| groups.contains_key(key), |key: u64| groups[key]@)
}

impl View for DnsState {
    type V = DnsView;

    closed spec fn view(&self) -> DnsView {
        DnsView {
            queries: self.queries@,
            groups: group_views(self.groups@),
            cache: self.cache@,
        }
    }
}

/// Whether a server is the one that comes next.
pub open spec fn server_selected(
    servers: Seq<IpAddress>,
    start: usize,
    prefer_ipv6: bool,
    server: IpAddress,
) -> bool {
    if servers.len() == 0 {
        server matches IpAddress::V4(octets) && octets@ == seq![1u8, 1, 1, 1]
    } else {
        let at = start as int % servers.len() as int;
        if exists|i: int| 0 <= i < servers.len() && (#[trigger] servers[i] is V6) == prefer_ipv6 {
            exists|chosen: int|
                #![trigger servers[chosen]]
                0 <= chosen < servers.len() && is_selected(servers, at, prefer_ipv6, chosen)
                    && server == servers[chosen]
        } else {
            server == servers[at]
        }
    }
}

/// The group of a new request.
pub open spec fn new_group(
    domain: Seq<char>,
    prefer_ipv6: bool,
    response: Option<u64>,
    response_all: Option<u64>,
    now: u64,
) -> GroupView {
    GroupView {
        domain,
        response,
        response_all,
        ipv4: None,
        ipv6: None,
        created_at: now,
        prefer_ipv6,
    }
}

/// A counter's next value; it starts anew after the largest one.
pub open spec fn next_u32(n: u32) -> u32 {
    if n == u32::MAX {
        0
    } else {
        (n + 1) as u32
    }
}

fn ends_in_error(outcome: &Result<Vec<DnsRecord>, DnsError>) -> (res: Option<DnsError>)
    ensures
        match res {
            Some(e) => outcome_view(*outcome) == Err::<Seq<DnsRecord>, DnsFault>(e@) && !(
            e@ is NoRecords),
            None => !(outcome_view(*outcome) matches Err(e) && !(e is NoRecords)),
        },
{
    match outcome {
        Ok(_) => None,
        Err(e) => match e {
            DnsError::NoRecords => None,
            _ => Some(e.clone()),
        },
    }
}

fn error_of(
    first: &Result<Vec<DnsRecord>, DnsError>,
    second: &Result<Vec<DnsRecord>, DnsError>,
) -> (e: DnsError)
    ensures
        e@ == group_error(outcome_view(*first), outcome_view(*second)),
{
    match ends_in_error(first) {
        Some(e) => e,
        None => match ends_in_error(second) {
            Some(e) => e,
            None => DnsError::NoRecords,
        },
    }
}

fn first_of(outcome: &Option<Result<Vec<DnsRecord>, DnsError>>) -> (res: Option<IpAddress>)
    ensures
        match res {
            Some(ip) => has_addresses(outcome_slot(*outcome)) && ip == first_address(
                outcome_slot(*outcome),
            ),
            None => !has_addresses(outcome_slot(*outcome)),
        },
{
    match outcome {
        Some(Ok(records)) => {
            if records.len() > 0 {
                Some(records[0].address)
            } else {
                None
            }
        },
        _ => None,
    }
}

fn answer_one(
    first: &Option<Result<Vec<DnsRecord>, DnsError>>,
    second: &Option<Result<Vec<DnsRecord>, DnsError>>,
) -> (res: Option<Result<IpAddress, DnsError>>)
    ensures
        match res {
            Some(Ok(ip)) => if has_addresses(outcome_slot(*first)) {
                ip == first_address(outcome_slot(*first))
            } else {
                has_addresses(outcome_slot(*second)) && ip == first_address(outcome_slot(*second))
            },
            Some(Err(e)) => {
                &&& !has_addresses(outcome_slot(*first))
                &&& !has_addresses(outcome_slot(*second))
                &&& *first is Some
                &&& *second is Some
                &&& e@ == group_error(outcome_slot(*first)->0, outcome_slot(*second)->0)
            },
            None => {
                &&& !has_addresses(outcome_slot(*first))
                &&& !has_addresses(outcome_slot(*second))
                &&& *first is None || *second is None
            },
        },
{
    match first_of(first) {
        Some(ip) => Some(Ok(ip)),
        None => match first_of(second) {
            Some(ip) => Some(Ok(ip)),
            None => match (first, second) {
                (Some(a), Some(b)) => Some(Err(error_of(a, b))),
                _ => None,
            },
        },
    }
}

fn copy_records(records: &Vec<DnsRecord>, out: &mut Vec<DnsRecord>)
    ensures
        final(out)@ == old(out)@ + records@,
{
    let mut i: usize = 0;
    while i < records.len()
        invariant
            i <= records@.len(),
            out@ =~= old(out)@ + records@.take(i as int),
        decreases records@.len() - i,
    {
        out.push(records[i]);
        i += 1;
    }
    assert(records@.take(i as int) =~= records@);
}

impl DnsQueryGroup {
    /// The answer to someone who waits for one address, once it is clear.
    fn answer(&self) -> (res: Option<Result<IpAddress, DnsError>>)
        ensures
            match res {
                Some(Ok(ip)) => single_answer(self@) == Some(Ok::<IpAddress, DnsFault>(ip)),
                Some(Err(e)) => single_answer(self@) == Some(Err::<IpAddress, DnsFault>(e@)),
                None => single_answer(self@) is None,
            },
    {
        if self.prefer_ipv6 {
            answer_one(&self.ipv6_result, &self.ipv4_result)
        } else {
            answer_one(&self.ipv4_result, &self.ipv6_result)
        }
    }

    /// All addresses.
    fn records(&self) -> (list: Vec<DnsRecord>)
        ensures
            list@ == all_records(self@),
    {
        let mut list: Vec<DnsRecord> = Vec::new();
        match &self.ipv4_result {
            Some(Ok(records)) => copy_records(records, &mut list),
            _ => {},
        }
        assert(list@ =~= records_in(self@.ipv4));
        match &self.ipv6_result {
            Some(Ok(records)) => copy_records(records, &mut list),
            _ => {},
        }
        assert(list@ =~= all_records(self@));
        list
    }
}

impl DnsState {
    pub closed spec fn wf(&self) -> bool {
        &&& self.cache.wf()
        &&& forall|key: u64| #[trigger] self.groups@.contains_key(key) ==> key <= u32::MAX
    }

    /// Nothing waits, and nothing is known.
    pub fn new() -> (state: DnsState)
        ensures
            state.wf(),
            state@ == (DnsView {
                queries: Map::empty(),
                groups: Map::empty(),
                cache: crate::manager::dns_cache::no_names(),
            }),
    {
        let state = DnsState { queries: Table::new(), groups: Table::new(), cache: DnsCache::new() };
        assert(state@.groups =~= Map::empty());
        state
    }

    /// Whether any query or group waits.
    pub fn has_work(&self) -> (res: bool)
        ensures
            res == (self@.queries != Map::<u64, DnsQueryState>::empty() || self@.groups
                != Map::<u64, GroupView>::empty()),
    {
        let no_queries: bool = self.queries.is_empty();
        let no_groups: bool = self.groups.is_empty();
        proof {
            if no_groups {
                assert(self@.groups =~= Map::<u64, GroupView>::empty());
            } else if self@.groups == Map::<u64, GroupView>::empty() {
                assert(self.groups@ =~= Map::<u64, DnsQueryGroup>::empty()) by {
                    assert forall|key: u64| !self.groups@.contains_key(key) by {
                        assert(!self@.groups.contains_key(key));
                    }
                }
            }
        }
        !no_queries || !no_groups
    }

    /// The number of groups that wait.
    pub fn group_count(&self) -> (n: usize)
        ensures
            n == self@.groups.dom().len(),
    {
        assert(self@.groups.dom() =~= self.groups@.dom());
        self.groups.len()
    }

    /// An address of `domain` in the cache that has not expired.
    pub fn cached(&self, domain: &str, prefer_ipv6: bool, now: u64) -> (res: Option<IpAddress>)
        ensures
            match res {
                Some(ip) => self@.cache.contains_key(domain@) && candidates(
                    self@.cache[domain@],
                    now,
                    prefer_ipv6,
                ).contains(ip),
                None => !self@.cache.contains_key(domain@) || candidates(
                    self@.cache[domain@],
                    now,
                    prefer_ipv6,
                ).len() == 0,
            },
    {
        dns_cache_get(&self.cache, domain, prefer_ipv6, now)
    }

    /// All the addresses of `domain` in the cache that have not expired.
    pub fn cached_all(&self, domain: &str, now: u64) -> (res: Option<Vec<IpAddress>>)
        ensures
            match res {
                Some(list) => self@.cache.contains_key(domain@) && list@ == valid_addresses(
                    self@.cache[domain@],
                    now,
                ) && list@.len() > 0,
                None => !self@.cache.contains_key(domain@) || valid_addresses(
                    self@.cache[domain@],
                    now,
                ).len() == 0,
            },
    {
        dns_cache_get_all(&self.cache, domain, now)
    }

    /// Opens a group for a new request, and returns its number.
    pub fn insert_dns_group(
        &mut self,
        counters: &mut DnsCounters,
        domain: &String,
        prefer_ipv6: bool,
        response: Option<u64>,
        response_all: Option<u64>,
        now: u64,
    ) -> (group_id: u32)
        requires
            old(self).wf(),
        ensures
            final(self).wf(),
            group_id == old(counters).group_id,
            *final(counters) == (DnsCounters {
                group_id: next_u32(old(counters).group_id),
                ..*old(counters)
            }),
            final(self)@ == (DnsView {
                groups: old(self)@.groups.insert(
                    group_id as u64,
                    new_group(domain@, prefer_ipv6, response, response_all, now),
                ),
                ..old(self)@
            }),
    {
        let group_id: u32 = counters.group_id;
        counters.group_id = group_id.wrapping_add(1);
        self.groups.insert(
            group_id as u64,
            DnsQueryGroup {
                domain: domain.clone(),
                response,
                response_all,
                ipv4_result: None,
                ipv6_result: None,
                created_at: now,
                prefer_ipv6,
            },
        );
        assert(self@.groups =~= old(self)@.groups.insert(
            group_id as u64,
            new_group(domain@, prefer_ipv6, response, response_all, now),
        ));
        group_id
    }

    /// Takes note of the outcome of a query, if its group is still there.
    pub fn record_outcome(
        &mut self,
        group_id: u32,
        query_type: DnsRecordType,
        outcome: Result<Vec<DnsRecord>, DnsError>,
    )
        requires
            old(self).wf(),
        ensures
            final(self).wf(),
            final(self)@ == recorded(old(self)@, group_id, query_type, outcome_view(outcome)),
    {
        match self.groups.remove(group_id as u64) {
            Some(group) => {
                let mut group: DnsQueryGroup = group;
                match query_type {
                    DnsRecordType::A => {
                        group.ipv4_result = Some(outcome);
                    },
                    DnsRecordType::AAAA => {
                        group.ipv6_result = Some(outcome);
                    },
                }
                self.groups.insert(group_id as u64, group);
                assert(self@.groups =~= recorded(
                    old(self)@,
                    group_id,
                    query_type,
                    outcome_view(outcome),
                ).groups);
            },
            None => {
                assert(self@.groups =~= old(self)@.groups);
            },
        }
    }

    /// Takes note that a query failed, if its group is still there.
    pub fn record_dns_error(&mut self, group_id: u32, query_type: DnsRecordType, err: DnsError)
        requires
            old(self).wf(),
        ensures
            final(self).wf(),
            final(self)@ == recorded(old(self)@, group_id, query_type, Err(err@)),
    {
        self.record_outcome(group_id, query_type, Err(err));
    }

    /// Forgets the queries of a group.
    fn remove_queries_of(&mut self, group_id: u32)
        requires
            old(self).wf(),
        ensures
            final(self).wf(),
            final(self)@ == (DnsView {
                queries: queries_without(old(self)@.queries, group_id),
                ..old(self)@
            }),
            final(self).groups == old(self).groups,
    {
        let keys: Vec<u64> = self.queries.keys();
        let mut i: usize = 0;
        while i < keys.len()
            invariant
                i <= keys@.len(),
                self.cache == old(self).cache,
                self.groups == old(self).groups,
                forall|key: u64| #[trigger]
                    keys@.contains(key) <==> old(self).queries@.contains_key(key),
                forall|key: u64| #[trigger]
                    self.queries@.contains_key(key) ==> old(self).queries@.contains_key(key)
                        && self.queries@[key] == old(self).queries@[key],
                forall|key: u64|
                    old(self).queries@.contains_key(key) && old(self).queries@[key].group_id
                        != group_id ==> #[trigger] self.queries@.contains_key(key),
                forall|k: int|
                    0 <= k < i ==> !(self.queries@.contains_key(#[trigger] keys@[k])
                        && self.queries@[keys@[k]].group_id == group_id),
            decreases keys@.len() - i,
        {
            let key: u64 = keys[i];
            let ours: bool = match self.queries.get(key) {
                Some(query) => query.group_id == group_id,
                None => false,
            };
            if ours {
                let _ = self.queries.remove(key);
            }
            i += 1;
        }
        assert forall|key: u64| #[trigger] self.queries@.contains_key(key) implies self.queries@[key].group_id
            != group_id by {
            assert(keys@.contains(key));
            let k = choose|k: int| 0 <= k < keys@.len() && keys@[k] == key;
            assert(keys@[k] == key);
        }
        assert(self.queries@ =~= queries_without(old(self)@.queries, group_id));
    }

    /// Gives the answers that a group can give. One that is done is removed, and its addresses
    /// are kept in the cache.
    pub fn try_resolve_dns_group(&mut self, group_id: u32, now: u64) -> (replies: Vec<DnsReply>)
        requires
            old(self).wf(),
        ensures
            final(self).wf(),
            reply_views(replies@) == resolve_replies(old(self)@, group_id),
            resolve_step(old(self)@, final(self)@, group_id, now),
    {
        let mut replies: Vec<DnsReply> = Vec::new();
        let mut group: DnsQueryGroup = match self.groups.remove(group_id as u64) {
            Some(group) => group,
            None => {
                assert(self@.groups =~= old(self)@.groups);
                assert(reply_views(replies@) =~= Seq::empty());
                return replies;
            },
        };
        let ghost before = group@;
        assert(old(self)@.groups[group_id as u64] == before);
        assert(self@.groups =~= old(self)@.groups.remove(group_id as u64));
        match group.response {
            Some(responder) => {
                match group.answer() {
                    Some(Ok(ip)) => {
                        replies.push(DnsReply::One { responder, address: Ok(ip) });
                        group.response = None;
                    },
                    Some(Err(e)) => {
                        replies.push(
                            DnsReply::One { responder, address: Err(ManagerError::Dns(e)) },
                        );
                        group.response = None;
                    },
                    None => {},
                }
            },
            None => {},
        }
        assert(reply_views(replies@) =~= single_replies(before));
        assert(group@ == answered(before));
        let done: bool = group.ipv4_result.is_some() && group.ipv6_result.is_some();
        if !done {
            self.groups.insert(group_id as u64, group);
            assert(self@.groups =~= old(self)@.groups.insert(group_id as u64, answered(before)));
            assert(reply_views(replies@) =~= group_replies(before));
            return replies;
        }
        let records: Vec<DnsRecord> = group.records();
        assert(records@ == all_records(before));
        if records.len() > 0 {
            dns_cache_insert(&mut self.cache, group.domain.clone(), &records, now);
        }
        match group.response_all {
            Some(responder) => {
                let result: Result<Vec<IpAddress>, ManagerError> = if records.len() == 0 {
                    match (&group.ipv4_result, &group.ipv6_result) {
                        (Some(a), Some(b)) => Err(ManagerError::Dns(error_of(a, b))),
                        _ => Err(ManagerError::Dns(DnsError::NoRecords)),
                    }
                } else {
                    Ok(addresses_of(&records))
                };
                replies.push(DnsReply::All { responder, addresses: result });
            },
            None => {},
        }
        assert(reply_views(replies@) =~= group_replies(before));
        self.remove_queries_of(group_id);
        replies
    }

    /// Lets both queries of a group fail, and gives the answers.
    pub fn fail_dns_group(&mut self, group_id: u32, err: DnsError, now: u64) -> (replies: Vec<
        DnsReply,
    >)
        requires
            old(self).wf(),
        ensures
            final(self).wf(),
            ({
                let failed = recorded(
                    recorded(old(self)@, group_id, DnsRecordType::A, Err(err@)),
                    group_id,
                    DnsRecordType::AAAA,
                    Err(err@),
                );
                &&& reply_views(replies@) == resolve_replies(failed, group_id)
                &&& resolve_step(failed, final(self)@, group_id, now)
            }),
    {
        self.record_dns_error(group_id, DnsRecordType::A, err.clone());
        self.record_dns_error(group_id, DnsRecordType::AAAA, err);
        self.try_resolve_dns_group(group_id, now)
    }
}

/// Transaction number `k` places behind `start`, going round.
pub open spec fn later_id(start: u16, k: int) -> u16 {
    if start + k < 65536 {
        (start + k) as u16
    } else {
        (start + k - 65536) as u16
    }
}

/// What became of a query that was to be built. `tried` transaction numbers were taken, the
/// last of which did it: its query could not be made, or it was free. The exception is that
/// all of them are in use.
pub open spec fn unique_query(
    queries: Map<u64, DnsQueryState>,
    start: u16,
    domain: Seq<char>,
    v6: bool,
    tried: int,
    res: Result<(u16, Vec<u8>), DnsError>,
) -> bool {
    let last = later_id(start, tried - 1);
    &&& 1 <= tried <= 65536
    &&& forall|k: int|
        0 <= k < tried - 1 ==> queries.contains_key(#[trigger] later_id(start, k) as u64)
            && query_result(hickory_query(later_id(start, k), domain, v6, true)) is Ok
    &&& match res {
        Ok((id, bytes)) => {
            &&& id == last
            &&& !queries.contains_key(id as u64)
            &&& query_result(hickory_query(id, domain, v6, true)) == Ok::<Seq<u8>, DnsFault>(bytes@)
        },
        Err(e) => {
            ||| query_result(hickory_query(last, domain, v6, true)) == Err::<Seq<u8>, DnsFault>(e@)
            ||| {
                &&& tried == 65536
                &&& queries.contains_key(last as u64)
                &&& query_result(hickory_query(last, domain, v6, true)) is Ok
                &&& e@ == DnsFault::SocketError("DNS transaction ID exhausted"@)
            }
        },
    }
}

/// What is to be sent for a group, or the answers that the group gives because nothing can be.
#[derive(Debug)]
pub enum DnsDispatch {
    Send { transaction_id: u16, packet: Vec<u8> },
    Replies(Vec<DnsReply>),
}

/// What comes of a query that was to be built: it is to be sent, or it has failed, and its group
/// gives the answers that it can give.
pub open spec fn dispatch_step(
    before: DnsView,
    after: DnsView,
    group_id: u32,
    query_type: DnsRecordType,
    now: u64,
    built: Result<(u16, Vec<u8>), DnsError>,
    res: DnsDispatch,
) -> bool {
    match built {
        Ok((id, packet)) => (res matches DnsDispatch::Send { transaction_id, packet: sent }
            && transaction_id == id && sent@ == packet@) && after == before,
        Err(e) => {
            let failed = recorded(before, group_id, query_type, Err(e@));
            &&& resolve_step(failed, after, group_id, now)
            &&& res matches DnsDispatch::Replies(replies) && reply_views(replies@)
                == resolve_replies(failed, group_id)
        },
    }
}

/// What the program does for a request: the server to ask, and the group of the request.
#[derive(Debug, Clone, Copy)]
pub struct DnsStart {
    pub group_id: u32,
    pub server: IpAddress,
}

/// How a query is called in messages.
pub open spec fn query_label(query_type: DnsRecordType, resolve_all: bool) -> Seq<char> {
    match (query_type, resolve_all) {
        (DnsRecordType::A, false) => "A"@,
        (DnsRecordType::AAAA, false) => "AAAA"@,
        (DnsRecordType::A, true) => "A (all)"@,
        (DnsRecordType::AAAA, true) => "AAAA (all)"@,
    }
}

fn label_of(query_type: DnsRecordType, resolve_all: bool) -> (label: &'static str)
    ensures
        label@ == query_label(query_type, resolve_all),
{
    match (query_type, resolve_all) {
        (DnsRecordType::A, false) => "A",
        (DnsRecordType::AAAA, false) => "AAAA",
        (DnsRecordType::A, true) => "A (all)",
        (DnsRecordType::AAAA, true) => "AAAA (all)",
    }
}

/// The state after a response to a query: the query no longer waits, and its group has its
/// outcome.
pub open spec fn with_response(
    state: DnsView,
    transaction_id: u16,
    outcome: OutcomeView,
) -> DnsView {
    let query = state.queries[transaction_id as u64];
    recorded(
        DnsView { queries: state.queries.remove(transaction_id as u64), ..state },
        query.group_id,
        query.query_type,
        outcome,
    )
}

/// Whether a group has waited too long: more than five seconds.
pub open spec fn timed_out(group: GroupView, now: u64) -> bool {
    now - group.created_at > 5_000_000_000
}

/// The state without the groups that have waited too long, and without their queries.
pub open spec fn without_timed_out(state: DnsView, now: u64) -> DnsView {
    DnsView {
        queries: Map::new(
            |key: u64|
                state.queries.contains_key(key) && !{
                    let group = state.queries[key].group_id as u64;
                    state.groups.contains_key(group) && timed_out(state.groups[group], now)
                },
            |key: u64| state.queries[key],
        ),
        groups: Map::new(
            |key: u64| state.groups.contains_key(key) && !timed_out(state.groups[key], now),
            |key: u64| state.groups[key],
        ),
        cache: state.cache,
    }
}

/// What the waiters of a group are told when it has waited too long.
pub open spec fn timeout_replies(group: GroupView) -> Seq<ReplyView> {
    (match group.response {
        Some(responder) => seq![
            ReplyView::One { responder, address: Err(ManagerFault::Dns(DnsFault::Timeout)) },
        ],
        None => Seq::empty(),
    }) + (match group.response_all {
        Some(responder) => seq![
            ReplyView::All { responder, addresses: Err(ManagerFault::Dns(DnsFault::Timeout)) },
        ],
        None => Seq::empty(),
    })
}

/// What the waiters of the groups `ids` are told when these have waited too long, group by
/// group.
pub open spec fn timeouts_of(groups: Map<u64, GroupView>, ids: Seq<u64>) -> Seq<ReplyView>
    decreases ids.len(),
{
    if ids.len() == 0 {
        Seq::empty()
    } else {
        timeouts_of(groups, ids.drop_last()) + timeout_replies(groups[ids.last()])
    }
}

/// Whether `ids` are the groups that have waited too long, each once.
pub open spec fn are_timed_out(groups: Map<u64, GroupView>, ids: Seq<u64>, now: u64) -> bool {
    &&& ids.no_duplicates()
    &&& forall|key: u64| #[trigger]
        ids.contains(key) <==> groups.contains_key(key) && timed_out(groups[key], now)
}

impl DnsState {
    /// Builds a query with a transaction number that no waiting query has.
    pub fn build_unique_dns_query(
        &self,
        counters: &mut DnsCounters,
        domain: &str,
        record_type: DnsRecordType,
    ) -> (res: Result<(u16, Vec<u8>), DnsError>)
        ensures
            exists|tried: int| #[trigger]
                unique_query(
                    self@.queries,
                    old(counters).transaction_id,
                    domain@,
                    record_type is AAAA,
                    tried,
                    res,
                ) && *final(counters) == old(counters).after_tries(tried),
    {
        let ghost start = counters.transaction_id;
        let mut counter: u16 = counters.transaction_id;
        let mut tried: u32 = 0;
        while tried < 65536
            invariant
                tried <= 65536,
                start == old(counters).transaction_id,
                *counters == *old(counters),
                counter == later_id(start, tried as int),
                forall|k: int|
                    0 <= k < tried ==> self@.queries.contains_key(
                        #[trigger] later_id(start, k) as u64,
                    ) && query_result(
                        hickory_query(later_id(start, k), domain@, record_type is AAAA, true),
                    ) is Ok,
            decreases 65536 - tried,
        {
            let (id, built) = build_dns_query(&mut counter, domain, record_type);
            assert(counter == later_id(start, tried + 1));
            match built {
                Ok(packet) => {
                    if !self.queries.contains(id as u64) {
                        counters.transaction_id = counter;
                        let res: Result<(u16, Vec<u8>), DnsError> = Ok((id, packet));
                        assert(unique_query(
                            self@.queries,
                            start,
                            domain@,
                            record_type is AAAA,
                            tried + 1,
                            res,
                        ));
                        return res;
                    }
                },
                Err(e) => {
                    counters.transaction_id = counter;
                    let res: Result<(u16, Vec<u8>), DnsError> = Err(e);
                    assert(unique_query(
                        self@.queries,
                        start,
                        domain@,
                        record_type is AAAA,
                        tried + 1,
                        res,
                    ));
                    return res;
                },
            }
            tried += 1;
        }
        counters.transaction_id = counter;
        let res: Result<(u16, Vec<u8>), DnsError> = Err(
            DnsError::SocketError(String::from_str("DNS transaction ID exhausted")),
        );
        assert(later_id(start, 65535) == later_id(start, tried - 1));
        assert(unique_query(self@.queries, start, domain@, record_type is AAAA, 65536, res));
        res
    }

    /// Builds one query of a group. Where that fails, the query has failed, and the group gives
    /// the answers that it can give.
    pub fn dispatch_dns_query(
        &mut self,
        counters: &mut DnsCounters,
        group_id: u32,
        domain: &str,
        query_type: DnsRecordType,
        now: u64,
    ) -> (res: DnsDispatch)
        requires
            old(self).wf(),
        ensures
            final(self).wf(),
            exists|tried: int, built: Result<(u16, Vec<u8>), DnsError>| #[trigger]
                unique_query(
                    old(self)@.queries,
                    old(counters).transaction_id,
                    domain@,
                    query_type is AAAA,
                    tried,
                    built,
                ) && dispatch_step(old(self)@, final(self)@, group_id, query_type, now, built, res)
                    && *final(counters) == old(counters).after_tries(tried),
    {
        let built = self.build_unique_dns_query(counters, domain, query_type);
        let ghost outcome = built;
        match built {
            Ok((transaction_id, packet)) => DnsDispatch::Send { transaction_id, packet },
            Err(err) => {
                self.record_dns_error(group_id, query_type, err);
                DnsDispatch::Replies(self.try_resolve_dns_group(group_id, now))
            },
        }
    }

    /// Takes note of whether a query could be sent. A query that was sent waits for its response;
    /// one that was not has failed.
    pub fn on_query_sent(
        &mut self,
        group_id: u32,
        query_type: DnsRecordType,
        transaction_id: u16,
        sent: bool,
        resolve_all: bool,
        now: u64,
    ) -> (replies: Vec<DnsReply>)
        requires
            old(self).wf(),
        ensures
            final(self).wf(),
            sent ==> reply_views(replies@).len() == 0 && final(self)@ == (DnsView {
                queries: old(self)@.queries.insert(
                    transaction_id as u64,
                    DnsQueryState { group_id, query_type },
                ),
                ..old(self)@
            }),
            !sent ==> {
                let failed = recorded(
                    old(self)@,
                    group_id,
                    query_type,
                    Err(
                        DnsFault::SocketError(
                            "DNS "@ + query_label(query_type, resolve_all) + " send failed"@,
                        ),
                    ),
                );
                &&& resolve_step(failed, final(self)@, group_id, now)
                &&& reply_views(replies@) == resolve_replies(failed, group_id)
            },
    {
        if sent {
            self.queries.insert(transaction_id as u64, DnsQueryState { group_id, query_type });
            Vec::new()
        } else {
            let text: String = String::from_str("DNS ").concat(
                label_of(query_type, resolve_all),
            ).concat(" send failed");
            self.record_dns_error(group_id, query_type, DnsError::SocketError(text));
            self.try_resolve_dns_group(group_id, now)
        }
    }

    /// Starts the resolution of a name to one address: opens a group and selects the server.
    pub fn start_dns_query(
        &mut self,
        counters: &mut DnsCounters,
        domain: &String,
        prefer_ipv6: bool,
        response: u64,
        dns_servers: &Vec<IpAddress>,
        now: u64,
    ) -> (start: DnsStart)
        requires
            old(self).wf(),
        ensures
            final(self).wf(),
            start.group_id == old(counters).group_id,
            server_selected(
                dns_servers@,
                old(counters).server_index,
                prefer_ipv6,
                start.server,
            ),
            final(self)@ == (DnsView {
                groups: old(self)@.groups.insert(
                    start.group_id as u64,
                    new_group(domain@, prefer_ipv6, Some(response), None, now),
                ),
                ..old(self)@
            }),
            *final(counters) == old(counters).after_start(dns_servers@.len()),
    {
        let group_id: u32 = self.insert_dns_group(
            counters,
            domain,
            prefer_ipv6,
            Some(response),
            None,
            now,
        );
        let mut index: usize = counters.server_index;
        let server: IpAddress = select_dns_server(&mut index, dns_servers, prefer_ipv6);
        counters.server_index = index;
        DnsStart { group_id, server }
    }

    /// Starts the resolution of a name to all its addresses: opens a group and selects the
    /// server, an IPv6 one where there is one.
    pub fn start_dns_query_all(
        &mut self,
        counters: &mut DnsCounters,
        domain: &String,
        response: u64,
        dns_servers: &Vec<IpAddress>,
        now: u64,
    ) -> (start: DnsStart)
        requires
            old(self).wf(),
        ensures
            final(self).wf(),
            start.group_id == old(counters).group_id,
            server_selected(dns_servers@, old(counters).server_index, true, start.server),
            final(self)@ == (DnsView {
                groups: old(self)@.groups.insert(
                    start.group_id as u64,
                    new_group(domain@, true, None, Some(response), now),
                ),
                ..old(self)@
            }),
            *final(counters) == old(counters).after_start(dns_servers@.len()),
    {
        let group_id: u32 = self.insert_dns_group(
            counters,
            domain,
            true,
            None,
            Some(response),
            now,
        );
        let mut index: usize = counters.server_index;
        let server: IpAddress = select_dns_server(&mut index, dns_servers, true);
        counters.server_index = index;
        DnsStart { group_id, server }
    }

    /// Takes a response that was read: its transaction number and its outcome. One that no query
    /// waits for, and bytes that are no response, are ignored.
    pub fn on_dns_response(
        &mut self,
        parsed: Result<(u16, Result<Vec<DnsRecord>, DnsError>), DnsError>,
        now: u64,
    ) -> (replies: Vec<DnsReply>)
        requires
            old(self).wf(),
        ensures
            final(self).wf(),
            match parsed {
                Ok((id, outcome)) if old(self)@.queries.contains_key(id as u64) => {
                    let group_id = old(self)@.queries[id as u64].group_id;
                    let noted = with_response(old(self)@, id, outcome_view(outcome));
                    &&& resolve_step(noted, final(self)@, group_id, now)
                    &&& reply_views(replies@) == resolve_replies(noted, group_id)
                },
                _ => final(self)@ == old(self)@ && replies@.len() == 0,
            },
    {
        match parsed {
            Ok((id, outcome)) => match self.queries.remove(id as u64) {
                Some(query) => {
                    assert(self@.groups =~= old(self)@.groups);
                    self.record_outcome(query.group_id, query.query_type, outcome);
                    self.try_resolve_dns_group(query.group_id, now)
                },
                None => {
                    assert(self@.queries =~= old(self)@.queries);
                    Vec::new()
                },
            },
            Err(_) => Vec::new(),
        }
    }

    /// Takes the bytes of a response. Nothing comes of an empty one.
    pub fn process_dns_response(&mut self, data: &[u8], now: u64) -> (replies: Vec<DnsReply>)
        requires
            old(self).wf(),
        ensures
            final(self).wf(),
            match hickory_message(data@) {
                Ok(message) if data@.len() > 0 && message.is_response
                    && old(self)@.queries.contains_key(message.id as u64) => {
                    let group_id = old(self)@.queries[message.id as u64].group_id;
                    let noted = with_response(old(self)@, message.id, response_records(message));
                    &&& resolve_step(noted, final(self)@, group_id, now)
                    &&& reply_views(replies@) == resolve_replies(noted, group_id)
                },
                _ => final(self)@ == old(self)@ && replies@.len() == 0,
            },
    {
        if data.len() == 0 {
            return Vec::new();
        }
        let parsed = parse_dns_response_with_id(data);
        self.on_dns_response(parsed, now)
    }

    /// Ends the groups that have waited for more than five seconds, and tells their waiters.
    pub fn expire_dns_groups(&mut self, now: u64) -> (replies: Vec<DnsReply>)
        requires
            old(self).wf(),
        ensures
            final(self).wf(),
            final(self)@ == without_timed_out(old(self)@, now),
            exists|ids: Seq<u64>|
                are_timed_out(old(self)@.groups, ids, now) && reply_views(replies@)
                    == #[trigger] timeouts_of(old(self)@.groups, ids),
    {
        let ghost start = self@;
        let keys: Vec<u64> = self.groups.keys();
        let mut replies: Vec<DnsReply> = Vec::new();
        let ghost mut ids: Seq<u64> = Seq::empty();
        let mut i: usize = 0;
        assert(reply_views(replies@) =~= Seq::empty());
        while i < keys.len()
            invariant
                i <= keys@.len(),
                self.wf(),
                start == old(self)@,
                keys@.no_duplicates(),
                forall|key: u64| #[trigger] keys@.contains(key) <==> start.groups.contains_key(key),
                self@.cache == start.cache,
                forall|key: u64| #[trigger]
                    self@.groups.contains_key(key) <==> start.groups.contains_key(key)
                        && !ids.contains(key),
                forall|key: u64| #[trigger]
                    self@.groups.contains_key(key) ==> self@.groups[key] == start.groups[key],
                forall|key: u64| #[trigger]
                    self@.queries.contains_key(key) <==> start.queries.contains_key(key)
                        && !ids.contains(start.queries[key].group_id as u64),
                forall|key: u64| #[trigger]
                    self@.queries.contains_key(key) ==> self@.queries[key] == start.queries[key],
                ids.no_duplicates(),
                forall|key: u64| #[trigger]
                    ids.contains(key) <==> keys@.take(i as int).contains(key) && timed_out(
                        start.groups[key],
                        now,
                    ),
                reply_views(replies@) == timeouts_of(start.groups, ids),
            decreases keys@.len() - i,
        {
            let key: u64 = keys[i];
            let ghost seen = keys@.take(i as int);
            assert(keys@.contains(key));
            assert(keys@.take(i + 1) =~= seen.push(key));
            assert(!seen.contains(key)) by {
                if seen.contains(key) {
                    let k = choose|k: int| 0 <= k < seen.len() && seen[k] == key;
                    assert(keys@[k] == keys@[i as int]);
                }
            }
            assert(!ids.contains(key));
            assert(self@.groups.contains_key(key));
            assert(key <= u32::MAX);
            let stale: bool = match self.groups.get(key) {
                Some(group) => now.saturating_sub(group.created_at) > 5_000_000_000,
                None => false,
            };
            assert(stale == timed_out(start.groups[key], now));
            assert forall|other: u64| #[trigger]
                keys@.take(i + 1).contains(other) <==> seen.contains(other) || other == key by {
                if seen.contains(other) {
                    let k = choose|k: int| 0 <= k < seen.len() && seen[k] == other;
                    assert(seen.push(key)[k] == other);
                }
                if other == key {
                    assert(seen.push(key)[seen.len() as int] == key);
                }
                if seen.push(key).contains(other) && other != key {
                    let k = choose|k: int| 0 <= k < seen.push(key).len() && seen.push(key)[k] == other;
                    assert(seen[k] == other);
                }
            }
            if stale {
                let ghost before = self@;
                self.remove_queries_of(key as u32);
                match self.groups.remove(key) {
                    Some(group) => {
                        let ghost told = replies@;
                        match group.response {
                            Some(responder) => {
                                replies.push(
                                    DnsReply::One {
                                        responder,
                                        address: Err(ManagerError::Dns(DnsError::Timeout)),
                                    },
                                );
                            },
                            None => {},
                        }
                        match group.response_all {
                            Some(responder) => {
                                replies.push(
                                    DnsReply::All {
                                        responder,
                                        addresses: Err(ManagerError::Dns(DnsError::Timeout)),
                                    },
                                );
                            },
                            None => {},
                        }
                        assert(reply_views(replies@) =~= reply_views(told) + timeout_replies(
                            start.groups[key],
                        ));
                    },
                    None => {},
                }
                assert(self@.groups =~= before.groups.remove(key));
                proof {
                    let grown = ids.push(key);
                    assert(grown.drop_last() =~= ids);
                    assert forall|other: u64| #[trigger]
                        grown.contains(other) <==> ids.contains(other) || other == key by {
                        if ids.contains(other) {
                            let k = choose|k: int| 0 <= k < ids.len() && ids[k] == other;
                            assert(grown[k] == other);
                        }
                        if other == key {
                            assert(grown[ids.len() as int] == key);
                        }
                    }
                    assert(self@.queries =~= queries_without(before.queries, key as u32));
                    assert forall|other: u64| #[trigger]
                        self@.queries.contains_key(other) <==> start.queries.contains_key(other)
                            && !grown.contains(start.queries[other].group_id as u64) by {
                        assert(before.queries.contains_key(other) <==> start.queries.contains_key(
                            other,
                        ) && !ids.contains(start.queries[other].group_id as u64));
                        assert(grown.contains(start.queries[other].group_id as u64)
                            <==> ids.contains(start.queries[other].group_id as u64)
                            || start.queries[other].group_id as u64 == key);
                    }
                    ids = grown;
                }
            }
            i += 1;
        }
        assert(keys@.take(i as int) =~= keys@);
        assert(are_timed_out(start.groups, ids, now));
        assert(self@ =~= without_timed_out(start, now));
        replies
    }
}

/// A group that is done gives an answer to everyone who waits.
pub proof fn done_group_answers_all(group: GroupView)
    requires
        is_done(group),
    ensures
        group.response matches Some(responder) ==> group_replies(group).len() > 0 && (
        group_replies(group)[0] matches ReplyView::One { responder: told, .. } && told
            == responder),
        group.response_all matches Some(responder) ==> group_replies(group).len() > 0 && (
        group_replies(group).last() matches ReplyView::All { responder: told, .. } && told
            == responder),
{
}

/// Once the one who waits for an address has been answered, the group never answers them again.
pub proof fn nobody_is_answered_twice(group: GroupView, query_type: DnsRecordType, outcome: OutcomeView)
    requires
        single_replies(group).len() > 0,
    ensures
        single_replies(answered(group)).len() == 0,
        single_replies(with_outcome(answered(group), query_type, outcome)).len() == 0,
{
}

/// An address of the preferred family is answered before the other query has come to an end.
pub proof fn preferred_family_does_not_wait(group: GroupView)
    requires
        group.prefer_ipv6 ==> has_addresses(group.ipv6),
        !group.prefer_ipv6 ==> has_addresses(group.ipv4),
    ensures
        single_answer(group) matches Some(Ok(ip)) && ip == first_address(if group.prefer_ipv6 {
            group.ipv6
        } else {
            group.ipv4
        }),
{
}

/// Whoever waits for all addresses of a name gets every address of every record that either query
/// has brought, those of the A query first, and no other. Only where neither has brought any is
/// there an error: that of the A query, unless it just says that there are no records; then that of
/// the AAAA query.
pub proof fn all_addresses_of_both_queries(
    state: DnsView,
    group_id: u32,
    responder: u64,
    a: OutcomeView,
    aaaa: OutcomeView,
)
    requires
        state.groups.contains_key(group_id as u64),
        state.groups[group_id as u64].response_all == Some(responder),
        state.groups[group_id as u64].ipv4 == Some(a),
        state.groups[group_id as u64].ipv6 == Some(aaaa),
    ensures
        resolve_replies(state, group_id).len() > 0,
        match resolve_replies(state, group_id).last() {
            ReplyView::One { .. } => false,
            ReplyView::All { responder: told, addresses } => told == responder && match addresses {
                Ok(list) => {
                    &&& forall|ip: IpAddress| #[trigger]
                        list.contains(ip) <==> {
                            ||| a is Ok && exists|i: int|
                                0 <= i < a->Ok_0.len() && (#[trigger] a->Ok_0[i]).address == ip
                            ||| aaaa is Ok && exists|i: int|
                                0 <= i < aaaa->Ok_0.len() && (#[trigger] aaaa->Ok_0[i]).address
                                    == ip
                        }
                    &&& a is Ok ==> forall|i: int|
                        0 <= i < a->Ok_0.len() ==> #[trigger] list[i] == a->Ok_0[i].address
                    &&& list.len() == (if a is Ok {
                        a->Ok_0.len()
                    } else {
                        0
                    }) + (if aaaa is Ok {
                        aaaa->Ok_0.len()
                    } else {
                        0
                    })
                    &&& list.len() > 0
                },
                Err(fault) => {
                    &&& a matches Ok(records) ==> records.len() == 0
                    &&& aaaa matches Ok(records) ==> records.len() == 0
                    &&& fault == ManagerFault::Dns(
                        if a is Err && a != Err::<Seq<DnsRecord>, DnsFault>(DnsFault::NoRecords) {
                            a->Err_0
                        } else if aaaa is Err {
                            aaaa->Err_0
                        } else {
                            DnsFault::NoRecords
                        },
                    )
                },
            },
        },
{
    let group = state.groups[group_id as u64];
    let first = if a is Ok {
        a->Ok_0
    } else {
        Seq::empty()
    };
    let second = if aaaa is Ok {
        aaaa->Ok_0
    } else {
        Seq::empty()
    };
    let reply = resolve_replies(state, group_id).last();
    if reply is All && reply->addresses is Ok {
        let list = reply->addresses->Ok_0;
        assert(list.len() == first.len() + second.len());
        assert forall|i: int| 0 <= i < first.len() implies #[trigger] list[i] == first[i].address by {}
        assert forall|i: int| 0 <= i < second.len() implies list[first.len() + i]
            == #[trigger] second[i].address by {}
        assert forall|ip: IpAddress| #[trigger] list.contains(ip) implies (exists|i: int|
            0 <= i < first.len() && (#[trigger] first[i]).address == ip) || (exists|i: int|
            0 <= i < second.len() && (#[trigger] second[i]).address == ip) by {
            let i = choose|i: int| 0 <= i < list.len() && list[i] == ip;
            if i < first.len() {
                assert(first[i].address == ip);
            } else {
                assert(second[i - first.len()].address == ip);
            }
        }
        assert forall|i: int| 0 <= i < first.len() implies list.contains(
            (#[trigger] first[i]).address,
        ) by {
            assert(list[i] == first[i].address);
        }
        assert forall|i: int| 0 <= i < second.len() implies list.contains(
            (#[trigger] second[i]).address,
        ) by {
            assert(list[first.len() + i] == second[i].address);
        }
    }
}

/// Whoever waits for one address gets the first record of the family that they prefer, or, as soon
/// as there is one, the first record of the other family. They are told of a failure when both
/// queries have come to an end without a record, and keep waiting until then.
pub proof fn one_address_of_the_preferred_family(state: DnsView, group_id: u32, responder: u64)
    requires
        state.groups.contains_key(group_id as u64),
        state.groups[group_id as u64].response == Some(responder),
    ensures
        ({
            let group = state.groups[group_id as u64];
            let wanted = if group.prefer_ipv6 {
                group.ipv6
            } else {
                group.ipv4
            };
            let other = if group.prefer_ipv6 {
                group.ipv4
            } else {
                group.ipv6
            };
            let replies = resolve_replies(state, group_id);
            if wanted matches Some(Ok(records)) && records.len() > 0 {
                replies.len() > 0 && replies[0] == (ReplyView::One {
                    responder,
                    address: Ok(wanted->0->Ok_0[0].address),
                })
            } else if other matches Some(Ok(records)) && records.len() > 0 {
                replies.len() > 0 && replies[0] == (ReplyView::One {
                    responder,
                    address: Ok(other->0->Ok_0[0].address),
                })
            } else if wanted is Some && other is Some {
                replies.len() > 0 && replies[0] == (ReplyView::One {
                    responder,
                    address: Err(
                        ManagerFault::Dns(
                            match (wanted->0, other->0) {
                                (Err(fault), _) if fault != DnsFault::NoRecords => fault,
                                (_, Err(fault)) => fault,
                                _ => DnsFault::NoRecords,
                            },
                        ),
                    ),
                })
            } else {
                replies.len() == 0
            }
        }),
{
}

/// A group is there until both of its queries have come to an end, and then gone with its queries.
/// Nothing happens to the other groups and theirs.
pub proof fn a_group_waits_for_both_queries(
    before: DnsView,
    after: DnsView,
    group_id: u32,
    now: u64,
    other: u32,
    query: u64,
)
    requires
        resolve_step(before, after, group_id, now),
        before.groups.contains_key(group_id as u64),
        other != group_id,
    ensures
        ({
            let group = before.groups[group_id as u64];
            after.groups.contains_key(group_id as u64) <==> group.ipv4 is None || group.ipv6
                is None
        }),
        after.groups.contains_key(other as u64) <==> before.groups.contains_key(other as u64),
        before.groups.contains_key(other as u64) ==> after.groups[other as u64]
            == before.groups[other as u64],
        after.queries.contains_key(query) ==> before.queries.contains_key(query)
            && after.queries[query] == before.queries[query],
        before.queries.contains_key(query) ==> (after.queries.contains_key(query) <==> {
            ||| before.queries[query].group_id != group_id
            ||| before.groups[group_id as u64].ipv4 is None
            ||| before.groups[group_id as u64].ipv6 is None
        }),
{
}

/// While a group waits, it keeps its name and what its queries have brought, and whoever waits for
/// all addresses; whoever waits for one keeps waiting as long as neither query has brought a record.
pub proof fn a_waiting_group_forgets_nothing(
    before: DnsView,
    after: DnsView,
    group_id: u32,
    now: u64,
)
    requires
        resolve_step(before, after, group_id, now),
        before.groups.contains_key(group_id as u64),
        after.groups.contains_key(group_id as u64),
    ensures
        ({
            let was = before.groups[group_id as u64];
            let is = after.groups[group_id as u64];
            &&& is.domain == was.domain
            &&& is.ipv4 == was.ipv4
            &&& is.ipv6 == was.ipv6
            &&& is.response_all == was.response_all
            &&& is.created_at == was.created_at
            &&& is.prefer_ipv6 == was.prefer_ipv6
            &&& is.response == if (was.ipv4 matches Some(Ok(list)) && list.len() > 0) || (
            was.ipv6 matches Some(Ok(list)) && list.len() > 0) {
                None
            } else {
                was.response
            }
        }),
        after.cache == before.cache,
{
}

/// What a resolution has brought is cached under its name, each address until its time to live is
/// over: records of the A query first. What has brought nothing changes nothing in the cache.
pub proof fn a_resolution_is_cached(
    before: DnsView,
    after: DnsView,
    group_id: u32,
    now: u64,
    a: OutcomeView,
    aaaa: OutcomeView,
)
    requires
        resolve_step(before, after, group_id, now),
        before.groups.contains_key(group_id as u64),
        before.groups[group_id as u64].ipv4 == Some(a),
        before.groups[group_id as u64].ipv6 == Some(aaaa),
    ensures
        ({
            let domain = before.groups[group_id as u64].domain;
            let n = if a is Ok {
                a->Ok_0.len()
            } else {
                0
            };
            let m = if aaaa is Ok {
                aaaa->Ok_0.len()
            } else {
                0
            };
            &&& n + m == 0 ==> after.cache == before.cache
            &&& n + m > 0 && (before.cache.contains_key(domain) || before.cache.dom().len() < 1024)
                ==> after.cache.contains_key(domain)
            &&& n + m > 0 && after.cache.contains_key(domain) ==> {
                &&& after.cache[domain].len() == n + m
                &&& forall|i: int|
                    0 <= i < n ==> (#[trigger] after.cache[domain][i]).0 == a->Ok_0[i].address
                        && after.cache[domain][i].1 == now + a->Ok_0[i].ttl * 1_000_000_000
                &&& forall|i: int|
                    n <= i < n + m ==> (#[trigger] after.cache[domain][i]).0 == aaaa->Ok_0[i
                        - n].address && after.cache[domain][i].1 == now + aaaa->Ok_0[i - n].ttl
                        * 1_000_000_000
            }
        }),
{
    let group = before.groups[group_id as u64];
    let kept = cached_records(all_records(group), now);
    assert forall|i: int| 0 <= i < kept.len() implies (#[trigger] kept[i]).1 == now + all_records(
        group,
    )[i].ttl * 1_000_000_000 by {}
    if all_records(group).len() > 0 && after.cache.contains_key(group.domain) {
        assert(before.cache.insert(group.domain, kept).contains_key(group.domain));
        assert(after.cache[group.domain] == kept);
    }
}

/// The outcome of an A query is that of IPv4, the outcome of an AAAA query that of IPv6. Nothing
/// else of the group changes, and nothing in the rest of the state.
pub proof fn an_outcome_goes_to_its_family(
    state: DnsView,
    group_id: u32,
    query_type: DnsRecordType,
    outcome: OutcomeView,
    other: u64,
)
    ensures
        ({
            let after = recorded(state, group_id, query_type, outcome);
            &&& after.queries == state.queries
            &&& after.cache == state.cache
            &&& after.groups.contains_key(other) <==> state.groups.contains_key(other)
            &&& state.groups.contains_key(other) ==> {
                let was = state.groups[other];
                let is = after.groups[other];
                &&& is.ipv4 == if other == group_id && query_type == DnsRecordType::A {
                    Some(outcome)
                } else {
                    was.ipv4
                }
                &&& is.ipv6 == if other == group_id && query_type == DnsRecordType::AAAA {
                    Some(outcome)
                } else {
                    was.ipv6
                }
                &&& is.domain == was.domain
                &&& is.response == was.response
                &&& is.response_all == was.response_all
                &&& is.created_at == was.created_at
                &&& is.prefer_ipv6 == was.prefer_ipv6
            }
        }),
{
}

/// A response is taken for the query with its number, which no longer waits; all other queries do.
pub proof fn a_response_ends_its_query(
    state: DnsView,
    transaction_id: u16,
    outcome: OutcomeView,
    query: u64,
)
    requires
        state.queries.contains_key(transaction_id as u64),
    ensures
        ({
            let asked = state.queries[transaction_id as u64];
            let after = with_response(state, transaction_id, outcome);
            &&& after.queries.contains_key(query) <==> state.queries.contains_key(query) && query
                != transaction_id
            &&& after.queries.contains_key(query) ==> after.queries[query] == state.queries[query]
            &&& state.groups.contains_key(asked.group_id as u64) ==> match asked.query_type {
                DnsRecordType::A => after.groups[asked.group_id as u64].ipv4 == Some(outcome),
                DnsRecordType::AAAA => after.groups[asked.group_id as u64].ipv6 == Some(outcome),
            }
        }),
{
}

/// A group waits for five seconds and no longer, and its queries as long as the group.
pub proof fn a_group_waits_five_seconds(state: DnsView, now: u64, group: u64, query: u64)
    ensures
        ({
            let after = without_timed_out(state, now);
            &&& after.groups.contains_key(group) <==> state.groups.contains_key(group) && now
                <= state.groups[group].created_at + 5_000_000_000
            &&& after.groups.contains_key(group) ==> after.groups[group] == state.groups[group]
            &&& after.queries.contains_key(query) <==> {
                &&& state.queries.contains_key(query)
                &&& {
                    let its_group = state.queries[query].group_id as u64;
                    state.groups.contains_key(its_group) ==> now
                        <= state.groups[its_group].created_at + 5_000_000_000
                }
            }
            &&& after.queries.contains_key(query) ==> after.queries[query] == state.queries[query]
            &&& after.cache == state.cache
        }),
{
}

/// Whether someone who waits for a group is told of the timeout.
spec fn is_told(group: GroupView, reply: ReplyView) -> bool {
    ||| group.response is Some && reply == (ReplyView::One {
        responder: group.response->0,
        address: Err(ManagerFault::Dns(DnsFault::Timeout)),
    })
    ||| group.response_all is Some && reply == (ReplyView::All {
        responder: group.response_all->0,
        addresses: Err(ManagerFault::Dns(DnsFault::Timeout)),
    })
}

proof fn the_group_is_told(group: GroupView, reply: ReplyView)
    ensures
        timeout_replies(group).contains(reply) <==> is_told(group, reply),
{
    let own = timeout_replies(group);
    if own.contains(reply) {
        let k = own.index_of(reply);
        assert(own[k] == reply);
    }
    if is_told(group, reply) {
        assert(own[0] == reply || own[own.len() - 1] == reply);
    }
}

/// Whoever waits for a group that has waited too long is told so, and nobody else is told anything.
pub proof fn everyone_is_told_of_the_timeout(
    groups: Map<u64, GroupView>,
    ids: Seq<u64>,
    reply: ReplyView,
)
    ensures
        timeouts_of(groups, ids).contains(reply) <==> exists|i: int|
            0 <= i < ids.len() && {
                let group = groups[#[trigger] ids[i]];
                ||| group.response is Some && reply == (ReplyView::One {
                    responder: group.response->0,
                    address: Err(ManagerFault::Dns(DnsFault::Timeout)),
                })
                ||| group.response_all is Some && reply == (ReplyView::All {
                    responder: group.response_all->0,
                    addresses: Err(ManagerFault::Dns(DnsFault::Timeout)),
                })
            },
    decreases ids.len(),
{
    if ids.len() > 0 {
        let shorter = ids.drop_last();
        everyone_is_told_of_the_timeout(groups, shorter, reply);
        assert forall|i: int| 0 <= i < shorter.len() implies ids[i] == #[trigger] shorter[i] by {}
        assert(ids[ids.len() - 1] == ids.last());
        let earlier = timeouts_of(groups, shorter);
        let own = timeout_replies(groups[ids.last()]);
        let all = timeouts_of(groups, ids);
        assert(all == earlier + own);
        assert(all.contains(reply) <==> earlier.contains(reply) || own.contains(reply)) by {
            if earlier.contains(reply) {
                let k = earlier.index_of(reply);
                assert(all[k] == reply);
            }
            if own.contains(reply) {
                let k = own.index_of(reply);
                assert(all[earlier.len() + k] == reply);
            }
            if all.contains(reply) {
                let k = all.index_of(reply);
                assert(if k < earlier.len() {
                    earlier[k] == reply
                } else {
                    own[k - earlier.len()] == reply
                });
            }
        }
        the_group_is_told(groups[ids.last()], reply);
        if exists|i: int| 0 <= i < ids.len() && is_told(groups[#[trigger] ids[i]], reply) {
            let i = choose|i: int|
                0 <= i < ids.len() && is_told(groups[#[trigger] ids[i]], reply);
            if i < shorter.len() {
                assert(is_told(groups[shorter[i]], reply));
            }
        }
        assert(all.contains(reply) <==> exists|i: int|
            0 <= i < ids.len() && is_told(groups[#[trigger] ids[i]], reply));
    } else {
        assert(timeouts_of(groups, ids) =~= Seq::empty());
    }
}

/// A new group knows its name, whoever waits for it, when it was made and the preferred family, and
/// nothing of its queries yet.
pub proof fn a_new_group_waits(
    domain: Seq<char>,
    prefer_ipv6: bool,
    response: Option<u64>,
    response_all: Option<u64>,
    now: u64,
)
    ensures
        ({
            let group = new_group(domain, prefer_ipv6, response, response_all, now);
            &&& group.domain == domain
            &&& group.response == response
            &&& group.response_all == response_all
            &&& group.prefer_ipv6 == prefer_ipv6
            &&& group.created_at == now
            &&& group.ipv4 is None
            &&& group.ipv6 is None
        }),
{
}

/// The numbers of transactions and groups run round, as do the places in the list of servers.
pub proof fn numbers_run_round(start: u16, k: int, group: u32, counters: DnsCounters, servers: nat)
    requires
        0 <= k <= 65536,
    ensures
        later_id(start, k) == (start + k) % 65536,
        next_u32(group) == (group + 1) % 0x1_0000_0000,
        ({
            let after = counters.after_start(servers);
            &&& after.group_id == (counters.group_id + 1) % 0x1_0000_0000
            &&& after.transaction_id == counters.transaction_id
            &&& after.local_port == counters.local_port
            &&& servers == 0 ==> after.server_index == counters.server_index
            &&& servers > 0 ==> after.server_index == if counters.server_index < usize::MAX {
                counters.server_index + 1
            } else {
                0
            }
        }),
        counters.after_tries(k) == (DnsCounters {
            transaction_id: ((counters.transaction_id + k) % 65536) as u16,
            ..counters
        }),
{
}

/// The server that is asked is one of the list, if there is one, and one of the wanted family if
/// the list has any: from the start place on, none of that family is passed over.
pub proof fn the_next_server_is_asked(
    servers: Seq<IpAddress>,
    start: usize,
    prefer_ipv6: bool,
    server: IpAddress,
)
    requires
        server_selected(servers, start, prefer_ipv6, server),
    ensures
        servers.len() == 0 ==> server is V4 && server->V4_0@ == seq![1u8, 1, 1, 1],
        servers.len() > 0 ==> exists|offset: int|
            #![trigger servers[(start + offset) % servers.len() as int]]
            0 <= offset < servers.len() && server == servers[(start + offset) % servers.len() as int]
                && if exists|i: int|
                0 <= i < servers.len() && (#[trigger] servers[i] is V6) == prefer_ipv6 {
                (server is V6) == prefer_ipv6 && forall|k: int|
                    0 <= k < offset ==> (#[trigger] servers[(start + k) % servers.len() as int] is V6)
                        != prefer_ipv6
            } else {
                offset == 0
            },
{
    if servers.len() > 0 {
        let len = servers.len() as int;
        let at = start as int % len;
        assert forall|k: int| 0 <= k < len implies #[trigger] round_place(at, k, len) == (start + k)
            % len by {
            vstd::arithmetic::div_mod::lemma_add_mod_noop(start as int, k, len);
            vstd::arithmetic::div_mod::lemma_small_mod(k as nat, len as nat);
            if at + k < len {
                vstd::arithmetic::div_mod::lemma_small_mod((at + k) as nat, len as nat);
            } else {
                vstd::arithmetic::div_mod::lemma_mod_add_multiples_vanish(at + k - len, len);
                vstd::arithmetic::div_mod::lemma_small_mod((at + k - len) as nat, len as nat);
            }
        }
        if exists|i: int| 0 <= i < servers.len() && (#[trigger] servers[i] is V6) == prefer_ipv6 {
            let chosen = choose|chosen: int|
                #![trigger servers[chosen]]
                0 <= chosen < servers.len() && is_selected(servers, at, prefer_ipv6, chosen)
                    && server == servers[chosen];
            let offset = choose|offset: int|
                0 <= offset < len && chosen == #[trigger] round_place(at, offset, len) && (
                servers[chosen] is V6) == prefer_ipv6 && forall|k: int|
                    0 <= k < offset ==> (servers[#[trigger] round_place(at, k, len)] is V6)
                        != prefer_ipv6;
            assert(server == servers[(start + offset) % len]);
            assert forall|k: int| 0 <= k < offset implies (#[trigger] servers[(start + k) % len]
                is V6) != prefer_ipv6 by {
                assert(round_place(at, k, len) == (start + k) % len);
            }
        } else {
            assert(server == servers[(start + 0) % len]);
        }
    }
}

/// A query that can be sent has a number that no other query has, and asks for the records of its
/// family. The numbers that were passed over are all taken.
pub proof fn a_query_has_its_own_number(
    queries: Map<u64, DnsQueryState>,
    start: u16,
    domain: Seq<char>,
    v6: bool,
    tried: int,
    res: Result<(u16, Vec<u8>), DnsError>,
)
    requires
        unique_query(queries, start, domain, v6, tried, res),
    ensures
        1 <= tried <= 65536,
        res matches Ok((id, bytes)) ==> {
            &&& id == (start + tried - 1) % 65536
            &&& !queries.contains_key(id as u64)
            &&& query_result(hickory_query(id, domain, v6, true)) == Ok::<Seq<u8>, DnsFault>(bytes@)
        },
        forall|k: int|
            0 <= k < tried - 1 ==> queries.contains_key(#[trigger] later_id(start, k) as u64),
{
}

/// A query that was made is sent as it was made, under its number, and nothing is answered yet.
pub proof fn a_query_is_sent_as_made(
    before: DnsView,
    after: DnsView,
    group_id: u32,
    query_type: DnsRecordType,
    now: u64,
    id: u16,
    packet: Vec<u8>,
    res: DnsDispatch,
)
    requires
        dispatch_step(before, after, group_id, query_type, now, Ok((id, packet)), res),
    ensures
        res is Send,
        res->transaction_id == id,
        res->packet@ == packet@,
        after == before,
{
}

/// The socket for a server is that of its family, and the sockets are named with that of IPv4 first.
pub proof fn one_socket_for_each_family(sockets: DnsSockets, server: IpAddress, id: u64)
    ensures
        server is V4 ==> sockets.slot(server) == sockets.v4,
        server is V6 ==> sockets.slot(server) == sockets.v6,
        sockets.numbers().contains(id) <==> sockets.v4 == Some(id) || sockets.v6 == Some(id),
        sockets.v4 is Some ==> sockets.numbers()[0] == sockets.v4->0,
{
    let list = sockets.numbers();
    if list.contains(id) {
        let i = list.index_of(id);
        assert(list[i] == id);
    }
    if sockets.v4 == Some(id) {
        assert(list[0] == id);
    }
    if sockets.v6 == Some(id) {
        assert(list[list.len() - 1] == id);
    }
}

/// The groups that have waited too long are all those that are older than five seconds, each once.
pub proof fn which_groups_have_waited_too_long(
    groups: Map<u64, GroupView>,
    ids: Seq<u64>,
    now: u64,
    key: u64,
)
    requires
        are_timed_out(groups, ids, now),
    ensures
        ids.contains(key) <==> groups.contains_key(key) && now > groups[key].created_at
            + 5_000_000_000,
        ids.no_duplicates(),
{
}

/// Answers are seen one by one, as they are.
pub proof fn answers_are_seen_as_they_are(list: Seq<DnsReply>, i: int)
    requires
        0 <= i < list.len(),
    ensures
        reply_views(list).len() == list.len(),
        list[i] matches DnsReply::One { responder, address } ==> (reply_views(list)[i] matches
            ReplyView::One { responder: told, address: given } && told == responder && (address is Ok
            <==> given is Ok) && (address is Ok ==> given->Ok_0 == address->Ok_0)),
        list[i] matches DnsReply::All { responder, addresses } ==> (reply_views(list)[i] matches
            ReplyView::All { responder: told, addresses: given } && told == responder && (addresses
            is Ok <==> given is Ok) && (addresses is Ok ==> given->Ok_0 == addresses->Ok_0@)),
{
}

/// The words for a query in an error: its type, and whether all addresses are wanted.
pub proof fn words_for_queries()
    ensures
        query_label(DnsRecordType::A, false) == "A"@,
        query_label(DnsRecordType::AAAA, false) == "AAAA"@,
        query_label(DnsRecordType::A, true) == "A (all)"@,
        query_label(DnsRecordType::AAAA, true) == "AAAA (all)"@,
{
}

/// The outcome of a query is seen as it is: its records, or its fault.
pub proof fn outcomes_are_seen_as_they_are(
    outcome: Result<Vec<DnsRecord>, DnsError>,
)
    ensures
        outcome matches Ok(records) ==> outcome_view(outcome) == Ok::<Seq<DnsRecord>, DnsFault>(
            records@,
        ),
        outcome matches Err(e) ==> outcome_view(outcome) == Err::<Seq<DnsRecord>, DnsFault>(e@),
        outcome_slot(Some(outcome)) == Some(outcome_view(outcome)),
        outcome_slot(None) is None,
{
}

} // verus!
