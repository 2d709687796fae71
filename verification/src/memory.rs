//! The snapshot: query, client, domain and upstream records, the counters,
//! and the table of strings that the records refer to by key.

use crate::error::FtlError;
use std::collections::HashMap;
use vstd::prelude::*;

verus! {

broadcast use vstd::std_specs::hash::group_hash_axioms;

/// The first byte of every valid query record.
pub const MAGIC_BYTE: u8 = 0x57;

/// The `database_id` of a query that is not yet in the persistent store.
pub const NOT_IN_DATABASE: i64 = 0;

/// The `upstream_id` of a query that no upstream answered.
pub const NO_UPSTREAM: i32 = -1;

#[allow(clippy::upper_case_acronyms)]
#[derive(Clone, Copy, Debug, PartialEq, Eq, Structural)]
pub enum FtlQueryType {
    A,
    AAAA,
    ANY,
    SRV,
    SOA,
    PTR,
    TXT,
}

#[derive(Clone, Copy, Debug, PartialEq, Eq, Structural)]
pub enum FtlQueryStatus {
    Unknown,
    /// Blocked by the gravity list.
    Gravity,
    /// Forwarded to an upstream.
    Forward,
    /// Answered from the cache.
    Cache,
    /// Blocked by a wildcard rule.
    Wildcard,
    /// Blocked by the blacklist.
    Blacklist,
    /// Blocked by a mechanism outside the engine.
    ExternalBlock,
}

#[allow(clippy::upper_case_acronyms)]
#[derive(Clone, Copy, Debug, PartialEq, Eq, Structural)]
pub enum FtlQueryReplyType {
    Unknown,
    NODATA,
    NXDOMAIN,
    CNAME,
    IP,
    DOMAIN,
    RRNAME,
}

#[derive(Clone, Copy, Debug, PartialEq, Eq, Structural)]
pub enum FtlDnssecType {
    Unspecified,
    Secure,
    Insecure,
    Bogus,
    Abandoned,
    Unknown,
}

#[derive(Clone, Copy, Debug, PartialEq, Eq, Structural)]
pub enum FtlRegexMatch {
    Unknown,
    Blocked,
    NotBlocked,
}

/// One observed resolution.
#[derive(Clone, Copy, Debug, PartialEq, Eq, Structural)]
pub struct FtlQuery {
    pub magic: u8,
    pub id: i32,
    /// The id in the persistent store, or `NOT_IN_DATABASE`.
    pub database_id: i64,
    /// Seconds since the epoch.
    pub timestamp: i64,
    pub time_index: u32,
    pub response_time: u64,
    /// Position of the domain in the snapshot's domains.
    pub domain_id: i32,
    /// Position of the client in the snapshot's clients.
    pub client_id: i32,
    /// Position of the upstream in the snapshot's upstreams, or `NO_UPSTREAM`.
    pub upstream_id: i32,
    pub query_type: FtlQueryType,
    pub status: FtlQueryStatus,
    pub reply_type: FtlQueryReplyType,
    pub dnssec_type: FtlDnssecType,
    pub is_complete: bool,
    /// The client asked for privacy: the query counts, its client and domain are not shown.
    pub is_private: bool,
    pub ad_bit: bool,
}

impl FtlQuery {
    /// The record starts with the magic byte.
    pub open spec fn has_magic(self) -> bool {
        self.magic == MAGIC_BYTE
    }

    /// Rejects a record that does not start with the magic byte, whatever else it holds.
    pub fn validate(&self) -> (r: Result<(), FtlError>)
        ensures
            r == (if self.has_magic() {
                Ok::<(), FtlError>(())
            } else {
                Err(FtlError::CorruptRecord)
            }),
    {
        if self.magic == MAGIC_BYTE {
            Ok(())
        } else {
            Err(FtlError::CorruptRecord)
        }
    }
}

/// A domain name and how often it was asked for.
#[derive(Clone, Copy, Debug, PartialEq, Eq, Structural)]
pub struct FtlDomain {
    pub query_count: usize,
    pub blocked_count: usize,
    /// Key of the name in the strings.
    pub domain_str_id: usize,
    pub regex_match: FtlRegexMatch,
}

impl FtlDomain {
    pub fn new(
        total_count: usize,
        blocked_count: usize,
        domain_str_id: usize,
        regex_match: FtlRegexMatch,
    ) -> (r: FtlDomain)
        ensures
            r == (FtlDomain { query_count: total_count, blocked_count, domain_str_id, regex_match }),
    {
        FtlDomain { query_count: total_count, blocked_count, domain_str_id, regex_match }
    }
}

/// A client and how often it asked.
#[derive(Clone, Copy, Debug, PartialEq, Eq, Structural)]
pub struct FtlClient {
    pub query_count: usize,
    pub blocked_count: usize,
    /// Key of the address in the strings.
    pub ip_str_id: usize,
    /// Key of the name in the strings, where the client has one.
    pub name_str_id: Option<usize>,
}

impl FtlClient {
    pub fn new(
        query_count: usize,
        blocked_count: usize,
        ip_str_id: usize,
        name_str_id: Option<usize>,
    ) -> (r: FtlClient)
        ensures
            r == (FtlClient { query_count, blocked_count, ip_str_id, name_str_id }),
    {
        FtlClient { query_count, blocked_count, ip_str_id, name_str_id }
    }
}

/// An upstream resolver and how often it was asked.
#[derive(Clone, Copy, Debug, PartialEq, Eq, Structural)]
pub struct FtlUpstream {
    pub query_count: usize,
    pub failed_count: usize,
    /// Key of the address in the strings.
    pub ip_str_id: usize,
    /// Key of the name in the strings, where the upstream has one.
    pub name_str_id: Option<usize>,
}

impl FtlUpstream {
    pub fn new(
        query_count: usize,
        failed_count: usize,
        ip_str_id: usize,
        name_str_id: Option<usize>,
    ) -> (r: FtlUpstream)
        ensures
            r == (FtlUpstream { query_count, failed_count, ip_str_id, name_str_id }),
    {
        FtlUpstream { query_count, failed_count, ip_str_id, name_str_id }
    }
}

/// The engine's totals.
#[derive(Clone, Copy, Debug, PartialEq, Eq, Structural)]
pub struct FtlCounters {
    pub total_queries: usize,
    pub blocked_queries: usize,
    pub cached_queries: usize,
    pub forwarded_queries: usize,
    pub unknown_queries: usize,
    pub total_upstreams: usize,
    pub total_domains: usize,
    pub total_clients: usize,
}

impl FtlCounters {
    /// Counters that are all zero.
    pub open spec fn zero() -> FtlCounters {
        FtlCounters {
            total_queries: 0,
            blocked_queries: 0,
            cached_queries: 0,
            forwarded_queries: 0,
            unknown_queries: 0,
            total_upstreams: 0,
            total_domains: 0,
            total_clients: 0,
        }
    }
}

impl Default for FtlCounters {
    fn default() -> (r: FtlCounters)
        ensures
            r == FtlCounters::zero(),
    {
        FtlCounters {
            total_queries: 0,
            blocked_queries: 0,
            cached_queries: 0,
            forwarded_queries: 0,
            unknown_queries: 0,
            total_upstreams: 0,
            total_domains: 0,
            total_clients: 0,
        }
    }
}

/// A snapshot of the engine's records, held for one request.
#[derive(Clone, Debug, PartialEq)]
pub struct FtlMemory {
    pub clients: Vec<FtlClient>,
    pub counters: FtlCounters,
    pub domains: Vec<FtlDomain>,
    pub strings: HashMap<usize, String>,
    pub queries: Vec<FtlQuery>,
    pub upstreams: Vec<FtlUpstream>,
}

/// `id` is a position in a table of `len` records.
pub open spec fn is_index(id: i32, len: nat) -> bool {
    0 <= id < len
}

/// The strings of a table, each as its text.
pub open spec fn texts(strings: Map<usize, String>) -> Map<usize, Seq<char>> {
    Map::new(|k: usize| strings.contains_key(k), |k: usize| strings[k]@)
}

/// What a snapshot holds, with each string as its text.
pub struct Snapshot {
    pub clients: Seq<FtlClient>,
    pub counters: FtlCounters,
    pub domains: Seq<FtlDomain>,
    pub strings: Map<usize, Seq<char>>,
    pub queries: Seq<FtlQuery>,
    pub upstreams: Seq<FtlUpstream>,
}

impl View for FtlMemory {
    type V = Snapshot;

    open spec fn view(&self) -> Snapshot {
        Snapshot {
            clients: self.clients@,
            counters: self.counters,
            domains: self.domains@,
            strings: texts(self.strings@),
            queries: self.queries@,
            upstreams: self.upstreams@,
        }
    }
}

impl Snapshot {
    /// Every query record starts with the magic byte.
    pub open spec fn queries_intact(self) -> bool {
        forall|i: int| 0 <= i < self.queries.len() ==> (#[trigger] self.queries[i]).has_magic()
    }

    /// The counters' totals are the lengths of the tables.
    pub open spec fn counters_agree(self) -> bool {
        &&& self.counters.total_queries == self.queries.len()
        &&& self.counters.total_clients == self.clients.len()
        &&& self.counters.total_domains == self.domains.len()
        &&& self.counters.total_upstreams == self.upstreams.len()
    }

    /// A complete query names a domain and a client of this snapshot, and an
    /// upstream of it or none.
    pub open spec fn query_refers(self, q: FtlQuery) -> bool {
        q.is_complete ==> {
            &&& is_index(q.domain_id, self.domains.len())
            &&& is_index(q.client_id, self.clients.len())
            &&& (q.upstream_id == NO_UPSTREAM || is_index(q.upstream_id, self.upstreams.len()))
        }
    }

    /// `key` is positive and the strings hold it.
    pub open spec fn has_string(self, key: usize) -> bool {
        key > 0 && self.strings.contains_key(key)
    }

    /// `key`, where there is one, is a key of the strings.
    pub open spec fn has_optional_string(self, key: Option<usize>) -> bool {
        key matches Some(k) ==> self.has_string(k)
    }

    /// Every key in the strings is positive, and every key in a record is one of them.
    pub open spec fn strings_resolve(self) -> bool {
        &&& !self.strings.contains_key(0)
        &&& forall|i: int|
            0 <= i < self.domains.len() ==> self.has_string((#[trigger] self.domains[i]).domain_str_id)
        &&& forall|i: int|
            0 <= i < self.clients.len() ==> {
                &&& self.has_string((#[trigger] self.clients[i]).ip_str_id)
                &&& self.has_optional_string(self.clients[i].name_str_id)
            }
        &&& forall|i: int|
            0 <= i < self.upstreams.len() ==> {
                &&& self.has_string((#[trigger] self.upstreams[i]).ip_str_id)
                &&& self.has_optional_string(self.upstreams[i].name_str_id)
            }
    }

    /// Every query's references into the other tables resolve.
    pub open spec fn queries_refer(self) -> bool {
        forall|i: int| 0 <= i < self.queries.len() ==> self.query_refers(#[trigger] self.queries[i])
    }

    /// The snapshot is consistent in itself: records intact, totals right,
    /// every reference from one table into another resolves.
    pub open spec fn consistent(self) -> bool {
        &&& self.queries_intact()
        &&& self.counters_agree()
        &&& self.queries_refer()
        &&& self.strings_resolve()
    }

    /// The query at `index`: none past the end, an error where the record is not intact.
    pub open spec fn query_at(self, index: int) -> Result<Option<FtlQuery>, FtlError> {
        if !(0 <= index < self.queries.len()) {
            Ok(None)
        } else if !self.queries[index].has_magic() {
            Err(FtlError::CorruptRecord)
        } else {
            Ok(Some(self.queries[index]))
        }
    }

    /// The queries, as long as every one of them is intact.
    pub open spec fn checked_queries(self) -> Result<Seq<FtlQuery>, FtlError> {
        if self.queries_intact() {
            Ok(self.queries)
        } else {
            Err(FtlError::CorruptRecord)
        }
    }
}

/// The record at `index` of a table, none past its end.
pub open spec fn record_at<T>(table: Seq<T>, index: int) -> Option<T> {
    if 0 <= index < table.len() {
        Some(table[index])
    } else {
        None
    }
}

impl FtlMemory {
    /// Puts a snapshot together from its tables. A query without the magic
    /// byte is not let in: the tables are refused as a whole.
    pub fn new(
        clients: Vec<FtlClient>,
        counters: FtlCounters,
        domains: Vec<FtlDomain>,
        strings: HashMap<usize, String>,
        queries: Vec<FtlQuery>,
        upstreams: Vec<FtlUpstream>,
    ) -> (r: Result<FtlMemory, FtlError>)
        ensures
            match r {
                Ok(memory) => {
                    &&& memory@.queries_intact()
                    &&& memory.clients == clients
                    &&& memory.counters == counters
                    &&& memory.domains == domains
                    &&& memory.strings == strings
                    &&& memory.queries == queries
                    &&& memory.upstreams == upstreams
                },
                Err(e) => e == FtlError::CorruptRecord && exists|i: int|
                    0 <= i < queries@.len() && !(#[trigger] queries@[i]).has_magic(),
            },
    {
        let memory = FtlMemory { clients, counters, domains, strings, queries, upstreams };
        let intact = memory.queries().is_ok();
        if intact {
            Ok(memory)
        } else {
            Err(FtlError::CorruptRecord)
        }
    }

    /// The engine's totals.
    pub fn counters(&self) -> (r: FtlCounters)
        ensures
            r == self@.counters,
    {
        self.counters
    }

    /// The query at `index`. A record without the magic byte is an error, not a gap.
    pub fn query_at(&self, index: usize) -> (r: Result<Option<&FtlQuery>, FtlError>)
        ensures
            match r {
                Ok(Some(q)) => self@.query_at(index as int) == Ok::<_, FtlError>(Some(*q)),
                Ok(None) => self@.query_at(index as int) == Ok::<Option<FtlQuery>, FtlError>(None),
                Err(e) => self@.query_at(index as int) == Err::<Option<FtlQuery>, _>(e),
            },
    {
        if index >= self.queries.len() {
            return Ok(None);
        }
        let query = &self.queries[index];
        match query.validate() {
            Ok(()) => Ok(Some(query)),
            Err(e) => Err(e),
        }
    }

    /// The client at `index`, none past the end.
    pub fn client_at(&self, index: usize) -> (r: Option<&FtlClient>)
        ensures
            match r {
                Some(c) => record_at(self@.clients, index as int) == Some(*c),
                None => record_at(self@.clients, index as int) == None::<FtlClient>,
            },
    {
        if index < self.clients.len() {
            Some(&self.clients[index])
        } else {
            None
        }
    }

    /// The domain at `index`, none past the end.
    pub fn domain_at(&self, index: usize) -> (r: Option<&FtlDomain>)
        ensures
            match r {
                Some(d) => record_at(self@.domains, index as int) == Some(*d),
                None => record_at(self@.domains, index as int) == None::<FtlDomain>,
            },
    {
        if index < self.domains.len() {
            Some(&self.domains[index])
        } else {
            None
        }
    }

    /// The upstream at `index`, none past the end.
    pub fn upstream_at(&self, index: usize) -> (r: Option<&FtlUpstream>)
        ensures
            match r {
                Some(u) => record_at(self@.upstreams, index as int) == Some(*u),
                None => record_at(self@.upstreams, index as int) == None::<FtlUpstream>,
            },
    {
        if index < self.upstreams.len() {
            Some(&self.upstreams[index])
        } else {
            None
        }
    }

    /// The text under `key`, none where the strings do not hold the key.
    pub fn string_for(&self, key: usize) -> (r: Option<&str>)
        ensures
            match r {
                Some(text) => self@.strings.contains_key(key) && text@ == self@.strings[key],
                None => !self@.strings.contains_key(key),
            },
    {
        match self.strings.get(&key) {
            Some(text) => Some(text.as_str()),
            None => None,
        }
    }

    /// All queries, or `CorruptRecord` if one of them lacks the magic byte.
    pub fn queries(&self) -> (r: Result<&Vec<FtlQuery>, FtlError>)
        ensures
            match r {
                Ok(queries) => self@.checked_queries() == Ok::<_, FtlError>(queries@),
                Err(e) => self@.checked_queries() == Err::<Seq<FtlQuery>, _>(e),
            },
    {
        let mut i: usize = 0;
        while i < self.queries.len()
            invariant
                i <= self.queries@.len(),
                forall|j: int| 0 <= j < i ==> (#[trigger] self.queries@[j]).has_magic(),
            decreases self.queries@.len() - i,
        {
            if self.queries[i].validate().is_err() {
                return Err(FtlError::CorruptRecord);
            }
            i += 1;
        }
        Ok(&self.queries)
    }

    fn holds_string(&self, key: usize) -> (r: bool)
        ensures
            r == self@.has_string(key),
    {
        key > 0 && self.strings.contains_key(&key)
    }

    fn holds_optional_string(&self, key: Option<usize>) -> (r: bool)
        ensures
            r == self@.has_optional_string(key),
    {
        match key {
            Some(k) => self.holds_string(k),
            None => true,
        }
    }

    fn query_resolves(&self, q: &FtlQuery) -> (r: bool)
        ensures
            r == self@.query_refers(*q),
    {
        if !q.is_complete {
            return true;
        }
        q.domain_id >= 0 && (q.domain_id as usize) < self.domains.len() && q.client_id >= 0 && (
        q.client_id as usize) < self.clients.len() && (q.upstream_id == NO_UPSTREAM || (q.upstream_id
            >= 0 && (q.upstream_id as usize) < self.upstreams.len()))
    }

    fn all_queries_refer(&self) -> (r: bool)
        ensures
            r == self@.queries_refer(),
    {
        let mut i: usize = 0;
        while i < self.queries.len()
            invariant
                i <= self.queries@.len(),
                forall|j: int| 0 <= j < i ==> self@.query_refers(#[trigger] self.queries@[j]),
            decreases self.queries@.len() - i,
        {
            if !self.query_resolves(&self.queries[i]) {
                assert(!self@.query_refers(self@.queries[i as int]));
                return false;
            }
            i += 1;
        }
        true
    }

    fn all_strings_resolve(&self) -> (r: bool)
        ensures
            r == self@.strings_resolve(),
    {
        if self.strings.contains_key(&0) {
            return false;
        }
        let mut i: usize = 0;
        while i < self.domains.len()
            invariant
                i <= self.domains@.len(),
                forall|j: int|
                    0 <= j < i ==> self@.has_string((#[trigger] self.domains@[j]).domain_str_id),
            decreases self.domains@.len() - i,
        {
            if !self.holds_string(self.domains[i].domain_str_id) {
                return false;
            }
            i += 1;
        }
        let mut i: usize = 0;
        while i < self.clients.len()
            invariant
                i <= self.clients@.len(),
                forall|j: int|
                    0 <= j < i ==> {
                        &&& self@.has_string((#[trigger] self.clients@[j]).ip_str_id)
                        &&& self@.has_optional_string(self.clients@[j].name_str_id)
                    },
            decreases self.clients@.len() - i,
        {
            let client = &self.clients[i];
            if !self.holds_string(client.ip_str_id) || !self.holds_optional_string(
                client.name_str_id,
            ) {
                return false;
            }
            i += 1;
        }
        let mut i: usize = 0;
        while i < self.upstreams.len()
            invariant
                i <= self.upstreams@.len(),
                forall|j: int|
                    0 <= j < i ==> {
                        &&& self@.has_string((#[trigger] self.upstreams@[j]).ip_str_id)
                        &&& self@.has_optional_string(self.upstreams@[j].name_str_id)
                    },
            decreases self.upstreams@.len() - i,
        {
            let upstream = &self.upstreams[i];
            if !self.holds_string(upstream.ip_str_id) || !self.holds_optional_string(
                upstream.name_str_id,
            ) {
                return false;
            }
            i += 1;
        }
        true
    }

    /// Tells whether the snapshot is consistent in itself.
    pub fn is_consistent(&self) -> (r: bool)
        ensures
            r == self@.consistent(),
    {
        let counters_agree = self.counters.total_queries == self.queries.len()
            && self.counters.total_clients == self.clients.len() && self.counters.total_domains
            == self.domains.len() && self.counters.total_upstreams == self.upstreams.len();
        counters_agree && self.queries().is_ok() && self.all_queries_refer()
            && self.all_strings_resolve()
    }
}

/// Idempotence of a fixed source: two snapshots fetched from it hold the same
/// records, so every accessor answers the same on both, and they are
/// consistent or not together.
pub proof fn lemma_same_source_same_records(first: FtlMemory, second: FtlMemory)
    requires
        first@ == second@,
    ensures
        first@.counters == second@.counters,
        first@.checked_queries() == second@.checked_queries(),
        forall|index: int| first@.query_at(index) == second@.query_at(index),
        forall|index: int| record_at(first@.clients, index) == record_at(second@.clients, index),
        forall|index: int| record_at(first@.domains, index) == record_at(second@.domains, index),
        forall|index: int|
            record_at(first@.upstreams, index) == record_at(second@.upstreams, index),
        forall|key: usize|
            first@.strings.contains_key(key) == second@.strings.contains_key(key)
                && first@.strings[key] == second@.strings[key],
        first@.consistent() == second@.consistent(),
{
}

} // verus!
