//! A fixed snapshot: nine queries of four clients for six domains, two upstreams.
//!
//! | ID | DB | Type |   Status   | Domain | Client | Upstream | Timestamp |
//! | -- | -- | ---- | ---------- | ------ | ------ | -------- | --------- |
//! | 1  | 1  | A    | Forward    | 0      | 0      | 0        | 1         |
//! | 2  | 2  | AAAA | Forward    | 0      | 0      | 0        | 2         |
//! | 3  | 3  | PTR  | Forward    | 0      | 0      | 0        | 3         |
//! | 4  | 4  | A    | Gravity    | 1      | 1      | 0        | 3         |
//! | 5  | 5  | AAAA | Cache      | 0      | 1      | 0        | 4         |
//! | 6  | 6  | AAAA | Wildcard   | 2      | 1      | 0        | 5         |
//! | 7  | 7  | A    | Blacklist  | 3      | 2      | 0        | 5         |
//! | 8  | 0  | AAAA | ExternalB. | 4      | 2      | 1        | 6         |
//! | 9  | 0  | A    | Forward    | 5      | 3      | 0        | 7         |
//!
//! Query 9 is private. The last two are not in the database. Query 1 has a
//! DNSSEC type of Secure and a reply type of CNAME.

use crate::memory::{
    FtlClient, FtlCounters, FtlDnssecType, FtlDomain, FtlMemory, FtlQuery, FtlQueryReplyType,
    FtlQueryStatus, FtlQueryType, FtlRegexMatch, FtlUpstream, Snapshot, MAGIC_BYTE,
};
use std::collections::HashMap;
use vstd::prelude::*;

verus! {

broadcast use vstd::std_specs::hash::group_hash_axioms;

/// A complete, intact query with an IP reply and no DNSSEC information.
pub open spec fn plain_query(
    id: i32,
    database_id: i64,
    query_type: FtlQueryType,
    status: FtlQueryStatus,
    domain_id: i32,
    client_id: i32,
    upstream_id: i32,
    timestamp: i64,
    is_private: bool,
) -> FtlQuery {
    FtlQuery {
        magic: MAGIC_BYTE,
        id,
        database_id,
        timestamp,
        time_index: 1,
        response_time: 1,
        domain_id,
        client_id,
        upstream_id,
        query_type,
        status,
        reply_type: FtlQueryReplyType::IP,
        dnssec_type: FtlDnssecType::Unspecified,
        is_complete: true,
        is_private,
        ad_bit: false,
    }
}

/// The first query of the table: as `plain_query` would make it, but answered
/// with a CNAME and secured by DNSSEC.
pub open spec fn first_query() -> FtlQuery {
    FtlQuery {
        reply_type: FtlQueryReplyType::CNAME,
        dnssec_type: FtlDnssecType::Secure,
        ..plain_query(1, 1, FtlQueryType::A, FtlQueryStatus::Forward, 0, 0, 0, 1, false)
    }
}

/// The nine queries of the table.
pub open spec fn history_queries() -> Seq<FtlQuery> {
    seq![
        first_query(),
        plain_query(2, 2, FtlQueryType::AAAA, FtlQueryStatus::Forward, 0, 0, 0, 2, false),
        plain_query(3, 3, FtlQueryType::PTR, FtlQueryStatus::Forward, 0, 0, 0, 3, false),
        plain_query(4, 4, FtlQueryType::A, FtlQueryStatus::Gravity, 1, 1, 0, 3, false),
        plain_query(5, 5, FtlQueryType::AAAA, FtlQueryStatus::Cache, 0, 1, 0, 4, false),
        plain_query(6, 6, FtlQueryType::AAAA, FtlQueryStatus::Wildcard, 2, 1, 0, 5, false),
        plain_query(7, 7, FtlQueryType::A, FtlQueryStatus::Blacklist, 3, 2, 0, 5, false),
        plain_query(8, 0, FtlQueryType::AAAA, FtlQueryStatus::ExternalBlock, 4, 2, 1, 6, false),
        plain_query(9, 0, FtlQueryType::A, FtlQueryStatus::Forward, 5, 3, 0, 7, true),
    ]
}

/// The totals that go with the table.
pub open spec fn history_counters() -> FtlCounters {
    FtlCounters {
        total_queries: 9,
        total_upstreams: 2,
        total_domains: 6,
        total_clients: 4,
        ..FtlCounters::zero()
    }
}

/// The six domains.
pub open spec fn history_domains() -> Seq<FtlDomain> {
    seq![
        FtlDomain { query_count: 4, blocked_count: 0, domain_str_id: 1, regex_match: FtlRegexMatch::NotBlocked },
        FtlDomain { query_count: 1, blocked_count: 1, domain_str_id: 2, regex_match: FtlRegexMatch::NotBlocked },
        FtlDomain { query_count: 1, blocked_count: 1, domain_str_id: 3, regex_match: FtlRegexMatch::Blocked },
        FtlDomain { query_count: 1, blocked_count: 1, domain_str_id: 4, regex_match: FtlRegexMatch::NotBlocked },
        FtlDomain { query_count: 1, blocked_count: 0, domain_str_id: 5, regex_match: FtlRegexMatch::NotBlocked },
        FtlDomain { query_count: 1, blocked_count: 0, domain_str_id: 13, regex_match: FtlRegexMatch::NotBlocked },
    ]
}

/// The four clients.
pub open spec fn history_clients() -> Seq<FtlClient> {
    seq![
        FtlClient { query_count: 3, blocked_count: 0, ip_str_id: 6, name_str_id: Some(7usize) },
        FtlClient { query_count: 3, blocked_count: 2, ip_str_id: 8, name_str_id: None },
        FtlClient { query_count: 2, blocked_count: 2, ip_str_id: 9, name_str_id: None },
        FtlClient { query_count: 1, blocked_count: 0, ip_str_id: 10, name_str_id: None },
    ]
}

/// The two upstreams.
pub open spec fn history_upstreams() -> Seq<FtlUpstream> {
    seq![
        FtlUpstream { query_count: 3, failed_count: 0, ip_str_id: 11, name_str_id: Some(12usize) },
        FtlUpstream { query_count: 1, failed_count: 0, ip_str_id: 14, name_str_id: Some(15usize) },
    ]
}

/// The strings that the records refer to.
pub open spec fn history_strings() -> Map<usize, Seq<char>> {
    map![
        1usize => "domain1.com"@,
        2usize => "domain2.com"@,
        3usize => "domain3.com"@,
        4usize => "domain4.com"@,
        5usize => "domain5.com"@,
        6usize => "192.168.1.10"@,
        7usize => "client1"@,
        8usize => "192.168.1.11"@,
        9usize => "192.168.1.12"@,
        10usize => "0.0.0.0"@,
        11usize => "8.8.8.8"@,
        12usize => "google-public-dns-a.google.com"@,
        13usize => "hidden"@,
        14usize => "8.8.4.4"@,
        15usize => "google-public-dns-b.google.com"@,
    ]
}

/// The whole fixed snapshot.
pub open spec fn history_snapshot() -> Snapshot {
    Snapshot {
        clients: history_clients(),
        counters: history_counters(),
        domains: history_domains(),
        strings: history_strings(),
        queries: history_queries(),
        upstreams: history_upstreams(),
    }
}

fn query(
    id: i32,
    database_id: i64,
    query_type: FtlQueryType,
    status: FtlQueryStatus,
    domain_id: i32,
    client_id: i32,
    upstream_id: i32,
    timestamp: i64,
    is_private: bool,
) -> (r: FtlQuery)
    ensures
        r == plain_query(
            id,
            database_id,
            query_type,
            status,
            domain_id,
            client_id,
            upstream_id,
            timestamp,
            is_private,
        ),
{
    FtlQuery {
        magic: MAGIC_BYTE,
        id,
        database_id,
        timestamp,
        time_index: 1,
        response_time: 1,
        domain_id,
        client_id,
        upstream_id,
        query_type,
        status,
        reply_type: FtlQueryReplyType::IP,
        dnssec_type: FtlDnssecType::Unspecified,
        is_complete: true,
        is_private,
        ad_bit: false,
    }
}

/// 9 queries. Query 9 is private. Last two are not in the database. Query 1
/// has a DNSSEC type of Secure and a reply type of CNAME.
pub fn test_queries() -> (r: Vec<FtlQuery>)
    ensures
        r@ == history_queries(),
{
    let r = vec![
        FtlQuery {
            magic: MAGIC_BYTE,
            id: 1,
            database_id: 1,
            timestamp: 1,
            time_index: 1,
            response_time: 1,
            domain_id: 0,
            client_id: 0,
            upstream_id: 0,
            query_type: FtlQueryType::A,
            status: FtlQueryStatus::Forward,
            reply_type: FtlQueryReplyType::CNAME,
            dnssec_type: FtlDnssecType::Secure,
            is_complete: true,
            is_private: false,
            ad_bit: false,
        },
        query(2, 2, FtlQueryType::AAAA, FtlQueryStatus::Forward, 0, 0, 0, 2, false),
        query(3, 3, FtlQueryType::PTR, FtlQueryStatus::Forward, 0, 0, 0, 3, false),
        query(4, 4, FtlQueryType::A, FtlQueryStatus::Gravity, 1, 1, 0, 3, false),
        query(5, 5, FtlQueryType::AAAA, FtlQueryStatus::Cache, 0, 1, 0, 4, false),
        query(6, 6, FtlQueryType::AAAA, FtlQueryStatus::Wildcard, 2, 1, 0, 5, false),
        query(7, 7, FtlQueryType::A, FtlQueryStatus::Blacklist, 3, 2, 0, 5, false),
        query(8, 0, FtlQueryType::AAAA, FtlQueryStatus::ExternalBlock, 4, 2, 1, 6, false),
        query(9, 0, FtlQueryType::A, FtlQueryStatus::Forward, 5, 3, 0, 7, true),
    ];
    assert(r@ =~= history_queries());
    r
}

/// The counters necessary for the history tests.
pub fn test_counters() -> (r: FtlCounters)
    ensures
        r == history_counters(),
{
    FtlCounters {
        total_queries: 9,
        total_upstreams: 2,
        total_domains: 6,
        total_clients: 4,
        ..FtlCounters::default()
    }
}

/// 6 domains. See `test_queries` for how they're used.
pub fn test_domains() -> (r: Vec<FtlDomain>)
    ensures
        r@ == history_domains(),
{
    let r = vec![
        FtlDomain::new(4, 0, 1, FtlRegexMatch::NotBlocked),
        FtlDomain::new(1, 1, 2, FtlRegexMatch::NotBlocked),
        FtlDomain::new(1, 1, 3, FtlRegexMatch::Blocked),
        FtlDomain::new(1, 1, 4, FtlRegexMatch::NotBlocked),
        FtlDomain::new(1, 0, 5, FtlRegexMatch::NotBlocked),
        FtlDomain::new(1, 0, 13, FtlRegexMatch::NotBlocked),
    ];
    assert(r@ =~= history_domains());
    r
}

/// 4 clients. See `test_queries` for how they're used.
pub fn test_clients() -> (r: Vec<FtlClient>)
    ensures
        r@ == history_clients(),
{
    let r = vec![
        FtlClient::new(3, 0, 6, Some(7)),
        FtlClient::new(3, 2, 8, None),
        FtlClient::new(2, 2, 9, None),
        FtlClient::new(1, 0, 10, None),
    ];
    assert(r@ =~= history_clients());
    r
}

/// 2 upstreams. See `test_queries` for how they're used.
pub fn test_upstreams() -> (r: Vec<FtlUpstream>)
    ensures
        r@ == history_upstreams(),
{
    let r = vec![FtlUpstream::new(3, 0, 11, Some(12)), FtlUpstream::new(1, 0, 14, Some(15))];
    assert(r@ =~= history_upstreams());
    r
}

/// Strings used in the test data
pub fn test_strings() -> (r: HashMap<usize, String>)
    ensures
        crate::memory::texts(r@) == history_strings(),
{
    let mut strings = HashMap::new();
    strings.insert(1, "domain1.com".to_owned());
    strings.insert(2, "domain2.com".to_owned());
    strings.insert(3, "domain3.com".to_owned());
    strings.insert(4, "domain4.com".to_owned());
    strings.insert(5, "domain5.com".to_owned());
    strings.insert(6, "192.168.1.10".to_owned());
    strings.insert(7, "client1".to_owned());
    strings.insert(8, "192.168.1.11".to_owned());
    strings.insert(9, "192.168.1.12".to_owned());
    strings.insert(10, "0.0.0.0".to_owned());
    strings.insert(11, "8.8.8.8".to_owned());
    strings.insert(12, "google-public-dns-a.google.com".to_owned());
    strings.insert(13, "hidden".to_owned());
    strings.insert(14, "8.8.4.4".to_owned());
    strings.insert(15, "google-public-dns-b.google.com".to_owned());
    assert(crate::memory::texts(strings@) =~= history_strings());
    strings
}

/// Creates an `FtlMemory` struct from the other test data functions
pub fn test_memory() -> (r: FtlMemory)
    ensures
        r@ == history_snapshot(),
        r@.consistent(),
{
    let r = FtlMemory {
        clients: test_clients(),
        counters: test_counters(),
        domains: test_domains(),
        strings: test_strings(),
        queries: test_queries(),
        upstreams: test_upstreams(),
    };
    proof {
        lemma_history_snapshot_consistent();
    }
    r
}

/// The fixed snapshot is consistent in itself.
pub proof fn lemma_history_snapshot_consistent()
    ensures
        history_snapshot().consistent(),
{
    let s = history_snapshot();
    assert(s.queries_intact());
    assert(s.counters_agree());
    assert(s.queries_refer());
    assert(s.strings_resolve());
}

/// The fixed snapshot does not change: whatever `test_memory` gave once it
/// gives again.
pub proof fn lemma_test_memory_is_stable(first: FtlMemory, second: FtlMemory)
    requires
        first@ == history_snapshot(),
        second@ == history_snapshot(),
    ensures
        first@ == second@,
        first.queries@ == second.queries@,
        first.clients@ == second.clients@,
        first.domains@ == second.domains@,
        first.upstreams@ == second.upstreams@,
        first.counters == second.counters,
{
}

} // verus!
