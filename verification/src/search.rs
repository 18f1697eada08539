//! The query mini-language: `token:value` restricts the match to one field,
//! anything else matches across all fields.

use crate::parser::{AuditGroup, GroupView};
use crate::text::{
    contains_text, decimal, decimal_text, lowercase, same_text, split_at_first, split_once, str_contains,
    texts, to_lowercase, trim, trimmed,
};
use vstd::prelude::*;

verus! {

/// What a query asks of a chain.
#[derive(Debug, Clone, PartialEq, Eq)]
pub enum SearchFilter {
    /// The empty query: every chain matches.
    Everything,
    /// `domain:` the lower-cased domain contains the text.
    Domain(String),
    /// `ip:` the lower-cased client address contains the text.
    ClientIp(String),
    /// `rule:`, `ruleid:` or `id:` some lower-cased rule identifier contains
    /// the text.
    RuleId(String),
    /// `auditid:` the lower-cased chain id contains the text.
    AuditId(String),
    /// `status:` or `http:` the HTTP status in decimal contains the text.
    Status(String),
    /// Any other query: one of these fields contains the text.
    AnyField(String),
}

/// What a [`SearchFilter`] holds, as mathematical values.
pub enum FilterView {
    Everything,
    Domain(Seq<char>),
    ClientIp(Seq<char>),
    RuleId(Seq<char>),
    AuditId(Seq<char>),
    Status(Seq<char>),
    AnyField(Seq<char>),
}

impl View for SearchFilter {
    type V = FilterView;

    open spec fn view(&self) -> FilterView {
        match self {
            SearchFilter::Everything => FilterView::Everything,
            SearchFilter::Domain(t) => FilterView::Domain(t@),
            SearchFilter::ClientIp(t) => FilterView::ClientIp(t@),
            SearchFilter::RuleId(t) => FilterView::RuleId(t@),
            SearchFilter::AuditId(t) => FilterView::AuditId(t@),
            SearchFilter::Status(t) => FilterView::Status(t@),
            SearchFilter::AnyField(t) => FilterView::AnyField(t@),
        }
    }
}

/// The filter of a lower-cased query that is not empty. With a recognised
/// field token before the first colon, the match is restricted to that field
/// and the trimmed text after the colon; any other query is matched, trimmed,
/// against all fields.
pub open spec fn lowered_filter(lowered: Seq<char>) -> FilterView {
    match split_at_first(lowered, ':') {
        Some((token, value)) => {
            let field = trimmed(token);
            let needle = trimmed(value);
            if field == "domain"@ {
                FilterView::Domain(needle)
            } else if field == "ip"@ {
                FilterView::ClientIp(needle)
            } else if field == "rule"@ || field == "ruleid"@ || field == "id"@ {
                FilterView::RuleId(needle)
            } else if field == "auditid"@ {
                FilterView::AuditId(needle)
            } else if field == "status"@ || field == "http"@ {
                FilterView::Status(needle)
            } else {
                FilterView::AnyField(trimmed(lowered))
            }
        },
        None => FilterView::AnyField(trimmed(lowered)),
    }
}

/// The filter of a query: everything for the empty query, else the filter of
/// the query in lower case.
pub open spec fn filter_of(query: Seq<char>) -> FilterView {
    if query.len() == 0 {
        FilterView::Everything
    } else {
        lowered_filter(lowercase(query))
    }
}

/// Some rule identifier contains `needle`.
pub open spec fn any_rule_contains(rule_ids: Seq<Seq<char>>, needle: Seq<char>) -> bool {
    exists|i: int| 0 <= i < rule_ids.len() && contains_text(#[trigger] rule_ids[i], needle)
}

/// Some rule identifier, in lower case, contains `needle`.
pub open spec fn any_folded_rule_contains(rule_ids: Seq<Seq<char>>, needle: Seq<char>) -> bool {
    exists|i: int|
        0 <= i < rule_ids.len() && contains_text(lowercase(#[trigger] rule_ids[i]), needle)
}

/// The HTTP status, written in decimal, contains `needle`; a chain without a
/// status never matches.
pub open spec fn status_contains(status: Option<u16>, needle: Seq<char>) -> bool {
    match status {
        Some(code) => contains_text(decimal(code as nat), needle),
        None => false,
    }
}

/// One of the searched fields of `chain` contains `needle`: the domain or the
/// chain id in lower case, the client address or a rule identifier as it is
/// written, or the status.
pub open spec fn any_field_contains(chain: GroupView, needle: Seq<char>) -> bool {
    ||| contains_text(lowercase(chain.domain), needle)
    ||| contains_text(chain.client_ip, needle)
    ||| contains_text(lowercase(chain.base_id), needle)
    ||| any_rule_contains(chain.primary_rule_ids, needle)
    ||| status_contains(chain.http_status, needle)
}

/// Whether `chain` passes `filter`. A filter on one field looks for its text
/// in that field without regard to letter case: the text of the filter is in
/// lower case, and the field is taken in lower case.
pub open spec fn accepts(filter: FilterView, chain: GroupView) -> bool {
    match filter {
        FilterView::Everything => true,
        FilterView::Domain(needle) => contains_text(lowercase(chain.domain), needle),
        FilterView::ClientIp(needle) => contains_text(lowercase(chain.client_ip), needle),
        FilterView::RuleId(needle) => any_folded_rule_contains(chain.primary_rule_ids, needle),
        FilterView::AuditId(needle) => contains_text(lowercase(chain.base_id), needle),
        FilterView::Status(needle) => status_contains(chain.http_status, needle),
        FilterView::AnyField(needle) => any_field_contains(chain, needle),
    }
}

/// A query that restricts the match to the status matches exactly the chains
/// that have a status which, written in decimal, contains the query's text.
pub proof fn lemma_status_query(query: Seq<char>, needle: Seq<char>, chain: GroupView)
    requires
        filter_of(query) == FilterView::Status(needle),
    ensures
        accepts(filter_of(query), chain) <==> chain.http_status is Some && contains_text(
            decimal(chain.http_status->0 as nat),
            needle,
        ),
{
}

/// A query that restricts the match to the client address matches exactly
/// the chains whose client address, in lower case, contains the query's text.
pub proof fn lemma_ip_query(query: Seq<char>, needle: Seq<char>, chain: GroupView)
    requires
        filter_of(query) == FilterView::ClientIp(needle),
    ensures
        accepts(filter_of(query), chain) <==> contains_text(lowercase(chain.client_ip), needle),
{
}

/// The positions of the chains that pass `filter`, in increasing order.
pub open spec fn matching_indices(chains: Seq<GroupView>, filter: FilterView) -> Seq<usize>
    decreases chains.len(),
{
    if chains.len() == 0 {
        Seq::empty()
    } else {
        let before = matching_indices(chains.drop_last(), filter);
        if accepts(filter, chains.last()) {
            before.push((chains.len() - 1) as usize)
        } else {
            before
        }
    }
}

/// The matching positions are exactly the positions of chains that pass the
/// filter, each once and in increasing order.
pub proof fn lemma_matching_indices(chains: Seq<GroupView>, filter: FilterView)
    requires
        chains.len() <= usize::MAX,
    ensures
        matching_indices(chains, filter).len() <= chains.len(),
        forall|k: int|
            0 <= k < matching_indices(chains, filter).len() ==> {
                &&& (#[trigger] matching_indices(chains, filter)[k]) < chains.len()
                &&& accepts(filter, chains[matching_indices(chains, filter)[k] as int])
            },
        forall|k: int, l: int|
            0 <= k < l < matching_indices(chains, filter).len() ==> (#[trigger] matching_indices(
                chains,
                filter,
            )[k]) < (#[trigger] matching_indices(chains, filter)[l]),
        forall|i: int|
            0 <= i < chains.len() && accepts(filter, chains[i]) ==> matching_indices(
                chains,
                filter,
            ).contains(i as usize),
    decreases chains.len(),
{
    if chains.len() > 0 {
        let before = chains.drop_last();
        let found = matching_indices(before, filter);
        let all = matching_indices(chains, filter);
        lemma_matching_indices(before, filter);
        assert forall|k: int| 0 <= k < all.len() implies {
            &&& (#[trigger] all[k]) < chains.len()
            &&& accepts(filter, chains[all[k] as int])
        } by {
            if k < found.len() {
                assert(all[k] == found[k]);
                assert(before[found[k] as int] == chains[found[k] as int]);
            }
        }
        assert forall|k: int, l: int| 0 <= k < l < all.len() implies (#[trigger] all[k]) < (
        #[trigger] all[l]) by {
            assert(all[k] == found[k]);
            if l < found.len() {
                assert(all[l] == found[l]);
            }
        }
        assert forall|i: int| 0 <= i < chains.len() && accepts(filter, chains[i]) implies all.contains(
            i as usize,
        ) by {
            if i < before.len() {
                assert(before[i] == chains[i]);
                assert(found.contains(i as usize));
                let k = choose|k: int| 0 <= k < found.len() && found[k] == i as usize;
                assert(all[k] == i as usize);
            } else {
                assert(all[all.len() - 1] == i as usize);
            }
        }
    }
}

/// With the filter that lets everything pass, every position matches, in order.
pub proof fn lemma_everything_matches(chains: Seq<GroupView>)
    requires
        chains.len() <= usize::MAX,
    ensures
        matching_indices(chains, FilterView::Everything) == Seq::new(
            chains.len(),
            |i: int| i as usize,
        ),
    decreases chains.len(),
{
    if chains.len() > 0 {
        lemma_everything_matches(chains.drop_last());
    }
    assert(matching_indices(chains, FilterView::Everything) =~= Seq::new(
        chains.len(),
        |i: int| i as usize,
    ));
}

impl SearchFilter {
    /// Reads the filter of a query that is in lower case and not empty.
    pub fn from_lowered(lowered: &str) -> (filter: SearchFilter)
        ensures
            filter@ == lowered_filter(lowered@),
    {
        match split_once(lowered, ':') {
            Some((token, value)) => {
                let field = trim(token);
                let needle = trim(value).to_owned();
                if same_text(field, "domain") {
                    SearchFilter::Domain(needle)
                } else if same_text(field, "ip") {
                    SearchFilter::ClientIp(needle)
                } else if same_text(field, "rule") || same_text(field, "ruleid") || same_text(
                    field,
                    "id",
                ) {
                    SearchFilter::RuleId(needle)
                } else if same_text(field, "auditid") {
                    SearchFilter::AuditId(needle)
                } else if same_text(field, "status") || same_text(field, "http") {
                    SearchFilter::Status(needle)
                } else {
                    SearchFilter::AnyField(trim(lowered).to_owned())
                }
            },
            None => SearchFilter::AnyField(trim(lowered).to_owned()),
        }
    }

    /// Reads the filter of a query as typed.
    pub fn parse(query: &str) -> (filter: SearchFilter)
        ensures
            filter@ == filter_of(query@),
    {
        if query.is_empty() {
            SearchFilter::Everything
        } else {
            let lowered = to_lowercase(query);
            SearchFilter::from_lowered(lowered.as_str())
        }
    }

    /// Tells whether `group` passes this filter.
    pub fn accepts(&self, group: &AuditGroup) -> (pass: bool)
        ensures
            pass == accepts(self@, group@),
    {
        match self {
            SearchFilter::Everything => true,
            SearchFilter::Domain(needle) => str_contains(
                to_lowercase(group.domain.as_str()).as_str(),
                needle.as_str(),
            ),
            SearchFilter::ClientIp(needle) => str_contains(
                to_lowercase(group.client_ip.as_str()).as_str(),
                needle.as_str(),
            ),
            SearchFilter::RuleId(needle) => any_folded_rule_matches(
                &group.primary_rule_ids,
                needle.as_str(),
            ),
            SearchFilter::AuditId(needle) => str_contains(
                to_lowercase(group.base_id.as_str()).as_str(),
                needle.as_str(),
            ),
            SearchFilter::Status(needle) => status_matches(group.http_status, needle.as_str()),
            SearchFilter::AnyField(needle) => matches_all_fields(group, needle.as_str()),
        }
    }
}

/// Tells whether some rule identifier contains `needle`.
pub fn any_rule_matches(rule_ids: &Vec<String>, needle: &str) -> (found: bool)
    ensures
        found == any_rule_contains(texts(rule_ids@), needle@),
{
    let mut i: usize = 0;
    while i < rule_ids.len()
        invariant
            i <= rule_ids.len(),
            forall|k: int| 0 <= k < i ==> !contains_text(#[trigger] texts(rule_ids@)[k], needle@),
        decreases rule_ids.len() - i,
    {
        if str_contains(rule_ids[i].as_str(), needle) {
            assert(contains_text(texts(rule_ids@)[i as int], needle@));
            return true;
        }
        i = i + 1;
    }
    false
}

/// Tells whether some rule identifier, in lower case, contains `needle`.
pub fn any_folded_rule_matches(rule_ids: &Vec<String>, needle: &str) -> (found: bool)
    ensures
        found == any_folded_rule_contains(texts(rule_ids@), needle@),
{
    let mut i: usize = 0;
    while i < rule_ids.len()
        invariant
            i <= rule_ids.len(),
            forall|k: int|
                0 <= k < i ==> !contains_text(lowercase(#[trigger] texts(rule_ids@)[k]), needle@),
        decreases rule_ids.len() - i,
    {
        if str_contains(to_lowercase(rule_ids[i].as_str()).as_str(), needle) {
            assert(contains_text(lowercase(texts(rule_ids@)[i as int]), needle@));
            return true;
        }
        i = i + 1;
    }
    false
}

/// Tells whether the HTTP status, written in decimal, contains `needle`.
pub fn status_matches(status: Option<u16>, needle: &str) -> (found: bool)
    ensures
        found == status_contains(status, needle@),
{
    match status {
        Some(code) => str_contains(decimal_text(code as u64).as_str(), needle),
        None => false,
    }
}

/// Tells whether one of the searched fields of `group` contains `needle`.
pub fn matches_all_fields(group: &AuditGroup, needle: &str) -> (found: bool)
    ensures
        found == any_field_contains(group@, needle@),
{
    str_contains(to_lowercase(group.domain.as_str()).as_str(), needle) || str_contains(
        group.client_ip.as_str(),
        needle,
    ) || str_contains(to_lowercase(group.base_id.as_str()).as_str(), needle) || any_rule_matches(
        &group.primary_rule_ids,
        needle,
    ) || status_matches(group.http_status, needle)
}

} // verus!
