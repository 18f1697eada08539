//! Records, chains, and the parser that reconstructs them from the text of a log.

use crate::grouping::{chains_of, group_entries};
use crate::ordering::{is_recent_first, lemma_recent_first, recent_first, sort_groups};
use crate::pattern::{
    all_captures, capture_all, capture_first, compile, compiles, first_capture, pattern_of,
};
use crate::segment::{blocks_of, records_of, Segmenter};
use crate::sequences::{distinct, lemma_distinct_first_seen, present};
use crate::text::{
    decode_lossy, lines, lines_of, lossy_text, optional_text, optional_texts, parse_u16,
    parsed_u16, texts, trim, trim_end_matches, trimmed, without_trailing,
};
use crate::timestamp::{current_time, parse_datetime, parsed_datetime, Timestamp};
use regex::Regex;
use vstd::prelude::*;
use vstd::string::StringExecFns;

verus! {

/// One boundary-delimited block of the log with its extracted fields.
#[derive(Debug, Clone)]
pub struct AuditEntry {
    pub audit_id: String,
    pub timestamp: Timestamp,
    pub domain: String,
    pub rule_ids: Vec<String>,
    pub client_ip: String,
    pub http_status: Option<u16>,
    pub raw_content: String,
    pub file_path: Option<String>,
}

/// What an [`AuditEntry`] holds, as mathematical values.
#[verifier::ext_equal]
pub struct EntryView {
    pub audit_id: Seq<char>,
    pub timestamp: Timestamp,
    pub domain: Seq<char>,
    pub rule_ids: Seq<Seq<char>>,
    pub client_ip: Seq<char>,
    pub http_status: Option<u16>,
    pub raw_content: Seq<char>,
    pub file_path: Option<Seq<char>>,
}

impl View for AuditEntry {
    type V = EntryView;

    open spec fn view(&self) -> EntryView {
        EntryView {
            audit_id: self.audit_id@,
            timestamp: self.timestamp,
            domain: self.domain@,
            rule_ids: texts(self.rule_ids@),
            client_ip: self.client_ip@,
            http_status: self.http_status,
            raw_content: self.raw_content@,
            file_path: optional_text(self.file_path),
        }
    }
}

/// The views of a sequence of records.
pub open spec fn entry_views(v: Seq<AuditEntry>) -> Seq<EntryView> {
    v.map_values(|e: AuditEntry| e@)
}

/// All records of one chain id, with the summary fields derived from them.
#[derive(Debug, Clone)]
pub struct AuditGroup {
    pub base_id: String,
    pub entries: Vec<AuditEntry>,
    pub first_timestamp: Timestamp,
    pub domain: String,
    pub client_ip: String,
    pub http_status: Option<u16>,
    pub primary_rule_ids: Vec<String>,
    pub file_path: Option<String>,
}

/// What an [`AuditGroup`] holds, as mathematical values.
#[verifier::ext_equal]
pub struct GroupView {
    pub base_id: Seq<char>,
    pub entries: Seq<EntryView>,
    pub first_timestamp: Timestamp,
    pub domain: Seq<char>,
    pub client_ip: Seq<char>,
    pub http_status: Option<u16>,
    pub primary_rule_ids: Seq<Seq<char>>,
    pub file_path: Option<Seq<char>>,
}

impl View for AuditGroup {
    type V = GroupView;

    open spec fn view(&self) -> GroupView {
        GroupView {
            base_id: self.base_id@,
            entries: entry_views(self.entries@),
            first_timestamp: self.first_timestamp,
            domain: self.domain@,
            client_ip: self.client_ip@,
            http_status: self.http_status,
            primary_rule_ids: texts(self.primary_rule_ids@),
            file_path: optional_text(self.file_path),
        }
    }
}

/// The views of a sequence of chains.
pub open spec fn group_views(v: Seq<AuditGroup>) -> Seq<GroupView> {
    v.map_values(|g: AuditGroup| g@)
}

/// The earliest timestamp among `records`; of equal ones, the first.
pub open spec fn earliest(records: Seq<EntryView>) -> Timestamp
    recommends
        records.len() > 0,
    decreases records.len(),
{
    if records.len() <= 1 {
        records[0].timestamp
    } else {
        let before = earliest(records.drop_last());
        if records.last().timestamp.key() < before.key() {
            records.last().timestamp
        } else {
            before
        }
    }
}

/// The rule identifiers of all `records`, one record after the other.
pub open spec fn all_rule_ids(records: Seq<EntryView>) -> Seq<Seq<char>>
    decreases records.len(),
{
    if records.len() == 0 {
        Seq::empty()
    } else {
        all_rule_ids(records.drop_last()) + records.last().rule_ids
    }
}

/// The first file path that a record of `records` carries.
pub open spec fn first_file_path(records: Seq<EntryView>) -> Option<Seq<char>>
    decreases records.len(),
{
    if records.len() == 0 {
        None
    } else {
        match first_file_path(records.drop_last()) {
            Some(p) => Some(p),
            None => records.last().file_path,
        }
    }
}

/// The first HTTP status that a record of `records` carries.
pub open spec fn first_status(records: Seq<EntryView>) -> Option<u16>
    decreases records.len(),
{
    if records.len() == 0 {
        None
    } else {
        match first_status(records.drop_last()) {
            Some(s) => Some(s),
            None => records.last().http_status,
        }
    }
}

/// The chain that `records`, which share one id, make up.
pub open spec fn chain_of(records: Seq<EntryView>) -> GroupView
    recommends
        records.len() > 0,
{
    GroupView {
        base_id: records[0].audit_id,
        entries: records,
        first_timestamp: earliest(records),
        domain: records[0].domain,
        client_ip: records[0].client_ip,
        http_status: first_status(records),
        primary_rule_ids: distinct(all_rule_ids(records)),
        file_path: first_file_path(records),
    }
}

/// The earliest timestamp is the timestamp of one of the records, and no
/// record is earlier.
pub proof fn lemma_earliest_is_minimum(records: Seq<EntryView>)
    requires
        records.len() > 0,
    ensures
        exists|i: int| 0 <= i < records.len() && records[i].timestamp == earliest(records),
        forall|i: int|
            0 <= i < records.len() ==> earliest(records).key() <= (#[trigger] records[i]).timestamp.key(),
    decreases records.len(),
{
    if records.len() == 1 {
        assert(records[0].timestamp == earliest(records));
    } else {
        let before = records.drop_last();
        lemma_earliest_is_minimum(before);
        let w = choose|i: int| 0 <= i < before.len() && before[i].timestamp == earliest(before);
        assert(records[w] == before[w]);
        if records.last().timestamp.key() < earliest(before).key() {
            assert(records[records.len() - 1].timestamp == earliest(records));
        } else {
            assert(records[w].timestamp == earliest(records));
        }
        assert forall|i: int| 0 <= i < records.len() implies earliest(records).key() <= (
        #[trigger] records[i]).timestamp.key() by {
            if i < before.len() {
                assert(records[i] == before[i]);
            }
        }
    }
}

/// The first HTTP status is that of the first record that has one; there is
/// none only where no record has one.
pub proof fn lemma_first_status(records: Seq<EntryView>)
    ensures
        match first_status(records) {
            Some(status) => exists|i: int|
                0 <= i < records.len() && records[i].http_status == Some(status) && forall|j: int|
                    0 <= j < i ==> (#[trigger] records[j]).http_status is None,
            None => forall|i: int| 0 <= i < records.len() ==> (#[trigger] records[i]).http_status is None,
        },
    decreases records.len(),
{
    if records.len() > 0 {
        let before = records.drop_last();
        lemma_first_status(before);
        match first_status(before) {
            Some(status) => {
                let w = choose|i: int|
                    0 <= i < before.len() && before[i].http_status == Some(status) && forall|j: int|
                        0 <= j < i ==> (#[trigger] before[j]).http_status is None;
                assert(records[w] == before[w]);
                assert forall|j: int| 0 <= j < w implies (#[trigger] records[j]).http_status is None by {
                    assert(records[j] == before[j]);
                }
            },
            None => {
                assert forall|j: int| 0 <= j < before.len() implies (
                #[trigger] records[j]).http_status is None by {
                    assert(records[j] == before[j]);
                }
                if records.last().http_status is Some {
                    assert(records[records.len() - 1].http_status == first_status(records));
                }
            },
        }
    }
}

/// The first file path is that of the first record that has one; there is none
/// only where no record has one.
pub proof fn lemma_first_file_path(records: Seq<EntryView>)
    ensures
        match first_file_path(records) {
            Some(path) => exists|i: int|
                0 <= i < records.len() && records[i].file_path == Some(path) && forall|j: int|
                    0 <= j < i ==> (#[trigger] records[j]).file_path is None,
            None => forall|i: int| 0 <= i < records.len() ==> (#[trigger] records[i]).file_path is None,
        },
    decreases records.len(),
{
    if records.len() > 0 {
        let before = records.drop_last();
        lemma_first_file_path(before);
        match first_file_path(before) {
            Some(path) => {
                let w = choose|i: int|
                    0 <= i < before.len() && before[i].file_path == Some(path) && forall|j: int|
                        0 <= j < i ==> (#[trigger] before[j]).file_path is None;
                assert(records[w] == before[w]);
                assert forall|j: int| 0 <= j < w implies (#[trigger] records[j]).file_path is None by {
                    assert(records[j] == before[j]);
                }
            },
            None => {
                assert forall|j: int| 0 <= j < before.len() implies (
                #[trigger] records[j]).file_path is None by {
                    assert(records[j] == before[j]);
                }
                if records.last().file_path is Some {
                    assert(records[records.len() - 1].file_path == first_file_path(records));
                }
            },
        }
    }
}

/// `chain` is a chain: it has at least one record, and its summary fields are
/// those that its records give.
pub open spec fn is_chain(chain: GroupView) -> bool {
    chain.entries.len() > 0 && chain == chain_of(chain.entries)
}

/// Whether `needle` is among `list`.
pub fn contains_string(list: &Vec<String>, needle: &String) -> (found: bool)
    ensures
        found == texts(list@).contains(needle@),
{
    let mut i: usize = 0;
    while i < list.len()
        invariant
            i <= list.len(),
            forall|j: int| 0 <= j < i ==> texts(list@)[j] != needle@,
        decreases list.len() - i,
    {
        if list[i] == *needle {
            assert(texts(list@)[i as int] == needle@);
            return true;
        }
        i = i + 1;
    }
    false
}

impl AuditGroup {
    /// This chain has at least one record, and its summary fields are those
    /// that its records give.
    pub open spec fn wf(&self) -> bool {
        is_chain(self@)
    }

    /// Builds the chain of `entries`, which share one chain id: the id, domain
    /// and client address of the first record, the earliest timestamp, the
    /// distinct rule identifiers in first-seen order, and the first file path
    /// and HTTP status that any record carries.
    pub fn from_entries(entries: Vec<AuditEntry>) -> (group: AuditGroup)
        requires
            entries.len() > 0,
        ensures
            group@ == chain_of(entry_views(entries@)),
            group.entries == entries,
            group.wf(),
            group@.primary_rule_ids.no_duplicates(),
            forall|i: int|
                0 <= i < entries@.len() ==> group.first_timestamp.key() <= (
                #[trigger] entries@[i]).timestamp.key(),
            group.http_status is None <==> forall|i: int|
                0 <= i < entries@.len() ==> (#[trigger] entries@[i]).http_status is None,
    {
        let base_id = entries[0].audit_id.clone();
        let domain = entries[0].domain.clone();
        let client_ip = entries[0].client_ip.clone();
        let mut first_timestamp = entries[0].timestamp;
        let mut rule_ids: Vec<String> = Vec::new();
        let mut file_path: Option<String> = None;
        let mut http_status: Option<u16> = None;
        let ghost records = entry_views(entries@);
        let mut i: usize = 0;
        while i < entries.len()
            invariant
                0 < entries.len(),
                i <= entries.len(),
                records == entry_views(entries@),
                first_timestamp == earliest(records.take(if i == 0 { 1int } else { i as int })),
                texts(rule_ids@) == distinct(all_rule_ids(records.take(i as int))),
                optional_text(file_path) == first_file_path(records.take(i as int)),
                http_status == first_status(records.take(i as int)),
            decreases entries.len() - i,
        {
            let entry = &entries[i];
            let ghost seen = records.take(i as int);
            let ghost grown = records.take(i + 1);
            proof {
                assert(grown.drop_last() == seen);
                assert(grown.last() == entry@);
                if i == 1 {
                    assert(records.take(1).drop_last() == records.take(0));
                }
            }
            if i > 0 && entry.timestamp.is_before(&first_timestamp) {
                first_timestamp = entry.timestamp;
            }
            let mut k: usize = 0;
            while k < entry.rule_ids.len()
                invariant
                    k <= entry.rule_ids.len(),
                    texts(rule_ids@) == distinct(all_rule_ids(seen) + entry@.rule_ids.take(k as int)),
                decreases entry.rule_ids.len() - k,
            {
                let ghost so_far = all_rule_ids(seen) + entry@.rule_ids.take(k as int);
                let ghost next = all_rule_ids(seen) + entry@.rule_ids.take(k + 1);
                proof {
                    assert(next.drop_last() == so_far);
                    assert(next.last() == entry.rule_ids[k as int]@);
                }
                if !contains_string(&rule_ids, &entry.rule_ids[k]) {
                    rule_ids.push(entry.rule_ids[k].clone());
                    assert(texts(rule_ids@) == distinct(so_far).push(entry.rule_ids[k as int]@));
                }
                k = k + 1;
            }
            proof {
                assert(entry@.rule_ids.take(k as int) == entry@.rule_ids);
            }
            if file_path.is_none() && entry.file_path.is_some() {
                file_path = entry.file_path.clone();
            }
            if http_status.is_none() && entry.http_status.is_some() {
                http_status = entry.http_status;
            }
            i = i + 1;
        }
        proof {
            assert(records.take(i as int) == records);
            lemma_distinct_first_seen(all_rule_ids(records));
            lemma_earliest_is_minimum(records);
            lemma_first_status(records);
            assert forall|k: int| 0 <= k < entries@.len() implies earliest(records).key() <= (
            #[trigger] entries@[k]).timestamp.key() by {
                assert(records[k] == entries@[k]@);
            }
            if first_status(records) is None {
                assert forall|k: int| 0 <= k < entries@.len() implies (
                #[trigger] entries@[k]).http_status is None by {
                    assert(records[k] == entries@[k]@);
                }
            } else {
                let w = choose|w: int|
                    0 <= w < records.len() && records[w].http_status == first_status(records);
                assert(records[w] == entries@[w]@);
            }
        }
        AuditGroup {
            base_id,
            entries,
            first_timestamp,
            domain,
            client_ip,
            http_status,
            primary_rule_ids: rule_ids,
            file_path,
        }
    }
}

/// A bracketed date and time with a numeric UTC offset.
pub const TIMESTAMP_PATTERN: &'static str =
    r"\[(\d{2}/[A-Za-z]{3}/\d{4}:\d{2}:\d{2}:\d{2} [+-]\d{4})\]";

/// The layout of the date and time inside the brackets.
pub const TIMESTAMP_FORMAT: &'static str = "%d/%b/%Y:%H:%M:%S %z";

/// A rule identifier tag, `[id "<digits>"]`.
pub const RULE_ID_PATTERN: &'static str = r#"\[id "(\d+)"\]"#;

/// A `Host:` header, in any letter case, and its value up to the end of the line.
pub const HOST_PATTERN: &'static str = r"(?i)Host:\s*([^\r\n]+)";

/// A bracketed timestamp followed by two tokens, the second of which is the
/// client address.
pub const CLIENT_IP_PATTERN: &'static str = r"\[[\d/A-Za-z: +-]+\]\s+\S+\s+(\S+)";

/// A file tag, `[file "<path>"]`.
pub const FILE_PATTERN: &'static str = r#"\[file "([^"]+)"\]"#;

/// A three-digit status after `HTTP/<digit>.<digit>`.
pub const HTTP_STATUS_PATTERN: &'static str = r"HTTP/\d\.\d\s+(\d{3})";

/// A boundary marker, `--<token>-<letter>--`.
pub const BOUNDARY_PATTERN: &'static str = r"--([a-zA-Z0-9]+)-([A-Z])--";

/// The domain of a record without a `Host:` header.
pub const UNKNOWN_DOMAIN: &'static str = "unknown";

/// The client address of a record without a structured first line.
pub const UNKNOWN_CLIENT: &'static str = "0.0.0.0";

/// The extraction rules of the log format, compiled.
pub struct AuditLogParser {
    timestamp_re: Regex,
    rule_id_re: Regex,
    host_re: Regex,
    client_ip_re: Regex,
    file_re: Regex,
    http_status_re: Regex,
    boundary_re: Regex,
}

/// Whether each pattern of the log format compiles.
pub open spec fn patterns_compile() -> bool {
    &&& compiles(TIMESTAMP_PATTERN@)
    &&& compiles(RULE_ID_PATTERN@)
    &&& compiles(HOST_PATTERN@)
    &&& compiles(CLIENT_IP_PATTERN@)
    &&& compiles(FILE_PATTERN@)
    &&& compiles(HTTP_STATUS_PATTERN@)
    &&& compiles(BOUNDARY_PATTERN@)
}

/// The domain that a captured `Host:` value gives: the value without carriage
/// returns at its end and without surrounding whitespace.
pub open spec fn domain_from(host: Option<Seq<char>>) -> Seq<char> {
    match host {
        Some(h) => trimmed(without_trailing(h, '\r')),
        None => UNKNOWN_DOMAIN@,
    }
}

/// The client address that a captured token gives.
pub open spec fn client_from(client: Option<Seq<char>>) -> Seq<char> {
    match client {
        Some(c) => c,
        None => UNKNOWN_CLIENT@,
    }
}

/// The HTTP status that a captured number gives.
pub open spec fn status_from(status: Option<Seq<char>>) -> Option<u16> {
    match status {
        Some(s) => parsed_u16(s),
        None => None,
    }
}

/// The record of a block, given what the patterns captured in it.
pub open spec fn assembled(
    audit_id: Seq<char>,
    content: Seq<char>,
    timestamp: Timestamp,
    host: Option<Seq<char>>,
    client: Option<Seq<char>>,
    rules: Seq<Option<Seq<char>>>,
    file: Option<Seq<char>>,
    status: Option<Seq<char>>,
) -> EntryView {
    EntryView {
        audit_id,
        timestamp,
        domain: domain_from(host),
        rule_ids: present(rules),
        client_ip: client_from(client),
        http_status: status_from(status),
        raw_content: content,
        file_path: file,
    }
}

/// The timestamp in the first bracketed date of `content`, where it parses.
pub open spec fn timestamp_in(content: Seq<char>) -> Option<Timestamp> {
    match first_capture(TIMESTAMP_PATTERN@, content, 1) {
        Some(t) => match parsed_datetime(t, TIMESTAMP_FORMAT@) {
            Some((secs, nanos)) => Some(Timestamp { secs, nanos }),
            None => None,
        },
        None => None,
    }
}

/// The record that the block `content` of chain `audit_id` gives; `fallback`
/// is its timestamp where the block holds none that parses.
pub open spec fn extracted(audit_id: Seq<char>, content: Seq<char>, fallback: Timestamp) -> EntryView {
    assembled(
        audit_id,
        content,
        match timestamp_in(content) {
            Some(t) => t,
            None => fallback,
        },
        first_capture(HOST_PATTERN@, content, 1),
        first_capture(CLIENT_IP_PATTERN@, content, 1),
        all_captures(RULE_ID_PATTERN@, content, 1),
        first_capture(FILE_PATTERN@, content, 1),
        first_capture(HTTP_STATUS_PATTERN@, content, 1),
    )
}

/// Builds the record of a block from what the patterns captured in it: the
/// `Host:` value, the client token, the rule identifiers of all `[id ".."]`
/// tags, the file path and the status digits. Absent captures give the
/// documented defaults.
pub fn assemble_entry(
    audit_id: String,
    content: String,
    timestamp: Timestamp,
    host: Option<String>,
    client: Option<String>,
    rules: Vec<Option<String>>,
    file: Option<String>,
    status: Option<String>,
) -> (entry: AuditEntry)
    ensures
        entry@ == assembled(
            audit_id@,
            content@,
            timestamp,
            optional_text(host),
            optional_text(client),
            optional_texts(rules@),
            optional_text(file),
            optional_text(status),
        ),
{
    let domain = match host {
        Some(h) => trim(trim_end_matches(h.as_str(), '\r')).to_owned(),
        None => String::from_str(UNKNOWN_DOMAIN),
    };
    let client_ip = match client {
        Some(c) => c,
        None => String::from_str(UNKNOWN_CLIENT),
    };
    let mut rule_ids: Vec<String> = Vec::new();
    let mut i: usize = 0;
    while i < rules.len()
        invariant
            i <= rules.len(),
            texts(rule_ids@) == present(optional_texts(rules@).take(i as int)),
        decreases rules.len() - i,
    {
        proof {
            let grown = optional_texts(rules@).take(i + 1);
            assert(grown.drop_last() == optional_texts(rules@).take(i as int));
            assert(grown.last() == optional_text(rules[i as int]));
        }
        match &rules[i] {
            Some(id) => {
                rule_ids.push(id.clone());
                assert(texts(rule_ids@) == present(optional_texts(rules@).take(i as int)).push(id@));
            },
            None => {},
        }
        i = i + 1;
    }
    proof {
        assert(optional_texts(rules@).take(i as int) == optional_texts(rules@));
    }
    let http_status = match status {
        Some(s) => parse_u16(s.as_str()),
        None => None,
    };
    AuditEntry {
        audit_id,
        timestamp,
        domain,
        rule_ids,
        client_ip,
        http_status,
        raw_content: content,
        file_path: file,
    }
}

/// The chain id of a boundary line; `None` for any other line.
pub open spec fn boundary_token(line: Seq<char>) -> Option<Seq<char>> {
    first_capture(BOUNDARY_PATTERN@, line, 1)
}

/// `chains` are the chains of a log of text `content`, most recent first: the
/// records of its blocks, grouped by chain id and ordered by first timestamp.
pub open spec fn is_parse_of(chains: Seq<GroupView>, content: Seq<char>) -> bool {
    exists|records: Seq<EntryView>|
        #![trigger chains_of(records)]
        records_of(records, blocks_of(lines_of(content))) && chains == recent_first(
            chains_of(records),
        )
}

/// The steps of [`AuditLogParser::parse_content`], taken one by one, give what
/// it gives: the records of the blocks of the lines, grouped and then ordered,
/// are the chains of the log.
pub proof fn lemma_steps_give_the_parse(content: Seq<char>, records: Seq<EntryView>)
    requires
        records_of(records, blocks_of(lines_of(content))),
    ensures
        is_parse_of(recent_first(chains_of(records)), content),
        is_recent_first(recent_first(chains_of(records))),
{
    lemma_recent_first(chains_of(records));
}

/// Decodes the bytes of a log as UTF-8, with U+FFFD in place of every invalid
/// sequence.
pub fn decode_text(bytes: &[u8]) -> (content: String)
    ensures
        content@ == lossy_text(bytes@),
        vstd::utf8::valid_utf8(bytes@) ==> content@ == vstd::utf8::decode_utf8(bytes@),
{
    decode_lossy(bytes)
}

/// Splits the text of a log into its lines, line endings left out.
pub fn split_lines(content: &str) -> (all: Vec<&str>)
    ensures
        all@.len() == lines_of(content@).len(),
        forall|i: int| 0 <= i < all@.len() ==> (#[trigger] all@[i])@ == lines_of(content@)[i],
{
    lines(content)
}

impl AuditLogParser {
    /// Whether each compiled expression is that of its pattern.
    pub closed spec fn wf(&self) -> bool {
        &&& pattern_of(self.timestamp_re) == TIMESTAMP_PATTERN@
        &&& pattern_of(self.rule_id_re) == RULE_ID_PATTERN@
        &&& pattern_of(self.host_re) == HOST_PATTERN@
        &&& pattern_of(self.client_ip_re) == CLIENT_IP_PATTERN@
        &&& pattern_of(self.file_re) == FILE_PATTERN@
        &&& pattern_of(self.http_status_re) == HTTP_STATUS_PATTERN@
        &&& pattern_of(self.boundary_re) == BOUNDARY_PATTERN@
    }

    /// Compiles the patterns of the log format. There is a parser exactly
    /// where all of them compile.
    pub fn new() -> (parser: Option<AuditLogParser>)
        ensures
            parser is Some <==> patterns_compile(),
            parser matches Some(p) ==> p.wf(),
    {
        let timestamp_re = compile(TIMESTAMP_PATTERN);
        let rule_id_re = compile(RULE_ID_PATTERN);
        let host_re = compile(HOST_PATTERN);
        let client_ip_re = compile(CLIENT_IP_PATTERN);
        let file_re = compile(FILE_PATTERN);
        let http_status_re = compile(HTTP_STATUS_PATTERN);
        let boundary_re = compile(BOUNDARY_PATTERN);
        match (timestamp_re, rule_id_re, host_re, client_ip_re, file_re, http_status_re, boundary_re) {
            (
                Some(timestamp_re),
                Some(rule_id_re),
                Some(host_re),
                Some(client_ip_re),
                Some(file_re),
                Some(http_status_re),
                Some(boundary_re),
            ) => Some(
                AuditLogParser {
                    timestamp_re,
                    rule_id_re,
                    host_re,
                    client_ip_re,
                    file_re,
                    http_status_re,
                    boundary_re,
                },
            ),
            _ => None,
        }
    }

    /// Reads the first bracketed date and time of `content`.
    pub fn parse_timestamp(&self, content: &str) -> (r: Option<Timestamp>)
        requires
            self.wf(),
        ensures
            r == timestamp_in(content@),
    {
        match capture_first(&self.timestamp_re, content, 1) {
            Some(t) => parse_datetime(t.as_str(), TIMESTAMP_FORMAT),
            None => None,
        }
    }

    /// Extracts the record of one block. This never fails: a field that the
    /// block does not hold gets its default, and a block without a timestamp
    /// that parses gets the current time.
    pub fn create_entry(&self, audit_id: String, content: String) -> (entry: AuditEntry)
        requires
            self.wf(),
        ensures
            entry@ == extracted(audit_id@, content@, entry.timestamp),
    {
        let timestamp = match self.parse_timestamp(content.as_str()) {
            Some(t) => t,
            None => current_time(),
        };
        let host = capture_first(&self.host_re, content.as_str(), 1);
        let client = capture_first(&self.client_ip_re, content.as_str(), 1);
        let rules = capture_all(&self.rule_id_re, content.as_str(), 1);
        let file = capture_first(&self.file_re, content.as_str(), 1);
        let status = capture_first(&self.http_status_re, content.as_str(), 1);
        assemble_entry(audit_id, content, timestamp, host, client, rules, file, status)
    }

    /// Reads the chain id of a boundary line; any other line gives `None`.
    pub fn boundary_token_of(&self, line: &str) -> (token: Option<String>)
        requires
            self.wf(),
        ensures
            optional_text(token) == boundary_token(line@),
    {
        capture_first(&self.boundary_re, line, 1)
    }

    /// Starts a scan with this parser's rules.
    pub fn segmenter(&self) -> (segmenter: Segmenter<'_>)
        requires
            self.wf(),
        ensures
            segmenter.wf(),
            segmenter.lines() == Seq::<Seq<char>>::empty(),
    {
        Segmenter::new(self)
    }

    /// Cuts the text of a log into blocks and extracts the record of each.
    pub fn parse_entries(&self, content: &str) -> (entries: Vec<AuditEntry>)
        requires
            self.wf(),
        ensures
            records_of(entry_views(entries@), blocks_of(lines_of(content@))),
    {
        let all = split_lines(content);
        let mut segmenter = Segmenter::new(self);
        let mut i: usize = 0;
        while i < all.len()
            invariant
                i <= all.len(),
                all@.len() == lines_of(content@).len(),
                forall|k: int| 0 <= k < all@.len() ==> (#[trigger] all@[k])@ == lines_of(content@)[k],
                segmenter.wf(),
                segmenter.lines() == lines_of(content@).take(i as int),
            decreases all.len() - i,
        {
            segmenter.feed_line(all[i]);
            assert(lines_of(content@).take(i as int).push(all@[i as int]@) == lines_of(content@).take(
                i + 1,
            ));
            i = i + 1;
        }
        assert(lines_of(content@).take(i as int) == lines_of(content@));
        segmenter.finish()
    }

    /// Reconstructs the chains of a log from its text: cuts the text into
    /// blocks, extracts one record per block, groups the records by chain id
    /// and orders the chains by first timestamp, most recent first. No content
    /// makes this fail.
    pub fn parse_content(&self, content: &str) -> (groups: Vec<AuditGroup>)
        requires
            self.wf(),
        ensures
            is_parse_of(group_views(groups@), content@),
            is_recent_first(group_views(groups@)),
            forall|i: int| 0 <= i < groups@.len() ==> (#[trigger] groups@[i]).wf(),
    {
        let entries = self.parse_entries(content);
        let ghost records = entry_views(entries@);
        let groups = group_entries(entries);
        proof {
            lemma_recent_first(chains_of(records));
        }
        sort_groups(groups)
    }

    /// Reconstructs the chains of a log from the bytes of its file, decoded as
    /// UTF-8 with invalid sequences replaced: see
    /// [`AuditLogParser::parse_content`].
    pub fn parse_log_file(&self, bytes: &[u8]) -> (groups: Vec<AuditGroup>)
        requires
            self.wf(),
        ensures
            is_parse_of(group_views(groups@), lossy_text(bytes@)),
            is_recent_first(group_views(groups@)),
            forall|i: int| 0 <= i < groups@.len() ==> (#[trigger] groups@[i]).wf(),
    {
        let content = decode_text(bytes);
        self.parse_content(content.as_str())
    }
}

} // verus!
