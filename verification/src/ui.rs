//! What the screens show, decided apart from how it is drawn: column widths,
//! the kind of each line of a chain and of the address information, and the
//! texts of the bars.

use crate::parser::{AuditGroup, GroupView};
use crate::text::{
    contains_text, decimal, decimal_text, ends_with, has_prefix, has_suffix, lowercase, same_text,
    split_after, split_after_first, starts_with, str_contains, texts, to_lowercase, trim,
    trim_end_matches, trim_start, trimmed, trimmed_start, without_trailing,
};
use crate::timestamp::{format_datetime, formatted_datetime, Timestamp};
use vstd::prelude::*;
use vstd::string::StringExecFns;
use vstd::utf8::encode_utf8;

verus! {

/// The widths of the six columns of the table. The first five are exact; the
/// last column takes at least its width.
#[derive(Debug, Clone, Copy, PartialEq, Eq, Structural)]
pub struct ColumnWidths {
    pub audit_id: u16,
    pub timestamp: u16,
    pub domain: u16,
    pub client_ip: u16,
    pub status: u16,
    pub rule_ids: u16,
}

/// The smaller of two numbers.
pub open spec fn smaller(a: int, b: int) -> int {
    if a <= b {
        a
    } else {
        b
    }
}

/// The widths of the columns of a table `table_width` wide. Seven columns go
/// to borders and separators. Each column has a least width (12, 16, 15, 15, 6
/// and 10); of the room beyond those, each column may take a sixth, up to the
/// width it prefers (24, 19, 40, 39, 6 and 20).
pub open spec fn column_widths(table_width: u16) -> ColumnWidths {
    let available = if table_width >= 7 {
        table_width - 7
    } else {
        0
    };
    let share = if available > 74 {
        (available - 74) / 6
    } else {
        0
    };
    ColumnWidths {
        audit_id: (12 + smaller(12, share)) as u16,
        timestamp: (16 + smaller(3, share)) as u16,
        domain: (15 + smaller(25, share)) as u16,
        client_ip: (15 + smaller(24, share)) as u16,
        status: 6,
        rule_ids: (10 + smaller(10, share)) as u16,
    }
}

/// Computes the widths of the columns of a table `table_width` wide.
pub fn calculate_column_widths(table_width: u16) -> (widths: ColumnWidths)
    ensures
        widths == column_widths(table_width),
{
    let available = table_width.saturating_sub(7);
    let share: u16 = if available > 74 {
        (available - 74) / 6
    } else {
        0
    };
    ColumnWidths {
        audit_id: 12 + if share < 12 {
            share
        } else {
            12
        },
        timestamp: 16 + if share < 3 {
            share
        } else {
            3
        },
        domain: 15 + if share < 25 {
            share
        } else {
            25
        },
        client_ip: 15 + if share < 24 {
            share
        } else {
            24
        },
        status: 6,
        rule_ids: 10 + if share < 10 {
            share
        } else {
            10
        },
    }
}

/// The kind of a line of a chain's raw text, by which it is coloured.
#[derive(Debug, Clone, PartialEq, Eq)]
pub enum ContentLine {
    /// The request line of an HTTP request.
    Request,
    /// A `Host:` header: its name with the colon, and its value.
    Host { name: String, value: String },
    /// A `User-Agent:` header: its name with the colon, and its value.
    UserAgent { name: String, value: String },
    /// A message of the rule engine.
    Engine,
    /// A line with a rule identifier tag.
    Rule,
    /// A boundary line.
    Boundary,
    /// The status line of an HTTP response.
    Status,
    /// The name of a header alone.
    HeaderName,
    /// Any other line.
    Plain,
}

/// What a [`ContentLine`] holds, as mathematical values.
pub enum ContentLineView {
    Request,
    Host { name: Seq<char>, value: Seq<char> },
    UserAgent { name: Seq<char>, value: Seq<char> },
    Engine,
    Rule,
    Boundary,
    Status,
    HeaderName,
    Plain,
}

impl View for ContentLine {
    type V = ContentLineView;

    open spec fn view(&self) -> ContentLineView {
        match self {
            ContentLine::Request => ContentLineView::Request,
            ContentLine::Host { name, value } => ContentLineView::Host { name: name@, value: value@ },
            ContentLine::UserAgent { name, value } => ContentLineView::UserAgent {
                name: name@,
                value: value@,
            },
            ContentLine::Engine => ContentLineView::Engine,
            ContentLine::Rule => ContentLineView::Rule,
            ContentLine::Boundary => ContentLineView::Boundary,
            ContentLine::Status => ContentLineView::Status,
            ContentLine::HeaderName => ContentLineView::HeaderName,
            ContentLine::Plain => ContentLineView::Plain,
        }
    }
}

/// `line` begins with the name of an HTTP method.
pub open spec fn is_request_line(line: Seq<char>) -> bool {
    ||| has_prefix(line, "GET"@)
    ||| has_prefix(line, "POST"@)
    ||| has_prefix(line, "PUT"@)
    ||| has_prefix(line, "DELETE"@)
    ||| has_prefix(line, "PATCH"@)
}

/// The kind of a line of a chain's raw text. The first of these that applies
/// decides: a request line; a `Host:` or `User-Agent:` header in any letter
/// case; a line that names the rule engine; a line with a rule identifier
/// tag; a line of more than 20 bytes with two hyphens in a row; a status
/// line; a header name alone, which ends in a colon and holds no space.
pub open spec fn content_line(line: Seq<char>) -> ContentLineView {
    if is_request_line(line) {
        ContentLineView::Request
    } else if has_prefix(lowercase(line), "host:"@) {
        match split_after_first(line, ':') {
            Some((name, value)) => ContentLineView::Host { name, value },
            None => ContentLineView::Plain,
        }
    } else if has_prefix(lowercase(line), "user-agent:"@) {
        match split_after_first(line, ':') {
            Some((name, value)) => ContentLineView::UserAgent { name, value },
            None => ContentLineView::Plain,
        }
    } else if contains_text(line, "ModSecurity"@) || contains_text(line, "OWASP"@) {
        ContentLineView::Engine
    } else if contains_text(line, "[id \""@) {
        ContentLineView::Rule
    } else if contains_text(line, "--"@) && encode_utf8(line).len() > 20 {
        ContentLineView::Boundary
    } else if has_prefix(line, "HTTP/"@) {
        ContentLineView::Status
    } else if has_suffix(line, ":"@) && !contains_text(line, " "@) {
        ContentLineView::HeaderName
    } else {
        ContentLineView::Plain
    }
}

/// The number of bytes of a text in UTF-8.
pub fn byte_len(s: &str) -> (n: usize)
    ensures
        n == encode_utf8(s@).len(),
{
    let bytes = s.as_bytes();
    bytes.len()
}

/// Tells the kind of a line of a chain's raw text.
pub fn classify_content_line(line: &str) -> (kind: ContentLine)
    ensures
        kind@ == content_line(line@),
{
    if starts_with(line, "GET") || starts_with(line, "POST") || starts_with(line, "PUT")
        || starts_with(line, "DELETE") || starts_with(line, "PATCH") {
        return ContentLine::Request;
    }
    let lowered = to_lowercase(line);
    if starts_with(lowered.as_str(), "host:") {
        match split_after(line, ':') {
            Some((name, value)) => ContentLine::Host { name: name.to_owned(), value: value.to_owned() },
            None => ContentLine::Plain,
        }
    } else if starts_with(lowered.as_str(), "user-agent:") {
        match split_after(line, ':') {
            Some((name, value)) => ContentLine::UserAgent {
                name: name.to_owned(),
                value: value.to_owned(),
            },
            None => ContentLine::Plain,
        }
    } else if str_contains(line, "ModSecurity") || str_contains(line, "OWASP") {
        ContentLine::Engine
    } else if str_contains(line, "[id \"") {
        ContentLine::Rule
    } else if str_contains(line, "--") && byte_len(line) > 20 {
        ContentLine::Boundary
    } else if starts_with(line, "HTTP/") {
        ContentLine::Status
    } else if ends_with(line, ":") && !str_contains(line, " ") {
        ContentLine::HeaderName
    } else {
        ContentLine::Plain
    }
}

/// The kind of a JSON value, by which it is coloured.
#[derive(Debug, Clone, Copy, PartialEq, Eq, Structural)]
pub enum JsonValue {
    Text,
    Boolean,
    Null,
    Number,
}

/// The kind of a line of pretty-printed JSON.
#[derive(Debug, Clone, PartialEq, Eq)]
pub enum JsonLine {
    /// A line that opens or closes an object.
    Brace,
    /// A key with its colon, the value behind it, and the value's kind.
    Pair { key: String, value: String, kind: JsonValue },
    /// Any other line.
    Plain,
}

/// What a [`JsonLine`] holds, as mathematical values.
pub enum JsonLineView {
    Brace,
    Pair { key: Seq<char>, value: Seq<char>, kind: JsonValue },
    Plain,
}

impl View for JsonLine {
    type V = JsonLineView;

    open spec fn view(&self) -> JsonLineView {
        match self {
            JsonLine::Brace => JsonLineView::Brace,
            JsonLine::Pair { key, value, kind } => JsonLineView::Pair {
                key: key@,
                value: value@,
                kind: *kind,
            },
            JsonLine::Plain => JsonLineView::Plain,
        }
    }
}

/// The kind of the JSON value written in `value`, which may be surrounded by
/// whitespace and followed by commas: text where it begins with a quote; a
/// boolean or null where it is spelled so; a number otherwise.
pub open spec fn json_value(value: Seq<char>) -> JsonValue {
    let bare = without_trailing(trimmed(value), ',');
    if has_prefix(trimmed(value), "\""@) {
        JsonValue::Text
    } else if bare == "true"@ || bare == "false"@ {
        JsonValue::Boolean
    } else if bare == "null"@ {
        JsonValue::Null
    } else {
        JsonValue::Number
    }
}

/// The kind of a line of pretty-printed JSON: a brace where, behind its
/// indentation, it begins with one; a pair where it begins with a quote and
/// holds a colon, split behind the first colon.
pub open spec fn json_line(line: Seq<char>) -> JsonLineView {
    let body = trimmed_start(line);
    if has_prefix(body, "{"@) || has_prefix(body, "}"@) {
        JsonLineView::Brace
    } else if has_prefix(body, "\""@) && body.contains(':') {
        match split_after_first(line, ':') {
            Some((key, value)) => JsonLineView::Pair { key, value, kind: json_value(value) },
            None => JsonLineView::Plain,
        }
    } else {
        JsonLineView::Plain
    }
}

/// Tells the kind of the JSON value written in `value`.
pub fn classify_json_value(value: &str) -> (kind: JsonValue)
    ensures
        kind == json_value(value@),
{
    let inner = trim(value);
    let bare = trim_end_matches(inner, ',');
    if starts_with(inner, "\"") {
        JsonValue::Text
    } else if same_text(bare, "true") || same_text(bare, "false") {
        JsonValue::Boolean
    } else if same_text(bare, "null") {
        JsonValue::Null
    } else {
        JsonValue::Number
    }
}

/// Tells the kind of a line of pretty-printed JSON.
pub fn classify_json_line(line: &str) -> (kind: JsonLine)
    ensures
        kind@ == json_line(line@),
{
    let body = trim_start(line);
    if starts_with(body, "{") || starts_with(body, "}") {
        JsonLine::Brace
    } else if starts_with(body, "\"") && split_after(body, ':').is_some() {
        match split_after(line, ':') {
            Some((key, value)) => JsonLine::Pair {
                key: key.to_owned(),
                value: value.to_owned(),
                kind: classify_json_value(value),
            },
            None => JsonLine::Plain,
        }
    } else {
        JsonLine::Plain
    }
}

/// How the table writes a timestamp.
pub const TABLE_TIME_FORMAT: &'static str = "%Y-%m-%d %H:%M:%S";

/// The first timestamp of a chain as the table shows it: date and time in
/// UTC, or nothing for an instant that the calendar does not reach.
pub open spec fn timestamp_label(t: Timestamp) -> Seq<char> {
    match formatted_datetime(t.secs, t.nanos, TABLE_TIME_FORMAT@) {
        Some(text) => text,
        None => Seq::empty(),
    }
}

/// Writes a timestamp as the table shows it.
pub fn timestamp_text(t: Timestamp) -> (text: String)
    ensures
        text@ == timestamp_label(t),
{
    match format_datetime(t, TABLE_TIME_FORMAT) {
        Some(text) => text,
        None => String::new(),
    }
}

/// The text of an absent value.
pub const NOT_AVAILABLE: &'static str = "N/A";

/// `items` joined by a comma and a space.
pub open spec fn joined(items: Seq<Seq<char>>) -> Seq<char>
    decreases items.len(),
{
    if items.len() == 0 {
        Seq::empty()
    } else if items.len() == 1 {
        items[0]
    } else {
        joined(items.drop_last()) + ", "@ + items.last()
    }
}

/// The rule identifiers of a chain as the table shows them: all of up to
/// three, else the first three and the number of the rest.
pub open spec fn rule_summary(rule_ids: Seq<Seq<char>>) -> Seq<char> {
    if rule_ids.len() > 3 {
        joined(rule_ids.take(3)) + " (+"@ + decimal((rule_ids.len() - 3) as nat) + ")"@
    } else {
        joined(rule_ids)
    }
}

/// The status of a chain as the table shows it.
pub open spec fn status_label(status: Option<u16>) -> Seq<char> {
    match status {
        Some(code) => decimal(code as nat),
        None => NOT_AVAILABLE@,
    }
}

/// The line under the table: the file and the first rule of the selected
/// chain.
pub open spec fn info_line(chain: Option<GroupView>) -> Seq<char> {
    match chain {
        Some(c) => "File: "@ + (match c.file_path {
            Some(path) => path,
            None => NOT_AVAILABLE@,
        }) + " | Rule ID: "@ + (if c.primary_rule_ids.len() > 0 {
            c.primary_rule_ids[0]
        } else {
            NOT_AVAILABLE@
        }),
        None => "No entry selected"@,
    }
}

/// The title of the detail view of a chain.
pub open spec fn detail_title(chain: GroupView) -> Seq<char> {
    "Audit Chain: "@ + chain.base_id + " | "@ + chain.domain + " | "@ + chain.client_ip
}

/// Joins the first `count` of `items` by a comma and a space.
pub fn join_first(items: &Vec<String>, count: usize) -> (text: String)
    requires
        count <= items.len(),
    ensures
        text@ == joined(texts(items@).take(count as int)),
{
    let mut text = String::new();
    let mut i: usize = 0;
    while i < count
        invariant
            i <= count <= items.len(),
            text@ == joined(texts(items@).take(i as int)),
        decreases count - i,
    {
        proof {
            let grown = texts(items@).take(i + 1);
            assert(grown.drop_last() == texts(items@).take(i as int));
            assert(grown.last() == items[i as int]@);
            if i == 0 {
                assert(grown[0] == items[0]@);
            }
        }
        if i > 0 {
            text.append(", ");
        }
        text.append(items[i].as_str());
        i = i + 1;
    }
    text
}

/// Writes the rule identifiers of a chain as the table shows them.
pub fn rule_summary_text(rule_ids: &Vec<String>) -> (text: String)
    ensures
        text@ == rule_summary(texts(rule_ids@)),
{
    if rule_ids.len() > 3 {
        let mut text = join_first(rule_ids, 3);
        text.append(" (+");
        text.append(decimal_text((rule_ids.len() - 3) as u64).as_str());
        text.append(")");
        text
    } else {
        let text = join_first(rule_ids, rule_ids.len());
        assert(texts(rule_ids@).take(rule_ids.len() as int) == texts(rule_ids@));
        text
    }
}

/// Writes the status of a chain as the table shows it.
pub fn status_text(status: Option<u16>) -> (text: String)
    ensures
        text@ == status_label(status),
{
    match status {
        Some(code) => decimal_text(code as u64),
        None => String::from_str(NOT_AVAILABLE),
    }
}

/// Writes the line under the table for the selected chain.
pub fn info_text(group: Option<&AuditGroup>) -> (text: String)
    ensures
        text@ == info_line(
            match group {
                Some(g) => Some(g@),
                None => None,
            },
        ),
{
    match group {
        Some(g) => {
            let mut text = String::from_str("File: ");
            match &g.file_path {
                Some(path) => text.append(path.as_str()),
                None => text.append(NOT_AVAILABLE),
            }
            text.append(" | Rule ID: ");
            if g.primary_rule_ids.len() > 0 {
                text.append(g.primary_rule_ids[0].as_str());
            } else {
                text.append(NOT_AVAILABLE);
            }
            text
        },
        None => String::from_str("No entry selected"),
    }
}

/// Writes the title of the detail view of a chain.
pub fn detail_title_text(group: &AuditGroup) -> (text: String)
    ensures
        text@ == detail_title(group@),
{
    let mut text = String::from_str("Audit Chain: ");
    text.append(group.base_id.as_str());
    text.append(" | ");
    text.append(group.domain.as_str());
    text.append(" | ");
    text.append(group.client_ip.as_str());
    text
}

} // verus!
