//! Text primitives: what the standard library's string operations compute,
//! stated over sequences of characters.

use crate::sequences::is_first_occurrence;
use vstd::prelude::*;
use vstd::string::StrSliceExecFns;

verus! {

/// Whether `c` has the Unicode property `White_Space`: the controls from tab to
/// carriage return, the space, the next-line control, the no-break space, and
/// the spaces and separators of the blocks from U+1680 to U+3000.
pub open spec fn is_whitespace(c: char) -> bool {
    let code = c as u32;
    ||| 0x09 <= code <= 0x0D
    ||| code == 0x20
    ||| code == 0x85
    ||| code == 0xA0
    ||| code == 0x1680
    ||| 0x2000 <= code <= 0x200A
    ||| code == 0x2028
    ||| code == 0x2029
    ||| code == 0x202F
    ||| code == 0x205F
    ||| code == 0x3000
}

/// `char::is_whitespace`: whether the character has the Unicode property
/// `White_Space`, which is these 25 code points.
pub assume_specification[ char::is_whitespace ](c: char) -> (b: bool)
    ensures
        b == is_whitespace(c),
;

/// `String::push` appends one character to the string.
pub assume_specification[ String::push ](s: &mut String, c: char)
    ensures
        final(s)@ == old(s)@.push(c),
;

/// `String::pop` removes the last character and returns it; an empty string
/// stays as it is and gives `None`.
pub assume_specification[ String::pop ](s: &mut String) -> (c: Option<char>)
    ensures
        old(s)@.len() == 0 ==> c is None && final(s)@ == old(s)@,
        old(s)@.len() > 0 ==> c == Some(old(s)@.last()) && final(s)@ == old(s)@.drop_last(),
;

/// `str::eq`: string slices are equal exactly where their characters are.
pub assume_specification[ <str as PartialEq>::eq ](a: &str, b: &str) -> (r: bool)
    ensures
        r == (a@ == b@),
;

/// The characters of an optional string.
pub open spec fn optional_text(s: Option<String>) -> Option<Seq<char>> {
    match s {
        Some(t) => Some(t@),
        None => None,
    }
}

/// The characters of each string of a sequence.
pub open spec fn texts(v: Seq<String>) -> Seq<Seq<char>> {
    v.map_values(|s: String| s@)
}

/// The characters of each optional string of a sequence.
pub open spec fn optional_texts(v: Seq<Option<String>>) -> Seq<Option<Seq<char>>> {
    v.map_values(|s: Option<String>| optional_text(s))
}

/// Tells whether two texts hold the same characters.
pub fn same_text(a: &str, b: &str) -> (same: bool)
    ensures
        same == (a@ == b@),
{
    a.eq(b)
}

/// Every character of `s` is whitespace.
pub open spec fn blank(s: Seq<char>) -> bool {
    forall|i: int| 0 <= i < s.len() ==> is_whitespace(#[trigger] s[i])
}

/// `i` is the position of the first character of `s` that is not whitespace.
pub open spec fn is_first_solid(s: Seq<char>, i: int) -> bool {
    &&& 0 <= i < s.len()
    &&& !is_whitespace(s[i])
    &&& forall|j: int| 0 <= j < i ==> is_whitespace(#[trigger] s[j])
}

/// `i` is the position of the last character of `s` that is not whitespace.
pub open spec fn is_last_solid(s: Seq<char>, i: int) -> bool {
    &&& 0 <= i < s.len()
    &&& !is_whitespace(s[i])
    &&& forall|j: int| i < j < s.len() ==> is_whitespace(#[trigger] s[j])
}

/// `s` without its leading and trailing whitespace.
pub open spec fn trimmed(s: Seq<char>) -> Seq<char> {
    if blank(s) {
        Seq::empty()
    } else {
        s.subrange(
            choose|i: int| is_first_solid(s, i),
            (choose|i: int| is_last_solid(s, i)) + 1,
        )
    }
}

/// The first and the last character that is not whitespace are each unique.
pub proof fn lemma_trimmed_bounds(s: Seq<char>, first: int, last: int)
    requires
        is_first_solid(s, first),
        is_last_solid(s, last),
    ensures
        !blank(s),
        first <= last,
        trimmed(s) == s.subrange(first, last + 1),
{
    let f = choose|i: int| is_first_solid(s, i);
    let l = choose|i: int| is_last_solid(s, i);
    assert(f == first);
    assert(l == last);
}

/// Tells whether a text holds nothing but whitespace.
pub fn is_blank(s: &str) -> (b: bool)
    ensures
        b == blank(s@),
{
    for c in it: s.chars()
        invariant
            it.seq() == s@,
            forall|i: int| 0 <= i < it.index() ==> is_whitespace(#[trigger] s@[i]),
    {
        if !c.is_whitespace() {
            return false;
        }
    }
    true
}

/// Removes leading and trailing whitespace.
pub fn trim(s: &str) -> (r: &str)
    ensures
        r@ == trimmed(s@),
{
    let n = s.unicode_len();
    let mut first: usize = 0;
    let mut last: usize = 0;
    let mut found = false;
    let mut pos: usize = 0;
    for c in it: s.chars()
        invariant
            it.seq() == s@,
            n == s@.len(),
            pos == it.index(),
            pos <= n,
            found ==> is_first_solid(s@, first as int) && first <= last < pos && !is_whitespace(
                s@[last as int],
            ),
            found ==> forall|j: int| last < j < pos ==> is_whitespace(#[trigger] s@[j]),
            !found ==> forall|j: int| 0 <= j < pos ==> is_whitespace(#[trigger] s@[j]),
    {
        if !c.is_whitespace() {
            if !found {
                first = pos;
                found = true;
            }
            last = pos;
        }
        pos = pos + 1;
    }
    if found {
        proof {
            lemma_trimmed_bounds(s@, first as int, last as int);
        }
        s.substring_char(first, last + 1)
    } else {
        s.substring_char(0, 0)
    }
}

/// The position of the first `c` in `s`, where there is one.
pub open spec fn first_occurrence(s: Seq<char>, c: char) -> int {
    choose|i: int| is_first_occurrence(s, c, i)
}

/// What stands before and after the first `c` in `s`; `None` where `s` holds no `c`.
pub open spec fn split_at_first(s: Seq<char>, c: char) -> Option<(Seq<char>, Seq<char>)> {
    if s.contains(c) {
        let i = first_occurrence(s, c);
        Some((s.subrange(0, i), s.subrange(i + 1, s.len() as int)))
    } else {
        None
    }
}

/// A first occurrence is the only one, and it is where the text splits.
pub proof fn lemma_first_occurrence(s: Seq<char>, c: char, i: int)
    requires
        is_first_occurrence(s, c, i),
    ensures
        s.contains(c),
        first_occurrence(s, c) == i,
{
    let f = first_occurrence(s, c);
    assert(is_first_occurrence(s, c, f));
    if f < i {
        assert(s[f] != c);
    }
    if i < f {
        assert(s[i] != c);
    }
}

/// Splits a text at the first occurrence of a delimiter, which is left out.
pub fn split_once(s: &str, delimiter: char) -> (r: Option<(&str, &str)>)
    ensures
        match r {
            Some((before, after)) => {
                &&& split_at_first(s@, delimiter) == Some((before@, after@))
                &&& s@ == before@.push(delimiter) + after@
                &&& !before@.contains(delimiter)
            },
            None => split_at_first(s@, delimiter) is None,
        },
{
    let n = s.unicode_len();
    let mut pos: usize = 0;
    for c in it: s.chars()
        invariant
            it.seq() == s@,
            n == s@.len(),
            pos == it.index(),
            pos <= n,
            forall|j: int| 0 <= j < pos ==> #[trigger] s@[j] != delimiter,
    {
        if c == delimiter {
            proof {
                lemma_first_occurrence(s@, delimiter, pos as int);
            }
            return Some((s.substring_char(0, pos), s.substring_char(pos + 1, n)));
        }
        pos = pos + 1;
    }
    None
}

/// `s` without the run of `c` at its end.
pub open spec fn without_trailing(s: Seq<char>, c: char) -> Seq<char>
    decreases s.len(),
{
    if s.len() > 0 && s.last() == c {
        without_trailing(s.drop_last(), c)
    } else {
        s
    }
}

/// Removes every `c` that stands at the end of a text.
pub fn trim_end_matches(s: &str, c: char) -> (r: &str)
    ensures
        r@ == without_trailing(s@, c),
{
    let n = s.unicode_len();
    let mut keep: usize = 0;
    let mut pos: usize = 0;
    for x in it: s.chars()
        invariant
            it.seq() == s@,
            n == s@.len(),
            pos == it.index(),
            pos <= n,
            keep <= pos,
            without_trailing(s@.take(pos as int), c) == s@.take(keep as int),
    {
        proof {
            let grown = s@.take(pos + 1);
            assert(grown.drop_last() == s@.take(pos as int));
            assert(grown.last() == x);
        }
        if x != c {
            keep = pos + 1;
        }
        pos = pos + 1;
    }
    assert(s@.take(pos as int) == s@);
    assert(s@.take(keep as int) == s@.subrange(0, keep as int));
    s.substring_char(0, keep)
}

/// `needle` stands in `hay` at position `i`.
pub open spec fn occurs_at(hay: Seq<char>, needle: Seq<char>, i: int) -> bool {
    0 <= i && i + needle.len() <= hay.len() && hay.subrange(i, i + needle.len()) == needle
}

/// `needle` is a contiguous part of `hay`.
pub open spec fn contains_text(hay: Seq<char>, needle: Seq<char>) -> bool {
    exists|i: int| occurs_at(hay, needle, i)
}

/// `str::contains` with a string pattern: whether the pattern matches a sub-slice.
#[verifier::external_body]
pub(crate) fn str_contains(hay: &str, needle: &str) -> (found: bool)
    ensures
        found == contains_text(hay@, needle@),
{
    hay.contains(needle)
}

/// The lowercase equivalent of `s` under the Unicode property `Lowercase`.
pub uninterp spec fn lowercase(s: Seq<char>) -> Seq<char>;

/// `str::to_lowercase`: the lowercase equivalent of the text, as a new string.
#[verifier::external_body]
pub(crate) fn to_lowercase(s: &str) -> (r: String)
    ensures
        r@ == lowercase(s@),
{
    s.to_lowercase()
}

/// The lines of `s`: split after each line feed, without the line ending (a line
/// feed, or a carriage return and a line feed); what follows the last line feed
/// is a line of its own unless it is empty.
pub open spec fn lines_of(s: Seq<char>) -> Seq<Seq<char>>
    decreases s.len(),
{
    if s.len() == 0 {
        Seq::empty()
    } else if !s.contains('\n') {
        seq![s]
    } else {
        let i = first_occurrence(s, '\n');
        let head = s.subrange(0, i);
        let line = if head.len() > 0 && head.last() == '\r' {
            head.drop_last()
        } else {
            head
        };
        // The first line feed lies within the text, so what follows it is shorter.
        if 0 <= i < s.len() {
            seq![line] + lines_of(s.subrange(i + 1, s.len() as int))
        } else {
            seq![line]
        }
    }
}

/// `str::lines`: the lines of the text in order, line endings left out.
#[verifier::external_body]
pub(crate) fn lines(s: &str) -> (r: Vec<&str>)
    ensures
        r@.len() == lines_of(s@).len(),
        forall|i: int| 0 <= i < r@.len() ==> (#[trigger] r@[i])@ == lines_of(s@)[i],
{
    s.lines().collect()
}

/// The character of a decimal digit.
pub open spec fn digit_char(d: nat) -> char {
    seq!['0', '1', '2', '3', '4', '5', '6', '7', '8', '9'][d as int]
}

/// `n` in decimal notation, without sign or leading zeros.
pub open spec fn decimal(n: nat) -> Seq<char>
    decreases n,
{
    if n < 10 {
        seq![digit_char(n)]
    } else {
        decimal(n / 10).push(digit_char(n % 10))
    }
}

/// `u64::to_string`: the number in decimal notation.
#[verifier::external_body]
pub(crate) fn decimal_text(n: u64) -> (r: String)
    ensures
        r@ == decimal(n as nat),
{
    n.to_string()
}

/// `c` is one of the ten ASCII digits.
pub open spec fn is_digit(c: char) -> bool {
    48 <= c as u32 <= 57
}

/// Every character of `s` is an ASCII digit.
pub open spec fn all_digits(s: Seq<char>) -> bool {
    forall|i: int| 0 <= i < s.len() ==> is_digit(#[trigger] s[i])
}

/// The number that the digits of `s` denote in base ten.
pub open spec fn digits_value(s: Seq<char>) -> nat
    decreases s.len(),
{
    if s.len() == 0 {
        0
    } else {
        digits_value(s.drop_last()) * 10 + (s.last() as u32 - 48) as nat
    }
}

/// `s` without a plus sign at its front.
pub open spec fn unsigned_part(s: Seq<char>) -> Seq<char> {
    if s.len() > 0 && s[0] == '+' {
        s.subrange(1, s.len() as int)
    } else {
        s
    }
}

/// The 16-bit number that `s` denotes: an optional plus sign, then one or more
/// ASCII digits and nothing else, the value within range.
pub open spec fn parsed_u16(s: Seq<char>) -> Option<u16> {
    let digits = unsigned_part(s);
    if digits.len() > 0 && all_digits(digits) && digits_value(digits) <= u16::MAX {
        Some(digits_value(digits) as u16)
    } else {
        None
    }
}

/// A number of several digits is at least the number of its leading digits.
pub proof fn lemma_digits_value_grows(s: Seq<char>, k: int)
    requires
        all_digits(s),
        0 <= k <= s.len(),
    ensures
        digits_value(s.take(k)) <= digits_value(s),
    decreases s.len() - k,
{
    if k == s.len() {
        assert(s.take(k) == s);
    } else {
        lemma_digits_value_grows(s, k + 1);
        let longer = s.take(k + 1);
        assert(longer.drop_last() == s.take(k));
        assert(is_digit(s[k]));
        assert(longer.last() == s[k]);
    }
}

/// Reads an unsigned decimal number of at most 16 bits.
pub fn parse_u16(s: &str) -> (r: Option<u16>)
    ensures
        r == parsed_u16(s@),
{
    let n = s.unicode_len();
    let mut value: u32 = 0;
    let mut signed = false;
    let mut pos: usize = 0;
    for c in it: s.chars()
        invariant
            it.seq() == s@,
            n == s@.len(),
            pos == it.index(),
            pos <= n,
            signed <==> pos > 0 && s@[0] == '+',
            all_digits(s@.subrange(if signed { 1int } else { 0int }, pos as int)),
            value == digits_value(s@.subrange(if signed { 1int } else { 0int }, pos as int)),
            value <= u16::MAX,
    {
        let ghost start = if signed { 1int } else { 0int };
        let ghost digits = unsigned_part(s@);
        if pos == 0 && c == '+' {
            signed = true;
            assert(s@.subrange(1, 1) == Seq::<char>::empty());
        } else {
            let code = c as u32;
            if code < 48 || code > 57 {
                assert(digits[pos - start] == c);
                return None;
            }
            let next = value * 10 + (code - 48);
            proof {
                let grown = s@.subrange(start, pos + 1);
                assert(grown.drop_last() == s@.subrange(start, pos as int));
                assert(grown.last() == c);
                assert(digits_value(grown) == next);
                assert(all_digits(grown));
                assert(digits.take(pos + 1 - start) == grown);
                if all_digits(digits) {
                    lemma_digits_value_grows(digits, pos + 1 - start);
                }
            }
            if next > 65535 {
                return None;
            }
            value = next;
        }
        pos = pos + 1;
    }
    assert(unsigned_part(s@) == s@.subrange(if signed { 1int } else { 0int }, pos as int));
    if (signed && pos == 1) || pos == 0 {
        None
    } else {
        Some(value as u16)
    }
}

/// The text that `bytes` decode to as UTF-8 when each invalid sequence is
/// replaced by U+FFFD.
pub uninterp spec fn lossy_text(bytes: Seq<u8>) -> Seq<char>;

/// `String::from_utf8_lossy`: decodes UTF-8, with U+FFFD in place of every
/// invalid sequence; valid UTF-8 decodes to its own characters.
#[verifier::external_body]
pub(crate) fn decode_lossy(bytes: &[u8]) -> (r: String)
    ensures
        r@ == lossy_text(bytes@),
        vstd::utf8::valid_utf8(bytes@) ==> r@ == vstd::utf8::decode_utf8(bytes@),
{
    String::from_utf8_lossy(bytes).into_owned()
}

/// `s` without its leading whitespace.
pub open spec fn trimmed_start(s: Seq<char>) -> Seq<char> {
    if blank(s) {
        Seq::empty()
    } else {
        s.subrange(choose|i: int| is_first_solid(s, i), s.len() as int)
    }
}

/// Removes leading whitespace.
pub fn trim_start(s: &str) -> (r: &str)
    ensures
        r@ == trimmed_start(s@),
{
    let n = s.unicode_len();
    let mut pos: usize = 0;
    for c in it: s.chars()
        invariant
            it.seq() == s@,
            n == s@.len(),
            pos == it.index(),
            pos <= n,
            forall|j: int| 0 <= j < pos ==> is_whitespace(#[trigger] s@[j]),
    {
        if !c.is_whitespace() {
            proof {
                let first = choose|i: int| is_first_solid(s@, i);
                assert(is_first_solid(s@, pos as int));
                assert(first == pos);
            }
            return s.substring_char(pos, n);
        }
        pos = pos + 1;
    }
    s.substring_char(0, 0)
}

/// `s` begins with `prefix`.
pub open spec fn has_prefix(s: Seq<char>, prefix: Seq<char>) -> bool {
    prefix.len() <= s.len() && s.subrange(0, prefix.len() as int) == prefix
}

/// `s` ends with `suffix`.
pub open spec fn has_suffix(s: Seq<char>, suffix: Seq<char>) -> bool {
    suffix.len() <= s.len() && s.subrange(s.len() - suffix.len(), s.len() as int) == suffix
}

/// Tells whether a text begins with another.
pub fn starts_with(s: &str, prefix: &str) -> (b: bool)
    ensures
        b == has_prefix(s@, prefix@),
{
    let n = s.unicode_len();
    let k = prefix.unicode_len();
    k <= n && same_text(s.substring_char(0, k), prefix)
}

/// Tells whether a text ends with another.
pub fn ends_with(s: &str, suffix: &str) -> (b: bool)
    ensures
        b == has_suffix(s@, suffix@),
{
    let n = s.unicode_len();
    let k = suffix.unicode_len();
    k <= n && same_text(s.substring_char(n - k, n), suffix)
}

/// What stands up to and with the first `c` in `s`, and what stands after it;
/// `None` where `s` holds no `c`.
pub open spec fn split_after_first(s: Seq<char>, c: char) -> Option<(Seq<char>, Seq<char>)> {
    if s.contains(c) {
        let i = first_occurrence(s, c);
        Some((s.subrange(0, i + 1), s.subrange(i + 1, s.len() as int)))
    } else {
        None
    }
}

/// Splits a text behind the first occurrence of a delimiter, which stays with
/// the first part.
pub fn split_after(s: &str, delimiter: char) -> (r: Option<(&str, &str)>)
    ensures
        match r {
            Some((head, tail)) => split_after_first(s@, delimiter) == Some((head@, tail@)),
            None => split_after_first(s@, delimiter) is None,
        },
{
    let n = s.unicode_len();
    let mut pos: usize = 0;
    for c in it: s.chars()
        invariant
            it.seq() == s@,
            n == s@.len(),
            pos == it.index(),
            pos <= n,
            forall|j: int| 0 <= j < pos ==> #[trigger] s@[j] != delimiter,
    {
        if c == delimiter {
            proof {
                lemma_first_occurrence(s@, delimiter, pos as int);
            }
            return Some((s.substring_char(0, pos + 1), s.substring_char(pos + 1, n)));
        }
        pos = pos + 1;
    }
    None
}

} // verus!
