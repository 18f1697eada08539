//! The cache of address lookups, keyed by /24 subnet, and the addresses in
//! text that the keys are made from: IPv4 in dot-decimal notation, and IPv6.

use crate::text::{all_digits, digits_value, optional_text, split_at_first, split_once};
use vstd::string::StrSliceExecFns;
use vstd::hash_map::StringHashMap;
use vstd::prelude::*;
use vstd::string::StringExecFns;

verus! {

/// What stands before the cache key in the address of a lookup.
pub const URL_PREFIX: &'static str = "http://ip-api.com/json/";

/// What stands after the cache key in the address of a lookup: the fields asked for.
pub const URL_FIELDS: &'static str =
    "?fields=query,status,message,continent,continentCode,country,countryCode,region,regionName,city,district,zip,lat,lon,timezone,offset,currency,isp,org,as,asname,mobile,proxy,hosting";

/// `s` is an octet in decimal notation: one to three digits, no zero in front
/// of another digit, at most 255.
pub open spec fn is_octet(s: Seq<char>) -> bool {
    &&& 1 <= s.len() <= 3
    &&& all_digits(s)
    &&& s.len() > 1 ==> s[0] != '0'
    &&& digits_value(s) <= 255
}

/// The four octets of an IPv4 address in dot-decimal notation; `None` for any
/// other text.
pub open spec fn ipv4_octets(s: Seq<char>) -> Option<(Seq<char>, Seq<char>, Seq<char>, Seq<char>)> {
    match split_at_first(s, '.') {
        Some((a, after_a)) => match split_at_first(after_a, '.') {
            Some((b, after_b)) => match split_at_first(after_b, '.') {
                Some((c, d)) => if is_octet(a) && is_octet(b) && is_octet(c) && is_octet(d) {
                    Some((a, b, c, d))
                } else {
                    None
                },
                None => None,
            },
            None => None,
        },
        None => None,
    }
}

/// The /24 network of an IPv4 address: the address with its last octet zero.
pub open spec fn ipv4_network(s: Seq<char>) -> Option<Seq<char>> {
    match ipv4_octets(s) {
        Some((a, b, c, d)) => Some(a + seq!['.'] + b + seq!['.'] + c + seq!['.', '0']),
        None => None,
    }
}

/// `c` is a hexadecimal digit, in either letter case.
pub open spec fn is_hex_digit(c: char) -> bool {
    let code = c as u32;
    48 <= code <= 57 || 65 <= code <= 70 || 97 <= code <= 102
}

/// `s` is a group of an IPv6 address: one to four hexadecimal digits.
pub open spec fn is_hex_group(s: Seq<char>) -> bool {
    &&& 1 <= s.len() <= 4
    &&& forall|i: int| 0 <= i < s.len() ==> is_hex_digit(#[trigger] s[i])
}

/// The number of 16-bit groups that `s` writes, where `s` is a list of groups
/// with a colon between each two: every item is a group of hexadecimal
/// digits, but that the last may, where `embedded` allows it, be an IPv4
/// address, which stands for two groups. `None` for any other text.
pub open spec fn group_list(s: Seq<char>, embedded: bool) -> Option<nat>
    decreases s.len(),
{
    match split_at_first(s, ':') {
        // What follows a colon is shorter than the whole.
        Some((first, rest)) => if is_hex_group(first) && rest.len() < s.len() {
            match group_list(rest, embedded) {
                Some(n) => Some(n + 1),
                None => None,
            }
        } else {
            None
        },
        None => if is_hex_group(s) {
            Some(1)
        } else if embedded && ipv4_octets(s) is Some {
            Some(2)
        } else {
            None
        },
    }
}

/// The number of groups of a list that may be empty: see [`group_list`].
pub open spec fn groups_in(s: Seq<char>, embedded: bool) -> Option<nat> {
    if s.len() == 0 {
        Some(0)
    } else {
        group_list(s, embedded)
    }
}

/// Two colons stand at positions `k` and `k + 1` of `s`.
pub open spec fn is_compression(s: Seq<char>, k: int) -> bool {
    0 <= k && k + 1 < s.len() && s[k] == ':' && s[k + 1] == ':'
}

/// `k` is the first position of `s` at which two colons stand.
pub open spec fn is_first_compression(s: Seq<char>, k: int) -> bool {
    is_compression(s, k) && forall|j: int| 0 <= j < k ==> !is_compression(s, j)
}

/// `s` is an IPv6 address in text. Without a double colon it is a list of
/// eight groups, of which the last two may be written as an IPv4 address.
/// With a double colon, which stands for one or more groups of zero, a list
/// of groups stands before it and one after it, seven groups at most between
/// them; only the list after it may end in an IPv4 address.
pub open spec fn is_ipv6(s: Seq<char>) -> bool {
    if exists|k: int| is_compression(s, k) {
        let k = choose|k: int| is_first_compression(s, k);
        match (
            groups_in(s.subrange(0, k), false),
            groups_in(s.subrange(k + 2, s.len() as int), true),
        ) {
            (Some(head), Some(tail)) => head + tail <= 7,
            _ => false,
        }
    } else {
        group_list(s, true) == Some(8nat)
    }
}

/// What stands for the subnet of an address: the /24 network of an IPv4
/// address, an IPv6 address itself, and nothing for any other text.
pub open spec fn subnet_24(s: Seq<char>) -> Option<Seq<char>> {
    match ipv4_network(s) {
        Some(network) => Some(network),
        None => if is_ipv6(s) {
            Some(s)
        } else {
            None
        },
    }
}

/// A list of groups has at least one group.
pub proof fn lemma_group_list_positive(s: Seq<char>, embedded: bool)
    ensures
        group_list(s, embedded) matches Some(n) ==> n >= 1,
{
}

/// The key under which the lookup of an address is cached: its /24 network
/// for an IPv4 address, the address itself for any other text.
pub open spec fn cache_key(ip: Seq<char>) -> Seq<char> {
    match subnet_24(ip) {
        Some(network) => network,
        None => ip,
    }
}

/// The address of the lookup of a cache key.
pub open spec fn url_of(key: Seq<char>) -> Seq<char> {
    URL_PREFIX@ + key + URL_FIELDS@
}

/// IPv4 addresses that agree in their first three octets share a cache key.
pub proof fn lemma_same_subnet_same_key(
    x: Seq<char>,
    y: Seq<char>,
    a: Seq<char>,
    b: Seq<char>,
    c: Seq<char>,
    last_of_x: Seq<char>,
    last_of_y: Seq<char>,
)
    requires
        ipv4_octets(x) == Some((a, b, c, last_of_x)),
        ipv4_octets(y) == Some((a, b, c, last_of_y)),
    ensures
        cache_key(x) == cache_key(y),
        cache_key(x) == a + seq!['.'] + b + seq!['.'] + c + seq!['.', '0'],
{
}

/// Any text that is not an IPv4 address, an IPv6 address included, is its own
/// cache key.
pub proof fn lemma_other_text_is_its_own_key(ip: Seq<char>)
    requires
        ipv4_octets(ip) is None,
    ensures
        cache_key(ip) == ip,
        is_ipv6(ip) ==> subnet_24(ip) == Some(ip),
        !is_ipv6(ip) ==> subnet_24(ip) is None,
{
}

/// Tells whether a text is an octet in decimal notation.
pub fn is_octet_text(s: &str) -> (b: bool)
    ensures
        b == is_octet(s@),
{
    let mut value: u32 = 0;
    let mut count: usize = 0;
    let mut leading_zero = false;
    for c in it: s.chars()
        invariant
            it.seq() == s@,
            count == it.index(),
            count <= 3,
            all_digits(s@.take(count as int)),
            value == digits_value(s@.take(count as int)),
            count == 0 ==> value == 0,
            count == 1 ==> value <= 9,
            count == 2 ==> value <= 99,
            count == 3 ==> value <= 999,
            leading_zero <==> count > 0 && s@[0] == '0',
    {
        let code = c as u32;
        if count == 3 || code < 48 || code > 57 {
            return false;
        }
        proof {
            let grown = s@.take(count + 1);
            assert(grown.drop_last() == s@.take(count as int));
            assert(grown.last() == c);
        }
        if count == 0 {
            leading_zero = c == '0';
        }
        value = value * 10 + (code - 48);
        count = count + 1;
    }
    assert(s@.take(count as int) == s@);
    count >= 1 && !(leading_zero && count > 1) && value <= 255
}

/// Writes the /24 network of an IPv4 address in dot-decimal notation; `None`
/// for any other text.
pub fn ipv4_network_of(ip: &str) -> (network: Option<String>)
    ensures
        optional_text(network) == ipv4_network(ip@),
{
    proof {
        reveal_strlit(".");
        reveal_strlit(".0");
    }
    let (a, after_a) = match split_once(ip, '.') {
        Some(parts) => parts,
        None => return None,
    };
    let (b, after_b) = match split_once(after_a, '.') {
        Some(parts) => parts,
        None => return None,
    };
    let (c, d) = match split_once(after_b, '.') {
        Some(parts) => parts,
        None => return None,
    };
    if is_octet_text(a) && is_octet_text(b) && is_octet_text(c) && is_octet_text(d) {
        let mut network = String::from_str(a);
        network.append(".");
        network.append(b);
        network.append(".");
        network.append(c);
        network.append(".0");
        assert(network@ == a@ + seq!['.'] + b@ + seq!['.'] + c@ + seq!['.', '0']);
        Some(network)
    } else {
        None
    }
}

/// Tells whether a text is a group of an IPv6 address.
pub fn is_hex_group_text(s: &str) -> (b: bool)
    ensures
        b == is_hex_group(s@),
{
    let mut count: usize = 0;
    for c in it: s.chars()
        invariant
            it.seq() == s@,
            count == it.index(),
            count <= 4,
            forall|i: int| 0 <= i < count ==> is_hex_digit(#[trigger] s@[i]),
    {
        let code = c as u32;
        let hex = (48 <= code && code <= 57) || (65 <= code && code <= 70) || (97 <= code && code
            <= 102);
        if count == 4 || !hex {
            return false;
        }
        count = count + 1;
    }
    count >= 1
}

/// Counts the groups of a list of groups, up to `limit`: the result is the
/// number of groups where `s` is such a list of at most `limit` groups.
pub fn count_groups(s: &str, embedded: bool, limit: usize) -> (count: Option<usize>)
    ensures
        count == match group_list(s@, embedded) {
            Some(n) => if n <= limit {
                Some(n as usize)
            } else {
                None
            },
            None => None,
        },
{
    let mut rest: &str = s;
    let mut seen: usize = 0;
    loop
        invariant
            group_list(s@, embedded) == match group_list(rest@, embedded) {
                Some(n) => Some((n + seen) as nat),
                None => None,
            },
        decreases rest@.len(),
    {
        proof {
            lemma_group_list_positive(rest@, embedded);
        }
        if seen >= limit {
            return None;
        }
        match split_once(rest, ':') {
            Some((first, after)) => {
                if !is_hex_group_text(first) {
                    return None;
                }
                assert(rest@.len() == first@.len() + 1 + after@.len());
                seen = seen + 1;
                rest = after;
            },
            None => {
                return if is_hex_group_text(rest) {
                    Some(seen + 1)
                } else if embedded && ipv4_network_of(rest).is_some() {
                    if limit - seen >= 2 {
                        Some(seen + 2)
                    } else {
                        None
                    }
                } else {
                    None
                };
            },
        }
    }
}

/// Counts the groups of a list of groups that may be empty, up to `limit`.
pub fn count_groups_in(s: &str, embedded: bool, limit: usize) -> (count: Option<usize>)
    ensures
        count == match groups_in(s@, embedded) {
            Some(n) => if n <= limit {
                Some(n as usize)
            } else {
                None
            },
            None => None,
        },
{
    if s.is_empty() {
        Some(0)
    } else {
        count_groups(s, embedded, limit)
    }
}

/// Tells whether a text is an IPv6 address.
pub fn is_ipv6_text(s: &str) -> (b: bool)
    ensures
        b == is_ipv6(s@),
{
    let n = s.unicode_len();
    let mut previous_colon = false;
    let mut pos: usize = 0;
    for c in it: s.chars()
        invariant
            it.seq() == s@,
            n == s@.len(),
            pos == it.index(),
            pos <= n,
            previous_colon <==> pos > 0 && s@[pos - 1] == ':',
            forall|j: int| 0 <= j && j + 1 < pos ==> !is_compression(s@, j),
    {
        if previous_colon && c == ':' {
            let at = pos - 1;
            proof {
                assert(is_first_compression(s@, at as int));
                let chosen = choose|k: int| is_first_compression(s@, k);
                if chosen < at {
                    assert(!is_compression(s@, chosen));
                }
                if at < chosen {
                    assert(is_compression(s@, at as int));
                }
                assert(chosen == at);
            }
            let head = s.substring_char(0, at);
            let tail = s.substring_char(pos + 1, n);
            return match count_groups_in(head, false, 7) {
                Some(before) => count_groups_in(tail, true, 7 - before).is_some(),
                None => false,
            };
        }
        previous_colon = c == ':';
        pos = pos + 1;
    }
    match count_groups(s, true, 8) {
        Some(count) => count == 8,
        None => false,
    }
}

/// What a lookup in the cache calls for.
#[derive(Debug, Clone, PartialEq, Eq)]
pub enum IpLookup {
    /// The information is cached: this is it.
    Cached(String),
    /// Nothing is cached under `key`: fetch `url` and store what comes back.
    Fetch { key: String, url: String },
}

/// Information about addresses, fetched once per /24 subnet.
pub struct IpApiCache {
    cache: StringHashMap<String>,
}

impl View for IpApiCache {
    type V = Map<Seq<char>, Seq<char>>;

    closed spec fn view(&self) -> Map<Seq<char>, Seq<char>> {
        self.cache@.map_values(|blob: String| blob@)
    }
}

impl IpApiCache {
    /// An empty cache.
    pub fn new() -> (cache: IpApiCache)
        ensures
            cache@ == Map::<Seq<char>, Seq<char>>::empty(),
    {
        let cache = IpApiCache { cache: StringHashMap::new() };
        assert(cache@ =~= Map::<Seq<char>, Seq<char>>::empty());
        cache
    }

    /// What stands for the subnet of `ip`: the /24 network of an IPv4 address
    /// in dot-decimal notation, an IPv6 address itself, and nothing for any
    /// other text.
    pub fn get_subnet_24(ip: &str) -> (network: Option<String>)
        ensures
            optional_text(network) == subnet_24(ip@),
    {
        match ipv4_network_of(ip) {
            Some(network) => Some(network),
            None => {
                if is_ipv6_text(ip) {
                    Some(ip.to_owned())
                } else {
                    None
                }
            },
        }
    }

    /// The key under which the lookup of `ip` is cached.
    pub fn key_for(ip: &str) -> (key: String)
        ensures
            key@ == cache_key(ip@),
    {
        match Self::get_subnet_24(ip) {
            Some(network) => network,
            None => ip.to_owned(),
        }
    }

    /// The address of the lookup of `key`.
    pub fn request_url(key: &str) -> (url: String)
        ensures
            url@ == url_of(key@),
    {
        let mut url = String::from_str(URL_PREFIX);
        url.append(key);
        url.append(URL_FIELDS);
        url
    }

    /// Looks `ip` up. Where information is cached under its key, that is
    /// handed out and nothing needs fetching; else the key and the address to
    /// fetch come back, for [`IpApiCache::store`] to record the answer.
    pub fn get_ip_info(&self, ip: &str) -> (lookup: IpLookup)
        ensures
            match lookup {
                IpLookup::Cached(info) => self@.contains_key(cache_key(ip@)) && info@
                    == self@[cache_key(ip@)],
                IpLookup::Fetch { key, url } => !self@.contains_key(cache_key(ip@)) && key@
                    == cache_key(ip@) && url@ == url_of(cache_key(ip@)),
            },
    {
        let key = Self::key_for(ip);
        match self.cache.get(key.as_str()) {
            Some(info) => IpLookup::Cached(info.clone()),
            None => {
                let url = Self::request_url(key.as_str());
                IpLookup::Fetch { key, url }
            },
        }
    }

    /// Records what was fetched for `key`.
    pub fn store(&mut self, key: String, info: String)
        ensures
            final(self)@ == old(self)@.insert(key@, info@),
    {
        self.cache.insert(key, info);
        assert(self@ =~= old(self)@.insert(key@, info@));
    }
}

/// Once the answer for one address is stored under its key, the lookup of
/// any address with the same key is served from the cache.
pub proof fn lemma_stored_is_cached(
    cache: Map<Seq<char>, Seq<char>>,
    first: Seq<char>,
    info: Seq<char>,
    second: Seq<char>,
)
    requires
        cache_key(first) == cache_key(second),
    ensures
        cache.insert(cache_key(first), info).contains_key(cache_key(second)),
        cache.insert(cache_key(first), info)[cache_key(second)] == info,
{
}

} // verus!
