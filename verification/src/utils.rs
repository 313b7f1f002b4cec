use vstd::prelude::*;

use http::HeaderMap;

use crate::text::{ascii_lower, string_from_chars};

verus! {

#[verifier::external_type_specification]
#[verifier::external_body]
#[verifier::reject_recursive_types(T)]
pub struct ExHeaderMap<T>(HeaderMap<T>);

#[verifier::external_type_specification]
#[verifier::external_body]
pub struct ExHeaderValue(http::HeaderValue);

/// What a header map holds: for each header name, in lower case, its
/// values in the order they were added.
pub uninterp spec fn header_map_contents(headers: HeaderMap) -> Map<Seq<char>, Seq<Seq<u8>>>;

/// Whether `name` is a header name that `http` parses as given: ASCII
/// letters, digits and `-`, one to 64 of them.
pub open spec fn plain_header_name(name: Seq<char>) -> bool {
    &&& 0 < name.len() <= 64
    &&& forall|i: int| 0 <= i < name.len() ==> {
        let c = #[trigger] name[i];
        ('a' <= c <= 'z') || ('A' <= c <= 'Z') || ('0' <= c <= '9') || c == '-'
    }
}

/// The first value that `headers` holds for `name` (compared without
/// regard to ASCII case), if any.
pub open spec fn first_value(headers: HeaderMap, name: Seq<char>) -> Option<Seq<u8>> {
    let contents = header_map_contents(headers);
    let key = ascii_lower(name);
    if contents.dom().contains(key) && contents[key].len() > 0 {
        Some(contents[key][0])
    } else {
        None
    }
}

/// `HeaderMap::get` with a string key, the value taken by
/// `HeaderValue::as_bytes`. Claims, as the documentation of `get` says,
/// that the result is the first value held for the name, names being
/// matched in lower case (as `HeaderName` parsing folds them).
#[verifier::external_body]
fn header_bytes(headers: &HeaderMap, name: &str) -> (r: Option<Vec<u8>>)
    requires
        plain_header_name(name@),
    ensures
        match r {
            Some(v) => {
                &&& header_map_contents(*headers).dom().contains(ascii_lower(name@))
                &&& header_map_contents(*headers)[ascii_lower(name@)].len() > 0
                &&& header_map_contents(*headers)[ascii_lower(name@)][0] == v@
            },
            None => !(header_map_contents(*headers).dom().contains(ascii_lower(name@))
                && header_map_contents(*headers)[ascii_lower(name@)].len() > 0),
        },
{
    match headers.get(name) {
        Some(v) => Some(v.as_bytes().to_vec()),
        None => None,
    }
}

/// Whether a header byte is visible ASCII or a tab.
pub open spec fn visible_byte(b: u8) -> bool {
    (32 <= b < 127) || b == 9
}

/// A header value as text, when it is all visible ASCII (as
/// `HeaderValue::to_str` accepts it).
pub open spec fn header_text(v: Option<Seq<u8>>) -> Option<Seq<char>> {
    match v {
        Some(b) => if forall|i: int| 0 <= i < b.len() ==> visible_byte(#[trigger] b[i]) {
            Some(b.map_values(|x: u8| x as char))
        } else {
            None
        },
        None => None,
    }
}

/// Whether `c` is ASCII white space.
pub open spec fn is_space(c: char) -> bool {
    c == ' ' || c == '\t' || c == '\n' || c == '\x0b' || c == '\x0c' || c == '\r'
}

/// `s` without its leading white space.
pub open spec fn trim_start(s: Seq<char>) -> Seq<char>
    decreases s.len(),
{
    if s.len() > 0 && is_space(s[0]) {
        trim_start(s.drop_first())
    } else {
        s
    }
}

/// `s` without its trailing white space.
pub open spec fn trim_end(s: Seq<char>) -> Seq<char>
    decreases s.len(),
{
    if s.len() > 0 && is_space(s.last()) {
        trim_end(s.drop_last())
    } else {
        s
    }
}

/// `s` without white space at either end.
pub open spec fn trim(s: Seq<char>) -> Seq<char> {
    trim_end(trim_start(s))
}

proof fn lemma_trim_start_clean(s: Seq<char>)
    ensures
        trim_start(s).len() > 0 ==> !is_space(trim_start(s)[0]),
        trim_start(s).len() <= s.len(),
    decreases s.len(),
{
    if s.len() > 0 && is_space(s[0]) {
        lemma_trim_start_clean(s.drop_first());
    }
}

proof fn lemma_trim_end_clean(s: Seq<char>)
    ensures
        trim_end(s).len() > 0 ==> !is_space(trim_end(s).last()),
        trim_end(s).len() <= s.len(),
        trim_end(s) =~= s.take(trim_end(s).len() as int),
    decreases s.len(),
{
    if s.len() > 0 && is_space(s.last()) {
        lemma_trim_end_clean(s.drop_last());
        assert(s.drop_last().take(trim_end(s).len() as int) =~= s.take(trim_end(s).len() as int));
    } else {
        assert(s.take(s.len() as int) =~= s);
    }
}

/// Trimming leaves no white space at either end.
pub proof fn law_trim_leaves_no_space(s: Seq<char>)
    ensures
        trim(s).len() > 0 ==> !is_space(trim(s)[0]) && !is_space(trim(s).last()),
{
    lemma_trim_start_clean(s);
    lemma_trim_end_clean(trim_start(s));
    let u = trim_start(s);
    if trim(s).len() > 0 {
        assert(trim(s) == u.take(trim(s).len() as int));
        assert(trim(s)[0] == u[0]);
    }
}

proof fn lemma_trim_start_drops_spaces(s: Seq<char>) -> (a: int)
    ensures
        0 <= a <= s.len(),
        trim_start(s) == s.skip(a),
        forall|i: int| 0 <= i < a ==> is_space(#[trigger] s[i]),
    decreases s.len(),
{
    if s.len() > 0 && is_space(s[0]) {
        let rest = s.drop_first();
        let a1 = lemma_trim_start_drops_spaces(rest);
        assert(rest.skip(a1) =~= s.skip(a1 + 1));
        assert forall|i: int| 0 <= i < a1 + 1 implies is_space(#[trigger] s[i]) by {
            if i > 0 {
                assert(s[i] == rest[i - 1]);
            }
        }
        a1 + 1
    } else {
        assert(s.skip(0) =~= s);
        0
    }
}

proof fn lemma_trim_end_drops_spaces(s: Seq<char>) -> (b: int)
    ensures
        0 <= b <= s.len(),
        trim_end(s) == s.take(b),
        forall|i: int| b <= i < s.len() ==> is_space(#[trigger] s[i]),
    decreases s.len(),
{
    if s.len() > 0 && is_space(s.last()) {
        let rest = s.drop_last();
        let b1 = lemma_trim_end_drops_spaces(rest);
        assert(rest.take(b1) =~= s.take(b1));
        assert forall|i: int| b1 <= i < s.len() implies is_space(#[trigger] s[i]) by {
            if i < s.len() - 1 {
                assert(s[i] == rest[i]);
            }
        }
        b1
    } else {
        assert(s.take(s.len() as int) =~= s);
        s.len() as int
    }
}

/// Trimming removes white space only: the trimmed text is a stretch of
/// `s` with nothing but white space before and after it in `s`.
pub proof fn law_trim_removes_only_space(s: Seq<char>)
    ensures
        exists|a: int, b: int| {
            &&& 0 <= a <= b <= s.len()
            &&& #[trigger] s.subrange(a, b) == trim(s)
            &&& forall|i: int| 0 <= i < a ==> is_space(#[trigger] s[i])
            &&& forall|i: int| b <= i < s.len() ==> is_space(#[trigger] s[i])
        },
{
    let a = lemma_trim_start_drops_spaces(s);
    let u = s.skip(a);
    let b = lemma_trim_end_drops_spaces(u);
    assert(u.take(b) =~= s.subrange(a, a + b));
    assert forall|i: int| a + b <= i < s.len() implies is_space(#[trigger] s[i]) by {
        assert(s[i] == u[i - a]);
    }
    assert(s.subrange(a, a + b) == trim(s));
}

/// The client address found in headers never starts or ends with white
/// space.
pub proof fn law_client_ip_is_trimmed(forwarded_for: Option<Seq<u8>>, real_ip: Option<Seq<u8>>)
    ensures
        client_ip(forwarded_for, real_ip).len() > 0 ==> !is_space(client_ip(forwarded_for, real_ip)[0]) && !is_space(client_ip(forwarded_for, real_ip).last()),
{
    match header_text(forwarded_for) {
        Some(t) => law_trim_leaves_no_space(before_comma(t)),
        None => match header_text(real_ip) {
            Some(t) => law_trim_leaves_no_space(t),
            None => {
                reveal_strlit("unknown");
            },
        },
    }
}

/// The part of `s` before its first comma (all of `s` when it has none).
pub open spec fn before_comma(s: Seq<char>) -> Seq<char>
    decreases s.len(),
{
    if s.len() == 0 || s[0] == ',' {
        Seq::empty()
    } else {
        seq![s[0]] + before_comma(s.drop_first())
    }
}

/// The client address that two header values give: the first entry of
/// `X-Forwarded-For`, else `X-Real-Ip`, each trimmed and taken only when it
/// is visible ASCII; `unknown` when neither gives one.
pub open spec fn client_ip(forwarded_for: Option<Seq<u8>>, real_ip: Option<Seq<u8>>) -> Seq<char> {
    match header_text(forwarded_for) {
        Some(t) => trim(before_comma(t)),
        None => match header_text(real_ip) {
            Some(t) => trim(t),
            None => "unknown"@,
        },
    }
}

/// A header value reads as text exactly when each of its bytes is a tab or
/// lies in 32..=126 (what `HeaderValue::to_str` accepts), and the text is
/// then those bytes, one character each.
pub proof fn law_header_text_reads_visible_ascii(b: Seq<u8>)
    ensures
        header_text(Some(b)) is Some <==> forall|i: int| 0 <= i < b.len() ==> (#[trigger] b[i] == 9 || 32 <= b[i] <= 126),
        header_text(Some(b)) matches Some(t) ==> t.len() == b.len() && forall|i: int| 0 <= i < b.len() ==> #[trigger] t[i] == b[i] as char,
{
}

/// The first entry of a list: `before_comma(s)` begins `s`, holds no comma,
/// and is either all of `s` or followed in it by a comma.
pub proof fn law_before_comma_is_first_entry(s: Seq<char>)
    ensures
        before_comma(s).len() <= s.len(),
        before_comma(s) == s.take(before_comma(s).len() as int),
        forall|i: int| 0 <= i < before_comma(s).len() ==> #[trigger] before_comma(s)[i] != ',',
        before_comma(s).len() == s.len() || s[before_comma(s).len() as int] == ',',
    decreases s.len(),
{
    if s.len() > 0 && s[0] != ',' {
        let rest = s.drop_first();
        law_before_comma_is_first_entry(rest);
        let r = before_comma(rest);
        assert(before_comma(s) == seq![s[0]] + r);
        assert(s.take(r.len() + 1int) =~= seq![s[0]] + rest.take(r.len() as int));
        assert forall|i: int| 0 <= i < before_comma(s).len() implies #[trigger] before_comma(s)[i] != ',' by {
            if i > 0 {
                assert(before_comma(s)[i] == r[i - 1]);
            }
        }
        if r.len() < rest.len() {
            assert(s[r.len() + 1int] == rest[r.len() as int]);
        }
    } else {
        assert(s.take(0) =~= Seq::<char>::empty());
    }
}

/// An `X-Forwarded-For` value of tabs and visible ASCII decides the
/// client address, whatever `X-Real-Ip` holds: it is the value's first
/// entry (the text before its first comma), trimmed. Only a value that
/// does not read as text defers to `X-Real-Ip`.
pub proof fn law_forwarded_for_decides(fwd: Seq<u8>, real_ip: Option<Seq<u8>>)
    ensures
        (forall|i: int| 0 <= i < fwd.len() ==> (#[trigger] fwd[i] == 9 || 32 <= fwd[i] <= 126)) ==> client_ip(Some(fwd), real_ip) == trim(before_comma(fwd.map_values(|x: u8| x as char))),
        !(forall|i: int| 0 <= i < fwd.len() ==> (#[trigger] fwd[i] == 9 || 32 <= fwd[i] <= 126)) ==> client_ip(Some(fwd), real_ip) == client_ip(None, real_ip),
{
    law_header_text_reads_visible_ascii(fwd);
}

/// Without a readable `X-Forwarded-For`, an `X-Real-Ip` of tabs and
/// visible ASCII gives the address, trimmed (commas and all); with neither,
/// the address is `unknown`.
pub proof fn law_real_ip_is_the_fallback(ip: Seq<u8>)
    ensures
        (forall|i: int| 0 <= i < ip.len() ==> (#[trigger] ip[i] == 9 || 32 <= ip[i] <= 126)) ==> client_ip(None, Some(ip)) == trim(ip.map_values(|x: u8| x as char)),
        !(forall|i: int| 0 <= i < ip.len() ==> (#[trigger] ip[i] == 9 || 32 <= ip[i] <= 126)) ==> client_ip(None, Some(ip)) == "unknown"@,
        client_ip(None, None) == "unknown"@,
{
    law_header_text_reads_visible_ascii(ip);
}

/// The header value `v` as characters, when it is all visible ASCII.
fn value_text(v: &Vec<u8>) -> (r: Option<Vec<char>>)
    ensures
        match r {
            Some(t) => header_text(Some(v@)) == Some(t@),
            None => header_text(Some(v@)) is None,
        },
{
    let mut t: Vec<char> = Vec::new();
    let mut i: usize = 0;
    while i < v.len()
        invariant
            i <= v@.len(),
            forall|j: int| 0 <= j < i ==> visible_byte(#[trigger] v@[j]),
            t@ =~= v@.take(i as int).map_values(|x: u8| x as char),
        decreases v.len() - i,
    {
        let b: u8 = v[i];
        if !((32 <= b && b < 127) || b == 9) {
            assert(!visible_byte(v@[i as int]));
            return None;
        }
        t.push(b as char);
        i = i + 1;
    }
    assert(v@.take(v@.len() as int) =~= v@);
    Some(t)
}

/// The first `to` characters of `s` with white space removed at both ends.
fn trimmed(s: &Vec<char>, to: usize) -> (r: Vec<char>)
    requires
        to <= s@.len(),
    ensures
        r@ == trim(s@.take(to as int)),
{
    let ghost t = s@.take(to as int);
    let mut start: usize = 0;
    assert(t.skip(0) =~= t);
    while start < to && (s[start] == ' ' || s[start] == '\t' || s[start] == '\n' || s[start] == '\x0b'
        || s[start] == '\x0c' || s[start] == '\r')
        invariant
            start <= to <= s@.len(),
            t == s@.take(to as int),
            trim_start(t) == trim_start(t.skip(start as int)),
        decreases to - start,
    {
        assert(t.skip(start as int).drop_first() =~= t.skip(start + 1));
        start = start + 1;
    }
    let ghost u = t.skip(start as int);
    assert(trim_start(u) == u);
    let mut end: usize = to;
    assert(u.take(u.len() as int) =~= u);
    while end > start && (s[end - 1] == ' ' || s[end - 1] == '\t' || s[end - 1] == '\n'
        || s[end - 1] == '\x0b' || s[end - 1] == '\x0c' || s[end - 1] == '\r')
        invariant
            start <= end <= to <= s@.len(),
            t == s@.take(to as int),
            u == t.skip(start as int),
            trim_end(u) == trim_end(u.take(end - start)),
        decreases end - start,
    {
        assert(u.take(end - start).drop_last() =~= u.take(end - 1 - start));
        end = end - 1;
    }
    let mut r: Vec<char> = Vec::new();
    let mut k: usize = start;
    while k < end
        invariant
            start <= k <= end <= to <= s@.len(),
            r@ =~= s@.subrange(start as int, k as int),
        decreases end - k,
    {
        r.push(s[k]);
        k = k + 1;
    }
    assert(u.take(end - start) =~= s@.subrange(start as int, end as int));
    r
}

/// The position of the first comma in `s`, or its length.
fn comma_position(s: &Vec<char>) -> (r: usize)
    ensures
        r <= s@.len(),
        s@.take(r as int) == before_comma(s@),
{
    let mut i: usize = 0;
    assert(s@.skip(0) =~= s@);
    while i < s.len() && s[i] != ','
        invariant
            i <= s@.len(),
            before_comma(s@) == s@.take(i as int) + before_comma(s@.skip(i as int)),
        decreases s.len() - i,
    {
        assert(s@.skip(i as int).drop_first() =~= s@.skip(i + 1));
        assert(s@.take(i + 1) =~= s@.take(i as int) + seq![s@[i as int]]);
        i = i + 1;
    }
    assert(before_comma(s@.skip(i as int)) =~= Seq::<char>::empty());
    assert(s@.take(i as int) + Seq::<char>::empty() =~= s@.take(i as int));
    i
}

/// The client address given by two header values, as `client_ip` states.
pub fn client_ip_from_values(forwarded_for: Option<Vec<u8>>, real_ip: Option<Vec<u8>>) -> (r: String)
    ensures
        r@ == client_ip(
            match forwarded_for {
                Some(v) => Some(v@),
                None => None,
            },
            match real_ip {
                Some(v) => Some(v@),
                None => None,
            },
        ),
{
    let fwd_text = match &forwarded_for {
        Some(v) => value_text(v),
        None => None,
    };
    match fwd_text {
        Some(t) => {
            let n: usize = comma_position(&t);
            let r = trimmed(&t, n);
            return string_from_chars(&r);
        },
        None => {},
    }
    let real_text = match &real_ip {
        Some(v) => value_text(v),
        None => None,
    };
    match real_text {
        Some(t) => {
            assert(t@.take(t@.len() as int) =~= t@);
            let r = trimmed(&t, t.len());
            string_from_chars(&r)
        },
        None => "unknown".to_owned(),
    }
}

/// The client's address from request headers: the first entry of
/// `X-Forwarded-For`, else `X-Real-Ip`, trimmed; `unknown` when neither
/// gives one.
pub fn get_client_ip(headers: &HeaderMap) -> (r: String)
    ensures
        r@ == client_ip(
            first_value(*headers, "X-Forwarded-For"@),
            first_value(*headers, "X-Real-Ip"@),
        ),
{
    proof {
        reveal_strlit("X-Forwarded-For");
        reveal_strlit("X-Real-Ip");
    }
    let forwarded = header_bytes(headers, "X-Forwarded-For");
    let real_ip = header_bytes(headers, "X-Real-Ip");
    client_ip_from_values(forwarded, real_ip)
}

} // verus!
