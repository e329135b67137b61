//! The node's operation surface: which `(method, path)` pair names which
//! operation, and the query-string grammar of the fetch operation. The
//! transport parses HTTP; the decisions about what a request means are
//! taken here.

use vstd::prelude::*;
use vstd::string::StrSliceExecFns;
use crate::errors::NodeError;
use crate::models::QueryParams;

verus! {

/// Length of the leading run of characters other than `&`.
pub open spec fn spec_seg_end(q: Seq<char>) -> nat
    decreases q.len(),
{
    if q.len() == 0 {
        0
    } else if q[0] == '&' {
        0
    } else {
        1 + spec_seg_end(q.skip(1))
    }
}

/// Length of the leading run of characters other than `=`.
pub open spec fn spec_eq_pos(seg: Seq<char>) -> nat
    decreases seg.len(),
{
    if seg.len() == 0 {
        0
    } else if seg[0] == '=' {
        0
    } else {
        1 + spec_eq_pos(seg.skip(1))
    }
}

/// The key of one `key=value` segment: everything before the first `=`,
/// or the whole segment when it has no `=`.
pub open spec fn spec_seg_key(seg: Seq<char>) -> Seq<char> {
    let m = spec_eq_pos(seg);
    if m < seg.len() {
        seg.subrange(0, m as int)
    } else {
        seg
    }
}

/// The value of one `key=value` segment: everything after the first `=`,
/// or empty when the segment has no `=`.
pub open spec fn spec_seg_value(seg: Seq<char>) -> Seq<char> {
    let m = spec_eq_pos(seg);
    if m < seg.len() {
        seg.subrange(m as int + 1, seg.len() as int)
    } else {
        Seq::empty()
    }
}

/// A hexadecimal digit, either case.
pub open spec fn spec_is_hex(c: char) -> bool {
    ('0' <= c && c <= '9') || ('a' <= c && c <= 'f') || ('A' <= c && c <= 'F')
}

/// The value of a hexadecimal digit.
pub open spec fn spec_hex_val(c: char) -> int {
    if '0' <= c && c <= '9' {
        c as u32 - 48
    } else if 'a' <= c && c <= 'f' {
        c as u32 - 87
    } else {
        c as u32 - 55
    }
}

/// Form-escape decoding: `+` denotes a space, and `%` followed by two
/// hexadecimal digits naming a character in the unaccented range denotes
/// that character. Any other `%` stands for itself. An escape beyond that
/// range names a raw byte of a wider encoding, which no stored identifier
/// contains; it is kept as written.
pub open spec fn spec_unescape(v: Seq<char>) -> Seq<char>
    decreases v.len(),
{
    if v.len() == 0 {
        v
    } else if v[0] == '+' {
        seq![' '] + spec_unescape(v.skip(1))
    } else if v[0] == '%' && v.len() >= 3 && spec_is_hex(v[1]) && spec_is_hex(v[2])
        && spec_hex_val(v[1]) * 16 + spec_hex_val(v[2]) < 128 {
        seq![((spec_hex_val(v[1]) * 16 + spec_hex_val(v[2])) as u8) as char] + spec_unescape(
            v.skip(3),
        )
    } else {
        seq![v[0]] + spec_unescape(v.skip(1))
    }
}

/// Look `key` up among the `&`-separated segments of a query string; keys
/// and values are form-escape decoded, and the first segment whose decoded
/// key matches wins.
pub open spec fn spec_query_param(q: Seq<char>, key: Seq<char>) -> Option<Seq<char>>
    decreases q.len(),
{
    let e = spec_seg_end(q);
    let seg = if e < q.len() {
        q.subrange(0, e as int)
    } else {
        q
    };
    if spec_unescape(spec_seg_key(seg)) == key {
        Some(spec_unescape(spec_seg_value(seg)))
    } else if e < q.len() {
        spec_query_param(q.subrange(e as int + 1, q.len() as int), key)
    } else {
        None
    }
}

proof fn lemma_seg_end_at(q: Seq<char>, m: int)
    requires
        0 <= m <= q.len(),
        forall|l: int| 0 <= l < m ==> q[l] != '&',
        m == q.len() || q[m] == '&',
    ensures
        spec_seg_end(q) == m,
    decreases m,
{
    if m > 0 {
        assert(q[0] != '&');
        let q1 = q.skip(1);
        assert forall|l: int| 0 <= l < m - 1 implies q1[l] != '&' by {
            assert(q1[l] == q[l + 1]);
        }
        assert(m - 1 == q1.len() || q1[m - 1] == q[m]);
        lemma_seg_end_at(q1, m - 1);
    }
}

proof fn lemma_eq_pos_at(seg: Seq<char>, m: int)
    requires
        0 <= m <= seg.len(),
        forall|l: int| 0 <= l < m ==> seg[l] != '=',
        m == seg.len() || seg[m] == '=',
    ensures
        spec_eq_pos(seg) == m,
    decreases m,
{
    if m > 0 {
        assert(seg[0] != '=');
        let s1 = seg.skip(1);
        assert forall|l: int| 0 <= l < m - 1 implies s1[l] != '=' by {
            assert(s1[l] == seg[l + 1]);
        }
        assert(m - 1 == s1.len() || s1[m - 1] == seg[m]);
        lemma_eq_pos_at(s1, m - 1);
    }
}

/// Character-for-character equality of two string slices.
pub fn str_eq(a: &str, b: &str) -> (r: bool)
    ensures
        r == (a@ == b@),
{
    let alen = a.unicode_len();
    let blen = b.unicode_len();
    if alen != blen {
        return false;
    }
    let mut i: usize = 0;
    while i < alen
        invariant
            alen == a@.len(),
            blen == b@.len(),
            alen == blen,
            i <= alen,
            forall|l: int| 0 <= l < i ==> a@[l] == b@[l],
        decreases alen - i,
    {
        if a.get_char(i) != b.get_char(i) {
            return false;
        }
        i += 1;
    }
    assert(a@ =~= b@);
    true
}

/// The value of a hexadecimal digit, either case; `None` for any other
/// character.
fn hex_val_of(c: char) -> (r: Option<u32>)
    ensures
        r matches Some(v) ==> spec_is_hex(c) && v == spec_hex_val(c),
        r is None ==> !spec_is_hex(c),
{
    if c >= '0' && c <= '9' {
        Some(c as u32 - 48)
    } else if c >= 'a' && c <= 'f' {
        Some(c as u32 - 87)
    } else if c >= 'A' && c <= 'F' {
        Some(c as u32 - 55)
    } else {
        None
    }
}

/// Form-escape decode a string slice into its characters.
fn unescape_chars(s: &str) -> (r: Vec<char>)
    ensures
        r@ == spec_unescape(s@),
{
    let n = s.unicode_len();
    let mut out: Vec<char> = Vec::new();
    let mut i: usize = 0;
    proof {
        assert(s@.skip(0) =~= s@);
        assert(out@ + spec_unescape(s@) =~= spec_unescape(s@));
    }
    while i < n
        invariant
            n == s@.len(),
            i <= n,
            out@ + spec_unescape(s@.skip(i as int)) == spec_unescape(s@),
        decreases n - i,
    {
        let ghost pre = out@;
        let ghost rest = s@.skip(i as int);
        proof {
            assert(rest.len() == n - i);
            assert(rest[0] == s@[i as int]);
        }
        let c = s.get_char(i);
        if c == '+' {
            out.push(' ');
            i += 1;
            proof {
                assert(rest.skip(1) =~= s@.skip(i as int));
                assert(out@ =~= pre + seq![' ']);
                assert(out@ + spec_unescape(s@.skip(i as int)) =~= pre + spec_unescape(rest));
            }
        } else if c == '%' && n - i > 2 {
            proof {
                assert(rest[1] == s@[i + 1]);
                assert(rest[2] == s@[i + 2]);
            }
            let h1 = hex_val_of(s.get_char(i + 1));
            let h2 = hex_val_of(s.get_char(i + 2));
            match (h1, h2) {
                (Some(a), Some(b)) => {
                    let code = a * 16 + b;
                    if code < 128 {
                        out.push((code as u8) as char);
                        i += 3;
                        proof {
                            assert(rest.skip(3) =~= s@.skip(i as int));
                            assert(out@ =~= pre + seq![(code as u8) as char]);
                            assert(out@ + spec_unescape(s@.skip(i as int)) =~= pre
                                + spec_unescape(rest));
                        }
                    } else {
                        out.push(c);
                        i += 1;
                        proof {
                            assert(rest.skip(1) =~= s@.skip(i as int));
                            assert(out@ =~= pre + seq![rest[0]]);
                            assert(out@ + spec_unescape(s@.skip(i as int)) =~= pre
                                + spec_unescape(rest));
                        }
                    }
                },
                _ => {
                    out.push(c);
                    i += 1;
                    proof {
                        assert(rest.skip(1) =~= s@.skip(i as int));
                        assert(out@ =~= pre + seq![rest[0]]);
                        assert(out@ + spec_unescape(s@.skip(i as int)) =~= pre + spec_unescape(
                            rest,
                        ));
                    }
                },
            }
        } else {
            out.push(c);
            i += 1;
            proof {
                assert(rest.len() < 3 ==> !(rest[0] == '%' && rest.len() >= 3));
                assert(rest.skip(1) =~= s@.skip(i as int));
                assert(out@ =~= pre + seq![rest[0]]);
                assert(out@ + spec_unescape(s@.skip(i as int)) =~= pre + spec_unescape(rest));
            }
        }
    }
    proof {
        assert(s@.skip(n as int).len() == 0);
        assert(out@ =~= out@ + spec_unescape(s@.skip(n as int)));
    }
    out
}

/// Whether a character vector holds exactly the characters of `s`.
fn chars_eq_str(v: &Vec<char>, s: &str) -> (r: bool)
    ensures
        r == (v@ == s@),
{
    let slen = s.unicode_len();
    if v.len() != slen {
        return false;
    }
    let mut i: usize = 0;
    while i < slen
        invariant
            slen == s@.len(),
            v@.len() == slen,
            i <= slen,
            forall|l: int| 0 <= l < i ==> v@[l] == s@[l],
        decreases slen - i,
    {
        if v[i] != s.get_char(i) {
            return false;
        }
        i += 1;
    }
    assert(v@ =~= s@);
    true
}

/// Relies on `String`'s `FromIterator` over `char`: the collected string
/// holds exactly the characters of the vector, in order.
#[verifier::external_body]
fn string_from_chars(chars: Vec<char>) -> (r: String)
    ensures
        r@ == chars@,
{
    chars.into_iter().collect()
}

/// Look `key` up in a query string of `key=value` segments separated by
/// `&`. Keys and values are form-escape decoded (`+` for a space, `%` and
/// two hexadecimal digits for a character; see `spec_unescape`), the first
/// segment whose decoded key matches wins, and a segment without `=` has
/// the empty value.
pub fn query_param(query: &str, key: &str) -> (r: Option<String>)
    ensures
        r matches Some(v) ==> spec_query_param(query@, key@) == Some(v@),
        r is None ==> spec_query_param(query@, key@) is None,
    decreases query@.len(),
{
    let n = query.unicode_len();
    let mut e: usize = 0;
    while e < n && query.get_char(e) != '&'
        invariant
            n == query@.len(),
            e <= n,
            forall|l: int| 0 <= l < e ==> query@[l] != '&',
        decreases n - e,
    {
        e += 1;
    }
    proof {
        lemma_seg_end_at(query@, e as int);
    }
    let ghost seg = if (e as int) < query@.len() {
        query@.subrange(0, e as int)
    } else {
        query@
    };
    proof {
        assert(seg.len() == e);
        assert(forall|l: int| 0 <= l < e ==> seg[l] == query@[l]);
    }
    let mut m: usize = 0;
    while m < e && query.get_char(m) != '='
        invariant
            n == query@.len(),
            e <= n,
            m <= e,
            forall|l: int| 0 <= l < m ==> query@[l] != '=',
        decreases e - m,
    {
        m += 1;
    }
    proof {
        assert forall|l: int| 0 <= l < m implies seg[l] != '=' by {
            assert(seg[l] == query@[l]);
        }
        assert(m == seg.len() || seg[m as int] == query@[m as int]);
        lemma_eq_pos_at(seg, m as int);
    }
    let key_raw = query.substring_char(0, m);
    let key_chars = unescape_chars(key_raw);
    let key_matches = chars_eq_str(&key_chars, key);
    proof {
        assert(spec_seg_key(seg) =~= query@.subrange(0, m as int));
        assert(key_chars@ == spec_unescape(spec_seg_key(seg)));
    }
    if key_matches {
        if m < e {
            let raw = query.substring_char(m + 1, e);
            let value = string_from_chars(unescape_chars(raw));
            proof {
                assert(spec_seg_value(seg) =~= query@.subrange(m as int + 1, e as int));
            }
            Some(value)
        } else {
            let value = String::new();
            proof {
                assert(spec_seg_value(seg) =~= Seq::<char>::empty());
            }
            Some(value)
        }
    } else if e == n {
        None
    } else {
        let rest = query.substring_char(e + 1, n);
        query_param(rest, key)
    }
}

/// Parse the query parameters of a receipt fetch: the `uuid` parameter is
/// required, and a query without it is a validation fault.
pub fn parse_query_params(query: &str) -> (r: Result<QueryParams, NodeError>)
    ensures
        r matches Ok(p) ==> spec_query_param(query@, "uuid"@) == Some(p.uuid@),
        r matches Err(e) ==> e == NodeError::Validation && spec_query_param(query@, "uuid"@)
            is None,
{
    match query_param(query, "uuid") {
        Some(v) => Ok(QueryParams { uuid: v }),
        None => Err(NodeError::Validation),
    }
}

/// The node's operations, one per served `(method, path)` pair.
#[derive(Clone, Copy, Debug, PartialEq, Eq, Structural)]
pub enum Route {
    Ping,
    RegisterNode,
    RegisteredNodes,
    JsonApi,
    DoCompute,
    FetchCompute,
    SaveCompute,
    Unknown,
}

/// Which operation a `(method, path)` pair names.
pub open spec fn spec_route_of(method: Seq<char>, path: Seq<char>) -> Route {
    if method == "GET"@ && path == "/ping"@ {
        Route::Ping
    } else if method == "POST"@ && path == "/register_node"@ {
        Route::RegisterNode
    } else if method == "GET"@ && path == "/registered_nodes"@ {
        Route::RegisteredNodes
    } else if method == "POST"@ && path == "/json_api"@ {
        Route::JsonApi
    } else if method == "POST"@ && path == "/api/do-compute"@ {
        Route::DoCompute
    } else if method == "GET"@ && path == "/api/fetch-compute"@ {
        Route::FetchCompute
    } else if method == "POST"@ && path == "/api/save-compute"@ {
        Route::SaveCompute
    } else {
        Route::Unknown
    }
}

/// Resolve a `(method, path)` pair to the operation it names.
pub fn route_of(method: &str, path: &str) -> (r: Route)
    ensures
        r == spec_route_of(method@, path@),
{
    let get = str_eq(method, "GET");
    let post = str_eq(method, "POST");
    if get && str_eq(path, "/ping") {
        Route::Ping
    } else if post && str_eq(path, "/register_node") {
        Route::RegisterNode
    } else if get && str_eq(path, "/registered_nodes") {
        Route::RegisteredNodes
    } else if post && str_eq(path, "/json_api") {
        Route::JsonApi
    } else if post && str_eq(path, "/api/do-compute") {
        Route::DoCompute
    } else if get && str_eq(path, "/api/fetch-compute") {
        Route::FetchCompute
    } else if post && str_eq(path, "/api/save-compute") {
        Route::SaveCompute
    } else {
        Route::Unknown
    }
}

} // verus!
