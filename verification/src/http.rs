//! Minimal HTTP/1.1 request parsing for the embedded companion server, which
//! reads straight from a socket with no framework. The whole parse is a pure
//! function of the bytes received so far ([`outcome_of`]): the caller appends
//! each chunk it reads to one buffer and re-evaluates, so chunk boundaries
//! cannot change the result, and [`lemma_outcome_stable`] proves a decided
//! outcome never changes as more bytes arrive. Oversized header blocks and
//! oversized declared bodies are rejected on the head alone, before any body
//! byte is waited for ([`lemma_rejected_on_head_alone`]).
use vstd::prelude::*;

use crate::util::{
    ascii, hex_val, is_ws, lit, lower_seq, parsed_u64, skip_ws, trimmed,
};

verus! {

/// Cap on the header block, terminator included.
pub const MAX_REQUEST_HEADER_BYTES: usize = 64 * 1024;

/// Cap on the declared body length.
pub const MAX_REQUEST_BODY_BYTES: usize = 512 * 1024;

/// Why a request could not be parsed.
#[derive(PartialEq, Eq, Structural, Clone, Copy, Debug)]
pub enum ParseError {
    /// The stream closed before any request could begin.
    EmptyRequest,
    /// No header terminator within the configured maximum.
    HeadersTooLarge,
    /// The request line has no method token.
    MissingMethod,
    /// The request line has no target token.
    MissingTarget,
    /// A `content-length` header that is not a plain decimal number.
    InvalidContentLength,
    /// A declared body length over the configured maximum.
    BodyTooLarge,
    /// The stream closed before the declared body arrived in full.
    UnexpectedEof,
}

/// Whether the four-byte header terminator CRLFCRLF sits at `i`.
pub open spec fn is_term_at(s: Seq<u8>, i: int) -> bool {
    &&& 0 <= i
    &&& i + 4 <= s.len()
    &&& s[i] == 13
    &&& s[i + 1] == 10
    &&& s[i + 2] == 13
    &&& s[i + 3] == 10
}

/// First terminator position at or after `i`.
pub open spec fn find_term(s: Seq<u8>, i: int) -> Option<int>
    decreases s.len() - i,
{
    if i < 0 || i + 4 > s.len() {
        None
    } else if is_term_at(s, i) {
        Some(i)
    } else {
        find_term(s, i + 1)
    }
}

/// Where the header block ends: the first CRLFCRLF in the stream.
pub open spec fn header_end(s: Seq<u8>) -> Option<int> {
    find_term(s, 0)
}

pub proof fn lemma_find_term_first(s: Seq<u8>, i: int)
    requires
        0 <= i,
    ensures
        match find_term(s, i) {
            Some(p) => i <= p && is_term_at(s, p) && forall|j: int|
                i <= j < p ==> !is_term_at(s, j),
            None => forall|j: int| i <= j ==> !is_term_at(s, j),
        },
    decreases s.len() - i,
{
    if i + 4 > s.len() {
        assert forall|j: int| i <= j implies !is_term_at(s, j) by {}
    } else if !is_term_at(s, i) {
        lemma_find_term_first(s, i + 1);
    }
}

pub proof fn lemma_find_term_prefix(s: Seq<u8>, n: int, i: int)
    requires
        0 <= i,
        0 <= n <= s.len(),
    ensures
        match find_term(s, i) {
            Some(p) => p + 4 <= n ==> find_term(s.take(n), i) == Some(p),
            None => find_term(s.take(n), i) is None,
        },
    decreases s.len() - i,
{
    lemma_find_term_first(s, i);
    lemma_find_term_first(s.take(n), i);
    match find_term(s.take(n), i) {
        Some(q) => {
            assert(is_term_at(s, q));
            match find_term(s, i) {
                Some(p) => {
                    if p + 4 <= n {
                        assert(is_term_at(s.take(n), p));
                        if q < p {
                            assert(!is_term_at(s, q));
                        }
                        if p < q {
                            assert(!is_term_at(s.take(n), p));
                        }
                    }
                },
                None => {
                    assert(!is_term_at(s, q));
                },
            }
        },
        None => {
            match find_term(s, i) {
                Some(p) => {
                    if p + 4 <= n {
                        assert(is_term_at(s.take(n), p));
                        assert(!is_term_at(s.take(n), p));
                    }
                },
                None => {},
            }
        },
    }
}

pub proof fn lemma_find_term_extend(s: Seq<u8>, ext: Seq<u8>, i: int)
    requires
        0 <= i,
    ensures
        match find_term(s, i) {
            Some(p) => find_term(s + ext, i) == Some(p),
            None => match find_term(s + ext, i) {
                Some(q) => q + 4 > s.len(),
                None => true,
            },
        },
{
    lemma_find_term_first(s, i);
    lemma_find_term_first(s + ext, i);
    match find_term(s, i) {
        Some(p) => {
            assert(is_term_at(s + ext, p));
            match find_term(s + ext, i) {
                Some(q) => {
                    if q < p {
                        assert(q + 4 <= s.len() ==> is_term_at(s, q));
                        if q + 4 <= s.len() {
                            assert(!is_term_at(s, q));
                        } else {
                            assert(p + 4 <= s.len());
                            assert(q > p);
                        }
                    }
                    if p < q {
                        assert(!is_term_at(s + ext, p));
                    }
                },
                None => {
                    assert(!is_term_at(s + ext, p));
                },
            }
        },
        None => {
            match find_term(s + ext, i) {
                Some(q) => {
                    if q + 4 <= s.len() {
                        assert(is_term_at(s, q));
                    }
                },
                None => {},
            }
        },
    }
}

/// Find the header terminator in the buffer accumulated so far.
pub fn find_header_end(buffer: &[u8]) -> (r: Option<usize>)
    ensures
        match r {
            Some(p) => header_end(buffer@) == Some(p as int) && p + 4 <= buffer@.len(),
            None => header_end(buffer@) is None,
        },
{
    if buffer.len() < 4 {
        return None;
    }
    let mut i: usize = 0;
    while i <= buffer.len() - 4
        invariant
            4 <= buffer@.len(),
            0 <= i <= buffer@.len(),
            find_term(buffer@, 0) == find_term(buffer@, i as int),
        decreases buffer@.len() - i,
    {
        if buffer[i] == 13 && buffer[i + 1] == 10 && buffer[i + 2] == 13 && buffer[i + 3] == 10 {
            proof {
                assert(is_term_at(buffer@, i as int));
            }
            return Some(i);
        }
        proof {
            assert(!is_term_at(buffer@, i as int));
        }
        i = i + 1;
    }
    None
}

/// First position of `t` at or after `i`.
pub open spec fn find_byte(s: Seq<u8>, t: u8, i: int) -> Option<int>
    decreases s.len() - i,
{
    if i < 0 || i >= s.len() {
        None
    } else if s[i] == t {
        Some(i)
    } else {
        find_byte(s, t, i + 1)
    }
}

pub proof fn lemma_find_byte_bounds(s: Seq<u8>, t: u8, i: int)
    requires
        0 <= i,
    ensures
        match find_byte(s, t, i) {
            Some(p) => i <= p < s.len() && s[p] == t,
            None => true,
        },
    decreases s.len() - i,
{
    if 0 <= i < s.len() && s[i] != t {
        lemma_find_byte_bounds(s, t, i + 1);
    }
}

/// Find the first occurrence of one byte.
pub fn find_byte_exec(s: &[u8], t: u8) -> (r: Option<usize>)
    ensures
        match r {
            Some(p) => find_byte(s@, t, 0) == Some(p as int) && p < s@.len(),
            None => find_byte(s@, t, 0) is None,
        },
{
    let mut i: usize = 0;
    while i < s.len()
        invariant
            0 <= i <= s@.len(),
            find_byte(s@, t, 0) == find_byte(s@, t, i as int),
        decreases s@.len() - i,
    {
        if s[i] == t {
            return Some(i);
        }
        i = i + 1;
    }
    None
}

/// The value of a valid `%XX` pair.
pub open spec fn hex_pair_val(a: u8, b: u8) -> Option<u8> {
    match (hex_val(a), hex_val(b)) {
        (Some(h), Some(l)) => Some((h * 16 + l) as u8),
        _ => None,
    }
}

/// Percent-decoding from position `i` on: `+` becomes a space, a `%`
/// followed by two hex digits becomes that byte, and everything else,
/// including a trailing incomplete escape, passes through unchanged.
pub open spec fn decoded_from(s: Seq<u8>, i: int) -> Seq<u8>
    decreases s.len() - i,
{
    if i < 0 || i >= s.len() {
        Seq::empty()
    } else if s[i] == 43 {
        seq![32u8] + decoded_from(s, i + 1)
    } else if s[i] == 37 && i + 2 < s.len() {
        match hex_pair_val(s[i + 1], s[i + 2]) {
            Some(b) => seq![b] + decoded_from(s, i + 3),
            None => seq![37u8] + decoded_from(s, i + 1),
        }
    } else {
        seq![s[i]] + decoded_from(s, i + 1)
    }
}

/// The percent-decoded form of a whole component.
pub open spec fn decoded(s: Seq<u8>) -> Seq<u8> {
    decoded_from(s, 0)
}

/// Percent-decode one query component.
pub fn decode_component(value: &[u8]) -> (r: Vec<u8>)
    ensures
        r@ == decoded(value@),
{
    let mut out: Vec<u8> = Vec::new();
    let mut i: usize = 0;
    while i < value.len()
        invariant
            0 <= i <= value@.len(),
            decoded(value@) == out@ + decoded_from(value@, i as int),
        decreases value@.len() - i,
    {
        let b = value[i];
        if b == 43 {
            out.push(32);
            i = i + 1;
        } else if b == 37 && value.len() - i > 2 {
            let h = crate::util::from_hex(value[i + 1]);
            let l = crate::util::from_hex(value[i + 2]);
            match (h, l) {
                (Some(hv), Some(lv)) => {
                    out.push(hv * 16 + lv);
                    i = i + 3;
                },
                _ => {
                    out.push(37);
                    i = i + 1;
                },
            }
        } else {
            out.push(b);
            i = i + 1;
        }
    }
    proof {
        assert(decoded_from(value@, value@.len() as int) == Seq::<u8>::empty());
        assert(decoded(value@) =~= out@);
    }
    out
}

/// Views of a list of byte-pair entries.
pub open spec fn pair_views(v: Seq<(Vec<u8>, Vec<u8>)>) -> Seq<(Seq<u8>, Seq<u8>)> {
    Seq::new(v.len(), |i: int| (v[i].0@, v[i].1@))
}

/// Views of a list of byte lines.
pub open spec fn line_views(v: Seq<Vec<u8>>) -> Seq<Seq<u8>> {
    Seq::new(v.len(), |i: int| v[i]@)
}

/// The zero or one query pair a raw `key=value` part contributes: blank
/// parts and parts whose decoded key is empty are dropped.
pub open spec fn pair_of(part: Seq<u8>) -> Seq<(Seq<u8>, Seq<u8>)> {
    if trimmed(part).len() == 0 {
        Seq::empty()
    } else {
        let split = match find_byte(part, 61, 0) {
            Some(e) => (part.take(e), part.skip(e + 1)),
            None => (part, Seq::<u8>::empty()),
        };
        if decoded(split.0).len() == 0 {
            Seq::empty()
        } else {
            seq![(decoded(split.0), decoded(split.1))]
        }
    }
}

/// The pairs of a raw query string, split on `&`, in wire order; a repeated
/// key keeps every occurrence here, and lookups take the last.
pub open spec fn query_pairs(q: Seq<u8>) -> Seq<(Seq<u8>, Seq<u8>)>
    decreases q.len(),
    via query_pairs_decreases
{
    match find_byte(q, 38, 0) {
        Some(k) => pair_of(q.take(k)) + query_pairs(q.skip(k + 1)),
        None => pair_of(q),
    }
}

#[via_fn]
proof fn query_pairs_decreases(q: Seq<u8>) {
    lemma_find_byte_bounds(q, 38, 0);
}

fn push_pair(out: &mut Vec<(Vec<u8>, Vec<u8>)>, part: &[u8])
    ensures
        pair_views(final(out)@) == pair_views(old(out)@) + pair_of(part@),
{
    if crate::util::is_blank(part) {
        proof {
            assert(pair_views(out@) =~= pair_views(out@) + pair_of(part@));
        }
        return;
    }
    let n = part.len();
    let raw_key: &[u8];
    let raw_val: &[u8];
    match find_byte_exec(part, 61) {
        Some(e) => {
            raw_key = vstd::slice::slice_subrange(part, 0, e);
            raw_val = vstd::slice::slice_subrange(part, e + 1, n);
        },
        None => {
            raw_key = part;
            raw_val = vstd::slice::slice_subrange(part, 0, 0);
            proof {
                assert(raw_val@ =~= Seq::<u8>::empty());
            }
        },
    }
    let key = decode_component(raw_key);
    if key.len() == 0 {
        proof {
            assert(pair_views(out@) =~= pair_views(out@) + pair_of(part@));
        }
        return;
    }
    let val = decode_component(raw_val);
    out.push((key, val));
    proof {
        assert(pair_views(out@) =~= pair_views(old(out)@) + pair_of(part@));
    }
}

fn query_pairs_rec(q: &[u8], out: &mut Vec<(Vec<u8>, Vec<u8>)>)
    ensures
        pair_views(final(out)@) == pair_views(old(out)@) + query_pairs(q@),
    decreases q@.len(),
{
    let n = q.len();
    match find_byte_exec(q, 38) {
        Some(k) => {
            let part = vstd::slice::slice_subrange(q, 0, k);
            push_pair(out, part);
            let rest = vstd::slice::slice_subrange(q, k + 1, n);
            query_pairs_rec(rest, out);
            proof {
                assert(pair_views(out@) =~= pair_views(old(out)@) + query_pairs(q@));
            }
        },
        None => {
            push_pair(out, q);
        },
    }
}

/// Parse a raw query string into decoded key/value pairs in wire order.
pub fn parse_query_string(query: &[u8]) -> (r: Vec<(Vec<u8>, Vec<u8>)>)
    ensures
        pair_views(r@) == query_pairs(query@),
{
    let mut out: Vec<(Vec<u8>, Vec<u8>)> = Vec::new();
    proof {
        assert(pair_views(out@) =~= Seq::<(Seq<u8>, Seq<u8>)>::empty());
    }
    query_pairs_rec(query, &mut out);
    proof {
        assert(pair_views(out@) =~= query_pairs(query@));
    }
    out
}

/// The path part of a request target: everything before the first `?`.
pub open spec fn target_path(t: Seq<u8>) -> Seq<u8> {
    match find_byte(t, 63, 0) {
        Some(q) => t.take(q),
        None => t,
    }
}

/// The query pairs of a request target: the decoded pairs after the first
/// `?`, none when there is no `?`.
pub open spec fn target_query(t: Seq<u8>) -> Seq<(Seq<u8>, Seq<u8>)> {
    match find_byte(t, 63, 0) {
        Some(q) => query_pairs(t.skip(q + 1)),
        None => Seq::empty(),
    }
}

/// Split a request target into its raw path and its decoded query pairs.
pub fn parse_target(target: &[u8]) -> (r: (Vec<u8>, Vec<(Vec<u8>, Vec<u8>)>))
    ensures
        r.0@ == target_path(target@),
        pair_views(r.1@) == target_query(target@),
{
    let n = target.len();
    match find_byte_exec(target, 63) {
        Some(q) => {
            let path = crate::util::to_vec(vstd::slice::slice_subrange(target, 0, q));
            let rest = vstd::slice::slice_subrange(target, q + 1, n);
            let pairs = parse_query_string(rest);
            (path, pairs)
        },
        None => {
            let empty: Vec<(Vec<u8>, Vec<u8>)> = Vec::new();
            proof {
                assert(pair_views(empty@) =~= Seq::<(Seq<u8>, Seq<u8>)>::empty());
            }
            (crate::util::to_vec(target), empty)
        },
    }
}

/// First CRLF position at or after `i`.
pub open spec fn find_crlf(s: Seq<u8>, i: int) -> Option<int>
    decreases s.len() - i,
{
    if i < 0 || i + 2 > s.len() {
        None
    } else if s[i] == 13 && s[i + 1] == 10 {
        Some(i)
    } else {
        find_crlf(s, i + 1)
    }
}

pub proof fn lemma_find_crlf_bounds(s: Seq<u8>, i: int)
    requires
        0 <= i,
    ensures
        match find_crlf(s, i) {
            Some(p) => i <= p && p + 2 <= s.len(),
            None => true,
        },
    decreases s.len() - i,
{
    if 0 <= i && i + 2 <= s.len() && !(s[i] == 13 && s[i + 1] == 10) {
        lemma_find_crlf_bounds(s, i + 1);
    }
}

/// The head split into lines at each CRLF; always at least one line.
pub open spec fn split_crlf(s: Seq<u8>) -> Seq<Seq<u8>>
    decreases s.len(),
    via split_crlf_decreases
{
    match find_crlf(s, 0) {
        Some(k) => seq![s.take(k)] + split_crlf(s.skip(k + 2)),
        None => seq![s],
    }
}

#[via_fn]
proof fn split_crlf_decreases(s: Seq<u8>) {
    lemma_find_crlf_bounds(s, 0);
}

fn find_crlf_exec(s: &[u8]) -> (r: Option<usize>)
    ensures
        match r {
            Some(p) => find_crlf(s@, 0) == Some(p as int) && p + 2 <= s@.len(),
            None => find_crlf(s@, 0) is None,
        },
{
    if s.len() < 2 {
        return None;
    }
    let mut i: usize = 0;
    while i <= s.len() - 2
        invariant
            2 <= s@.len(),
            0 <= i <= s@.len(),
            find_crlf(s@, 0) == find_crlf(s@, i as int),
        decreases s@.len() - i,
    {
        if s[i] == 13 && s[i + 1] == 10 {
            return Some(i);
        }
        i = i + 1;
    }
    None
}

fn split_lines_rec(s: &[u8], out: &mut Vec<Vec<u8>>)
    ensures
        line_views(final(out)@) == line_views(old(out)@) + split_crlf(s@),
    decreases s@.len(),
{
    let n = s.len();
    match find_crlf_exec(s) {
        Some(k) => {
            let first = crate::util::to_vec(vstd::slice::slice_subrange(s, 0, k));
            out.push(first);
            let rest = vstd::slice::slice_subrange(s, k + 2, n);
            split_lines_rec(rest, out);
            proof {
                assert(line_views(out@) =~= line_views(old(out)@) + split_crlf(s@));
            }
        },
        None => {
            out.push(crate::util::to_vec(s));
            proof {
                assert(line_views(out@) =~= line_views(old(out)@) + split_crlf(s@));
            }
        },
    }
}

/// Split a header block into its lines.
fn split_lines(s: &[u8]) -> (r: Vec<Vec<u8>>)
    ensures
        line_views(r@) == split_crlf(s@),
        r@.len() >= 1,
{
    let mut out: Vec<Vec<u8>> = Vec::new();
    proof {
        assert(line_views(out@) =~= Seq::<Seq<u8>>::empty());
    }
    split_lines_rec(s, &mut out);
    proof {
        assert(line_views(out@) =~= split_crlf(s@));
        if out@.len() == 0 {
            assert(split_crlf(s@).len() == 0);
            assert(false);
        }
    }
    out
}

/// First whitespace position at or after `i`, or the end.
pub open spec fn next_ws(s: Seq<u8>, i: int) -> int
    decreases s.len() - i,
{
    if i < 0 || i >= s.len() {
        s.len() as int
    } else if is_ws(s[i]) {
        i
    } else {
        next_ws(s, i + 1)
    }
}

pub proof fn lemma_next_ws_bounds(s: Seq<u8>, i: int)
    requires
        0 <= i <= s.len(),
    ensures
        i <= next_ws(s, i) <= s.len(),
    decreases s.len() - i,
{
    if i < s.len() && !is_ws(s[i]) {
        lemma_next_ws_bounds(s, i + 1);
    }
}

/// The whitespace-separated tokens of a line, from position `i` on.
pub open spec fn tokens_from(s: Seq<u8>, i: int) -> Seq<Seq<u8>>
    decreases s.len() - i,
    when 0 <= i <= s.len()
    via tokens_from_decreases
{
    let a = skip_ws(s, i);
    if a >= s.len() {
        Seq::empty()
    } else {
        let e = next_ws(s, a);
        seq![s.subrange(a, e)] + tokens_from(s, e)
    }
}

#[via_fn]
proof fn tokens_from_decreases(s: Seq<u8>, i: int) {
    crate::util::lemma_skip_ws_bounds(s, i);
    let a = skip_ws(s, i);
    if a < s.len() {
        assert(!is_ws(s[a]));
        lemma_next_ws_bounds(s, a + 1);
        assert(next_ws(s, a) == next_ws(s, a + 1));
        assert(next_ws(s, a) >= a + 1);
    }
}

/// The whitespace-separated tokens of a line.
pub open spec fn tokens(s: Seq<u8>) -> Seq<Seq<u8>> {
    tokens_from(s, 0)
}

/// The first two tokens of the request line, as far as they exist.
fn first_two_tokens(s: &[u8]) -> (r: (Option<Vec<u8>>, Option<Vec<u8>>))
    ensures
        match r.0 {
            Some(m) => tokens(s@).len() >= 1 && m@ == tokens(s@)[0],
            None => tokens(s@).len() == 0,
        },
        match r.1 {
            Some(t) => tokens(s@).len() >= 2 && t@ == tokens(s@)[1],
            None => tokens(s@).len() <= 1,
        },
{
    proof {
        crate::util::lemma_skip_ws_bounds(s@, 0);
    }
    let a = crate::json::skip_ws_exec(s, 0);
    if a >= s.len() {
        return (None, None);
    }
    let e = next_ws_exec(s, a);
    let tok0 = crate::util::to_vec(vstd::slice::slice_subrange(s, a, e));
    proof {
        lemma_next_ws_bounds(s@, a as int);
        assert(tokens(s@) == seq![s@.subrange(a as int, e as int)] + tokens_from(s@, e as int));
        crate::util::lemma_skip_ws_bounds(s@, e as int);
    }
    let a2 = crate::json::skip_ws_exec(s, e);
    if a2 >= s.len() {
        proof {
            assert(tokens_from(s@, e as int) =~= Seq::<Seq<u8>>::empty());
            assert(tokens(s@).len() == 1);
        }
        return (Some(tok0), None);
    }
    let e2 = next_ws_exec(s, a2);
    let tok1 = crate::util::to_vec(vstd::slice::slice_subrange(s, a2, e2));
    proof {
        lemma_next_ws_bounds(s@, a2 as int);
        assert(tokens_from(s@, e as int) == seq![s@.subrange(a2 as int, e2 as int)] + tokens_from(
            s@,
            e2 as int,
        ));
        assert(tokens(s@)[1] == s@.subrange(a2 as int, e2 as int));
    }
    (Some(tok0), Some(tok1))
}

fn next_ws_exec(s: &[u8], i: usize) -> (r: usize)
    requires
        i <= s@.len(),
    ensures
        r as int == next_ws(s@, i as int),
        i <= r <= s@.len(),
{
    proof {
        lemma_next_ws_bounds(s@, i as int);
    }
    let mut k = i;
    while k < s.len() && !crate::util::ws_byte(s[k])
        invariant
            i <= k <= s@.len(),
            next_ws(s@, i as int) == next_ws(s@, k as int),
        decreases s@.len() - k,
    {
        k = k + 1;
    }
    proof {
        assert(next_ws(s@, k as int) == k as int);
    }
    k
}

/// Whether a header line carries a field: not blank, and holding a colon.
pub open spec fn is_field_line(l: Seq<u8>) -> bool {
    trimmed(l).len() > 0 && find_byte(l, 58, 0) is Some
}

/// The field a header line carries: the name before the first colon, trimmed
/// and lower-cased; the value after it, trimmed.
pub open spec fn field_of(l: Seq<u8>) -> (Seq<u8>, Seq<u8>) {
    match find_byte(l, 58, 0) {
        Some(c) => (lower_seq(trimmed(l.take(c))), trimmed(l.skip(c + 1))),
        None => (Seq::empty(), Seq::empty()),
    }
}

/// The header fields of the lines after the request line, in wire order;
/// blank lines and lines without a colon are skipped, not errors.
pub open spec fn fields_of(lines: Seq<Seq<u8>>) -> Seq<(Seq<u8>, Seq<u8>)>
    decreases lines.len(),
{
    if lines.len() == 0 {
        Seq::empty()
    } else {
        (if is_field_line(lines[0]) {
            seq![field_of(lines[0])]
        } else {
            Seq::empty()
        }) + fields_of(lines.drop_first())
    }
}

/// Scan the header lines for `content-length`: the first malformed or
/// oversized occurrence is a hard error; otherwise the last occurrence wins,
/// `None` when there is none.
pub open spec fn cl_scan(lines: Seq<Seq<u8>>) -> Result<Option<u64>, ParseError>
    decreases lines.len(),
{
    if lines.len() == 0 {
        Ok(None)
    } else {
        let l = lines[0];
        if is_field_line(l) && field_of(l).0 == ascii("content-length"@) {
            match parsed_u64(field_of(l).1) {
                None => Err(ParseError::InvalidContentLength),
                Some(v) => if v > MAX_REQUEST_BODY_BYTES as u64 {
                    Err(ParseError::BodyTooLarge)
                } else {
                    match cl_scan(lines.drop_first()) {
                        Err(e) => Err(e),
                        Ok(Some(w)) => Ok(Some(w)),
                        Ok(None) => Ok(Some(v)),
                    }
                },
            }
        } else {
            cl_scan(lines.drop_first())
        }
    }
}

fn scan_fields(lines: &Vec<Vec<u8>>, idx: usize) -> (r: Result<
    (Vec<(Vec<u8>, Vec<u8>)>, Option<u64>),
    ParseError,
>)
    requires
        idx <= lines@.len(),
    ensures
        match r {
            Ok(p) => {
                &&& cl_scan(line_views(lines@).skip(idx as int)) == Ok::<_, ParseError>(p.1)
                &&& pair_views(p.0@) == fields_of(line_views(lines@).skip(idx as int))
                &&& match p.1 {
                    Some(v) => v <= MAX_REQUEST_BODY_BYTES as u64,
                    None => true,
                }
            },
            Err(e) => cl_scan(line_views(lines@).skip(idx as int)) == Err::<Option<u64>, _>(e),
        },
    decreases lines@.len() - idx,
{
    proof {
        reveal_strlit("content-length");
        assert("content-length".is_ascii());
    }
    if idx >= lines.len() {
        let fields: Vec<(Vec<u8>, Vec<u8>)> = Vec::new();
        proof {
            assert(line_views(lines@).skip(idx as int) =~= Seq::<Seq<u8>>::empty());
            assert(pair_views(fields@) =~= Seq::<(Seq<u8>, Seq<u8>)>::empty());
        }
        return Ok((fields, None));
    }
    let ghost suffix = line_views(lines@).skip(idx as int);
    proof {
        assert(suffix[0] == lines@[idx as int]@);
        assert(suffix.drop_first() =~= line_views(lines@).skip(idx + 1 as int));
    }
    let line: &Vec<u8> = &lines[idx];
    let blank = crate::util::is_blank(line.as_slice());
    let colon = find_byte_exec(line.as_slice(), 58);
    if blank {
        return scan_fields(lines, idx + 1);
    }
    let c = match colon {
        Some(c) => c,
        None => {
            return scan_fields(lines, idx + 1);
        },
    };
    let line_len = line.len();
    let name = crate::util::to_lower(
        crate::util::trim(vstd::slice::slice_subrange(line.as_slice(), 0, c)),
    );
    let value = crate::util::to_vec(
        crate::util::trim(vstd::slice::slice_subrange(line.as_slice(), c + 1, line_len)),
    );
    proof {
        assert(field_of(suffix[0]) == (name@, value@));
    }
    let is_cl = crate::util::bytes_eq(name.as_slice(), lit("content-length"));
    if is_cl {
        let v = match crate::util::parse_u64(value.as_slice()) {
            Some(v) => v,
            None => {
                return Err(ParseError::InvalidContentLength);
            },
        };
        if v > (MAX_REQUEST_BODY_BYTES as u64) {
            return Err(ParseError::BodyTooLarge);
        }
        match scan_fields(lines, idx + 1) {
            Err(e) => Err(e),
            Ok((mut fields, later)) => {
                fields.insert(0, (name, value));
                proof {
                    assert(pair_views(fields@) =~= seq![field_of(suffix[0])] + fields_of(
                        suffix.drop_first(),
                    ));
                }
                let cl = match later {
                    Some(w) => Some(w),
                    None => Some(v),
                };
                Ok((fields, cl))
            },
        }
    } else {
        match scan_fields(lines, idx + 1) {
            Err(e) => Err(e),
            Ok((mut fields, later)) => {
                fields.insert(0, (name, value));
                proof {
                    assert(pair_views(fields@) =~= seq![field_of(suffix[0])] + fields_of(
                        suffix.drop_first(),
                    ));
                }
                Ok((fields, later))
            },
        }
    }
}

/// The parsed request head: everything a head block determines.
pub struct HeadModel {
    pub method: Seq<u8>,
    pub path: Seq<u8>,
    pub query: Seq<(Seq<u8>, Seq<u8>)>,
    pub headers: Seq<(Seq<u8>, Seq<u8>)>,
    pub content_length: u64,
}

/// Parse a head block: request line into method and target, remaining lines
/// into fields, and the declared body length checked against its cap.
pub open spec fn parse_head(head: Seq<u8>) -> Result<HeadModel, ParseError> {
    let lines = split_crlf(head);
    let toks = tokens(lines[0]);
    if toks.len() == 0 {
        Err(ParseError::MissingMethod)
    } else if toks.len() == 1 {
        Err(ParseError::MissingTarget)
    } else {
        match cl_scan(lines.drop_first()) {
            Err(e) => Err(e),
            Ok(cl) => Ok(
                HeadModel {
                    method: toks[0],
                    path: target_path(toks[1]),
                    query: target_query(toks[1]),
                    headers: fields_of(lines.drop_first()),
                    content_length: match cl {
                        Some(v) => v,
                        None => 0,
                    },
                },
            ),
        }
    }
}

/// A fully assembled request.
#[derive(Debug)]
pub struct HttpRequest {
    pub method: Vec<u8>,
    pub path: Vec<u8>,
    pub query: Vec<(Vec<u8>, Vec<u8>)>,
    pub headers: Vec<(Vec<u8>, Vec<u8>)>,
    pub body: Vec<u8>,
}

/// The model of a fully assembled request.
pub struct HttpRequestModel {
    pub method: Seq<u8>,
    pub path: Seq<u8>,
    pub query: Seq<(Seq<u8>, Seq<u8>)>,
    pub headers: Seq<(Seq<u8>, Seq<u8>)>,
    pub body: Seq<u8>,
}

impl HttpRequest {
    /// The model of this request.
    pub open spec fn model(self) -> HttpRequestModel {
        HttpRequestModel {
            method: self.method@,
            path: self.path@,
            query: pair_views(self.query@),
            headers: pair_views(self.headers@),
            body: self.body@,
        }
    }
}

/// The request a head and its body bytes assemble to.
pub open spec fn request_model(h: HeadModel, body: Seq<u8>) -> HttpRequestModel {
    HttpRequestModel {
        method: h.method,
        path: h.path,
        query: h.query,
        headers: h.headers,
        body: body,
    }
}

/// Where one evaluation of the accumulated bytes stands.
pub enum Progress {
    /// The stream has not yet delivered a complete request.
    NeedMore,
    /// A complete request.
    Complete(HttpRequest),
    /// The stream can no longer yield a request.
    Failed(ParseError),
}

/// The model of a [`Progress`] value.
pub enum ProgressModel {
    NeedMore,
    Complete(HttpRequestModel),
    Failed(ParseError),
}

impl Progress {
    /// The model of this progress value.
    pub open spec fn model(self) -> ProgressModel {
        match self {
            Progress::NeedMore => ProgressModel::NeedMore,
            Progress::Complete(r) => ProgressModel::Complete(r.model()),
            Progress::Failed(e) => ProgressModel::Failed(e),
        }
    }
}

/// What the bytes received so far amount to. The outcome is a pure function
/// of the accumulated stream, so how the bytes were chunked cannot matter:
/// the head is the part before the first CRLFCRLF, it must end within the
/// header cap, and the declared body length is checked before any body byte
/// is considered.
pub open spec fn outcome_of(s: Seq<u8>) -> ProgressModel {
    match header_end(s) {
        None => if s.len() > MAX_REQUEST_HEADER_BYTES as int {
            ProgressModel::Failed(ParseError::HeadersTooLarge)
        } else {
            ProgressModel::NeedMore
        },
        Some(p) => if p + 4 > MAX_REQUEST_HEADER_BYTES as int {
            ProgressModel::Failed(ParseError::HeadersTooLarge)
        } else {
            match parse_head(s.take(p)) {
                Err(e) => ProgressModel::Failed(e),
                Ok(h) => if s.len() >= p + 4 + h.content_length {
                    ProgressModel::Complete(
                        request_model(h, s.subrange(p + 4, p + 4 + h.content_length)),
                    )
                } else {
                    ProgressModel::NeedMore
                },
            }
        },
    }
}

/// Evaluate the bytes received so far. The caller reads from its stream,
/// appends to one buffer, and calls this after every read; `NeedMore` means
/// read on, anything else is final.
pub fn read_request_progress(data: &[u8]) -> (r: Progress)
    ensures
        r.model() == outcome_of(data@),
{
    let p = match find_header_end(data) {
        None => {
            if data.len() > MAX_REQUEST_HEADER_BYTES {
                return Progress::Failed(ParseError::HeadersTooLarge);
            }
            return Progress::NeedMore;
        },
        Some(p) => p,
    };
    proof {
        lemma_find_term_first(data@, 0);
    }
    if p > MAX_REQUEST_HEADER_BYTES - 4 {
        return Progress::Failed(ParseError::HeadersTooLarge);
    }
    let head = vstd::slice::slice_subrange(data, 0, p);
    proof {
        assert(head@ =~= data@.take(p as int));
    }
    let lines = split_lines(head);
    let (tok0, tok1) = first_two_tokens(lines[0].as_slice());
    proof {
        assert(line_views(lines@)[0] == lines@[0]@);
        assert(split_crlf(head@)[0] == lines@[0]@);
    }
    let method = match tok0 {
        Some(m) => m,
        None => {
            return Progress::Failed(ParseError::MissingMethod);
        },
    };
    let target = match tok1 {
        Some(t) => t,
        None => {
            return Progress::Failed(ParseError::MissingTarget);
        },
    };
    let scanned = match scan_fields(&lines, 1) {
        Ok(s) => s,
        Err(e) => {
            proof {
                assert(line_views(lines@).skip(1) =~= split_crlf(head@).drop_first());
            }
            return Progress::Failed(e);
        },
    };
    proof {
        assert(line_views(lines@).skip(1) =~= split_crlf(head@).drop_first());
    }
    let (headers, cl_opt) = scanned;
    let content_length: u64 = match cl_opt {
        Some(v) => v,
        None => 0,
    };
    let (path, query) = parse_target(target.as_slice());
    let cl: usize = content_length as usize;
    let need: usize = p + 4 + cl;
    if data.len() >= need {
        let body = crate::util::to_vec(vstd::slice::slice_subrange(data, p + 4, need));
        let request = HttpRequest { method, path, query, headers, body };
        proof {
            let h = parse_head(data@.take(p as int));
            assert(h is Ok);
            assert(request.model() == request_model(
                h->Ok_0,
                data@.subrange(p + 4 as int, p + 4 + h->Ok_0.content_length),
            ));
        }
        Progress::Complete(request)
    } else {
        Progress::NeedMore
    }
}

/// How end of stream reads when no complete request has been assembled: an
/// empty-looking request while the head is still open, an unexpected end of
/// file once the head was complete and the body was owed.
pub fn on_eof(data: &[u8]) -> (r: Option<ParseError>)
    ensures
        match r {
            Some(e) => outcome_of(data@) is NeedMore && e == (if header_end(data@) is None {
                ParseError::EmptyRequest
            } else {
                ParseError::UnexpectedEof
            }),
            None => !(outcome_of(data@) is NeedMore),
        },
{
    match read_request_progress(data) {
        Progress::NeedMore => {
            match find_header_end(data) {
                None => Some(ParseError::EmptyRequest),
                Some(_) => Some(ParseError::UnexpectedEof),
            }
        },
        _ => None,
    }
}

/// Feeding the stream in chunks of any sizes gives one and the same parse:
/// the outcome is a function of the bytes accumulated so far alone, and once
/// it is decided — complete or failed — nothing that arrives later changes
/// it. Splitting the terminator, the head, or the body across reads
/// therefore cannot alter the request that comes out.
pub proof fn lemma_outcome_stable(s: Seq<u8>, ext: Seq<u8>)
    ensures
        !(outcome_of(s) is NeedMore) ==> outcome_of(s + ext) == outcome_of(s),
{
    lemma_find_term_extend(s, ext, 0);
    match header_end(s) {
        None => {
            if s.len() > MAX_REQUEST_HEADER_BYTES as int {
                match header_end(s + ext) {
                    Some(q) => {
                        assert(q + 4 > s.len());
                        assert(q + 4 > MAX_REQUEST_HEADER_BYTES as int);
                    },
                    None => {
                        assert((s + ext).len() > MAX_REQUEST_HEADER_BYTES as int);
                    },
                }
            }
        },
        Some(p) => {
            assert(header_end(s + ext) == Some(p));
            lemma_find_term_first(s, 0);
            assert((s + ext).take(p) =~= s.take(p));
            if p + 4 <= MAX_REQUEST_HEADER_BYTES as int {
                match parse_head(s.take(p)) {
                    Err(_) => {},
                    Ok(h) => {
                        if s.len() >= p + 4 + h.content_length {
                            assert((s + ext).subrange(p + 4, p + 4 + h.content_length)
                                =~= s.subrange(p + 4, p + 4 + h.content_length));
                        }
                    },
                }
            }
        },
    }
}

/// Any prefix of the stream either still awaits bytes or already carries
/// the final outcome: with [`lemma_outcome_stable`], reading the same bytes
/// in different chunkings can only move the moment the answer appears,
/// never the answer.
pub proof fn lemma_prefix_outcome(a: Seq<u8>, b: Seq<u8>)
    ensures
        outcome_of(a) is NeedMore || outcome_of(a + b) == outcome_of(a),
{
    lemma_outcome_stable(a, b);
}

/// An oversized header block or an oversized declared body is rejected on
/// the head alone: whenever the accumulated bytes are rejected, the bytes up
/// to the end of the head — before any body byte — are already rejected the
/// same way.
pub proof fn lemma_rejected_on_head_alone(s: Seq<u8>, p: int)
    requires
        header_end(s) == Some(p),
        outcome_of(s) is Failed,
    ensures
        outcome_of(s.take(p + 4)) == outcome_of(s),
{
    lemma_find_term_first(s, 0);
    lemma_find_term_prefix(s, p + 4, 0);
    assert(header_end(s.take(p + 4)) == Some(p));
    assert(s.take(p + 4).take(p) =~= s.take(p));
    match parse_head(s.take(p)) {
        Err(_) => {},
        Ok(h) => {
            if p + 4 <= MAX_REQUEST_HEADER_BYTES as int {
                assert(!(outcome_of(s) is Failed));
            }
        },
    }
}


/// A companion-server failure, shaped for an HTTP reply.
#[derive(Debug)]
pub struct WebError {
    pub status: u16,
    pub message: Vec<u8>,
}

impl WebError {
    /// The request itself is invalid.
    pub fn bad_request(message: &[u8]) -> (r: WebError)
        ensures
            r.status == 400,
            r.message@ == message@,
    {
        WebError { status: 400, message: crate::util::to_vec(message) }
    }

    /// Missing or mismatched session token.
    pub fn unauthorized(message: &[u8]) -> (r: WebError)
        ensures
            r.status == 401,
            r.message@ == message@,
    {
        WebError { status: 401, message: crate::util::to_vec(message) }
    }

    /// No such route.
    pub fn not_found(message: &[u8]) -> (r: WebError)
        ensures
            r.status == 404,
            r.message@ == message@,
    {
        WebError { status: 404, message: crate::util::to_vec(message) }
    }

    /// The host side failed while serving the request.
    pub fn internal(message: &[u8]) -> (r: WebError)
        ensures
            r.status == 500,
            r.message@ == message@,
    {
        WebError { status: 500, message: crate::util::to_vec(message) }
    }
}

/// The message each parse failure reports to the client.
pub open spec fn parse_error_text(e: ParseError) -> Seq<u8> {
    match e {
        ParseError::EmptyRequest => ascii("Empty request"@),
        ParseError::HeadersTooLarge => ascii("Request headers too large"@),
        ParseError::MissingMethod => ascii("Missing method"@),
        ParseError::MissingTarget => ascii("Missing target"@),
        ParseError::InvalidContentLength => ascii("Invalid content-length"@),
        ParseError::BodyTooLarge => ascii("Request body too large"@),
        ParseError::UnexpectedEof => ascii("Unexpected EOF in request body"@),
    }
}

/// Shape a parse failure as the client error it is reported as.
pub fn web_error_of(e: ParseError) -> (r: WebError)
    ensures
        r.status == 400,
        r.message@ == parse_error_text(e),
{
    match e {
        ParseError::EmptyRequest => {
            proof {
                reveal_strlit("Empty request");
                assert("Empty request".is_ascii());
            }
            WebError::bad_request(lit("Empty request"))
        },
        ParseError::HeadersTooLarge => {
            proof {
                reveal_strlit("Request headers too large");
                assert("Request headers too large".is_ascii());
            }
            WebError::bad_request(lit("Request headers too large"))
        },
        ParseError::MissingMethod => {
            proof {
                reveal_strlit("Missing method");
                assert("Missing method".is_ascii());
            }
            WebError::bad_request(lit("Missing method"))
        },
        ParseError::MissingTarget => {
            proof {
                reveal_strlit("Missing target");
                assert("Missing target".is_ascii());
            }
            WebError::bad_request(lit("Missing target"))
        },
        ParseError::InvalidContentLength => {
            proof {
                reveal_strlit("Invalid content-length");
                assert("Invalid content-length".is_ascii());
            }
            WebError::bad_request(lit("Invalid content-length"))
        },
        ParseError::BodyTooLarge => {
            proof {
                reveal_strlit("Request body too large");
                assert("Request body too large".is_ascii());
            }
            WebError::bad_request(lit("Request body too large"))
        },
        ParseError::UnexpectedEof => {
            proof {
                reveal_strlit("Unexpected EOF in request body");
                assert("Unexpected EOF in request body".is_ascii());
            }
            WebError::bad_request(lit("Unexpected EOF in request body"))
        },
    }
}

/// The reason phrase written for each status the companion server uses.
pub open spec fn reason_of(status: u16) -> Seq<u8> {
    if status == 200 {
        ascii("OK"@)
    } else if status == 204 {
        ascii("No Content"@)
    } else if status == 400 {
        ascii("Bad Request"@)
    } else if status == 401 {
        ascii("Unauthorized"@)
    } else if status == 404 {
        ascii("Not Found"@)
    } else {
        ascii("Internal Server Error"@)
    }
}

/// The full response head for one reply: status line, content headers, and
/// the fixed connection and access-control headers, ended by a blank line.
pub open spec fn response_head_model(status: u16, content_type: Seq<u8>, body_len: nat) -> Seq<
    u8,
> {
    ascii("HTTP/1.1 "@) + crate::util::dec(status as nat) + seq![32u8] + reason_of(status) + ascii(
        "\r\nContent-Type: "@,
    ) + content_type + ascii("\r\nContent-Length: "@) + crate::util::dec(body_len) + ascii(
        "\r\nConnection: close\r\nCache-Control: no-store\r\nAccess-Control-Allow-Origin: *\r\nAccess-Control-Allow-Headers: Content-Type, X-Codex-Monitor-Token\r\nAccess-Control-Allow-Methods: GET, POST, OPTIONS\r\n\r\n"@,
    )
}

/// Render the response head that precedes a body of `body_len` bytes.
pub fn build_response_head(status: u16, content_type: &[u8], body_len: usize) -> (r: Vec<u8>)
    ensures
        r@ == response_head_model(status, content_type@, body_len as nat),
{
    proof {
        reveal_strlit("HTTP/1.1 ");
        assert("HTTP/1.1 ".is_ascii());
        reveal_strlit("\r\nContent-Type: ");
        assert("\r\nContent-Type: ".is_ascii());
        reveal_strlit("\r\nContent-Length: ");
        assert("\r\nContent-Length: ".is_ascii());
        reveal_strlit(
            "\r\nConnection: close\r\nCache-Control: no-store\r\nAccess-Control-Allow-Origin: *\r\nAccess-Control-Allow-Headers: Content-Type, X-Codex-Monitor-Token\r\nAccess-Control-Allow-Methods: GET, POST, OPTIONS\r\n\r\n",
        );
        assert(
            "\r\nConnection: close\r\nCache-Control: no-store\r\nAccess-Control-Allow-Origin: *\r\nAccess-Control-Allow-Headers: Content-Type, X-Codex-Monitor-Token\r\nAccess-Control-Allow-Methods: GET, POST, OPTIONS\r\n\r\n".is_ascii()
        );
        reveal_strlit("OK");
        assert("OK".is_ascii());
        reveal_strlit("No Content");
        assert("No Content".is_ascii());
        reveal_strlit("Bad Request");
        assert("Bad Request".is_ascii());
        reveal_strlit("Unauthorized");
        assert("Unauthorized".is_ascii());
        reveal_strlit("Not Found");
        assert("Not Found".is_ascii());
        reveal_strlit("Internal Server Error");
        assert("Internal Server Error".is_ascii());
    }
    let mut out: Vec<u8> = Vec::new();
    crate::util::append_slice(&mut out, lit("HTTP/1.1 "));
    let status_digits = crate::util::u64_dec(status as u64);
    crate::util::append_slice(&mut out, status_digits.as_slice());
    out.push(32);
    let reason: &[u8] = if status == 200 {
        lit("OK")
    } else if status == 204 {
        lit("No Content")
    } else if status == 400 {
        lit("Bad Request")
    } else if status == 401 {
        lit("Unauthorized")
    } else if status == 404 {
        lit("Not Found")
    } else {
        lit("Internal Server Error")
    };
    crate::util::append_slice(&mut out, reason);
    crate::util::append_slice(&mut out, lit("\r\nContent-Type: "));
    crate::util::append_slice(&mut out, content_type);
    crate::util::append_slice(&mut out, lit("\r\nContent-Length: "));
    let len_digits = crate::util::usize_dec(body_len);
    crate::util::append_slice(&mut out, len_digits.as_slice());
    crate::util::append_slice(
        &mut out,
        lit(
            "\r\nConnection: close\r\nCache-Control: no-store\r\nAccess-Control-Allow-Origin: *\r\nAccess-Control-Allow-Headers: Content-Type, X-Codex-Monitor-Token\r\nAccess-Control-Allow-Methods: GET, POST, OPTIONS\r\n\r\n",
        ),
    );
    proof {
        assert(out@ =~= response_head_model(status, content_type@, body_len as nat));
    }
    out
}

} // verus!
