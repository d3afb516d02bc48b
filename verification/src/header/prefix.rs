//! Reading a header depends only on the bytes it consumes, so no strict
//! prefix of a whole header is read as one; and it consumes exactly up to
//! the line end of `"end_header"`.

use vstd::prelude::*;

use crate::error::ErrorV;
use crate::function::{find_byte, line_field, skip_spaces, word_field, CR, LF};
use crate::keyword::{kw_end_head, kw_er};

use super::decode::{
    find_signature, header_format_spec, header_kind_spec, header_line_spec, header_line_text_spec,
    header_lines_spec, header_spec, header_word_spec, lemma_header_line_bound, newline_spec,
};
use super::{ElementV, HeaderV};

verus! {

proof fn lemma_tail_ext(t: Seq<u8>, more: Seq<u8>, a: int)
    requires
        0 <= a <= t.len(),
    ensures
        (t + more).subrange(a, (t + more).len() as int) == t.subrange(a, t.len() as int) + more,
{
    assert((t + more).subrange(a, (t + more).len() as int) =~= t.subrange(a, t.len() as int) + more);
}

proof fn lemma_find_byte_ext(t: Seq<u8>, more: Seq<u8>, i: int, b: u8)
    requires
        0 <= i,
        find_byte(t, i, b) < t.len(),
    ensures
        find_byte(t + more, i, b) == find_byte(t, i, b),
    decreases t.len() - i,
{
    if i < t.len() && t[i] != b {
        lemma_find_byte_ext(t, more, i + 1, b);
    }
}

proof fn lemma_skip_spaces_ext(t: Seq<u8>, more: Seq<u8>, i: int)
    requires
        0 <= i,
        skip_spaces(t, i) < t.len(),
    ensures
        skip_spaces(t + more, i) == skip_spaces(t, i),
    decreases t.len() - i,
{
    if 0 <= i < t.len() && t[i] == crate::function::SPACE {
        lemma_skip_spaces_ext(t, more, i + 1);
    }
}

proof fn lemma_word_field_ext(t: Seq<u8>, more: Seq<u8>)
    requires
        word_field(t) is Ok,
    ensures
        word_field(t + more) == word_field(t),
{
    let j = skip_spaces(t, 0);
    lemma_skip_spaces_ext(t, more, 0);
    crate::function::lemma_skip_spaces(t, 0);
    let k = find_byte(t, j + 1, crate::function::SPACE);
    lemma_find_byte_ext(t, more, j + 1, crate::function::SPACE);
    crate::function::lemma_find_byte(t, j + 1, crate::function::SPACE);
    assert((t + more).subrange(j, k) =~= t.subrange(j, k));
}

proof fn lemma_line_field_ext(t: Seq<u8>, more: Seq<u8>)
    requires
        find_byte(t, 0, LF) < t.len(),
    ensures
        line_field(t + more) == line_field(t),
{
    lemma_find_byte_ext(t, more, 0, LF);
    crate::function::lemma_find_byte(t, 0, LF);
    let k = find_byte(t, 0, LF);
    assert((t + more).subrange(0, k) =~= t.subrange(0, k));
}

/// A line read without its `'\n'` runs to the end of the input.
proof fn lemma_line_field_open(t: Seq<u8>)
    ensures
        find_byte(t, 0, LF) >= t.len() ==> line_field(t).1 == t.len(),
{
    crate::function::lemma_find_byte(t, 0, LF);
}

proof fn lemma_line_text_ext(t: Seq<u8>, more: Seq<u8>)
    requires
        header_line_text_spec(t) matches Ok((_, m)) && m < t.len(),
    ensures
        header_line_text_spec(t + more) == header_line_text_spec(t),
{
    lemma_line_field_open(t);
    lemma_line_field_ext(t, more);
}

proof fn lemma_word_ext(t: Seq<u8>, more: Seq<u8>)
    requires
        header_word_spec(t) is Ok,
    ensures
        header_word_spec(t + more) == header_word_spec(t),
{
    lemma_word_field_ext(t, more);
}

proof fn lemma_kind_ext(t: Seq<u8>, more: Seq<u8>)
    requires
        header_kind_spec(t) is Ok,
    ensures
        header_kind_spec(t + more) == header_kind_spec(t),
{
    lemma_word_ext(t, more);
    let (value, n1) = header_word_spec(t)->Ok_0;
    crate::function::lemma_word_field_bound(t);
    if value == crate::keyword::kw_list() {
        let t1 = t.subrange(n1, t.len() as int);
        lemma_tail_ext(t, more, n1);
        lemma_word_ext(t1, more);
        let n2 = header_word_spec(t1)->Ok_0.1;
        crate::function::lemma_word_field_bound(t1);
        lemma_tail_ext(t, more, n1 + n2);
        assert(t1.subrange(n2, t1.len() as int) =~= t.subrange(n1 + n2, t.len() as int));
        lemma_word_ext(t.subrange(n1 + n2, t.len() as int), more);
    }
}

proof fn lemma_newline_ext(t: Seq<u8>, more: Seq<u8>)
    requires
        newline_spec(t) is Ok,
    ensures
        newline_spec(t + more) == newline_spec(t),
{
}

proof fn lemma_format_ext(t: Seq<u8>, more: Seq<u8>)
    requires
        header_format_spec(t) is Ok,
    ensures
        header_format_spec(t + more) == header_format_spec(t),
{
    let s = t + more;
    if t.len() >= 7 {
        assert(s.subrange(0, 7) =~= t.subrange(0, 7));
    }
    if t.len() >= 14 {
        assert(s.subrange(8, 14) =~= t.subrange(8, 14));
    }
    if t.len() >= 28 {
        assert(s.subrange(15, 28) =~= t.subrange(15, 28));
    }
    if t.len() >= 25 {
        assert(s.subrange(15, 25) =~= t.subrange(15, 25));
    }
    if t.len() >= 13 {
        assert(s.subrange(8, 13) =~= t.subrange(8, 13));
    }
}

proof fn lemma_line_ext(t: Seq<u8>, more: Seq<u8>, es: Seq<(Seq<u8>, ElementV)>)
    requires
        header_line_spec(t, es) matches Ok((x, n)) && (x is None || n < t.len()),
    ensures
        header_line_spec(t + more, es) == header_line_spec(t, es),
{
    reveal(header_line_spec);
    let s = t + more;
    assert(s.subrange(0, 8) =~= t.subrange(0, 8));
    let keyword = t.subrange(0, 8);
    if keyword == crate::keyword::kw_end_head() {
        assert(s.subrange(8, 10) =~= t.subrange(8, 10));
        lemma_tail_ext(t, more, 10);
        lemma_newline_ext(t.subrange(10, t.len() as int), more);
    } else if keyword == crate::keyword::kw_property() {
        let u = t.subrange(9, t.len() as int);
        lemma_tail_ext(t, more, 9);
        lemma_kind_ext(u, more);
        let n = header_kind_spec(u)->Ok_0.1;
        crate::function::lemma_word_field_bound(u);
        super::decode::lemma_header_kind_bound(u);
        lemma_tail_ext(t, more, 9 + n);
        lemma_line_text_ext(t.subrange(9 + n, t.len() as int), more);
    } else if keyword == crate::keyword::kw_element_() {
        let u = t.subrange(8, t.len() as int);
        lemma_tail_ext(t, more, 8);
        lemma_word_ext(u, more);
        let n = header_word_spec(u)->Ok_0.1;
        crate::function::lemma_word_field_bound(u);
        lemma_tail_ext(t, more, 8 + n);
        lemma_line_text_ext(t.subrange(8 + n, t.len() as int), more);
    } else {
        let u = t.subrange(8, t.len() as int);
        lemma_tail_ext(t, more, 8);
        lemma_line_field_open(u);
        lemma_line_field_ext(u, more);
    }
}

/// No lines are read from empty input.
pub(crate) proof fn lemma_lines_empty(es: Seq<(Seq<u8>, ElementV)>)
    ensures
        header_lines_spec(Seq::empty(), es) is Err,
{
    reveal(header_line_spec);
}

proof fn lemma_lines_ext(t: Seq<u8>, more: Seq<u8>, es: Seq<(Seq<u8>, ElementV)>)
    requires
        header_lines_spec(t, es) is Ok,
    ensures
        header_lines_spec(t + more, es) == header_lines_spec(t, es),
    decreases t.len(),
{
    lemma_header_line_bound(t, es);
    match header_line_spec(t, es) {
        Ok((None, n)) => {
            lemma_line_ext(t, more, es);
        },
        Ok((Some(es2), n)) => {
            if n == t.len() {
                assert(t.subrange(n, t.len() as int) =~= Seq::<u8>::empty());
                lemma_lines_empty(es2);
            }
            lemma_line_ext(t, more, es);
            lemma_tail_ext(t, more, n);
            lemma_lines_ext(t.subrange(n, t.len() as int), more, es2);
        },
        Err(_) => {},
    }
}

pub(crate) proof fn lemma_signature_bound(t: Seq<u8>, j: int)
    requires
        0 <= j,
    ensures
        find_signature(t, j) >= 0 ==> j <= find_signature(t, j) && find_signature(t, j) + 3 <= t.len(),
    decreases t.len() - j,
{
    if j + 3 <= t.len() && t.subrange(j, j + 3) != crate::keyword::kw_ply() {
        lemma_signature_bound(t, j + 1);
    }
}

proof fn lemma_signature_ext(t: Seq<u8>, more: Seq<u8>, j: int)
    requires
        0 <= j,
        find_signature(t, j) >= 0,
    ensures
        find_signature(t + more, j) == find_signature(t, j),
    decreases t.len() - j,
{
    let s = t + more;
    if j + 3 <= t.len() {
        assert(s.subrange(j, j + 3) =~= t.subrange(j, j + 3));
        if t.subrange(j, j + 3) != crate::keyword::kw_ply() {
            lemma_signature_ext(t, more, j + 1);
        }
    }
}

/// A header read from the front of some bytes is read the same, with the
/// same number of bytes consumed, whatever follows them.
pub proof fn lemma_header_ext(t: Seq<u8>, more: Seq<u8>)
    requires
        header_spec(t) is Ok,
    ensures
        header_spec(t + more) == header_spec(t),
{
    let i = find_signature(t, 0);
    lemma_signature_ext(t, more, 0);
    lemma_signature_bound(t, 0);
    let a = i + 3;
    lemma_tail_ext(t, more, a);
    lemma_newline_ext(t.subrange(a, t.len() as int), more);
    let k = newline_spec(t.subrange(a, t.len() as int))->Ok_0;
    let b = a + k;
    lemma_tail_ext(t, more, b);
    lemma_format_ext(t.subrange(b, t.len() as int), more);
    let m = header_format_spec(t.subrange(b, t.len() as int))->Ok_0.1;
    let c = b + m;
    lemma_tail_ext(t, more, c);
    let u = t.subrange(c, t.len() as int);
    let v = header_line_text_spec(u)->Ok_0.1;
    lemma_line_field_open(u);
    crate::function::lemma_line_field_bound(u);
    if v == u.len() {
        assert(u.subrange(v, u.len() as int) =~= Seq::<u8>::empty());
        lemma_lines_empty(Seq::empty());
        assert(t.subrange(c + v, t.len() as int) =~= Seq::<u8>::empty());
    }
    lemma_line_text_ext(u, more);
    lemma_tail_ext(t, more, c + v);
    lemma_lines_ext(t.subrange(c + v, t.len() as int), more, Seq::empty());
}

/// No strict prefix of a whole header, one whose reading consumes all of
/// it, is read as a header.
pub proof fn lemma_header_prefix_refused(s: Seq<u8>, k: int)
    requires
        header_spec(s) matches Ok((_, n)) && n == s.len(),
        0 <= k < s.len(),
    ensures
        header_spec(s.subrange(0, k)) is Err,
{
    let p = s.subrange(0, k);
    if header_spec(p) is Ok {
        lemma_header_ext(p, s.subrange(k, s.len() as int));
        assert(p + s.subrange(k, s.len() as int) =~= s);
        header_bound(p);
    }
}

/// A header consumes no more bytes than there are.
proof fn header_bound(s: Seq<u8>)
    ensures
        header_spec(s) matches Ok((_, n)) ==> n <= s.len(),
{
    if header_spec(s) is Ok {
        let i = find_signature(s, 0);
        lemma_signature_bound(s, 0);
        let a = i + 3;
        let k = newline_spec(s.subrange(a, s.len() as int))->Ok_0;
        let b = a + k;
        let m = header_format_spec(s.subrange(b, s.len() as int))->Ok_0.1;
        let c = b + m;
        let u = s.subrange(c, s.len() as int);
        crate::function::lemma_line_field_bound(u);
        let v = header_line_text_spec(u)->Ok_0.1;
        lemma_lines_bound(s.subrange(c + v, s.len() as int), Seq::empty());
    }
}

proof fn lemma_lines_bound(s: Seq<u8>, es: Seq<(Seq<u8>, ElementV)>)
    ensures
        header_lines_spec(s, es) matches Ok((_, n)) ==> n <= s.len(),
    decreases s.len(),
{
    lemma_header_line_bound(s, es);
    if let Ok((Some(es2), n)) = header_line_spec(s, es) {
        lemma_lines_bound(s.subrange(n, s.len() as int), es2);
    }
}

/// The line `"end_header"` with its line end: `"\r\n"` when `crlf`, else
/// `"\n"`.
pub open spec fn end_header_line(crlf: bool) -> Seq<u8> {
    kw_end_head() + kw_er() + if crlf {
        seq![CR, LF]
    } else {
        seq![LF]
    }
}

/// Whether `t` ends with the line `"end_header"` and its whole line end,
/// `"\n"` or `"\r\n"`.
pub open spec fn ends_with_end_header_line(t: Seq<u8>) -> bool {
    ||| t.len() >= 11 && t.subrange(t.len() - 11, t.len() as int) == end_header_line(false)
    ||| t.len() >= 12 && t.subrange(t.len() - 12, t.len() as int) == end_header_line(true)
}

/// The line `"end_header"` ends the lines of a header, consuming its whole
/// line end, whatever follows.
pub proof fn lemma_end_header_line(crlf: bool, rest: Seq<u8>, es: Seq<(Seq<u8>, ElementV)>)
    ensures
        header_line_spec(end_header_line(crlf) + rest, es) == Ok::<
            (Option<Seq<(Seq<u8>, ElementV)>>, int),
            ErrorV,
        >((None, end_header_line(crlf).len() as int)),
{
    reveal(header_line_spec);
    let s = end_header_line(crlf) + rest;
    assert(s.subrange(0, 8) =~= kw_end_head());
    assert(s.subrange(8, 10) =~= kw_er());
    assert(s.subrange(10, s.len() as int)[0] == s[10]);
    if crlf {
        assert(s.subrange(10, s.len() as int)[1] == s[11]);
    }
}

proof fn lemma_lines_end(t: Seq<u8>, es: Seq<(Seq<u8>, ElementV)>)
    ensures
        header_lines_spec(t, es) matches Ok((_, k)) ==> 0 <= k <= t.len() && ends_with_end_header_line(
            t.subrange(0, k),
        ),
    decreases t.len(),
{
    lemma_header_line_bound(t, es);
    reveal(header_line_spec);
    match header_line_spec(t, es) {
        Ok((None, n)) => {
            assert(t.subrange(0, 8) == kw_end_head());
            assert(t.subrange(8, 10) == kw_er());
            let u = t.subrange(10, t.len() as int);
            assert(u[0] == t[10]);
            if n == 11 {
                assert(t.subrange(0, n).subrange(0, 11) =~= end_header_line(false));
            } else {
                assert(u[1] == t[11]);
                assert(t.subrange(0, n).subrange(0, 12) =~= end_header_line(true));
            }
        },
        Ok((Some(es2), n)) => {
            let rest = t.subrange(n, t.len() as int);
            lemma_lines_end(rest, es2);
            if let Ok((_, k)) = header_lines_spec(rest, es2) {
                let m = n + k;
                let w = t.subrange(0, m);
                let w2 = rest.subrange(0, k);
                if k >= 11 {
                    assert(w.subrange(m - 11, m) =~= w2.subrange(k - 11, k as int));
                }
                if k >= 12 {
                    assert(w.subrange(m - 12, m) =~= w2.subrange(k - 12, k as int));
                }
            }
        },
        Err(_) => {},
    }
}

/// Reading a header consumes exactly up to and including the line end of
/// the line `"end_header"`, `"\n"` or `"\r\n"`: no byte of that line end
/// is left to the payload, and none of the payload is taken.
pub proof fn lemma_header_ends_after_end_header(s: Seq<u8>)
    ensures
        header_spec(s) matches Ok((_, n)) ==> 0 <= n <= s.len() && ends_with_end_header_line(s.subrange(0, n)),
{
    if header_spec(s) is Ok {
        let i = find_signature(s, 0);
        lemma_signature_bound(s, 0);
        let a = i + 3;
        let k1 = newline_spec(s.subrange(a, s.len() as int))->Ok_0;
        let b = a + k1;
        let u0 = s.subrange(b, s.len() as int);
        let m = header_format_spec(u0)->Ok_0.1;
        assert(m <= u0.len());
        let c = b + m;
        let u = s.subrange(c, s.len() as int);
        crate::function::lemma_line_field_bound(u);
        let v = header_line_text_spec(u)->Ok_0.1;
        let d = c + v;
        let lines = s.subrange(d, s.len() as int);
        lemma_lines_end(lines, Seq::empty());
        let k = header_lines_spec(lines, Seq::empty())->Ok_0.1;
        let n = d + k;
        let w = s.subrange(0, n);
        let w2 = lines.subrange(0, k);
        if k >= 11 {
            assert(w.subrange(n - 11, n) =~= w2.subrange(k - 11, k as int));
        }
        if k >= 12 {
            assert(w.subrange(n - 12, n) =~= w2.subrange(k - 12, k as int));
        }
    }
}

} // verus!
