//! Comment and object information lines leave no trace in a header read.

use vstd::prelude::*;

use crate::error::ErrorV;
use crate::function::{find_byte, line_field, skip_spaces, word_field, LF, SPACE};
use crate::keyword::{kw_comment_, kw_obj_info};

use super::decode::{
    find_signature, header_format_spec, header_kind_spec, header_line_spec, header_line_text_spec,
    header_lines_spec, header_spec, header_word_spec, lemma_header_line_bound, newline_spec,
};
use super::decoded::lemma_comment_line_skipped;
use super::prefix::{lemma_lines_empty, lemma_signature_bound};
use super::roundtrip::shift;
use super::ElementV;

verus! {

/// Whether `s` and `s2` hold the same first `m` bytes.
spec fn agree(s: Seq<u8>, s2: Seq<u8>, m: int) -> bool {
    &&& 0 <= m <= s.len()
    &&& m <= s2.len()
    &&& s.subrange(0, m) == s2.subrange(0, m)
}

proof fn lemma_agree_sub(s: Seq<u8>, s2: Seq<u8>, m: int, a: int, b: int)
    requires
        agree(s, s2, m),
        0 <= a <= b <= m,
    ensures
        s.subrange(a, b) == s2.subrange(a, b),
{
    assert(s.subrange(a, b) =~= s.subrange(0, m).subrange(a, b));
    assert(s2.subrange(a, b) =~= s2.subrange(0, m).subrange(a, b));
}

proof fn lemma_agree_at(s: Seq<u8>, s2: Seq<u8>, m: int, i: int)
    requires
        agree(s, s2, m),
        0 <= i < m,
    ensures
        s[i] == s2[i],
{
    assert(s.subrange(0, m)[i] == s2.subrange(0, m)[i]);
}

proof fn lemma_agree_tail(s: Seq<u8>, s2: Seq<u8>, m: int, a: int)
    requires
        agree(s, s2, m),
        0 <= a <= m,
    ensures
        agree(s.subrange(a, s.len() as int), s2.subrange(a, s2.len() as int), m - a),
{
    lemma_agree_sub(s, s2, m, a, m);
    assert(s.subrange(a, s.len() as int).subrange(0, m - a) =~= s.subrange(a, m));
    assert(s2.subrange(a, s2.len() as int).subrange(0, m - a) =~= s2.subrange(a, m));
}

proof fn lemma_find_byte_agree(s: Seq<u8>, s2: Seq<u8>, m: int, i: int, b: u8)
    requires
        agree(s, s2, m),
        0 <= i,
        find_byte(s, i, b) < m,
    ensures
        find_byte(s2, i, b) == find_byte(s, i, b),
    decreases s.len() - i,
{
    if i < s.len() {
        crate::function::lemma_find_byte(s, i, b);
        lemma_agree_at(s, s2, m, i);
        if s[i] != b {
            lemma_find_byte_agree(s, s2, m, i + 1, b);
        }
    }
}

proof fn lemma_skip_spaces_agree(s: Seq<u8>, s2: Seq<u8>, m: int, i: int)
    requires
        agree(s, s2, m),
        0 <= i,
        skip_spaces(s, i) < m,
    ensures
        skip_spaces(s2, i) == skip_spaces(s, i),
    decreases s.len() - i,
{
    if i < s.len() {
        crate::function::lemma_skip_spaces(s, i);
        lemma_agree_at(s, s2, m, i);
        if s[i] == SPACE {
            lemma_skip_spaces_agree(s, s2, m, i + 1);
        }
    }
}

proof fn lemma_word_agree(s: Seq<u8>, s2: Seq<u8>, m: int)
    requires
        agree(s, s2, m),
        word_field(s) matches Ok((_, n)) && n <= m,
    ensures
        word_field(s2) == word_field(s),
        header_word_spec(s2) == header_word_spec(s),
{
    crate::function::lemma_skip_spaces(s, 0);
    let j = skip_spaces(s, 0);
    crate::function::lemma_find_byte(s, j + 1, SPACE);
    let k = find_byte(s, j + 1, SPACE);
    lemma_skip_spaces_agree(s, s2, m, 0);
    lemma_find_byte_agree(s, s2, m, j + 1, SPACE);
    lemma_agree_sub(s, s2, m, j, k);
}

/// A line whose reading stops before the end of the input stops after its
/// `'\n'`.
proof fn lemma_line_found(u: Seq<u8>)
    ensures
        line_field(u).1 < u.len() ==> find_byte(u, 0, LF) == line_field(u).1 - 1,
        0 <= line_field(u).1 <= u.len(),
        0 <= find_byte(u, 0, LF) <= u.len(),
{
    crate::function::lemma_find_byte(u, 0, LF);
}

proof fn lemma_line_agree(s: Seq<u8>, s2: Seq<u8>, m: int)
    requires
        agree(s, s2, m),
        line_field(s).1 < s.len(),
        line_field(s).1 <= m,
    ensures
        line_field(s2) == line_field(s),
        header_line_text_spec(s2) == header_line_text_spec(s),
{
    lemma_line_found(s);
    let k = find_byte(s, 0, LF);
    lemma_find_byte_agree(s, s2, m, 0, LF);
    lemma_agree_sub(s, s2, m, 0, k);
}

proof fn lemma_kind_agree(s: Seq<u8>, s2: Seq<u8>, m: int)
    requires
        agree(s, s2, m),
        header_kind_spec(s) matches Ok((_, n)) && n <= m,
    ensures
        header_kind_spec(s2) == header_kind_spec(s),
{
    crate::function::lemma_word_field_bound(s);
    let (value, n1) = header_word_spec(s)->Ok_0;
    if value == crate::keyword::kw_list() {
        let t = s.subrange(n1, s.len() as int);
        let t2 = s2.subrange(n1, s2.len() as int);
        crate::function::lemma_word_field_bound(t);
        let n2 = header_word_spec(t)->Ok_0.1;
        let u = s.subrange(n1 + n2, s.len() as int);
        let u2 = s2.subrange(n1 + n2, s2.len() as int);
        assert(t.subrange(n2, t.len() as int) =~= u);
        crate::function::lemma_word_field_bound(u);
        lemma_word_agree(s, s2, m);
        lemma_agree_tail(s, s2, m, n1);
        lemma_word_agree(t, t2, m - n1);
        lemma_agree_tail(s, s2, m, n1 + n2);
        assert(t2.subrange(n2, t2.len() as int) =~= u2);
        lemma_word_agree(u, u2, m - n1 - n2);
    } else {
        lemma_word_agree(s, s2, m);
    }
}

/// A comment, element or property line that ends with its `'\n'` is read
/// the same from any input that starts with the same bytes up to its end.
proof fn lemma_line_spec_agree(s: Seq<u8>, s2: Seq<u8>, es: Seq<(Seq<u8>, ElementV)>, m: int)
    requires
        agree(s, s2, m),
        header_line_spec(s, es) matches Ok((Some(_), n)) && n <= m && n < s.len(),
    ensures
        header_line_spec(s2, es) == header_line_spec(s, es),
{
    reveal(header_line_spec);
    let n = header_line_spec(s, es)->Ok_0.1;
    let keyword = s.subrange(0, 8);
    if keyword == crate::keyword::kw_property() {
        let u = s.subrange(9, s.len() as int);
        let u2 = s2.subrange(9, s2.len() as int);
        super::decode::lemma_header_kind_bound(u);
        let n1 = header_kind_spec(u)->Ok_0.1;
        let v = s.subrange(9 + n1, s.len() as int);
        let v2 = s2.subrange(9 + n1, s2.len() as int);
        lemma_line_found(v);
        assert(9 + n1 <= n);
        lemma_agree_sub(s, s2, m, 0, 8);
        lemma_agree_at(s, s2, m, 8);
        lemma_agree_tail(s, s2, m, 9);
        lemma_kind_agree(u, u2, m - 9);
        lemma_agree_tail(s, s2, m, 9 + n1);
        assert(u.subrange(n1, u.len() as int) =~= v);
        lemma_line_agree(v, v2, m - 9 - n1);
        assert(u2.subrange(n1, u2.len() as int) =~= v2);
    } else if keyword == crate::keyword::kw_element_() {
        let u = s.subrange(8, s.len() as int);
        let u2 = s2.subrange(8, s2.len() as int);
        crate::function::lemma_word_field_bound(u);
        let n1 = header_word_spec(u)->Ok_0.1;
        let v = s.subrange(8 + n1, s.len() as int);
        let v2 = s2.subrange(8 + n1, s2.len() as int);
        lemma_line_found(v);
        assert(8 + n1 <= n);
        lemma_agree_sub(s, s2, m, 0, 8);
        lemma_agree_tail(s, s2, m, 8);
        lemma_word_agree(u, u2, m - 8);
        lemma_agree_tail(s, s2, m, 8 + n1);
        lemma_line_agree(v, v2, m - 8 - n1);
    } else {
        let u = s.subrange(8, s.len() as int);
        let u2 = s2.subrange(8, s2.len() as int);
        lemma_line_found(u);
        lemma_agree_sub(s, s2, m, 0, 8);
        lemma_agree_tail(s, s2, m, 8);
        lemma_line_agree(u, u2, m - 8);
    }
}

proof fn lemma_newline_agree(s: Seq<u8>, s2: Seq<u8>, m: int)
    requires
        agree(s, s2, m),
        newline_spec(s) matches Ok(k) && k <= m,
    ensures
        newline_spec(s2) == newline_spec(s),
{
    lemma_agree_at(s, s2, m, 0);
    if newline_spec(s) == Ok::<int, ErrorV>(2) {
        lemma_agree_at(s, s2, m, 1);
    }
}

proof fn lemma_format_agree(s: Seq<u8>, s2: Seq<u8>, m: int)
    requires
        agree(s, s2, m),
        header_format_spec(s) matches Ok((_, n)) && n <= m,
    ensures
        header_format_spec(s2) == header_format_spec(s),
{
    lemma_agree_sub(s, s2, m, 0, 7);
    lemma_agree_at(s, s2, m, 7);
    if s[7] == 0x62u8 {
        lemma_agree_sub(s, s2, m, 8, 14);
        lemma_agree_at(s, s2, m, 14);
        if s[14] == 0x6cu8 {
            lemma_agree_sub(s, s2, m, 15, 28);
        } else {
            lemma_agree_sub(s, s2, m, 15, 25);
        }
    } else {
        lemma_agree_sub(s, s2, m, 8, 13);
    }
}

proof fn lemma_signature_agree(s: Seq<u8>, s2: Seq<u8>, m: int, j: int)
    requires
        agree(s, s2, m),
        0 <= j,
        find_signature(s, j) >= 0,
        find_signature(s, j) + 3 <= m,
    ensures
        find_signature(s2, j) == find_signature(s, j),
    decreases s.len() - j,
{
    lemma_signature_bound(s, j);
    lemma_agree_sub(s, s2, m, j, j + 3);
    if s.subrange(j, j + 3) != crate::keyword::kw_ply() {
        lemma_signature_agree(s, s2, m, j + 1);
    }
}

/// The bytes of a comment line (an object information line when
/// `obj_info`) with the text `t`.
pub open spec fn note_line(obj_info: bool, t: Seq<u8>) -> Seq<u8> {
    (if obj_info {
        kw_obj_info()
    } else {
        kw_comment_()
    }) + t + seq![LF]
}

/// Whether `k` is where a line starts when the lines of a header are read
/// from the front of `s` with the elements `es` read before: the front
/// itself, or, after a comment, element or property line, a start in what
/// follows it.
pub open spec fn is_line_start(s: Seq<u8>, es: Seq<(Seq<u8>, ElementV)>, k: int) -> bool
    decreases k,
{
    if k == 0 {
        true
    } else {
        &&& k > 0
        &&& header_line_spec(s, es) matches Ok((Some(es2), n))
        &&& 0 < n <= k
        &&& is_line_start(s.subrange(n, s.len() as int), es2, k - n)
    }
}

/// Where the lines after the format line start when the header of `s` is
/// read (of use where the header is read).
pub open spec fn lines_offset(s: Seq<u8>) -> int {
    let a = find_signature(s, 0) + 3;
    let b = a + newline_spec(s.subrange(a, s.len() as int))->Ok_0;
    let c = b + header_format_spec(s.subrange(b, s.len() as int))->Ok_0.1;
    c + header_line_text_spec(s.subrange(c, s.len() as int))->Ok_0.1
}

/// Whether `k` is where a line after the format line starts when the
/// header of `s` is read, up to and including the line `"end_header"`.
pub open spec fn is_header_line_start(s: Seq<u8>, k: int) -> bool {
    &&& lines_offset(s) <= k
    &&& is_line_start(s.subrange(lines_offset(s), s.len() as int), Seq::empty(), k - lines_offset(s))
}

proof fn lemma_line_start_bound(s: Seq<u8>, es: Seq<(Seq<u8>, ElementV)>, k: int)
    requires
        is_line_start(s, es, k),
    ensures
        0 <= k <= s.len(),
    decreases k,
{
    if k > 0 {
        lemma_header_line_bound(s, es);
        let (x, n) = header_line_spec(s, es)->Ok_0;
        lemma_line_start_bound(s.subrange(n, s.len() as int), x->Some_0, k - n);
    }
}

/// Inserting a comment or object information line at a line start of the
/// lines of a header reads the same elements, consuming the line's bytes in
/// addition.
proof fn lemma_lines_note_inserted(
    s: Seq<u8>,
    es: Seq<(Seq<u8>, ElementV)>,
    k: int,
    obj_info: bool,
    t: Seq<u8>,
)
    requires
        is_line_start(s, es, k),
        header_lines_spec(s, es) is Ok,
        forall|i: int| 0 <= i < t.len() ==> #[trigger] t[i] != LF,
    ensures
        0 <= k <= s.len(),
        header_lines_spec(s.subrange(0, k) + note_line(obj_info, t) + s.subrange(k, s.len() as int), es)
            == shift(header_lines_spec(s, es), note_line(obj_info, t).len() as int),
    decreases k,
{
    lemma_line_start_bound(s, es, k);
    let l = note_line(obj_info, t);
    let s2 = s.subrange(0, k) + l + s.subrange(k, s.len() as int);
    if k == 0 {
        assert(s2 =~= l + s);
        lemma_comment_line_skipped(obj_info, t, s, es);
        let keyword = if obj_info {
            kw_obj_info()
        } else {
            kw_comment_()
        };
        assert(keyword + t + seq![LF] + s =~= l + s);
    } else {
        lemma_header_line_bound(s, es);
        let (x, n) = header_line_spec(s, es)->Ok_0;
        let es2 = x->Some_0;
        let rest = s.subrange(n, s.len() as int);
        if n == s.len() {
            assert(rest =~= Seq::<u8>::empty());
            lemma_lines_empty(es2);
        }
        assert(s2.subrange(0, n) =~= s.subrange(0, n));
        lemma_line_spec_agree(s, s2, es, n);
        lemma_lines_note_inserted(rest, es2, k - n, obj_info, t);
        assert(s2.subrange(n, s2.len() as int) =~= rest.subrange(0, k - n) + l + rest.subrange(
            k - n,
            rest.len() as int,
        ));
    }
}

/// A comment or object information line inserted at the start of any line
/// after the format line, up to and including the line `"end_header"`,
/// leaves no trace in the header read: the same header is read, and only
/// the inserted line's bytes are consumed in addition.
pub proof fn lemma_note_line_leaves_no_trace(s: Seq<u8>, k: int, obj_info: bool, t: Seq<u8>)
    requires
        header_spec(s) is Ok,
        is_header_line_start(s, k),
        forall|i: int| 0 <= i < t.len() ==> #[trigger] t[i] != LF,
    ensures
        header_spec(s.subrange(0, k) + note_line(obj_info, t) + s.subrange(k, s.len() as int)) == shift(
            header_spec(s),
            note_line(obj_info, t).len() as int,
        ),
{
    let l = note_line(obj_info, t);
    let i = find_signature(s, 0);
    lemma_signature_bound(s, 0);
    let a = i + 3;
    let k1 = newline_spec(s.subrange(a, s.len() as int))->Ok_0;
    let b = a + k1;
    let m = header_format_spec(s.subrange(b, s.len() as int))->Ok_0.1;
    let c = b + m;
    let u = s.subrange(c, s.len() as int);
    lemma_line_found(u);
    let v = header_line_text_spec(u)->Ok_0.1;
    let d = c + v;
    assert(d == lines_offset(s));
    let lines = s.subrange(d, s.len() as int);
    if v == u.len() {
        assert(lines =~= Seq::<u8>::empty());
        lemma_lines_empty(Seq::empty());
    }
    lemma_line_start_bound(lines, Seq::empty(), k - d);
    let s2 = s.subrange(0, k) + l + s.subrange(k, s.len() as int);
    assert(s2.subrange(0, d) =~= s.subrange(0, d));
    assert(agree(s, s2, d));
    lemma_signature_agree(s, s2, d, 0);
    lemma_agree_tail(s, s2, d, a);
    lemma_newline_agree(s.subrange(a, s.len() as int), s2.subrange(a, s2.len() as int), d - a);
    lemma_agree_tail(s, s2, d, b);
    lemma_format_agree(s.subrange(b, s.len() as int), s2.subrange(b, s2.len() as int), d - b);
    lemma_agree_tail(s, s2, d, c);
    lemma_line_agree(u, s2.subrange(c, s2.len() as int), d - c);
    lemma_lines_note_inserted(lines, Seq::empty(), k - d, obj_info, t);
    assert(s2.subrange(d, s2.len() as int) =~= lines.subrange(0, k - d) + l + lines.subrange(
        k - d,
        lines.len() as int,
    ));
}

} // verus!
