//! Reading and writing primitives on byte strings: the tokens of the
//! polygon header grammar, decimal numbers, and byte comparisons.

use vstd::prelude::*;
use vstd::string::StringSliceAdditionalSpecFns;

use crate::ascii::{is_ascii_bytes, AsciiString};
use crate::error::{decoded, Error, ErrorV};

verus! {

/// The byte `' '`.
pub const SPACE: u8 = 0x20;

/// The byte `'\n'`.
pub const LF: u8 = 0x0a;

/// The byte `'\r'`.
pub const CR: u8 = 0x0d;

/// The byte `'+'`.
pub const PLUS: u8 = 0x2b;

/// The byte `'0'`.
pub const ZERO: u8 = 0x30;

/// Index of the first byte at or after `i` that is not a space
/// (the length of `s` when there is none).
pub open spec fn skip_spaces(s: Seq<u8>, i: int) -> int
    decreases s.len() - i,
{
    if 0 <= i < s.len() && s[i] == SPACE {
        skip_spaces(s, i + 1)
    } else {
        i
    }
}

/// Index of the first byte `b` at or after `i` (the length of `s` when
/// there is none).
pub open spec fn find_byte(s: Seq<u8>, i: int, b: u8) -> int
    decreases s.len() - i,
{
    if i >= s.len() {
        s.len() as int
    } else if s[i] == b {
        i
    } else {
        find_byte(s, i + 1, b)
    }
}

/// `t` without one trailing `'\r'`.
pub open spec fn strip_cr(t: Seq<u8>) -> Seq<u8> {
    if t.len() > 0 && t.last() == CR {
        t.drop_last()
    } else {
        t
    }
}

/// A text field: `[{" "}] <byte> <rest-of-line> ["\r"] ["\n"]`.
///
/// The first byte that is not a space starts the text, whatever it is; the
/// text runs to the next `'\n'` or to the end of the input, without one
/// trailing `'\r'`. Gives the text and the number of bytes consumed, or
/// `None` when only spaces are left.
pub open spec fn text_field(s: Seq<u8>) -> Option<(Seq<u8>, int)> {
    let j = skip_spaces(s, 0);
    if j < s.len() {
        let k = find_byte(s, j + 1, LF);
        Some(
            (
                seq![s[j]] + strip_cr(s.subrange(j + 1, k)),
                if k < s.len() {
                    k + 1
                } else {
                    s.len() as int
                },
            ),
        )
    } else {
        None
    }
}

/// Why a word field could not be read.
#[derive(PartialEq, Eq, Structural, Clone, Copy, Debug)]
pub enum FieldGap {
    /// Only spaces were left.
    Missing,
    /// The word was not ended by a space.
    Eof,
}

/// A word field: `[{" "}] <byte> <bytes-before-space> " "`.
///
/// Gives the word (its first byte is not a space; no later byte is one) and
/// the number of bytes consumed, the ending space included.
pub open spec fn word_field(s: Seq<u8>) -> Result<(Seq<u8>, int), FieldGap> {
    let j = skip_spaces(s, 0);
    if j >= s.len() {
        Err(FieldGap::Missing)
    } else {
        let k = find_byte(s, j + 1, SPACE);
        if k >= s.len() {
            Err(FieldGap::Eof)
        } else {
            Ok((s.subrange(j, k), k + 1))
        }
    }
}

/// A text that [`text_field`] reads back whole when a `'\n'` follows it.
pub open spec fn is_clean_text(t: Seq<u8>) -> bool {
    &&& t.len() > 0
    &&& t[0] != SPACE
    &&& forall|i: int| 0 <= i < t.len() ==> #[trigger] t[i] != LF
    &&& t.last() != CR
}

/// A word that [`word_field`] reads back whole when a space follows it.
pub open spec fn is_clean_word(w: Seq<u8>) -> bool {
    &&& w.len() > 0
    &&& forall|i: int| 0 <= i < w.len() ==> #[trigger] w[i] != SPACE
}

pub proof fn lemma_skip_spaces(s: Seq<u8>, i: int)
    requires
        0 <= i <= s.len(),
    ensures
        i <= skip_spaces(s, i) <= s.len(),
        forall|k: int| i <= k < skip_spaces(s, i) ==> s[k] == SPACE,
        skip_spaces(s, i) < s.len() ==> s[skip_spaces(s, i)] != SPACE,
    decreases s.len() - i,
{
    if i < s.len() && s[i] == SPACE {
        lemma_skip_spaces(s, i + 1);
    }
}

pub proof fn lemma_find_byte(s: Seq<u8>, i: int, b: u8)
    requires
        0 <= i <= s.len(),
    ensures
        i <= find_byte(s, i, b) <= s.len(),
        forall|k: int| i <= k < find_byte(s, i, b) ==> s[k] != b,
        find_byte(s, i, b) < s.len() ==> s[find_byte(s, i, b)] == b,
    decreases s.len() - i,
{
    if i < s.len() && s[i] != b {
        lemma_find_byte(s, i + 1, b);
    }
}

/// The first non-space index is the one where the spaces stop.
pub proof fn lemma_skip_spaces_at(s: Seq<u8>, i: int, j: int)
    requires
        0 <= i <= j <= s.len(),
        forall|k: int| i <= k < j ==> s[k] == SPACE,
        j < s.len() ==> s[j] != SPACE,
    ensures
        skip_spaces(s, i) == j,
    decreases j - i,
{
    if i < j {
        lemma_skip_spaces_at(s, i + 1, j);
    }
}

/// The first `b` is the one where the other bytes stop.
pub proof fn lemma_find_byte_at(s: Seq<u8>, i: int, j: int, b: u8)
    requires
        0 <= i <= j <= s.len(),
        forall|k: int| i <= k < j ==> s[k] != b,
        j < s.len() ==> s[j] == b,
    ensures
        find_byte(s, i, b) == j,
    decreases j - i,
{
    if i < j {
        lemma_find_byte_at(s, i + 1, j, b);
    }
}

/// A clean text followed by `'\n'` is read back whole, whatever follows.
pub proof fn lemma_text_field_clean(t: Seq<u8>, rest: Seq<u8>)
    requires
        is_clean_text(t),
    ensures
        text_field(t + seq![LF] + rest) == Some((t, t.len() + 1int)),
{
    let s = t + seq![LF] + rest;
    lemma_skip_spaces_at(s, 0, 0);
    lemma_find_byte_at(s, 1, t.len() as int, LF);
    assert(s.subrange(1, t.len() as int) =~= t.drop_first());
    assert(seq![t[0]] + t.drop_first() =~= t);
}

/// A clean word followed by a space is read back whole, whatever follows.
pub proof fn lemma_word_field_clean(w: Seq<u8>, rest: Seq<u8>)
    requires
        is_clean_word(w),
    ensures
        word_field(w + seq![SPACE] + rest) == Ok::<(Seq<u8>, int), FieldGap>((w, w.len() + 1int)),
{
    let s = w + seq![SPACE] + rest;
    lemma_skip_spaces_at(s, 0, 0);
    lemma_find_byte_at(s, 1, w.len() as int, SPACE);
    assert(s.subrange(0, w.len() as int) =~= w);
}

/// The index of the first byte at or after `pos` that is not a space.
pub fn skip_spaces_from(input: &[u8], pos: usize) -> (r: usize)
    requires
        pos <= input@.len(),
    ensures
        r == skip_spaces(input@, pos as int),
        pos <= r <= input@.len(),
{
    let mut i = pos;
    while i < input.len() && input[i] == SPACE
        invariant
            pos <= i <= input@.len(),
            skip_spaces(input@, i as int) == skip_spaces(input@, pos as int),
        decreases input@.len() - i,
    {
        i += 1;
    }
    i
}

/// The index of the first byte `b` at or after `pos`.
pub fn find_byte_from(input: &[u8], pos: usize, b: u8) -> (r: usize)
    requires
        pos <= input@.len(),
    ensures
        r == find_byte(input@, pos as int, b),
        pos <= r <= input@.len(),
{
    let mut i = pos;
    while i < input.len() && input[i] != b
        invariant
            pos <= i <= input@.len(),
            find_byte(input@, i as int, b) == find_byte(input@, pos as int, b),
        decreases input@.len() - i,
    {
        i += 1;
    }
    i
}

/// Copies `input[from..to]` into a new vector.
pub fn copy_range(input: &[u8], from: usize, to: usize) -> (r: Vec<u8>)
    requires
        from <= to <= input@.len(),
    ensures
        r@ == input@.subrange(from as int, to as int),
{
    vstd::slice::slice_to_vec(vstd::slice::slice_subrange(input, from, to))
}

/// The part of `input` from `from` on.
pub fn tail(input: &[u8], from: usize) -> (r: &[u8])
    requires
        from <= input@.len(),
    ensures
        r@ == input@.subrange(from as int, input@.len() as int),
{
    vstd::slice::slice_subrange(input, from, input.len())
}

/// Reads a text field (see [`text_field`]).
pub fn read_text(input: &[u8]) -> (r: Option<(Vec<u8>, usize)>)
    ensures
        match r {
            Some((t, n)) => text_field(input@) == Some((t@, n as int)),
            None => text_field(input@) is None,
        },
        r matches Some((_, n)) ==> n <= input@.len(),
{
    proof {
        lemma_text_field_bound(input@);
    }
    let j = skip_spaces_from(input, 0);
    if j < input.len() {
        let k = find_byte_from(input, j + 1, LF);
        let mut t: Vec<u8> = Vec::new();
        t.push(input[j]);
        let mut end = k;
        if k > j + 1 && input[k - 1] == CR {
            end = k - 1;
        }
        let mut i = j + 1;
        while i < end
            invariant
                j + 1 <= i <= end <= k <= input@.len(),
                j < input@.len(),
                t@ == seq![input@[j as int]] + input@.subrange(j + 1, i as int),
            decreases end - i,
        {
            t.push(input[i]);
            i += 1;
            assert(t@ =~= seq![input@[j as int]] + input@.subrange(j + 1, i as int));
        }
        proof {
            let raw = input@.subrange(j + 1, k as int);
            assert(t@ =~= seq![input@[j as int]] + strip_cr(raw));
        }
        let n = if k < input.len() {
            k + 1
        } else {
            input.len()
        };
        Some((t, n))
    } else {
        None
    }
}

/// Reads a word field (see [`word_field`]).
pub fn read_word(input: &[u8]) -> (r: Result<(Vec<u8>, usize), FieldGap>)
    ensures
        match r {
            Ok((w, n)) => word_field(input@) == Ok::<(Seq<u8>, int), FieldGap>((w@, n as int)),
            Err(g) => word_field(input@) == Err::<(Seq<u8>, int), FieldGap>(g),
        },
        r matches Ok((_, n)) ==> n <= input@.len(),
{
    proof {
        lemma_word_field_bound(input@);
    }
    let j = skip_spaces_from(input, 0);
    if j >= input.len() {
        return Err(FieldGap::Missing);
    }
    let k = find_byte_from(input, j + 1, SPACE);
    if k >= input.len() {
        return Err(FieldGap::Eof);
    }
    Ok((copy_range(input, j, k), k + 1))
}

/// Whether two byte strings are equal.
pub fn bytes_eq(a: &[u8], b: &[u8]) -> (r: bool)
    ensures
        r == (a@ == b@),
{
    if a.len() != b.len() {
        return false;
    }
    let mut i: usize = 0;
    while i < a.len()
        invariant
            a@.len() == b@.len(),
            i <= a@.len(),
            forall|k: int| 0 <= k < i ==> a@[k] == b@[k],
        decreases a@.len() - i,
    {
        if a[i] != b[i] {
            return false;
        }
        i += 1;
    }
    assert(a@ =~= b@);
    true
}

/// Whether `input` holds `expected` at `pos`.
pub fn holds_at(input: &[u8], pos: usize, expected: &[u8]) -> (r: bool)
    requires
        pos <= input@.len(),
    ensures
        r == (pos + expected@.len() <= input@.len() && input@.subrange(
            pos as int,
            pos + expected@.len(),
        ) == expected@),
{
    if expected.len() > input.len() - pos {
        return false;
    }
    bytes_eq(vstd::slice::slice_subrange(input, pos, pos + expected.len()), expected)
}

/// Appends the bytes of `b` to `out`.
pub fn push_all(out: &mut Vec<u8>, b: &[u8])
    ensures
        final(out)@ == old(out)@ + b@,
{
    let mut i: usize = 0;
    while i < b.len()
        invariant
            i <= b@.len(),
            out@ == old(out)@ + b@.subrange(0, i as int),
        decreases b@.len() - i,
    {
        out.push(b[i]);
        i += 1;
        assert(out@ =~= old(out)@ + b@.subrange(0, i as int));
    }
    assert(b@.subrange(0, b@.len() as int) =~= b@);
}

/// Whether `b` is one of `'0'..='9'`.
pub open spec fn is_digit(b: u8) -> bool {
    ZERO <= b <= ZERO + 9
}

/// Whether every byte of `d` is a digit.
pub open spec fn all_digits(d: Seq<u8>) -> bool {
    forall|i: int| 0 <= i < d.len() ==> #[trigger] is_digit(d[i])
}

/// The number written by the decimal digits `d`.
pub open spec fn decimal_value(d: Seq<u8>) -> nat
    decreases d.len(),
{
    if d.len() == 0 {
        0
    } else {
        decimal_value(d.drop_last()) * 10 + (d.last() - ZERO) as nat
    }
}

/// The digits of an unsigned number: the text without one leading `'+'`.
pub open spec fn unsigned_digits(t: Seq<u8>) -> Seq<u8> {
    if t.len() > 0 && t[0] == PLUS {
        t.drop_first()
    } else {
        t
    }
}

/// The unsigned number written by `t` (an optional `'+'`, then at least one
/// decimal digit and nothing else) when it is at most `max`.
pub open spec fn parse_unsigned(t: Seq<u8>, max: int) -> Option<nat> {
    let d = unsigned_digits(t);
    if d.len() > 0 && all_digits(d) && decimal_value(d) <= max {
        Some(decimal_value(d))
    } else {
        None
    }
}

/// The decimal digits of `n`, without leading zeros.
pub open spec fn decimal_digits(n: nat) -> Seq<u8>
    decreases n,
{
    if n < 10 {
        seq![(ZERO + n) as u8]
    } else {
        decimal_digits(n / 10).push((ZERO + n % 10) as u8)
    }
}

proof fn lemma_decimal_prefix_le(d: Seq<u8>, i: int)
    requires
        0 <= i <= d.len(),
        all_digits(d),
    ensures
        decimal_value(d.subrange(0, i)) <= decimal_value(d),
    decreases d.len() - i,
{
    if i < d.len() {
        lemma_decimal_prefix_le(d, i + 1);
        assert(d.subrange(0, i + 1).drop_last() =~= d.subrange(0, i));
    } else {
        assert(d.subrange(0, i) =~= d);
    }
}

/// The digits of `n` are digits, and they write `n`.
pub proof fn lemma_decimal_digits(n: nat)
    ensures
        decimal_digits(n).len() > 0,
        all_digits(decimal_digits(n)),
        decimal_value(decimal_digits(n)) == n,
        decimal_digits(n)[0] != PLUS,
        decimal_digits(n)[0] != SPACE,
        forall|i: int| 0 <= i < decimal_digits(n).len() ==> #[trigger] decimal_digits(n)[i] != LF,
        decimal_digits(n).last() != CR,
    decreases n,
{
    if n < 10 {
        let d = decimal_digits(n);
        assert(d.drop_last() =~= Seq::<u8>::empty());
        assert(d.len() == 1);
        assert(d.last() == (ZERO + n) as u8);
        assert(decimal_value(d) == decimal_value(d.drop_last()) * 10 + (d.last() - ZERO) as nat);
    } else {
        lemma_decimal_digits(n / 10);
        let p = decimal_digits(n / 10);
        let d = decimal_digits(n);
        assert(d.drop_last() =~= p);
        assert(d[0] == p[0]);
        assert forall|i: int| 0 <= i < d.len() implies #[trigger] is_digit(d[i]) by {
            if i < p.len() {
                assert(d[i] == p[i]);
            }
        }
        assert((n / 10) * 10 + n % 10 == n);
        assert(n % 10 < 10);
        assert(d.last() == (ZERO + n % 10) as u8);
        assert((d.last() - ZERO) as nat == n % 10);
        assert(decimal_value(d) == decimal_value(p) * 10 + n % 10);
    }
}

/// A number written by its own digits reads back as itself.
pub proof fn lemma_parse_decimal_digits(n: nat, max: int)
    requires
        n <= max,
    ensures
        parse_unsigned(decimal_digits(n), max) == Some(n),
{
    lemma_decimal_digits(n);
}

/// Reads the unsigned number written by `t` when it fits in a `u64`.
pub fn parse_u64(t: &[u8]) -> (r: Option<u64>)
    ensures
        match r {
            Some(v) => parse_unsigned(t@, u64::MAX as int) == Some(v as nat),
            None => parse_unsigned(t@, u64::MAX as int) is None,
        },
{
    let start: usize = if t.len() > 0 && t[0] == PLUS {
        1
    } else {
        0
    };
    let ghost d = unsigned_digits(t@);
    assert(d =~= t@.subrange(start as int, t@.len() as int));
    if start >= t.len() {
        return None;
    }
    let mut acc: u64 = 0;
    let mut i = start;
    while i < t.len()
        invariant
            start <= i <= t@.len(),
            d =~= t@.subrange(start as int, t@.len() as int),
            d == unsigned_digits(t@),
            all_digits(d.subrange(0, i - start)),
            acc as nat == decimal_value(d.subrange(0, i - start)),
        decreases t@.len() - i,
    {
        let b = t[i];
        if b < ZERO || b > ZERO + 9 {
            assert(d[i - start] == b);
            assert(!is_digit(d[i - start]));
            assert(!all_digits(d));
            return None;
        }
        proof {
            assert(d.subrange(0, i + 1 - start).drop_last() =~= d.subrange(0, i - start));
            assert(all_digits(d.subrange(0, i + 1 - start)));
        }
        let digit = (b - ZERO) as u64;
        match acc.checked_mul(10) {
            Some(m) => match m.checked_add(digit) {
                Some(v) => {
                    acc = v;
                },
                None => {
                    proof {
                        if all_digits(d) {
                            lemma_decimal_prefix_le(d, i + 1 - start);
                        }
                    }
                    return None;
                },
            },
            None => {
                proof {
                    if all_digits(d) {
                        lemma_decimal_prefix_le(d, i + 1 - start);
                    }
                }
                return None;
            },
        }
        i += 1;
    }
    assert(d.subrange(0, i - start) =~= d);
    Some(acc)
}

/// Reads the unsigned number written by `t` when it fits in a `usize`.
pub fn parse_usize(t: &[u8]) -> (r: Option<usize>)
    ensures
        match r {
            Some(v) => parse_unsigned(t@, usize::MAX as int) == Some(v as nat),
            None => parse_unsigned(t@, usize::MAX as int) is None,
        },
{
    match parse_u64(t) {
        Some(v) => {
            if v as u128 <= usize::MAX as u128 {
                Some(v as usize)
            } else {
                None
            }
        },
        None => {
            proof {
                let d = unsigned_digits(t@);
                assert(usize::MAX as int <= u64::MAX as int);
            }
            None
        },
    }
}

/// Appends the decimal digits of `n` to `out`.
pub fn push_decimal(out: &mut Vec<u8>, n: u64)
    ensures
        final(out)@ == old(out)@ + decimal_digits(n as nat),
    decreases n,
{
    if n >= 10 {
        push_decimal(out, n / 10);
    }
    out.push(ZERO + (n % 10) as u8);
    proof {
        if n < 10 {
            assert(final(out)@ =~= old(out)@ + decimal_digits(n as nat));
        } else {
            assert(final(out)@ =~= old(out)@ + decimal_digits(n as nat));
        }
    }
}


/// An ASCII text field (see [`text_field`]): a missing text is reported
/// under `label`.
pub open spec fn ascii_text_spec(s: Seq<u8>, label: &'static str) -> Result<(Seq<u8>, int), ErrorV> {
    match text_field(s) {
        None => Err(ErrorV::MissingToken(label)),
        Some((t, n)) => if is_ascii_bytes(t) {
            Ok((t, n))
        } else {
            Err(ErrorV::InvalidAscii(crate::error::utf8_lossy(t)))
        },
    }
}

/// An ASCII word field (see [`word_field`]): a missing word is reported
/// under `label`.
pub open spec fn ascii_word_spec(s: Seq<u8>, label: &'static str) -> Result<(Seq<u8>, int), ErrorV> {
    match word_field(s) {
        Err(FieldGap::Missing) => Err(ErrorV::MissingToken(label)),
        Err(FieldGap::Eof) => Err(ErrorV::UnexpectedEof),
        Ok((w, n)) => if is_ascii_bytes(w) {
            Ok((w, n))
        } else {
            Err(ErrorV::InvalidAscii(crate::error::utf8_lossy(w)))
        },
    }
}

/// Reads an ASCII text field.
pub fn decode_ascii_text(input: &[u8], label: &'static str) -> (r: Result<(AsciiString, usize), Error>)
    ensures
        decoded(r) == ascii_text_spec(input@, label),
        r matches Ok((_, n)) ==> n <= input@.len(),
{
    match read_text(input) {
        None => Err(Error::MissingToken(label)),
        Some((t, n)) => match AsciiString::from_bytes(t) {
            Ok(a) => Ok((a, n)),
            Err(b) => Err(Error::InvalidAscii(crate::error::lossy_text(b.as_slice()))),
        },
    }
}

/// Reads an ASCII word field.
pub fn decode_ascii_word(input: &[u8], label: &'static str) -> (r: Result<(AsciiString, usize), Error>)
    ensures
        decoded(r) == ascii_word_spec(input@, label),
        r matches Ok((_, n)) ==> n <= input@.len(),
{
    match read_word(input) {
        Err(FieldGap::Missing) => Err(Error::MissingToken(label)),
        Err(FieldGap::Eof) => Err(Error::UnexpectedEof),
        Ok((w, n)) => match AsciiString::from_bytes(w) {
            Ok(a) => Ok((a, n)),
            Err(b) => Err(Error::InvalidAscii(crate::error::lossy_text(b.as_slice()))),
        },
    }
}

/// A size field (see [`text_field`]): decimal digits up to the end of the
/// line, that must be valid UTF-8 and write a number at most `max`.
pub open spec fn size_text_spec(s: Seq<u8>, label: &'static str, max: int) -> Result<(nat, int), ErrorV> {
    match text_field(s) {
        None => Err(ErrorV::MissingToken(label)),
        Some((t, n)) => if !vstd::utf8::valid_utf8(t) {
            Err(ErrorV::InvalidUtf8(crate::error::utf8_lossy(t)))
        } else {
            match parse_unsigned(t, max) {
                Some(v) => Ok((v, n)),
                None => Err(ErrorV::ParseInt(crate::error::utf8_lossy(t))),
            }
        },
    }
}

/// The string slice of `bytes`, when they are valid UTF-8.
///
/// Calls `std::str::from_utf8`, which succeeds exactly on valid UTF-8 (the
/// contract states that in the terms of vstd's UTF-8 definition) and then
/// gives back the same bytes as a string slice.
#[verifier::external_body]
pub(crate) fn str_from_utf8(bytes: &[u8]) -> (r: Option<&str>)
    ensures
        r is Some <==> vstd::utf8::valid_utf8(bytes@),
        r matches Some(s) ==> s.spec_bytes() == bytes@,
{
    std::str::from_utf8(bytes).ok()
}

/// Whether `bytes` is valid UTF-8.
pub(crate) fn is_valid_utf8(bytes: &[u8]) -> (r: bool)
    ensures
        r == vstd::utf8::valid_utf8(bytes@),
{
    str_from_utf8(bytes).is_some()
}

/// Reads a size field that fits in a `u64`.
pub fn decode_size_u64(input: &[u8], label: &'static str) -> (r: Result<(u64, usize), Error>)
    ensures
        match r {
            Ok((v, n)) => size_text_spec(input@, label, u64::MAX as int) == Ok::<(nat, int), ErrorV>((v as nat, n as int)),
            Err(e) => size_text_spec(input@, label, u64::MAX as int) == Err::<(nat, int), ErrorV>(e@),
        },
        r matches Ok((_, n)) ==> n <= input@.len(),
{
    match read_text(input) {
        None => Err(Error::MissingToken(label)),
        Some((t, n)) => {
            if !is_valid_utf8(t.as_slice()) {
                return Err(Error::InvalidUtf8(crate::error::lossy_text(t.as_slice())));
            }
            match parse_u64(t.as_slice()) {
                Some(v) => Ok((v, n)),
                None => Err(Error::ParseInt(crate::error::lossy_text(t.as_slice()))),
            }
        },
    }
}

/// Reads a size field that fits in a `usize`.
pub fn decode_size_usize(input: &[u8], label: &'static str) -> (r: Result<(usize, usize), Error>)
    ensures
        match r {
            Ok((v, n)) => size_text_spec(input@, label, usize::MAX as int) == Ok::<(nat, int), ErrorV>((v as nat, n as int)),
            Err(e) => size_text_spec(input@, label, usize::MAX as int) == Err::<(nat, int), ErrorV>(e@),
        },
        r matches Ok((_, n)) ==> n <= input@.len(),
{
    match read_text(input) {
        None => Err(Error::MissingToken(label)),
        Some((t, n)) => {
            if !is_valid_utf8(t.as_slice()) {
                return Err(Error::InvalidUtf8(crate::error::lossy_text(t.as_slice())));
            }
            match parse_usize(t.as_slice()) {
                Some(v) => Ok((v, n)),
                None => Err(Error::ParseInt(crate::error::lossy_text(t.as_slice()))),
            }
        },
    }
}

/// ASCII bytes are valid UTF-8.
pub proof fn lemma_ascii_valid_utf8(d: Seq<u8>)
    requires
        is_ascii_bytes(d),
    ensures
        vstd::utf8::valid_utf8(d),
    decreases d.len(),
{
    if d.len() > 0 {
        let b = d[0];
        assert(b < 128);
        assert(b & 0x7f <= 0x7f) by (bit_vector);
        let rest = d.subrange(1, d.len() as int);
        assert(is_ascii_bytes(rest)) by {
            assert forall|i: int| 0 <= i < rest.len() implies #[trigger] rest[i] < 128 by {
                assert(rest[i] == d[i + 1]);
            }
        }
        lemma_ascii_valid_utf8(rest);
        assert(vstd::utf8::pop_first_scalar(d) =~= rest);
    }
}

/// Decimal digits are ASCII, hence valid UTF-8.
pub proof fn lemma_digits_valid_utf8(d: Seq<u8>)
    requires
        all_digits(d),
    ensures
        vstd::utf8::valid_utf8(d),
        is_ascii_bytes(d),
{
    assert forall|i: int| 0 <= i < d.len() implies #[trigger] d[i] < 128 by {
        assert(is_digit(d[i]));
    }
    lemma_ascii_valid_utf8(d);
}

/// A raw line: the bytes up to the next `'\n'` or the end of the input,
/// without one trailing `'\r'`, and the number of bytes consumed.
pub open spec fn line_field(s: Seq<u8>) -> (Seq<u8>, int) {
    let k = find_byte(s, 0, LF);
    (
        strip_cr(s.subrange(0, k)),
        if k < s.len() {
            k + 1
        } else {
            s.len() as int
        },
    )
}

/// Reads a raw line (see [`line_field`]).
pub fn read_line(input: &[u8]) -> (r: (Vec<u8>, usize))
    ensures
        (r.0@, r.1 as int) == line_field(input@),
{
    let k = find_byte_from(input, 0, LF);
    let end = if k > 0 && input[k - 1] == CR {
        k - 1
    } else {
        k
    };
    let t = copy_range(input, 0, end);
    assert(t@ =~= strip_cr(input@.subrange(0, k as int)));
    let n = if k < input.len() {
        k + 1
    } else {
        input.len()
    };
    (t, n)
}

/// A text field consumes at least one byte and no more than there are.
pub proof fn lemma_text_field_bound(s: Seq<u8>)
    ensures
        text_field(s) matches Some((t, n)) ==> 0 < n <= s.len(),
{
    lemma_skip_spaces(s, 0);
    let j = skip_spaces(s, 0);
    if j < s.len() {
        lemma_find_byte(s, j + 1, LF);
    }
}

/// A word field consumes at least one byte and no more than there are.
pub proof fn lemma_word_field_bound(s: Seq<u8>)
    ensures
        word_field(s) matches Ok((w, n)) ==> 0 < n <= s.len(),
{
    lemma_skip_spaces(s, 0);
    let j = skip_spaces(s, 0);
    if j < s.len() {
        lemma_find_byte(s, j + 1, SPACE);
    }
}

/// A raw line consumes no more bytes than there are.
pub proof fn lemma_line_field_bound(s: Seq<u8>)
    ensures
        0 <= line_field(s).1 <= s.len(),
{
    lemma_find_byte(s, 0, LF);
}

/// A line that starts with `'\n'` is empty and consumes that byte.
pub proof fn lemma_line_field_empty(rest: Seq<u8>)
    ensures
        line_field(seq![LF] + rest) == (Seq::<u8>::empty(), 1int),
{
    let s = seq![LF] + rest;
    lemma_find_byte_at(s, 0, 0, LF);
    assert(s.subrange(0, 0) =~= Seq::<u8>::empty());
}

/// A clean ASCII text followed by `'\n'` reads back whole, whatever follows.
pub proof fn lemma_ascii_text_clean(t: Seq<u8>, rest: Seq<u8>, label: &'static str)
    requires
        is_clean_text(t),
        is_ascii_bytes(t),
    ensures
        ascii_text_spec(t + seq![LF] + rest, label) == Ok::<(Seq<u8>, int), ErrorV>((t, t.len() + 1int)),
{
    lemma_text_field_clean(t, rest);
}

/// A line text: no `'\n'` in it, and no `'\r'` at its end.
pub open spec fn is_line_content(t: Seq<u8>) -> bool {
    &&& forall|i: int| 0 <= i < t.len() ==> #[trigger] t[i] != LF
    &&& (t.len() > 0 ==> t.last() != CR)
}

/// A line text followed by `'\n'` reads back whole as a raw line, whatever
/// follows.
pub proof fn lemma_line_field_clean(t: Seq<u8>, rest: Seq<u8>)
    requires
        is_line_content(t),
    ensures
        line_field(t + seq![LF] + rest) == (t, t.len() + 1int),
{
    let s = t + seq![LF] + rest;
    lemma_find_byte_at(s, 0, t.len() as int, LF);
    assert(s.subrange(0, t.len() as int) =~= t);
}

} // verus!
