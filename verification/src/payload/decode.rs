//! Reading a binary payload.

use vstd::prelude::*;

use crate::error::{Error, ErrorV};
use crate::function::tail;
use crate::header::property::{property_size_spec, Properties, PropertyV, ScalarSizes};
use crate::header::{element_map_get_index, element_map_len, swapped_on, ElementV, Format, Header};

use super::{data_view, Payload, ScalarPayload};

verus! {

/// The bytes in the order they are stored: reversed when `reverse`.
pub open spec fn ordered(t: Seq<u8>, reverse: bool) -> Seq<u8> {
    if reverse {
        Seq::new(t.len(), |i: int| t[t.len() - 1 - i])
    } else {
        t
    }
}

/// The size of one datum of each property, or the first error.
pub open spec fn sizes_spec(ps: Seq<(Seq<u8>, PropertyV)>, sizes: Seq<(Seq<u8>, usize)>) -> Result<Seq<usize>, ErrorV>
    decreases ps.len(),
{
    if ps.len() == 0 {
        Ok(Seq::empty())
    } else {
        match sizes_spec(ps.drop_last(), sizes) {
            Err(e) => Err(e),
            Ok(zs) => match property_size_spec(ps.last().1, sizes) {
                Err(e) => Err(e),
                Ok(z) => Ok(zs.push(z)),
            },
        }
    }
}

/// Where the datum of property `k` starts in a record: the sizes before it.
pub open spec fn offset(zs: Seq<usize>, k: int) -> int
    decreases k,
{
    if k <= 0 {
        0
    } else {
        offset(zs, k - 1) + zs[k - 1]
    }
}

/// The size of a record: the sizes of all properties.
pub open spec fn record_size(zs: Seq<usize>) -> int {
    offset(zs, zs.len() as int)
}

/// The datum of each property in a record, in the order they are stored.
pub open spec fn record_pieces(rec: Seq<u8>, zs: Seq<usize>, reverse: bool) -> Seq<Seq<u8>> {
    Seq::new(zs.len(), |k: int| ordered(rec.subrange(offset(zs, k), offset(zs, k) + zs[k]), reverse))
}

/// The data of `count` records read from the front of `s`: for each
/// property, its data of each record in turn; and the number of bytes
/// consumed. The input ending within a record is
/// [`ErrorV::UnexpectedEof`].
pub open spec fn records_spec(s: Seq<u8>, zs: Seq<usize>, count: nat, reverse: bool) -> Result<
    (Seq<Seq<u8>>, int),
    ErrorV,
>
    decreases count,
{
    if count == 0 {
        Ok((Seq::new(zs.len(), |k: int| Seq::<u8>::empty()), 0))
    } else if s.len() < record_size(zs) {
        Err(ErrorV::UnexpectedEof)
    } else {
        let r = record_size(zs);
        match records_spec(s.subrange(r, s.len() as int), zs, (count - 1) as nat, reverse) {
            Err(e) => Err(e),
            Ok((d, n)) => Ok(
                (
                    Seq::new(zs.len(), |k: int| record_pieces(s.subrange(0, r), zs, reverse)[k] + d[k]),
                    r + n,
                ),
            ),
        }
    }
}

/// The data of each element read from the front of `s`, in order, and the
/// number of bytes consumed.
pub open spec fn elements_data_spec(s: Seq<u8>, es: Seq<(Seq<u8>, ElementV)>, reverse: bool, sizes: Seq<(Seq<u8>, usize)>) -> Result<
    (Seq<Seq<Seq<u8>>>, int),
    ErrorV,
>
    decreases es.len(),
{
    if es.len() == 0 {
        Ok((Seq::empty(), 0))
    } else {
        match sizes_spec(es[0].1.properties, sizes) {
            Err(e) => Err(e),
            Ok(zs) => match records_spec(s, zs, es[0].1.count as nat, reverse) {
                Err(e) => Err(e),
                Ok((d, n)) => match elements_data_spec(
                    s.subrange(n, s.len() as int),
                    es.drop_first(),
                    reverse,
                sizes,
                ) {
                    Err(e) => Err(e),
                    Ok((ds, m)) => Ok((seq![d] + ds, n + m)),
                },
            },
        }
    }
}

/// The value of a payload reading result: the data and the number of
/// bytes consumed, or the error.
pub open spec fn decoded_payload(r: Result<(Payload, usize), Error>) -> Result<
    (Seq<Seq<Seq<u8>>>, int),
    ErrorV,
> {
    match r {
        Ok((Payload::Scalar(p), n)) => Ok((data_view(p.data@), n as int)),
        Err(e) => Err(e@),
    }
}

/// Whether a property of an element is a list property, whose payload
/// reading is not implemented.
pub open spec fn has_list_property(es: Seq<(Seq<u8>, ElementV)>) -> bool {
    exists|i: int, j: int|
        0 <= i < es.len() && 0 <= j < es[i].1.properties.len() && (#[trigger] es[i].1.properties[j]).1.0 is List
}

/// Whether the record of each element fits in a `usize` whenever the sizes
/// of its properties are known.
pub open spec fn record_sizes_fit(es: Seq<(Seq<u8>, ElementV)>, sizes: Seq<(Seq<u8>, usize)>) -> bool {
    forall|i: int|
        0 <= i < es.len() ==> match #[trigger] sizes_spec(es[i].1.properties, sizes) {
            Ok(zs) => record_size(zs) <= usize::MAX,
            Err(_) => true,
        }
}

pub(crate) proof fn lemma_offset_mono(zs: Seq<usize>, j: int, k: int)
    requires
        0 <= j <= k <= zs.len(),
    ensures
        0 <= offset(zs, j) <= offset(zs, k),
    decreases k - j,
{
    if j < k {
        lemma_offset_mono(zs, j, k - 1);
    } else {
        lemma_offset_nonneg(zs, j);
    }
}

pub(crate) proof fn lemma_offset_nonneg(zs: Seq<usize>, k: int)
    requires
        0 <= k <= zs.len(),
    ensures
        offset(zs, k) >= 0,
    decreases k,
{
    if k > 0 {
        lemma_offset_nonneg(zs, k - 1);
    }
}

proof fn lemma_records_bound(s: Seq<u8>, zs: Seq<usize>, count: nat, reverse: bool)
    ensures
        records_spec(s, zs, count, reverse) matches Ok((d, n)) ==> 0 <= n <= s.len() && d.len()
            == zs.len(),
    decreases count,
{
    if count > 0 && s.len() >= record_size(zs) {
        lemma_offset_nonneg(zs, zs.len() as int);
        lemma_records_bound(s.subrange(record_size(zs), s.len() as int), zs, (count - 1) as nat, reverse);
    }
}

/// The data of elements consumes no more bytes than there are.
pub proof fn lemma_elements_data_bound(s: Seq<u8>, es: Seq<(Seq<u8>, ElementV)>, reverse: bool, sizes: Seq<(Seq<u8>, usize)>)
    ensures
        elements_data_spec(s, es, reverse, sizes) matches Ok((d, n)) ==> 0 <= n <= s.len(),
    decreases es.len(),
{
    if es.len() > 0 {
        if let Ok(zs) = sizes_spec(es[0].1.properties, sizes) {
            lemma_records_bound(s, zs, es[0].1.count as nat, reverse);
            if let Ok((d, n)) = records_spec(s, zs, es[0].1.count as nat, reverse) {
                lemma_elements_data_bound(s.subrange(n, s.len() as int), es.drop_first(), reverse, sizes);
            }
        }
    }
}

/// The sizes of the properties (see [`sizes_spec`]).
pub(crate) fn property_sizes_in_order(properties: &Properties, sizes: &ScalarSizes) -> (r: Result<Vec<usize>, Error>)
    ensures
        match r {
            Ok(zs) => sizes_spec(properties@, sizes@) == Ok::<Seq<usize>, ErrorV>(zs@),
            Err(e) => sizes_spec(properties@, sizes@) == Err::<Seq<usize>, ErrorV>(e@),
        },
{
    let mut each = properties.property_sizes(sizes);
    let mut zs: Vec<usize> = Vec::new();
    let mut i: usize = 0;
    assert(properties@.subrange(0, 0) =~= Seq::<(Seq<u8>, PropertyV)>::empty());
    while i < each.len()
        invariant
            each@.len() == properties@.len(),
            i <= each@.len(),
            forall|j: int|
                0 <= j < each@.len() ==> match #[trigger] each@[j] {
                    Ok(n) => property_size_spec(properties@[j].1, sizes@) == Ok::<usize, ErrorV>(n),
                    Err(e) => property_size_spec(properties@[j].1, sizes@) == Err::<usize, ErrorV>(e@),
                },
            sizes_spec(properties@.subrange(0, i as int), sizes@) == Ok::<Seq<usize>, ErrorV>(zs@),
        decreases each@.len() - i,
    {
        let ghost next = properties@.subrange(0, i + 1);
        assert(next.drop_last() =~= properties@.subrange(0, i as int));
        assert(next.last() == properties@[i as int]);
        if let Ok(z) = &each[i] {
            zs.push(*z);
        } else {
            proof {
                lemma_sizes_error_prefix(properties@, i as int + 1, sizes@);
            }
            match each.remove(i) {
                Err(e) => return Err(e),
                Ok(_) => {
                    assert(false);
                },
            }
        }
        i += 1;
    }
    assert(properties@.subrange(0, i as int) =~= properties@);
    Ok(zs)
}

/// An error in a prefix is the error of the whole.
proof fn lemma_sizes_error_prefix(ps: Seq<(Seq<u8>, PropertyV)>, i: int, sizes: Seq<(Seq<u8>, usize)>)
    requires
        0 <= i <= ps.len(),
        sizes_spec(ps.subrange(0, i), sizes) is Err,
    ensures
        sizes_spec(ps, sizes) == sizes_spec(ps.subrange(0, i), sizes),
    decreases ps.len() - i,
{
    if i < ps.len() {
        let next = ps.subrange(0, i + 1);
        assert(next.drop_last() =~= ps.subrange(0, i));
        lemma_sizes_error_prefix(ps, i + 1, sizes);
    } else {
        assert(ps.subrange(0, i) =~= ps);
    }
}

/// The values of data gathered for each property.
pub open spec fn pieces_view(d: Seq<Vec<u8>>) -> Seq<Seq<u8>> {
    d.map_values(|p: Vec<u8>| p@)
}

/// `acc` with the data of the rest appended to each property.
pub open spec fn glue(
    acc: Seq<Seq<u8>>,
    consumed: int,
    r: Result<(Seq<Seq<u8>>, int), ErrorV>,
) -> Result<(Seq<Seq<u8>>, int), ErrorV> {
    match r {
        Err(e) => Err(e),
        Ok((d, n)) => Ok((Seq::new(acc.len(), |k: int| acc[k] + d[k]), consumed + n)),
    }
}

/// Appends the bytes of `t[from..to]`, reversed when `reverse`.
pub(crate) fn push_ordered(out: &mut Vec<u8>, t: &[u8], from: usize, to: usize, reverse: bool)
    requires
        from <= to <= t@.len(),
    ensures
        final(out)@ == old(out)@ + ordered(t@.subrange(from as int, to as int), reverse),
{
    let ghost piece = t@.subrange(from as int, to as int);
    if reverse {
        let mut i = to;
        while i > from
            invariant
                from <= i <= to <= t@.len(),
                piece == t@.subrange(from as int, to as int),
                out@ == old(out)@ + ordered(piece, true).subrange(0, to - i),
            decreases i - from,
        {
            i -= 1;
            out.push(t[i]);
            assert(out@ =~= old(out)@ + ordered(piece, true).subrange(0, to - i));
        }
        assert(ordered(piece, true).subrange(0, to - from) =~= ordered(piece, true));
    } else {
        let mut i = from;
        while i < to
            invariant
                from <= i <= to <= t@.len(),
                piece == t@.subrange(from as int, to as int),
                out@ == old(out)@ + piece.subrange(0, i - from),
            decreases to - i,
        {
            out.push(t[i]);
            i += 1;
            assert(out@ =~= old(out)@ + piece.subrange(0, i - from));
        }
        assert(piece.subrange(0, to - from) =~= piece);
    }
}

/// Reads `count` records of the given property sizes (see
/// [`records_spec`]).
fn read_records(input: &[u8], zs: &Vec<usize>, rsize: usize, count: usize, reverse: bool) -> (r: Result<
    (Vec<Vec<u8>>, usize),
    Error,
>)
    requires
        rsize == record_size(zs@),
    ensures
        match r {
            Ok((d, n)) => records_spec(input@, zs@, count as nat, reverse) == Ok::<
                (Seq<Seq<u8>>, int),
                ErrorV,
            >((pieces_view(d@), n as int)),
            Err(e) => records_spec(input@, zs@, count as nat, reverse) == Err::<
                (Seq<Seq<u8>>, int),
                ErrorV,
            >(e@),
        },
        r matches Ok((_, n)) ==> n <= input@.len(),
{
    let total = input.len();
    assert(total == input@.len());
    let np = zs.len();
    let mut acc: Vec<Vec<u8>> = Vec::new();
    let mut k: usize = 0;
    while k < np
        invariant
            k <= np == zs@.len(),
            acc@.len() == k,
            forall|j: int| 0 <= j < k ==> (#[trigger] acc@[j])@ == Seq::<u8>::empty(),
        decreases np - k,
    {
        acc.push(Vec::new());
        k += 1;
    }
    proof {
        lemma_offset_nonneg(zs@, zs@.len() as int);
        let r0 = records_spec(input@, zs@, count as nat, reverse);
        assert(input@.subrange(0, total as int) =~= input@);
        if let Ok((d, n)) = r0 {
            lemma_records_bound(input@, zs@, count as nat, reverse);
            assert(glue(pieces_view(acc@), 0, r0) == r0) by {
                assert(Seq::new(pieces_view(acc@).len(), |j: int| pieces_view(acc@)[j] + d[j]) =~= d);
            }
        }
    }
    let mut pos: usize = 0;
    let mut done: usize = 0;
    while done < count
        invariant
            pos <= total == input@.len(),
            done <= count,
            np == zs@.len(),
            acc@.len() == zs@.len(),
            rsize == record_size(zs@),
            records_spec(input@, zs@, count as nat, reverse) == glue(
                pieces_view(acc@),
                pos as int,
                records_spec(
                    input@.subrange(pos as int, total as int),
                    zs@,
                    (count - done) as nat,
                    reverse,
                ),
            ),
        decreases count - done,
    {
        if total - pos < rsize {
            return Err(Error::UnexpectedEof);
        }
        let ghost u = input@.subrange(pos as int, total as int);
        let ghost rec = u.subrange(0, rsize as int);
        let ghost before = pieces_view(acc@);
        let mut off: usize = 0;
        let mut k: usize = 0;
        while k < np
            invariant
                k <= np == zs@.len() == acc@.len(),
                before.len() == np,
                pos + rsize <= total == input@.len(),
                rsize == record_size(zs@),
                off == offset(zs@, k as int),
                u == input@.subrange(pos as int, total as int),
                rec == u.subrange(0, rsize as int),
                forall|j: int|
                    0 <= j < k ==> (#[trigger] acc@[j])@ == before[j] + record_pieces(rec, zs@, reverse)[j],
                forall|j: int| k <= j < np ==> (#[trigger] acc@[j])@ == before[j],
            decreases np - k,
        {
            proof {
                lemma_offset_mono(zs@, k as int + 1, zs@.len() as int);
            }
            let z = zs[k];
            let ghost old_acc = acc@;
            push_ordered(&mut acc[k], input, pos + off, pos + off + z, reverse);
            proof {
                assert(input@.subrange(pos + off, pos + off + z) =~= rec.subrange(
                    offset(zs@, k as int),
                    offset(zs@, k as int) + zs@[k as int],
                ));
                assert forall|j: int| 0 <= j < np && j != k implies (#[trigger] acc@[j]) == old_acc[j] by {}
            }
            off = off + z;
            k += 1;
        }
        proof {
            let rest = input@.subrange(pos + rsize, total as int);
            assert(u.subrange(rsize as int, u.len() as int) =~= rest);
            let r1 = records_spec(rest, zs@, (count - done - 1) as nat, reverse);
            let c = (count - done) as nat;
            assert(c > 0);
            assert(u.len() >= record_size(zs@));
            assert(records_spec(u, zs@, c, reverse) == match r1 {
                Err(e) => Err(e),
                Ok((d, n)) => Ok::<(Seq<Seq<u8>>, int), ErrorV>(
                    (
                        Seq::new(zs@.len(), |k: int| record_pieces(u.subrange(0, rsize as int), zs@, reverse)[k] + d[k]),
                        rsize + n,
                    ),
                ),
            });
            if let Ok((d, n)) = r1 {
                let pieces = record_pieces(u.subrange(0, rsize as int), zs@, reverse);
                assert forall|j: int| 0 <= j < np implies before[j] + (pieces[j] + d[j])
                    =~= #[trigger] pieces_view(acc@)[j] + d[j] by {
                    assert(pieces_view(acc@)[j] == acc@[j]@);
                }
                let inner = Seq::new(zs@.len(), |k: int| pieces[k] + d[k]);
                assert(Seq::new(before.len(), |j: int| before[j] + inner[j]) =~= Seq::new(
                    pieces_view(acc@).len(),
                    |j: int| pieces_view(acc@)[j] + d[j],
                ));
            }
        }
        pos = pos + rsize;
        done = done + 1;
    }
    proof {
        let r1 = records_spec(input@.subrange(pos as int, total as int), zs@, 0, reverse);
        let empties = Seq::new(zs@.len(), |k: int| Seq::<u8>::empty());
        assert forall|j: int| 0 <= j < np implies #[trigger] pieces_view(acc@)[j] + empties[j]
            =~= pieces_view(acc@)[j] by {}
        assert(Seq::new(np as nat, |j: int| pieces_view(acc@)[j] + empties[j]) =~= pieces_view(acc@));
    }
    Ok((acc, pos))
}

/// The sum of the sizes.
fn sum_sizes(zs: &Vec<usize>) -> (r: usize)
    requires
        record_size(zs@) <= usize::MAX,
    ensures
        r == record_size(zs@),
{
    let mut total: usize = 0;
    let mut k: usize = 0;
    while k < zs.len()
        invariant
            k <= zs@.len(),
            record_size(zs@) <= usize::MAX,
            total == offset(zs@, k as int),
        decreases zs@.len() - k,
    {
        proof {
            lemma_offset_mono(zs@, k as int + 1, zs@.len() as int);
        }
        total = total + zs[k];
        k += 1;
    }
    total
}

impl Payload {
    /// Reads the payload that the header describes from the front of
    /// `input`, each datum reversed when `reverse` (see
    /// [`elements_data_spec`]); gives the payload and the number of bytes
    /// consumed.
    pub fn decode_with_order(input: &[u8], header: &Header, reverse: bool, sizes: &ScalarSizes) -> (r: Result<(Self, usize), Error>)
        requires
            record_sizes_fit(header@.elements, sizes@),
        ensures
            decoded_payload(r) == elements_data_spec(input@, header@.elements, reverse, sizes@),
            r matches Ok((_, n)) ==> n <= input@.len(),
    {
        let total = input.len();
        assert(total == input@.len());
        let ghost es = header@.elements;
        let ne = element_map_len(&header.elements.inner);
        let mut data: Vec<Vec<Vec<u8>>> = Vec::new();
        let mut pos: usize = 0;
        let mut i: usize = 0;
        proof {
            let r0 = elements_data_spec(input@, es, reverse, sizes@);
            assert(es.subrange(0, es.len() as int) =~= es);
            assert(input@.subrange(0, total as int) =~= input@);
            if let Ok((ds, m)) = r0 {
                assert(data_view(data@) + ds =~= ds);
            }
        }
        while i < ne
            invariant
                ne == es.len(),
                es == header@.elements,
                i <= ne,
                pos <= total == input@.len(),
                record_sizes_fit(es, sizes@),
                elements_data_spec(input@, es, reverse, sizes@) == match elements_data_spec(
                    input@.subrange(pos as int, total as int),
                    es.subrange(i as int, ne as int),
                    reverse,
                sizes@,
                ) {
                    Err(e) => Err(e),
                    Ok((ds, m)) => Ok::<(Seq<Seq<Seq<u8>>>, int), ErrorV>(
                        (data_view(data@) + ds, pos + m),
                    ),
                },
            decreases ne - i,
        {
            let element = match element_map_get_index(&header.elements.inner, i) {
                Some((_, e)) => e,
                None => {
                    assert(false);
                    return Err(Error::UnexpectedEof);
                },
            };
            let ghost rest_es = es.subrange(i as int, ne as int);
            assert(rest_es[0] == es[i as int]);
            assert(rest_es.drop_first() =~= es.subrange(i + 1, ne as int));
            let zs = property_sizes_in_order(&element.properties, sizes)?;
            assert(sizes_spec(es[i as int].1.properties, sizes@) == Ok::<Seq<usize>, ErrorV>(zs@));
            let rsize = sum_sizes(&zs);
            let ghost u = input@.subrange(pos as int, total as int);
            let (d, n) = read_records(tail(input, pos), &zs, rsize, element.count, reverse)?;
            let ghost before = data_view(data@);
            data.push(d);
            proof {
                assert(u.subrange(n as int, u.len() as int) =~= input@.subrange(pos + n, total as int));
                assert(data_view(data@) =~= before.push(pieces_view(d@)));
                let r1 = elements_data_spec(
                    input@.subrange(pos + n, total as int),
                    es.subrange(i + 1, ne as int),
                    reverse,
                sizes@,
                );
                if let Ok((ds, m)) = r1 {
                    assert(before + (seq![pieces_view(d@)] + ds) =~= data_view(data@) + ds);
                }
            }
            pos = pos + n;
            i += 1;
        }
        proof {
            assert(es.subrange(ne as int, ne as int) =~= Seq::<(Seq<u8>, ElementV)>::empty());
            assert(data_view(data@) + Seq::<Seq<Seq<u8>>>::empty() =~= data_view(data@));
        }
        Ok((Payload::Scalar(ScalarPayload { data }), pos))
    }

    /// Reads the payload that the header describes from the front of
    /// `input` on a machine that is little endian or not: each datum's bytes
    /// are reversed exactly when the header's format is not that machine's
    /// byte order. Gives the payload and the number of bytes consumed.
    pub fn decode_with_on(
        input: &[u8],
        header: &Header,
        little_endian: bool,
        sizes: &ScalarSizes,
    ) -> (r: Result<(Self, usize), Error>)
        requires
            header@.format != Format::Ascii,
            !has_list_property(header@.elements),
            record_sizes_fit(header@.elements, sizes@),
        ensures
            decoded_payload(r) == elements_data_spec(
                input@,
                header@.elements,
                swapped_on(header@.format, little_endian),
                sizes@,
            ),
    {
        let reverse = !header.format.is_binary_native_endian_on(little_endian);
        Payload::decode_with_order(input, header, reverse, sizes)
    }

    /// Reads the payload that the header describes from the front of
    /// `input`, each datum in the byte order of this machine; gives the
    /// payload and the number of bytes consumed.
    pub fn decode_with(input: &[u8], header: &Header, sizes: &ScalarSizes) -> (r: Result<(Self, usize), Error>)
        requires
            header@.format != Format::Ascii,
            !has_list_property(header@.elements),
            record_sizes_fit(header@.elements, sizes@),
        ensures
            decoded_payload(r) == elements_data_spec(input@, header@.elements, true, sizes@)
                || decoded_payload(r) == elements_data_spec(input@, header@.elements, false, sizes@),
    {
        Payload::decode_with_on(input, header, crate::format::native_is_little_endian(), sizes)
    }
}

} // verus!
