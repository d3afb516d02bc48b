//! What an object reads back of what it writes.

use vstd::prelude::*;

use crate::error::ErrorV;

use crate::header::encode::header_bytes;
use crate::header::roundtrip::{is_clean_header, lemma_clean_header_ascii, lemma_header_roundtrip};
use crate::header::{ElementV, HeaderV};
use crate::payload::decode::{
    elements_data_spec, lemma_offset_mono, offset, ordered, record_pieces, record_size,
    records_spec, sizes_spec,
};

use crate::header::decode::header_spec;
use crate::header::swapped_on;

use crate::header::Format;
use crate::payload::decode::{has_list_property, record_sizes_fit};

use super::{
    element_out, elements_out, min, object_out, object_readable, object_spec, object_spec_on, record_out,
    records_out,
};

verus! {

/// Whether the data of an element fit its properties: the size of each
/// property is known, and each property has the data of all records.
pub open spec fn data_fit(e: ElementV, d: Seq<Seq<u8>>, sizes: Seq<(Seq<u8>, usize)>) -> bool {
    sizes_spec(e.properties, sizes) matches Ok(zs) && zs.len() == d.len() && forall|k: int|
        0 <= k < zs.len() ==> (#[trigger] d[k]).len() == e.count * zs[k]
}

/// Whether the data of an object fit its header: one entry per element,
/// each fitting its element.
pub open spec fn object_data_fit(h: HeaderV, ds: Seq<Seq<Seq<u8>>>, sizes: Seq<(Seq<u8>, usize)>) -> bool {
    &&& ds.len() == h.elements.len()
    &&& forall|i: int| 0 <= i < ds.len() ==> data_fit(h.elements[i].1, #[trigger] ds[i], sizes)
}

/// Reading the byte order back gives what was there.
proof fn lemma_ordered_twice(t: Seq<u8>, reverse: bool)
    ensures
        ordered(ordered(t, reverse), reverse) =~= t,
        ordered(t, reverse).len() == t.len(),
{
}

/// The datum of each property that writing a record puts at its offset.
proof fn lemma_record_out(r: int, count: int, zs: Seq<usize>, data: Seq<Seq<u8>>, m: int, reverse: bool)
    requires
        0 <= r < count,
        0 <= m <= zs.len(),
        zs.len() == data.len(),
        forall|k: int| 0 <= k < zs.len() ==> (#[trigger] data[k]).len() == count * zs[k],
    ensures
        record_out(r, count, zs, data, m, reverse).1 is None,
        record_out(r, count, zs, data, m, reverse).0.len() == offset(zs, m),
        forall|k: int|
            0 <= k < m ==> #[trigger] record_out(r, count, zs, data, m, reverse).0.subrange(
                offset(zs, k),
                offset(zs, k) + zs[k],
            ) == ordered(data[k].subrange(r * zs[k], r * zs[k] + zs[k]), reverse),
    decreases m,
{
    if m > 0 {
        lemma_record_out(r, count, zs, data, m - 1, reverse);
        let z = zs[m - 1] as int;
        let len = data[m - 1].len() as int;
        assert(len == count * z);
        assert(r * z + z <= count * z && 0 <= r * z) by (nonlinear_arith)
            requires
                0 <= r < count,
                0 <= z,
        ;
        let w = record_out(r, count, zs, data, m - 1, reverse).0;
        let piece = ordered(data[m - 1].subrange(r * z, r * z + z), reverse);
        lemma_ordered_twice(data[m - 1].subrange(r * z, r * z + z), reverse);
        let w2 = w + piece;
        assert(record_out(r, count, zs, data, m, reverse).0 == w2);
        assert forall|k: int| 0 <= k < m implies #[trigger] w2.subrange(offset(zs, k), offset(zs, k) + zs[k])
            == ordered(data[k].subrange(r * zs[k], r * zs[k] + zs[k]), reverse) by {
            if k < m - 1 {
                lemma_offset_mono(zs, k + 1, m - 1);
                lemma_offset_mono(zs, 0, k);
                assert(w2.subrange(offset(zs, k), offset(zs, k) + zs[k]) =~= w.subrange(
                    offset(zs, k),
                    offset(zs, k) + zs[k],
                ));
            } else {
                assert(w2.subrange(offset(zs, k), offset(zs, k) + zs[k]) =~= piece);
            }
        }
    }
}

/// Writing records puts each record in turn, each of the size of a record.
proof fn lemma_records_out(c: int, count: int, zs: Seq<usize>, data: Seq<Seq<u8>>, reverse: bool)
    requires
        0 <= c <= count,
        zs.len() == data.len(),
        forall|k: int| 0 <= k < zs.len() ==> (#[trigger] data[k]).len() == count * zs[k],
    ensures
        records_out(c, count, zs, data, zs.len() as int, reverse).1 is None,
        records_out(c, count, zs, data, zs.len() as int, reverse).0.len() == c * record_size(zs),
        forall|r: int|
            0 <= r < c ==> #[trigger] records_out(c, count, zs, data, zs.len() as int, reverse).0.subrange(
                r * record_size(zs),
                r * record_size(zs) + record_size(zs),
            ) == record_out(r, count, zs, data, zs.len() as int, reverse).0,
    decreases c,
{
    if c > 0 {
        let m = zs.len() as int;
        let size = record_size(zs);
        lemma_records_out(c - 1, count, zs, data, reverse);
        lemma_record_out(c - 1, count, zs, data, m, reverse);
        lemma_offset_mono(zs, 0, m);
        let w = records_out(c - 1, count, zs, data, m, reverse).0;
        let w2 = w + record_out(c - 1, count, zs, data, m, reverse).0;
        assert(records_out(c, count, zs, data, m, reverse).0 == w2);
        assert((c - 1) * size + size == c * size) by (nonlinear_arith);
        assert forall|r: int| 0 <= r < c implies #[trigger] w2.subrange(r * size, r * size + size)
            == record_out(r, count, zs, data, m, reverse).0 by {
            if r < c - 1 {
                assert(r * size + size <= (c - 1) * size && 0 <= r * size) by (nonlinear_arith)
                    requires
                        0 <= r < c - 1,
                        0 <= size,
                ;
                assert(w2.subrange(r * size, r * size + size) =~= w.subrange(r * size, r * size + size));
            } else {
                assert(w2.subrange(r * size, r * size + size) =~= record_out(r, count, zs, data, m, reverse).0);
            }
        }
    }
}

/// Reading the records written from record `r0` on gives back, for each
/// property, its data from record `r0` on.
proof fn lemma_records_back(
    r0: int,
    count: int,
    zs: Seq<usize>,
    data: Seq<Seq<u8>>,
    reverse: bool,
    rest: Seq<u8>,
)
    requires
        0 <= r0 <= count,
        zs.len() == data.len(),
        forall|k: int| 0 <= k < zs.len() ==> (#[trigger] data[k]).len() == count * zs[k],
    ensures
        ({
            let w = records_out(count, count, zs, data, zs.len() as int, reverse).0;
            let size = record_size(zs);
            records_spec(w.subrange(r0 * size, count * size) + rest, zs, (count - r0) as nat, reverse)
                == Ok::<(Seq<Seq<u8>>, int), ErrorV>(
                (
                    Seq::new(zs.len(), |k: int| data[k].subrange(r0 * zs[k], count * zs[k])),
                    (count - r0) * size,
                ),
            )
        }),
    decreases count - r0,
{
    let m = zs.len() as int;
    let w = records_out(count, count, zs, data, m, reverse).0;
    let size = record_size(zs);
    lemma_records_out(count, count, zs, data, reverse);
    lemma_offset_mono(zs, 0, m);
    let s = w.subrange(r0 * size, count * size) + rest;
    assert(0 <= r0 * size <= count * size) by (nonlinear_arith)
        requires
            0 <= r0 <= count,
            0 <= size,
    ;
    if r0 == count {
        assert forall|k: int| 0 <= k < zs.len() implies #[trigger] data[k].subrange(r0 * zs[k], count * zs[k])
            =~= Seq::<u8>::empty() by {}
        assert(Seq::new(zs.len(), |k: int| data[k].subrange(r0 * zs[k], count * zs[k])) =~= Seq::new(
            zs.len(),
            |k: int| Seq::<u8>::empty(),
        ));
    } else {
        assert(r0 * size + size <= count * size && (r0 + 1) * size == r0 * size + size
            && (count - r0) * size == size + (count - (r0 + 1)) * size) by (nonlinear_arith)
            requires
                0 <= r0 < count,
                0 <= size,
        ;
        let rec = record_out(r0, count, zs, data, m, reverse).0;
        assert(w.subrange(r0 * size, r0 * size + size) == rec);
        assert(s.subrange(0, size) =~= rec);
        assert(s.subrange(size, s.len() as int) =~= w.subrange((r0 + 1) * size, count * size) + rest);
        lemma_records_back(r0 + 1, count, zs, data, reverse, rest);
        lemma_record_out(r0, count, zs, data, m, reverse);
        let d = Seq::new(zs.len(), |k: int| data[k].subrange((r0 + 1) * zs[k], count * zs[k]));
        assert forall|k: int| 0 <= k < zs.len() implies #[trigger] record_pieces(rec, zs, reverse)[k] + d[k]
            == data[k].subrange(r0 * zs[k], count * zs[k]) by {
            let z = zs[k] as int;
            assert(r0 * z + z <= count * z && (r0 + 1) * z == r0 * z + z && 0 <= r0 * z) by (nonlinear_arith)
                requires
                    0 <= r0 < count,
                    0 <= z,
            ;
            lemma_offset_mono(zs, 0, k);
            lemma_offset_mono(zs, k + 1, m);
            assert(rec.subrange(offset(zs, k), offset(zs, k) + zs[k]) == ordered(
                data[k].subrange(r0 * z, r0 * z + z),
                reverse,
            ));
            lemma_ordered_twice(data[k].subrange(r0 * z, r0 * z + z), reverse);
            assert(data[k].subrange(r0 * z, r0 * z + z) + data[k].subrange((r0 + 1) * z, count * z)
                =~= data[k].subrange(r0 * z, count * z));
        }
        assert(Seq::new(zs.len(), |k: int| record_pieces(s.subrange(0, size), zs, reverse)[k] + d[k])
            =~= Seq::new(zs.len(), |k: int| data[k].subrange(r0 * zs[k], count * zs[k])));
    }
}

/// Reading the records that writing an element gives reads back its data.
proof fn lemma_element_back(e: ElementV, d: Seq<Seq<u8>>, reverse: bool, rest: Seq<u8>, sizes: Seq<(Seq<u8>, usize)>)
    requires
        data_fit(e, d, sizes),
    ensures
        element_out(e, d, reverse, sizes).1 is None,
        records_spec(
            element_out(e, d, reverse, sizes).0 + rest,
            sizes_spec(e.properties, sizes)->Ok_0,
            e.count as nat,
            reverse,
        ) == Ok::<(Seq<Seq<u8>>, int), ErrorV>((d, element_out(e, d, reverse, sizes).0.len() as int)),
{
    let zs = sizes_spec(e.properties, sizes)->Ok_0;
    let count = e.count as int;
    let m = zs.len() as int;
    assert(min(zs.len() as int, d.len() as int) == m);
    lemma_records_out(count, count, zs, d, reverse);
    lemma_records_back(0, count, zs, d, reverse, rest);
    let w = records_out(count, count, zs, d, m, reverse).0;
    assert(0 * record_size(zs) == 0);
    assert(w.subrange(0, count * record_size(zs)) =~= w);
    assert forall|k: int| 0 <= k < zs.len() implies #[trigger] d[k].subrange(0 * zs[k], count * zs[k]) =~= d[k] by {
        assert(0 * zs[k] == 0);
    }
    assert(Seq::new(zs.len(), |k: int| d[k].subrange(0 * zs[k], count * zs[k])) =~= d);
}

/// What writing elements `0..i` gives is the front of what writing
/// elements `0..j` gives, for `i <= j`.
proof fn lemma_elements_out_prefix(es: Seq<(Seq<u8>, ElementV)>, ds: Seq<Seq<Seq<u8>>>, j: int, reverse: bool, sizes: Seq<(Seq<u8>, usize)>)
    requires
        0 <= j <= es.len(),
        ds.len() == es.len(),
        forall|i: int| 0 <= i < ds.len() ==> data_fit(es[i].1, #[trigger] ds[i], sizes),
    ensures
        elements_out(es, ds, j, reverse, sizes).1 is None,
        forall|i: int|
            0 <= i <= j ==> (#[trigger] elements_out(es, ds, i, reverse, sizes)).0.len() <= elements_out(
                es,
                ds,
                j,
                reverse,
            sizes,
            ).0.len() && elements_out(es, ds, j, reverse, sizes).0.subrange(
                0,
                elements_out(es, ds, i, reverse, sizes).0.len() as int,
            ) == elements_out(es, ds, i, reverse, sizes).0,
    decreases j,
{
    if j > 0 {
        lemma_elements_out_prefix(es, ds, j - 1, reverse, sizes);
        lemma_element_back(es[j - 1].1, ds[j - 1], reverse, Seq::empty(), sizes);
        let w = elements_out(es, ds, j - 1, reverse, sizes).0;
        let w2 = w + element_out(es[j - 1].1, ds[j - 1], reverse, sizes).0;
        assert(elements_out(es, ds, j, reverse, sizes).0 == w2);
        assert forall|i: int| 0 <= i <= j implies (#[trigger] elements_out(es, ds, i, reverse, sizes)).0.len()
            <= w2.len() && w2.subrange(0, elements_out(es, ds, i, reverse, sizes).0.len() as int)
            == elements_out(es, ds, i, reverse, sizes).0 by {
            if i < j {
                let p = elements_out(es, ds, i, reverse, sizes).0.len() as int;
                assert(w2.subrange(0, p) =~= w.subrange(0, p));
            } else {
                assert(w2.subrange(0, w2.len() as int) =~= w2);
            }
        }
    } else {
        assert(elements_out(es, ds, 0, reverse, sizes).0.subrange(0, 0) =~= elements_out(es, ds, 0, reverse, sizes).0);
    }
}

/// Reading what writing the elements from the `i`-th on gives reads back
/// their data.
#[verifier::rlimit(40)]
proof fn lemma_elements_back(
    es: Seq<(Seq<u8>, ElementV)>,
    ds: Seq<Seq<Seq<u8>>>,
    i: int,
    reverse: bool,
    rest: Seq<u8>, sizes: Seq<(Seq<u8>, usize)>)
    requires
        0 <= i <= es.len(),
        ds.len() == es.len(),
        forall|k: int| 0 <= k < ds.len() ==> data_fit(es[k].1, #[trigger] ds[k], sizes),
    ensures
        ({
            let w = elements_out(es, ds, es.len() as int, reverse, sizes).0;
            let p = elements_out(es, ds, i, reverse, sizes).0.len() as int;
            elements_data_spec(w.subrange(p, w.len() as int) + rest, es.subrange(i, es.len() as int), reverse, sizes)
                == Ok::<(Seq<Seq<Seq<u8>>>, int), ErrorV>((ds.subrange(i, es.len() as int), w.len() - p))
        }),
    decreases es.len() - i,
{
    let n = es.len() as int;
    let w = elements_out(es, ds, n, reverse, sizes).0;
    lemma_elements_out_prefix(es, ds, n, reverse, sizes);
    let p = elements_out(es, ds, i, reverse, sizes).0.len() as int;
    assert(elements_out(es, ds, i, reverse, sizes).0.len() <= w.len());
    let s = w.subrange(p, w.len() as int) + rest;
    if i == n {
        assert(w.subrange(0, w.len() as int) =~= w);
        assert(es.subrange(i, n) =~= Seq::<(Seq<u8>, ElementV)>::empty());
        assert(ds.subrange(i, n) =~= Seq::<Seq<Seq<u8>>>::empty());
    } else {
        let e = es[i].1;
        lemma_elements_out_prefix(es, ds, i + 1, reverse, sizes);
        lemma_element_back(e, ds[i], reverse, Seq::empty(), sizes);
        let eo = element_out(e, ds[i], reverse, sizes).0;
        assert(elements_out(es, ds, i + 1, reverse, sizes).0 == elements_out(es, ds, i, reverse, sizes).0 + eo);
        let q = elements_out(es, ds, i + 1, reverse, sizes).0.len() as int;
        assert(elements_out(es, ds, i + 1, reverse, sizes).0.len() <= w.len());
        assert(w.subrange(0, q) == elements_out(es, ds, i + 1, reverse, sizes).0);
        assert(w.subrange(p, q) =~= eo) by {
            assert(w.subrange(p, q) =~= w.subrange(0, q).subrange(p, q));
        }
        let after = w.subrange(q, w.len() as int) + rest;
        assert(s =~= eo + after);
        lemma_element_back(e, ds[i], reverse, after, sizes);
        assert(s.subrange(eo.len() as int, s.len() as int) =~= after);
        lemma_elements_back(es, ds, i + 1, reverse, rest, sizes);
        let tail = es.subrange(i, n);
        assert(tail[0] == es[i]);
        assert(tail.drop_first() =~= es.subrange(i + 1, n));
        assert(seq![ds[i]] + ds.subrange(i + 1, n) =~= ds.subrange(i, n));
    }
}

/// An object with a clean header and data that fit it, written and read
/// back in the same byte order, reads back as itself: the same header, the
/// same data, having consumed exactly the bytes written, whatever follows
/// them.
pub proof fn lemma_object_roundtrip(h: HeaderV, ds: Seq<Seq<Seq<u8>>>, reverse: bool, rest: Seq<u8>, sizes: Seq<(Seq<u8>, usize)>)
    requires
        is_clean_header(h),
        object_data_fit(h, ds, sizes),
    ensures
        object_out(h, ds, reverse, sizes).1 is None,
        object_spec(object_out(h, ds, reverse, sizes).0 + rest, reverse, sizes) == Ok::<
            ((HeaderV, Seq<Seq<Seq<u8>>>), int),
            ErrorV,
        >(((h, ds), object_out(h, ds, reverse, sizes).0.len() as int)),
{
    let es = h.elements;
    let n = es.len() as int;
    lemma_clean_header_ascii(h);
    assert(min(n, ds.len() as int) == n);
    lemma_elements_out_prefix(es, ds, n, reverse, sizes);
    let w = elements_out(es, ds, n, reverse, sizes).0;
    let s = object_out(h, ds, reverse, sizes).0 + rest;
    assert(s =~= header_bytes(h) + (w + rest));
    lemma_header_roundtrip(h, w + rest);
    let hn = header_bytes(h).len() as int;
    assert(s.subrange(hn, s.len() as int) =~= w + rest);
    lemma_elements_back(es, ds, 0, reverse, rest, sizes);
    assert(elements_out(es, ds, 0, reverse, sizes).0.len() == 0);
    assert(w.subrange(0, w.len() as int) =~= w);
    assert(es.subrange(0, n) =~= es);
    assert(ds.subrange(0, n) =~= ds);
}

/// On any one machine, an object with a clean header and data that fit it
/// reads back as itself from what it writes, whatever follows: writing and
/// reading both reverse each datum exactly when the header's format is not
/// that machine's byte order. When the format is binary, no property is a
/// list and each record's size fits a `usize`, what it writes can be read.
pub proof fn lemma_object_roundtrip_on(
    h: HeaderV,
    ds: Seq<Seq<Seq<u8>>>,
    little_endian: bool,
    rest: Seq<u8>,
    sizes: Seq<(Seq<u8>, usize)>,
)
    requires
        is_clean_header(h),
        object_data_fit(h, ds, sizes),
    ensures
        object_out(h, ds, swapped_on(h.format, little_endian), sizes).1 is None,
        object_spec_on(object_out(h, ds, swapped_on(h.format, little_endian), sizes).0 + rest, little_endian, sizes)
            == Ok::<((HeaderV, Seq<Seq<Seq<u8>>>), int), ErrorV>(
            ((h, ds), object_out(h, ds, swapped_on(h.format, little_endian), sizes).0.len() as int),
        ),
        h.format != Format::Ascii && !has_list_property(h.elements) && record_sizes_fit(h.elements, sizes)
            ==> object_readable(object_out(h, ds, swapped_on(h.format, little_endian), sizes).0 + rest, sizes),
{
    let reverse = swapped_on(h.format, little_endian);
    lemma_object_roundtrip(h, ds, reverse, rest, sizes);
    let s = object_out(h, ds, reverse, sizes).0 + rest;
    assert(header_spec(s) matches Ok((h2, _)) && h2 == h);
}

} // verus!
