//! Polygon objects: a header and the payload that it describes.

pub mod access;
pub mod access_mut;
pub mod id;
pub mod roundtrip;

pub use access::{ElementEntry, PropertyEntry};
pub use access_mut::{ElementEntryMut, PropertyEntryMut};
pub use id::{Id, IdCounter};

use vstd::prelude::*;

use crate::ascii::is_ascii_bytes;
use crate::error::{lossy_text, utf8_lossy, Error, ErrorV};
use crate::function::{decimal_digits, push_all, push_decimal};
use crate::keyword::{kw_element_index_, kw_element_index__bytes};
use crate::function::tail;
use crate::header::decode::header_spec;
use crate::header::encode::header_bytes;
use crate::header::property::ScalarSizes;
use crate::header::{element_map_get_index, element_map_len, swapped_on, ElementV, Format, Header, HeaderV};
use crate::payload::decode::{
    elements_data_spec, has_list_property, ordered, record_sizes_fit, sizes_spec,
};
use crate::payload::{data_view, Payload};

verus! {

/// A polygon object: a header and its payload.
#[derive(Debug, PartialEq, Eq)]
pub struct Object {
    pub header: Header,
    pub payload: Payload,
}

/// The data of an object's payload.
pub open spec fn payload_data(p: Payload) -> Seq<Seq<Seq<u8>>> {
    match p {
        Payload::Scalar(s) => data_view(s.data@),
    }
}

/// The object read from the front of `s`, each datum reversed when
/// `reverse`: its header, then the payload that the header describes.
pub open spec fn object_spec(s: Seq<u8>, reverse: bool, sizes: Seq<(Seq<u8>, usize)>) -> Result<
    ((HeaderV, Seq<Seq<Seq<u8>>>), int),
    ErrorV,
> {
    match header_spec(s) {
        Err(e) => Err(e),
        Ok((h, n)) => match elements_data_spec(s.subrange(n, s.len() as int), h.elements, reverse, sizes) {
            Err(e) => Err(e),
            Ok((d, m)) => Ok(((h, d), n + m)),
        },
    }
}

/// What reading an object from `s` gives on a machine that is little endian
/// or not: each datum's bytes are reversed exactly when the format that the
/// header declares is not that machine's byte order.
pub open spec fn object_spec_on(s: Seq<u8>, little_endian: bool, sizes: Seq<(Seq<u8>, usize)>) -> Result<
    ((HeaderV, Seq<Seq<Seq<u8>>>), int),
    ErrorV,
> {
    match header_spec(s) {
        Err(e) => Err(e),
        Ok((h, n)) => object_spec(s, swapped_on(h.format, little_endian), sizes),
    }
}

/// The value of an object reading result.
pub open spec fn decoded_object(r: Result<(Object, usize), Error>) -> Result<
    ((HeaderV, Seq<Seq<Seq<u8>>>), int),
    ErrorV,
> {
    match r {
        Ok((o, n)) => Ok(((o.header@, payload_data(o.payload)), n as int)),
        Err(e) => Err(e@),
    }
}

/// Whether an input can be read as an object without the failures that
/// stop reading altogether: the header read from it is binary, none of its
/// properties is a list (reading list payloads is not implemented), and the
/// record of each of its elements fits in a `usize`.
pub open spec fn object_readable(s: Seq<u8>, sizes: Seq<(Seq<u8>, usize)>) -> bool {
    header_spec(s) matches Ok((h, _)) ==> h.format != Format::Ascii && !has_list_property(h.elements)
        && record_sizes_fit(h.elements, sizes)
}

/// The note that names record `r` in an error: `"element index "` and the
/// index in decimal.
pub open spec fn record_note(r: int) -> Seq<char> {
    utf8_lossy(kw_element_index_() + decimal_digits(r as nat))
}

/// The text of [`record_note`].
fn record_note_text(r: usize) -> (t: String)
    ensures
        t@ == record_note(r as int),
{
    let mut b: Vec<u8> = Vec::new();
    push_all(&mut b, &kw_element_index__bytes());
    push_decimal(&mut b, r as u64);
    lossy_text(b.as_slice())
}

/// What writing the properties `0..m` of record `r` gives: the bytes
/// written and, when a datum is missing, the error.
pub open spec fn record_out(
    r: int,
    count: int,
    zs: Seq<usize>,
    data: Seq<Seq<u8>>,
    m: int,
    reverse: bool,
) -> (Seq<u8>, Option<ErrorV>)
    decreases m,
{
    if m <= 0 {
        (Seq::empty(), None)
    } else {
        let (w, e) = record_out(r, count, zs, data, m - 1, reverse);
        if e is Some {
            (w, e)
        } else {
            let z = zs[m - 1] as int;
            let start = r * z;
            if start + z > data[m - 1].len() {
                (w, Some(ErrorV::OutOfBounds(start + z, count * z, record_note(r))))
            } else {
                (w + ordered(data[m - 1].subrange(start, start + z), reverse), None)
            }
        }
    }
}

/// What writing records `0..c` of an element gives.
pub open spec fn records_out(
    c: int,
    count: int,
    zs: Seq<usize>,
    data: Seq<Seq<u8>>,
    m: int,
    reverse: bool,
) -> (Seq<u8>, Option<ErrorV>)
    decreases c,
{
    if c <= 0 {
        (Seq::empty(), None)
    } else {
        let (w, e) = records_out(c - 1, count, zs, data, m, reverse);
        if e is Some {
            (w, e)
        } else {
            let (w2, e2) = record_out(c - 1, count, zs, data, m, reverse);
            (w + w2, e2)
        }
    }
}

/// The smaller of two numbers.
pub open spec fn min(a: int, b: int) -> int {
    if a <= b {
        a
    } else {
        b
    }
}

/// What writing an element's records gives: each record in turn, each
/// property in turn as far as both the properties and the data go.
pub open spec fn element_out(e: ElementV, data: Seq<Seq<u8>>, reverse: bool, sizes: Seq<(Seq<u8>, usize)>) -> (Seq<u8>, Option<ErrorV>) {
    match sizes_spec(e.properties, sizes) {
        Err(err) => (Seq::empty(), Some(err)),
        Ok(zs) => records_out(
            e.count as int,
            e.count as int,
            zs,
            data,
            min(zs.len() as int, data.len() as int),
            reverse,
        ),
    }
}

/// What writing elements `0..i` gives.
pub open spec fn elements_out(
    es: Seq<(Seq<u8>, ElementV)>,
    ds: Seq<Seq<Seq<u8>>>,
    i: int,
    reverse: bool, sizes: Seq<(Seq<u8>, usize)>) -> (Seq<u8>, Option<ErrorV>)
    decreases i,
{
    if i <= 0 {
        (Seq::empty(), None)
    } else {
        let (w, e) = elements_out(es, ds, i - 1, reverse, sizes);
        if e is Some {
            (w, e)
        } else {
            let (w2, e2) = element_out(es[i - 1].1, ds[i - 1], reverse, sizes);
            (w + w2, e2)
        }
    }
}

/// What writing an object gives: its header, then the data of each element
/// as far as both the elements and the data go.
pub open spec fn object_out(h: HeaderV, ds: Seq<Seq<Seq<u8>>>, reverse: bool, sizes: Seq<(Seq<u8>, usize)>) -> (Seq<u8>, Option<ErrorV>) {
    if !is_ascii_bytes(header_bytes(h)) {
        (Seq::empty(), Some(ErrorV::InvalidAscii(crate::error::utf8_lossy(header_bytes(h)))))
    } else {
        let (w, e) = elements_out(h.elements, ds, min(h.elements.len() as int, ds.len() as int), reverse, sizes);
        (header_bytes(h) + w, e)
    }
}

/// Once writing a record has failed, writing more of its properties gives
/// the same.
proof fn lemma_record_out_stops(
    r: int,
    count: int,
    zs: Seq<usize>,
    data: Seq<Seq<u8>>,
    k: int,
    m: int,
    reverse: bool,
)
    requires
        0 <= k <= m,
        record_out(r, count, zs, data, k, reverse).1 is Some,
    ensures
        record_out(r, count, zs, data, m, reverse) == record_out(r, count, zs, data, k, reverse),
    decreases m - k,
{
    if k < m {
        lemma_record_out_stops(r, count, zs, data, k, m - 1, reverse);
    }
}

/// Once writing the records of an element has failed, writing more of them
/// gives the same.
proof fn lemma_records_out_stops(
    c: int,
    d: int,
    count: int,
    zs: Seq<usize>,
    data: Seq<Seq<u8>>,
    m: int,
    reverse: bool,
)
    requires
        0 <= c <= d,
        records_out(c, count, zs, data, m, reverse).1 is Some,
    ensures
        records_out(d, count, zs, data, m, reverse) == records_out(c, count, zs, data, m, reverse),
    decreases d - c,
{
    if c < d {
        lemma_records_out_stops(c, d - 1, count, zs, data, m, reverse);
    }
}

/// Once writing elements has failed, writing more of them gives the same.
proof fn lemma_elements_out_stops(
    es: Seq<(Seq<u8>, ElementV)>,
    ds: Seq<Seq<Seq<u8>>>,
    i: int,
    j: int,
    reverse: bool, sizes: Seq<(Seq<u8>, usize)>)
    requires
        0 <= i <= j,
        elements_out(es, ds, i, reverse, sizes).1 is Some,
    ensures
        elements_out(es, ds, j, reverse, sizes) == elements_out(es, ds, i, reverse, sizes),
    decreases j - i,
{
    if i < j {
        lemma_elements_out_stops(es, ds, i, j - 1, reverse, sizes);
    }
}

/// Whether the offsets that writing an object computes fit in a `usize`:
/// for each element, its count times the size of each of its properties.
pub open spec fn object_writable(h: HeaderV, ds: Seq<Seq<Seq<u8>>>, sizes: Seq<(Seq<u8>, usize)>) -> bool {
    &&& (is_ascii_bytes(header_bytes(h)) ==> h.format != Format::Ascii)
    &&& forall|i: int|
        0 <= i < h.elements.len() ==> match #[trigger] sizes_spec(h.elements[i].1.properties, sizes) {
            Ok(zs) => forall|k: int|
                0 <= k < zs.len() ==> h.elements[i].1.count * (#[trigger] zs[k]) <= usize::MAX,
            Err(_) => true,
        }
}

/// The result of writing, from what writing gives.
pub open spec fn written_result(e: Option<ErrorV>) -> Result<(), ErrorV> {
    match e {
        None => Ok(()),
        Some(e) => Err(e),
    }
}

/// The value of a writing result.
pub open spec fn result_view(r: Result<(), Error>) -> Result<(), ErrorV> {
    match r {
        Ok(_) => Ok(()),
        Err(e) => Err(e@),
    }
}

/// Writes one record of an element (see [`record_out`]).
fn encode_record(
    out: &mut Vec<u8>,
    r: usize,
    count: usize,
    zs: &Vec<usize>,
    data: &Vec<Vec<u8>>,
    m: usize,
    reverse: bool,
) -> (res: Result<(), Error>)
    requires
        r < count,
        m <= zs@.len(),
        m <= data@.len(),
        forall|k: int| 0 <= k < zs@.len() ==> count * (#[trigger] zs@[k]) <= usize::MAX,
    ensures
        final(out)@ == old(out)@ + record_out(
            r as int,
            count as int,
            zs@,
            data@.map_values(|p: Vec<u8>| p@),
            m as int,
            reverse,
        ).0,
        result_view(res) == written_result(
            record_out(r as int, count as int, zs@, data@.map_values(|p: Vec<u8>| p@), m as int, reverse).1,
        ),
{
    let ghost ds = data@.map_values(|p: Vec<u8>| p@);
    let mut k: usize = 0;
    while k < m
        invariant
            k <= m <= zs@.len(),
            m <= data@.len(),
            r < count,
            ds == data@.map_values(|p: Vec<u8>| p@),
            forall|j: int| 0 <= j < zs@.len() ==> count * (#[trigger] zs@[j]) <= usize::MAX,
            out@ == old(out)@ + record_out(r as int, count as int, zs@, ds, k as int, reverse).0,
            record_out(r as int, count as int, zs@, ds, k as int, reverse).1 is None,
        decreases m - k,
    {
        let z = zs[k];
        assert(count * z <= usize::MAX);
        assert(r * z + z <= count * z) by (nonlinear_arith)
            requires
                r < count,
        ;
        let start = r * z;
        let end = start + z;
        let d = &data[k];
        assert(ds[k as int] == d@);
        if end > d.len() {
            let bound = count * z;
            proof {
                assert(record_out(r as int, count as int, zs@, ds, k + 1, reverse).0 == record_out(
                    r as int,
                    count as int,
                    zs@,
                    ds,
                    k as int,
                    reverse,
                ).0);
                lemma_record_out_stops(r as int, count as int, zs@, ds, k + 1, m as int, reverse);
            }
            return Err(Error::OutOfBounds(end, bound, record_note_text(r)));
        }
        crate::payload::decode::push_ordered(out, d.as_slice(), start, end, reverse);
        k += 1;
    }
    Ok(())
}

/// Writes the records of one element (see [`element_out`]).
fn encode_element(
    out: &mut Vec<u8>,
    count: usize,
    zs: &Vec<usize>,
    data: &Vec<Vec<u8>>,
    reverse: bool,
) -> (res: Result<(), Error>)
    requires
        forall|k: int| 0 <= k < zs@.len() ==> count * (#[trigger] zs@[k]) <= usize::MAX,
    ensures
        final(out)@ == old(out)@ + records_out(
            count as int,
            count as int,
            zs@,
            data@.map_values(|p: Vec<u8>| p@),
            min(zs@.len() as int, data@.len() as int),
            reverse,
        ).0,
        result_view(res) == written_result(
            records_out(
                count as int,
                count as int,
                zs@,
                data@.map_values(|p: Vec<u8>| p@),
                min(zs@.len() as int, data@.len() as int),
                reverse,
            ).1,
        ),
{
    let ghost ds = data@.map_values(|p: Vec<u8>| p@);
    let m = if zs.len() <= data.len() {
        zs.len()
    } else {
        data.len()
    };
    let mut r: usize = 0;
    while r < count
        invariant
            r <= count,
            m == min(zs@.len() as int, data@.len() as int),
            ds == data@.map_values(|p: Vec<u8>| p@),
            forall|k: int| 0 <= k < zs@.len() ==> count * (#[trigger] zs@[k]) <= usize::MAX,
            out@ == old(out)@ + records_out(r as int, count as int, zs@, ds, m as int, reverse).0,
            records_out(r as int, count as int, zs@, ds, m as int, reverse).1 is None,
        decreases count - r,
    {
        let ghost before = out@;
        let res = encode_record(out, r, count, zs, data, m, reverse);
        proof {
            assert(out@ =~= old(out)@ + records_out(r + 1, count as int, zs@, ds, m as int, reverse).0);
        }
        if res.is_err() {
            proof {
                lemma_records_out_stops(r + 1, count as int, count as int, zs@, ds, m as int, reverse);
            }
            return res;
        }
        r += 1;
    }
    Ok(())
}

impl Object {
    /// Reads an object from the front of `input`, each datum reversed when
    /// `reverse` (see [`object_spec`]); gives the object and the number of
    /// bytes consumed.
    pub fn decode_with_order(input: &[u8], reverse: bool, sizes: &ScalarSizes) -> (r: Result<(Self, usize), Error>)
        requires
            object_readable(input@, sizes@),
        ensures
            decoded_object(r) == object_spec(input@, reverse, sizes@),
            r matches Ok((_, n)) ==> n <= input@.len(),
    {
        let total = input.len();
        assert(total == input@.len());
        let (header, n) = Header::decode(input)?;
        let (payload, m) = Payload::decode_with_order(tail(input, n), &header, reverse, sizes)?;
        proof {
            let Payload::Scalar(p) = payload;
            crate::payload::decode::lemma_elements_data_bound(
                input@.subrange(n as int, input@.len() as int),
                header@.elements,
                reverse,
                sizes@,
            );
        }
        Ok((Object { header, payload }, n + m))
    }

    /// Reads an object from the front of `input` on a machine that is little
    /// endian or not: each datum's bytes are reversed exactly when the format
    /// that the header declares is not that machine's byte order. Gives the
    /// object and the number of bytes consumed.
    pub fn decode_on(input: &[u8], little_endian: bool, sizes: &ScalarSizes) -> (r: Result<(Self, usize), Error>)
        requires
            object_readable(input@, sizes@),
        ensures
            decoded_object(r) == object_spec_on(input@, little_endian, sizes@),
            r matches Ok((_, n)) ==> n <= input@.len(),
    {
        let total = input.len();
        assert(total == input@.len());
        let (header, n) = Header::decode(input)?;
        let reverse = !header.format.is_binary_native_endian_on(little_endian);
        let (payload, m) = Payload::decode_with_order(tail(input, n), &header, reverse, sizes)?;
        proof {
            crate::payload::decode::lemma_elements_data_bound(
                input@.subrange(n as int, input@.len() as int),
                header@.elements,
                reverse,
                sizes@,
            );
        }
        Ok((Object { header, payload }, n + m))
    }

    /// Reads an object from the front of `input`, each datum in the byte
    /// order of this machine; gives the object and the number of bytes
    /// consumed.
    pub fn decode(input: &[u8], sizes: &ScalarSizes) -> (r: Result<(Self, usize), Error>)
        requires
            object_readable(input@, sizes@),
        ensures
            decoded_object(r) == object_spec_on(input@, true, sizes@) || decoded_object(r)
                == object_spec_on(input@, false, sizes@),
    {
        Object::decode_on(input, crate::format::native_is_little_endian(), sizes)
    }

    /// Writes the object, each datum reversed when `reverse` (see
    /// [`object_out`]): what is written before an error stays written.
    pub fn encode_with_order(&self, out: &mut Vec<u8>, reverse: bool, sizes: &ScalarSizes) -> (r: Result<(), Error>)
        requires
            object_writable(self.header@, payload_data(self.payload), sizes@),
        ensures
            final(out)@ == old(out)@ + object_out(self.header@, payload_data(self.payload), reverse, sizes@).0,
            result_view(r) == written_result(object_out(self.header@, payload_data(self.payload), reverse, sizes@).1),
    {
        self.header.encode(out)?;
        let ghost h = self.header@;
        let data = &self.payload.as_scalar().data;
        let ghost ds = data_view(data@);
        assert(ds == payload_data(self.payload));
        let ne = element_map_len(&self.header.elements.inner);
        let n = if ne <= data.len() {
            ne
        } else {
            data.len()
        };
        let ghost front = out@;
        let mut i: usize = 0;
        while i < n
            invariant
                i <= n,
                n == min(h.elements.len() as int, ds.len() as int),
                h == self.header@,
                ds == data_view(data@),
                object_writable(h, ds, sizes@),
                is_ascii_bytes(header_bytes(h)),
                front == old(out)@ + header_bytes(h),
                ds == payload_data(self.payload),
                out@ == front + elements_out(h.elements, ds, i as int, reverse, sizes@).0,
                elements_out(h.elements, ds, i as int, reverse, sizes@).1 is None,
            decreases n - i,
        {
            let element = match element_map_get_index(&self.header.elements.inner, i) {
                Some((_, e)) => e,
                None => {
                    assert(false);
                    return Ok(());
                },
            };
            assert(h.elements[i as int].1 == element@);
            assert(ds[i as int] == data[i as int]@.map_values(|p: Vec<u8>| p@));
            let zs = match crate::payload::decode::property_sizes_in_order(&element.properties, sizes) {
                Ok(zs) => zs,
                Err(e) => {
                    assert(sizes_spec(h.elements[i as int].1.properties, sizes@) == Err::<Seq<usize>, ErrorV>(e@));
                    assert(element_out(h.elements[i as int].1, ds[i as int], reverse, sizes@) == (
                        Seq::<u8>::empty(),
                        Some(e@),
                    ));
                    assert(elements_out(h.elements, ds, i + 1, reverse, sizes@).1 == Some(e@));
                    assert(out@ =~= front + elements_out(h.elements, ds, i + 1, reverse, sizes@).0);
                    proof {
                        lemma_elements_out_stops(h.elements, ds, i + 1, n as int, reverse, sizes@);
                    }
                    assert(object_out(h, ds, reverse, sizes@).1 == Some(e@));
                    return Err(e);
                },
            };
            assert(sizes_spec(h.elements[i as int].1.properties, sizes@) == Ok::<Seq<usize>, ErrorV>(zs@));
            let res = encode_element(out, element.count, &zs, &data[i], reverse);
            assert(out@ =~= front + elements_out(h.elements, ds, i + 1, reverse, sizes@).0);
            if res.is_err() {
                proof {
                    lemma_elements_out_stops(h.elements, ds, i + 1, n as int, reverse, sizes@);
                }
                return res;
            }
            i += 1;
        }
        Ok(())
    }

    /// Writes the object on a machine that is little endian or not: each
    /// datum's bytes are reversed exactly when the header's format is not
    /// that machine's byte order.
    pub fn encode_on(&self, out: &mut Vec<u8>, little_endian: bool, sizes: &ScalarSizes) -> (r: Result<(), Error>)
        requires
            object_writable(self.header@, payload_data(self.payload), sizes@),
        ensures
            final(out)@ == old(out)@ + object_out(
                self.header@,
                payload_data(self.payload),
                swapped_on(self.header@.format, little_endian),
                sizes@,
            ).0,
            result_view(r) == written_result(
                object_out(
                    self.header@,
                    payload_data(self.payload),
                    swapped_on(self.header@.format, little_endian),
                    sizes@,
                ).1,
            ),
    {
        let reverse = !self.header.format.is_binary_native_endian_on(little_endian);
        self.encode_with_order(out, reverse, sizes)
    }

    /// Writes the object, each datum in the byte order of this machine.
    pub fn encode(&self, out: &mut Vec<u8>, sizes: &ScalarSizes) -> (r: Result<(), Error>)
        requires
            object_writable(self.header@, payload_data(self.payload), sizes@),
        ensures
            (final(out)@ == old(out)@ + object_out(
                self.header@,
                payload_data(self.payload),
                swapped_on(self.header@.format, true),
                sizes@,
            ).0 && result_view(r) == written_result(
                object_out(self.header@, payload_data(self.payload), swapped_on(self.header@.format, true), sizes@).1,
            )) || (final(out)@ == old(out)@ + object_out(
                self.header@,
                payload_data(self.payload),
                swapped_on(self.header@.format, false),
                sizes@,
            ).0 && result_view(r) == written_result(
                object_out(self.header@, payload_data(self.payload), swapped_on(self.header@.format, false), sizes@).1,
            )),
    {
        self.encode_on(out, crate::format::native_is_little_endian(), sizes)
    }
}

impl Clone for Object {
    fn clone(&self) -> (r: Self)
        ensures
            r.header@ == self.header@,
            payload_data(r.payload) == payload_data(self.payload),
    {
        Object { header: self.header.clone(), payload: self.payload.clone() }
    }
}

impl Default for Object {
    fn default() -> (r: Self)
        ensures
            r.header@.elements == Seq::<(Seq<u8>, ElementV)>::empty(),
            r.header@.format == Format::BinaryLittleEndian,
            r.header@.version == crate::head::meta::format::default_version(),
            payload_data(r.payload) == Seq::<Seq<Seq<u8>>>::empty(),
    {
        let r = Object { header: Header::default(), payload: Payload::default() };
        assert(payload_data(r.payload) =~= Seq::<Seq<Seq<u8>>>::empty());
        r
    }
}

} // verus!
