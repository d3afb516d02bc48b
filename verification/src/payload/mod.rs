//! The payload of a polygon file: the data of each property of each
//! element.

pub mod decode;

use vstd::prelude::*;

use crate::function::{decimal_digits, push_all, push_decimal, SPACE};

verus! {

/// A payload.
#[derive(Debug, PartialEq, Eq, Hash)]
pub enum Payload {
    Scalar(ScalarPayload),
}

/// A payload that only holds scalar data: for each element, for each of
/// its properties, the bytes of its data, record after record.
#[derive(Debug, Default, PartialEq, Eq, Hash)]
pub struct ScalarPayload {
    pub data: Vec<Vec<Vec<u8>>>,
}

/// The value of the data of a payload.
pub open spec fn data_view(data: Seq<Vec<Vec<u8>>>) -> Seq<Seq<Seq<u8>>> {
    data.map_values(|e: Vec<Vec<u8>>| e@.map_values(|p: Vec<u8>| p@))
}

/// The total of the lengths.
pub open spec fn total_len<T>(s: Seq<Seq<T>>) -> int
    decreases s.len(),
{
    if s.len() == 0 {
        0
    } else {
        total_len(s.drop_last()) + s.last().len()
    }
}

/// The number of properties over all elements.
pub open spec fn property_total(d: Seq<Seq<Seq<u8>>>) -> int
    decreases d.len(),
{
    if d.len() == 0 {
        0
    } else {
        property_total(d.drop_last()) + d.last().len()
    }
}

/// The number of bytes over all properties of all elements.
pub open spec fn byte_total(d: Seq<Seq<Seq<u8>>>) -> int
    decreases d.len(),
{
    if d.len() == 0 {
        0
    } else {
        byte_total(d.drop_last()) + total_len(d.last())
    }
}

proof fn lemma_total_len_prefix<T>(s: Seq<Seq<T>>, i: int)
    requires
        0 <= i <= s.len(),
    ensures
        0 <= total_len(s.subrange(0, i)) <= total_len(s),
    decreases s.len() - i,
{
    if i < s.len() {
        lemma_total_len_prefix(s, i + 1);
        assert(s.subrange(0, i + 1).drop_last() =~= s.subrange(0, i));
    } else {
        assert(s.subrange(0, i) =~= s);
    }
    lemma_total_len_nonneg(s.subrange(0, i));
}

proof fn lemma_total_len_nonneg<T>(s: Seq<Seq<T>>)
    ensures
        total_len(s) >= 0,
    decreases s.len(),
{
    if s.len() > 0 {
        lemma_total_len_nonneg(s.drop_last());
    }
}

proof fn lemma_property_total_prefix(d: Seq<Seq<Seq<u8>>>, i: int)
    requires
        0 <= i <= d.len(),
    ensures
        0 <= property_total(d.subrange(0, i)) <= property_total(d),
    decreases d.len() - i,
{
    if i < d.len() {
        lemma_property_total_prefix(d, i + 1);
        assert(d.subrange(0, i + 1).drop_last() =~= d.subrange(0, i));
        lemma_property_total_nonneg(d.subrange(0, i));
    } else {
        assert(d.subrange(0, i) =~= d);
        lemma_property_total_nonneg(d);
    }
}

proof fn lemma_property_total_nonneg(d: Seq<Seq<Seq<u8>>>)
    ensures
        property_total(d) >= 0,
    decreases d.len(),
{
    if d.len() > 0 {
        lemma_property_total_nonneg(d.drop_last());
    }
}

proof fn lemma_byte_total_prefix(d: Seq<Seq<Seq<u8>>>, i: int)
    requires
        0 <= i <= d.len(),
    ensures
        0 <= byte_total(d.subrange(0, i)) <= byte_total(d),
    decreases d.len() - i,
{
    if i < d.len() {
        lemma_byte_total_prefix(d, i + 1);
        assert(d.subrange(0, i + 1).drop_last() =~= d.subrange(0, i));
        lemma_total_len_nonneg(d[i]);
        lemma_byte_total_nonneg(d.subrange(0, i));
    } else {
        assert(d.subrange(0, i) =~= d);
        lemma_byte_total_nonneg(d);
    }
}

proof fn lemma_byte_total_nonneg(d: Seq<Seq<Seq<u8>>>)
    ensures
        byte_total(d) >= 0,
    decreases d.len(),
{
    if d.len() > 0 {
        lemma_byte_total_nonneg(d.drop_last());
        lemma_total_len_nonneg(d.last());
    }
}

/// `"[N elements, M properties, B bytes]"`.
pub open spec fn summary_text(elements: nat, properties: nat, bytes: nat) -> Seq<u8> {
    seq![0x5bu8] + decimal_digits(elements) + seq![SPACE] + crate::keyword::kw_elements() + seq![0x2cu8, SPACE]
        + decimal_digits(properties) + seq![SPACE] + crate::keyword::kw_properties() + seq![0x2cu8, SPACE]
        + decimal_digits(bytes) + seq![SPACE] + crate::keyword::kw_bytes() + seq![0x5du8]
}

impl ScalarPayload {
    /// The number of elements.
    pub fn element_count(&self) -> (r: usize)
        ensures
            r == self.data@.len(),
    {
        self.data.len()
    }

    /// The number of properties over all elements.
    pub fn property_count(&self) -> (r: usize)
        requires
            property_total(data_view(self.data@)) <= usize::MAX,
        ensures
            r == property_total(data_view(self.data@)),
    {
        let ghost d = data_view(self.data@);
        let mut total: usize = 0;
        let mut i: usize = 0;
        while i < self.data.len()
            invariant
                i <= self.data@.len(),
                d == data_view(self.data@),
                property_total(d) <= usize::MAX,
                total == property_total(d.subrange(0, i as int)),
            decreases self.data@.len() - i,
        {
            proof {
                let next = d.subrange(0, i + 1);
                assert(next.drop_last() =~= d.subrange(0, i as int));
                assert(next.last() == d[i as int]);
                lemma_property_total_prefix(d, i + 1);
            }
            total = total + self.data[i].len();
            i += 1;
        }
        assert(d.subrange(0, i as int) =~= d);
        total
    }

    /// The number of bytes over all properties of all elements.
    pub fn byte_count(&self) -> (r: usize)
        requires
            byte_total(data_view(self.data@)) <= usize::MAX,
        ensures
            r == byte_total(data_view(self.data@)),
    {
        let ghost d = data_view(self.data@);
        let mut total: usize = 0;
        let mut i: usize = 0;
        while i < self.data.len()
            invariant
                i <= self.data@.len(),
                d == data_view(self.data@),
                byte_total(d) <= usize::MAX,
                total == byte_total(d.subrange(0, i as int)),
            decreases self.data@.len() - i,
        {
            let element = &self.data[i];
            let ghost e = d[i as int];
            proof {
                lemma_byte_total_prefix(d, i + 1);
                let next = d.subrange(0, i + 1);
                assert(next.drop_last() =~= d.subrange(0, i as int));
                assert(next.last() == e);
            }
            let mut j: usize = 0;
            let mut sum: usize = 0;
            while j < element.len()
                invariant
                    j <= element@.len(),
                    e == element@.map_values(|p: Vec<u8>| p@),
                    total + total_len(e) <= usize::MAX,
                    sum == total_len(e.subrange(0, j as int)),
                decreases element@.len() - j,
            {
                proof {
                    let next = e.subrange(0, j + 1);
                    assert(next.drop_last() =~= e.subrange(0, j as int));
                    assert(next.last() == e[j as int]);
                    lemma_total_len_prefix(e, j + 1);
                }
                sum = sum + element[j].len();
                j += 1;
            }
            assert(e.subrange(0, j as int) =~= e);
            total = total + sum;
            i += 1;
        }
        assert(d.subrange(0, i as int) =~= d);
        total
    }

    /// A summary: `"[N elements, M properties, B bytes]"`.
    pub fn summary(&self) -> (r: Vec<u8>)
        requires
            property_total(data_view(self.data@)) <= usize::MAX,
            byte_total(data_view(self.data@)) <= usize::MAX,
        ensures
            r@ == summary_text(
                self.data@.len() as nat,
                property_total(data_view(self.data@)) as nat,
                byte_total(data_view(self.data@)) as nat,
            ),
    {
        let mut r: Vec<u8> = Vec::new();
        r.push(0x5b);
        push_decimal(&mut r, self.element_count() as u64);
        r.push(SPACE);
        push_all(&mut r, &crate::keyword::kw_elements_bytes());
        r.push(0x2c);
        r.push(SPACE);
        push_decimal(&mut r, self.property_count() as u64);
        r.push(SPACE);
        push_all(&mut r, &crate::keyword::kw_properties_bytes());
        r.push(0x2c);
        r.push(SPACE);
        push_decimal(&mut r, self.byte_count() as u64);
        r.push(SPACE);
        push_all(&mut r, &crate::keyword::kw_bytes_bytes());
        r.push(0x5d);
        proof {
            lemma_property_total_nonneg(data_view(self.data@));
            lemma_byte_total_nonneg(data_view(self.data@));
        }
        assert(r@ =~= summary_text(
            self.data@.len() as nat,
            property_total(data_view(self.data@)) as nat,
            byte_total(data_view(self.data@)) as nat,
        ));
        r
    }
}

impl Payload {
    /// Whether this is a scalar payload.
    pub fn is_scalar(&self) -> (r: bool)
        ensures
            r,
    {
        matches!(self, Payload::Scalar(_))
    }

    /// The scalar payload.
    pub fn as_scalar(&self) -> (r: &ScalarPayload)
        ensures
            *self == Payload::Scalar(*r),
    {
        match self {
            Payload::Scalar(s) => s,
        }
    }
}

impl Clone for ScalarPayload {
    fn clone(&self) -> (r: Self)
        ensures
            data_view(r.data@) == data_view(self.data@),
    {
        let mut data: Vec<Vec<Vec<u8>>> = Vec::new();
        let mut i: usize = 0;
        while i < self.data.len()
            invariant
                i <= self.data@.len(),
                data@.len() == i,
                forall|k: int| 0 <= k < i ==> data_view(data@)[k] == data_view(self.data@)[k],
            decreases self.data@.len() - i,
        {
            let element = &self.data[i];
            let mut copy: Vec<Vec<u8>> = Vec::new();
            let mut j: usize = 0;
            while j < element.len()
                invariant
                    j <= element@.len(),
                    copy@.len() == j,
                    forall|k: int| 0 <= k < j ==> copy@[k]@ == element@[k]@,
                decreases element@.len() - j,
            {
                copy.push(element[j].clone());
                j += 1;
            }
            assert(copy@.map_values(|p: Vec<u8>| p@) =~= element@.map_values(|p: Vec<u8>| p@));
            let ghost before = data@;
            let ghost copy_view = copy@;
            assert(element@ == self.data@[i as int]@);
            data.push(copy);
            proof {
                assert forall|k: int| 0 <= k < i + 1 implies data_view(data@)[k] == data_view(self.data@)[k] by {
                    if k < i {
                        assert(data@[k] == before[k]);
                        assert(data_view(before)[k] == data_view(self.data@)[k]);
                        assert(data_view(data@)[k] == data_view(before)[k]);
                    } else {
                        assert(data@[k]@ == copy_view);
                        assert(data_view(data@)[k] == copy_view.map_values(|p: Vec<u8>| p@));
                        assert(data_view(self.data@)[k] == self.data@[k]@.map_values(|p: Vec<u8>| p@));
                    }
                }
            }
            i += 1;
        }
        assert(data_view(data@) =~= data_view(self.data@));
        ScalarPayload { data }
    }
}

impl Clone for Payload {
    fn clone(&self) -> (r: Self)
        ensures
            match (r, *self) {
                (Payload::Scalar(a), Payload::Scalar(b)) => data_view(a.data@) == data_view(b.data@),
            },
    {
        match self {
            Payload::Scalar(p) => Payload::Scalar(p.clone()),
        }
    }
}

impl Default for Payload {
    fn default() -> (r: Self)
        ensures
            r matches Payload::Scalar(s) && s.data@.len() == 0,
    {
        Payload::Scalar(ScalarPayload { data: Vec::new() })
    }
}

} // verus!
