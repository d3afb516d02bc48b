//! List property metas of a head.

use vstd::prelude::*;

use crate::error::{Error, ErrorV};
use crate::function::tail;

use super::scalar::{
    kind_float, lemma_scalar_property_bound, scalar_property_bytes, scalar_property_spec,
    ScalarProperty, ScalarPropertyDomain, ScalarPropertyMeta,
};

verus! {

/// ## Syntax
///
/// ```plaintext
/// <list-property-meta> :=
///     | <scalar-property-meta> <scalar-property-meta>
/// ```
#[derive(Clone, Debug, PartialEq, Eq, Hash, PartialOrd, Ord)]
pub struct ListPropertyMeta {
    pub count: ScalarPropertyMeta,
    pub value: ScalarPropertyMeta,
}

impl View for ListPropertyMeta {
    type V = ((Seq<u8>, u64), (Seq<u8>, u64));

    open spec fn view(&self) -> ((Seq<u8>, u64), (Seq<u8>, u64)) {
        (self.count@, self.value@)
    }
}

/// Two scalar properties read one after the other from the front of `s`:
/// the count and the value of a list.
pub open spec fn list_property_spec(s: Seq<u8>, domain: Map<Seq<u8>, u64>) -> Result<
    (((Seq<u8>, u64), (Seq<u8>, u64)), int),
    ErrorV,
> {
    match scalar_property_spec(s, domain) {
        Err(e) => Err(e),
        Ok((count, n)) => match scalar_property_spec(s.subrange(n, s.len() as int), domain) {
            Err(e) => Err(e),
            Ok((value, m)) => Ok(((count, value), n + m)),
        },
    }
}

/// The bytes of a list's count and value properties.
pub open spec fn list_property_bytes(l: ((Seq<u8>, u64), (Seq<u8>, u64))) -> Seq<u8> {
    scalar_property_bytes(l.0) + scalar_property_bytes(l.1)
}

/// Reads the count and the value properties of a list from the front of
/// `input`.
pub fn decode_list_pair(input: &[u8], domain: &ScalarPropertyDomain) -> (r: Result<
    ((ScalarProperty, ScalarProperty), usize),
    Error,
>)
    ensures
        match r {
            Ok(((c, v), n)) => list_property_spec(input@, domain@) == Ok::<
                (((Seq<u8>, u64), (Seq<u8>, u64)), int),
                ErrorV,
            >(((c@, v@), n as int)),
            Err(e) => list_property_spec(input@, domain@) == Err::<
                (((Seq<u8>, u64), (Seq<u8>, u64)), int),
                ErrorV,
            >(e@),
        },
        r matches Ok((_, n)) ==> n <= input@.len(),
{
    let total = input.len();
    assert(total == input@.len());
    let (count, n) = ScalarProperty::decode(input, domain)?;
    proof {
        lemma_scalar_property_bound(input@, domain@);
    }
    let (value, m) = ScalarProperty::decode(tail(input, n), domain)?;
    proof {
        lemma_scalar_property_bound(input@.subrange(n as int, input@.len() as int), domain@);
    }
    assert(n + m <= input@.len());
    Ok(((count, value), n + m))
}

impl ListPropertyMeta {
    /// Reads the count and the value properties of a list meta.
    pub fn decode(input: &[u8], domain: &ScalarPropertyDomain) -> (r: Result<(Self, usize), Error>)
        ensures
            crate::error::decoded(r) == list_property_spec(input@, domain@),
            r matches Ok((_, n)) ==> n <= input@.len(),
    {
        let total = input.len();
        assert(total == input@.len());
        let ((count, value), n) = decode_list_pair(input, domain)?;
        Ok((ListPropertyMeta { count, value }, n))
    }

    /// Writes the count and the value properties.
    pub fn encode(&self, out: &mut Vec<u8>)
        ensures
            final(out)@ == old(out)@ + list_property_bytes(self@),
    {
        self.count.encode(out);
        self.value.encode(out);
        assert(final(out)@ =~= old(out)@ + list_property_bytes(self@));
    }
}

impl Default for ListPropertyMeta {
    fn default() -> (r: Self)
        ensures
            r@ == ((kind_float(), 4u64), (kind_float(), 4u64)),
    {
        ListPropertyMeta { count: ScalarProperty::default(), value: ScalarProperty::default() }
    }
}

/// A list pair consumes at least one byte and no more than there are.
pub proof fn lemma_list_property_bound(s: Seq<u8>, domain: Map<Seq<u8>, u64>)
    ensures
        list_property_spec(s, domain) matches Ok((l, n)) ==> 0 < n <= s.len(),
{
    lemma_scalar_property_bound(s, domain);
    if let Ok((c, n)) = scalar_property_spec(s, domain) {
        lemma_scalar_property_bound(s.subrange(n, s.len() as int), domain);
    }
}

/// The count and value properties of a list, each a word that the domain
/// holds, read back as themselves from their encoding, whatever follows.
pub proof fn lemma_list_property_roundtrip(
    l: ((Seq<u8>, u64), (Seq<u8>, u64)),
    rest: Seq<u8>,
    domain: Map<Seq<u8>, u64>,
)
    requires
        crate::function::is_clean_word(l.0.0),
        crate::function::is_clean_word(l.1.0),
        crate::head::block::property::scalar::domain_lookup(domain, l.0.0) == Some(l.0),
        crate::head::block::property::scalar::domain_lookup(domain, l.1.0) == Some(l.1),
    ensures
        list_property_spec(list_property_bytes(l) + rest, domain) == Ok::<
            (((Seq<u8>, u64), (Seq<u8>, u64)), int),
            ErrorV,
        >((l, list_property_bytes(l).len() as int)),
{
    let s = list_property_bytes(l) + rest;
    let after = scalar_property_bytes(l.1) + rest;
    assert(s =~= scalar_property_bytes(l.0) + after);
    crate::head::block::property::scalar::lemma_scalar_property_roundtrip(l.0, after, domain);
    assert(s.subrange(l.0.0.len() + 1int, s.len() as int) =~= after);
    crate::head::block::property::scalar::lemma_scalar_property_roundtrip(l.1, rest, domain);
}

} // verus!
