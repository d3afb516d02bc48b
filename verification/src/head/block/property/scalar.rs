//! Scalar properties, and the domain that maps each known kind to its size.

use vstd::prelude::*;

use crate::ascii::{is_ascii_bytes, AsciiString};
use crate::error::{decoded, Error, ErrorV};
use crate::function::{read_word, word_field, FieldGap, SPACE};

verus! {

/// ## Syntax
///
/// ```plaintext
/// <scalar-property> :=
///     | [{" "}] <kind> " "
///
/// <kind> :=
///     | "float" | "int" | "uchar"
///     | "float32" | "int32" | "uint8"
///     | ...
///     | <ascii-string>
/// ```
///
/// A kind of scalar data and the size of one datum of it in bytes.
#[derive(Debug, PartialEq, Eq, Hash, PartialOrd, Ord)]
pub struct ScalarProperty {
    pub kind: AsciiString,
    pub size: u64,
}

/// The same scalar property, named as a block of a head.
pub type ScalarPropertyBlock = ScalarProperty;

impl View for ScalarProperty {
    type V = (Seq<u8>, u64);

    open spec fn view(&self) -> (Seq<u8>, u64) {
        (self.kind@, self.size)
    }
}

impl Clone for ScalarProperty {
    fn clone(&self) -> (r: Self)
        ensures
            r@ == self@,
    {
        ScalarProperty { kind: self.kind.clone(), size: self.size }
    }
}

/// The reserved kind `"list"`.
pub open spec fn list_kind() -> Seq<u8> {
    seq![0x6cu8, 0x69, 0x73, 0x74]
}

fn list_kind_bytes() -> (r: [u8; 4])
    ensures
        r@ == list_kind(),
{
    let r = [0x6cu8, 0x69, 0x73, 0x74];
    assert(r@ =~= list_kind());
    r
}

/// Whether `kind` is the reserved kind `"list"`.
pub fn is_list_kind(kind: &[u8]) -> (r: bool)
    ensures
        r == (kind@ == list_kind()),
{
    let l = list_kind_bytes();
    crate::function::bytes_eq(kind, &l)
}

/// The kind `"list"`.
pub open spec fn kind_list() -> Seq<u8> {
    seq![0x6cu8, 0x69, 0x73, 0x74]
}

/// The kind `"char"`.
pub open spec fn kind_char() -> Seq<u8> {
    seq![0x63u8, 0x68, 0x61, 0x72]
}

/// The kind `"int8"`.
pub open spec fn kind_int8() -> Seq<u8> {
    seq![0x69u8, 0x6e, 0x74, 0x38]
}

/// The kind `"uchar"`.
pub open spec fn kind_uchar() -> Seq<u8> {
    seq![0x75u8, 0x63, 0x68, 0x61, 0x72]
}

/// The kind `"uint8"`.
pub open spec fn kind_uint8() -> Seq<u8> {
    seq![0x75u8, 0x69, 0x6e, 0x74, 0x38]
}

/// The kind `"float16"`.
pub open spec fn kind_float16() -> Seq<u8> {
    seq![0x66u8, 0x6c, 0x6f, 0x61, 0x74, 0x31, 0x36]
}

/// The kind `"half"`.
pub open spec fn kind_half() -> Seq<u8> {
    seq![0x68u8, 0x61, 0x6c, 0x66]
}

/// The kind `"int16"`.
pub open spec fn kind_int16() -> Seq<u8> {
    seq![0x69u8, 0x6e, 0x74, 0x31, 0x36]
}

/// The kind `"short"`.
pub open spec fn kind_short() -> Seq<u8> {
    seq![0x73u8, 0x68, 0x6f, 0x72, 0x74]
}

/// The kind `"uint16"`.
pub open spec fn kind_uint16() -> Seq<u8> {
    seq![0x75u8, 0x69, 0x6e, 0x74, 0x31, 0x36]
}

/// The kind `"ushort"`.
pub open spec fn kind_ushort() -> Seq<u8> {
    seq![0x75u8, 0x73, 0x68, 0x6f, 0x72, 0x74]
}

/// The kind `"float"`.
pub open spec fn kind_float() -> Seq<u8> {
    seq![0x66u8, 0x6c, 0x6f, 0x61, 0x74]
}

/// The kind `"float32"`.
pub open spec fn kind_float32() -> Seq<u8> {
    seq![0x66u8, 0x6c, 0x6f, 0x61, 0x74, 0x33, 0x32]
}

/// The kind `"int"`.
pub open spec fn kind_int() -> Seq<u8> {
    seq![0x69u8, 0x6e, 0x74]
}

/// The kind `"int32"`.
pub open spec fn kind_int32() -> Seq<u8> {
    seq![0x69u8, 0x6e, 0x74, 0x33, 0x32]
}

/// The kind `"uint"`.
pub open spec fn kind_uint() -> Seq<u8> {
    seq![0x75u8, 0x69, 0x6e, 0x74]
}

/// The kind `"uint32"`.
pub open spec fn kind_uint32() -> Seq<u8> {
    seq![0x75u8, 0x69, 0x6e, 0x74, 0x33, 0x32]
}

/// The kind `"double"`.
pub open spec fn kind_double() -> Seq<u8> {
    seq![0x64u8, 0x6f, 0x75, 0x62, 0x6c, 0x65]
}

/// The kind `"float64"`.
pub open spec fn kind_float64() -> Seq<u8> {
    seq![0x66u8, 0x6c, 0x6f, 0x61, 0x74, 0x36, 0x34]
}

/// The kind `"int64"`.
pub open spec fn kind_int64() -> Seq<u8> {
    seq![0x69u8, 0x6e, 0x74, 0x36, 0x34]
}

/// The kind `"long"`.
pub open spec fn kind_long() -> Seq<u8> {
    seq![0x6cu8, 0x6f, 0x6e, 0x67]
}

/// The kind `"uint64"`.
pub open spec fn kind_uint64() -> Seq<u8> {
    seq![0x75u8, 0x69, 0x6e, 0x74, 0x36, 0x34]
}

/// The kind `"ulong"`.
pub open spec fn kind_ulong() -> Seq<u8> {
    seq![0x75u8, 0x6c, 0x6f, 0x6e, 0x67]
}

/// The kinds that every domain starts with, and their sizes.
pub open spec fn predefined_domain() -> Map<Seq<u8>, u64> {
    Map::<Seq<u8>, u64>::empty()
        .insert(kind_list(), 0u64)
        .insert(kind_char(), 1u64)
        .insert(kind_int8(), 1u64)
        .insert(kind_uchar(), 1u64)
        .insert(kind_uint8(), 1u64)
        .insert(kind_float16(), 2u64)
        .insert(kind_half(), 2u64)
        .insert(kind_int16(), 2u64)
        .insert(kind_short(), 2u64)
        .insert(kind_uint16(), 2u64)
        .insert(kind_ushort(), 2u64)
        .insert(kind_float(), 4u64)
        .insert(kind_float32(), 4u64)
        .insert(kind_int(), 4u64)
        .insert(kind_int32(), 4u64)
        .insert(kind_uint(), 4u64)
        .insert(kind_uint32(), 4u64)
        .insert(kind_double(), 8u64)
        .insert(kind_float64(), 8u64)
        .insert(kind_int64(), 8u64)
        .insert(kind_long(), 8u64)
        .insert(kind_uint64(), 8u64)
        .insert(kind_ulong(), 8u64)
}

/// The predefined scalar property `list` (0 bytes).
#[allow(non_snake_case)]
pub fn LIST() -> (r: ScalarProperty)
    ensures
        r@ == (kind_list(), 0u64),
{
    let b = [0x6cu8, 0x69, 0x73, 0x74];
    assert(b@ =~= kind_list());
    let kind = match AsciiString::from_slice(&b) {
        Ok(kind) => kind,
        Err(_) => {
            assert(false);
            AsciiString::new()
        },
    };
    ScalarProperty { kind, size: 0 }
}

/// The predefined scalar property `char` (1 bytes).
#[allow(non_snake_case)]
pub fn CHAR() -> (r: ScalarProperty)
    ensures
        r@ == (kind_char(), 1u64),
{
    let b = [0x63u8, 0x68, 0x61, 0x72];
    assert(b@ =~= kind_char());
    let kind = match AsciiString::from_slice(&b) {
        Ok(kind) => kind,
        Err(_) => {
            assert(false);
            AsciiString::new()
        },
    };
    ScalarProperty { kind, size: 1 }
}

/// The predefined scalar property `int8` (1 bytes).
#[allow(non_snake_case)]
pub fn INT8() -> (r: ScalarProperty)
    ensures
        r@ == (kind_int8(), 1u64),
{
    let b = [0x69u8, 0x6e, 0x74, 0x38];
    assert(b@ =~= kind_int8());
    let kind = match AsciiString::from_slice(&b) {
        Ok(kind) => kind,
        Err(_) => {
            assert(false);
            AsciiString::new()
        },
    };
    ScalarProperty { kind, size: 1 }
}

/// The predefined scalar property `uchar` (1 bytes).
#[allow(non_snake_case)]
pub fn UCHAR() -> (r: ScalarProperty)
    ensures
        r@ == (kind_uchar(), 1u64),
{
    let b = [0x75u8, 0x63, 0x68, 0x61, 0x72];
    assert(b@ =~= kind_uchar());
    let kind = match AsciiString::from_slice(&b) {
        Ok(kind) => kind,
        Err(_) => {
            assert(false);
            AsciiString::new()
        },
    };
    ScalarProperty { kind, size: 1 }
}

/// The predefined scalar property `uint8` (1 bytes).
#[allow(non_snake_case)]
pub fn UINT8() -> (r: ScalarProperty)
    ensures
        r@ == (kind_uint8(), 1u64),
{
    let b = [0x75u8, 0x69, 0x6e, 0x74, 0x38];
    assert(b@ =~= kind_uint8());
    let kind = match AsciiString::from_slice(&b) {
        Ok(kind) => kind,
        Err(_) => {
            assert(false);
            AsciiString::new()
        },
    };
    ScalarProperty { kind, size: 1 }
}

/// The predefined scalar property `float16` (2 bytes).
#[allow(non_snake_case)]
pub fn FLOAT16() -> (r: ScalarProperty)
    ensures
        r@ == (kind_float16(), 2u64),
{
    let b = [0x66u8, 0x6c, 0x6f, 0x61, 0x74, 0x31, 0x36];
    assert(b@ =~= kind_float16());
    let kind = match AsciiString::from_slice(&b) {
        Ok(kind) => kind,
        Err(_) => {
            assert(false);
            AsciiString::new()
        },
    };
    ScalarProperty { kind, size: 2 }
}

/// The predefined scalar property `half` (2 bytes).
#[allow(non_snake_case)]
pub fn HALF() -> (r: ScalarProperty)
    ensures
        r@ == (kind_half(), 2u64),
{
    let b = [0x68u8, 0x61, 0x6c, 0x66];
    assert(b@ =~= kind_half());
    let kind = match AsciiString::from_slice(&b) {
        Ok(kind) => kind,
        Err(_) => {
            assert(false);
            AsciiString::new()
        },
    };
    ScalarProperty { kind, size: 2 }
}

/// The predefined scalar property `int16` (2 bytes).
#[allow(non_snake_case)]
pub fn INT16() -> (r: ScalarProperty)
    ensures
        r@ == (kind_int16(), 2u64),
{
    let b = [0x69u8, 0x6e, 0x74, 0x31, 0x36];
    assert(b@ =~= kind_int16());
    let kind = match AsciiString::from_slice(&b) {
        Ok(kind) => kind,
        Err(_) => {
            assert(false);
            AsciiString::new()
        },
    };
    ScalarProperty { kind, size: 2 }
}

/// The predefined scalar property `short` (2 bytes).
#[allow(non_snake_case)]
pub fn SHORT() -> (r: ScalarProperty)
    ensures
        r@ == (kind_short(), 2u64),
{
    let b = [0x73u8, 0x68, 0x6f, 0x72, 0x74];
    assert(b@ =~= kind_short());
    let kind = match AsciiString::from_slice(&b) {
        Ok(kind) => kind,
        Err(_) => {
            assert(false);
            AsciiString::new()
        },
    };
    ScalarProperty { kind, size: 2 }
}

/// The predefined scalar property `uint16` (2 bytes).
#[allow(non_snake_case)]
pub fn UINT16() -> (r: ScalarProperty)
    ensures
        r@ == (kind_uint16(), 2u64),
{
    let b = [0x75u8, 0x69, 0x6e, 0x74, 0x31, 0x36];
    assert(b@ =~= kind_uint16());
    let kind = match AsciiString::from_slice(&b) {
        Ok(kind) => kind,
        Err(_) => {
            assert(false);
            AsciiString::new()
        },
    };
    ScalarProperty { kind, size: 2 }
}

/// The predefined scalar property `ushort` (2 bytes).
#[allow(non_snake_case)]
pub fn USHORT() -> (r: ScalarProperty)
    ensures
        r@ == (kind_ushort(), 2u64),
{
    let b = [0x75u8, 0x73, 0x68, 0x6f, 0x72, 0x74];
    assert(b@ =~= kind_ushort());
    let kind = match AsciiString::from_slice(&b) {
        Ok(kind) => kind,
        Err(_) => {
            assert(false);
            AsciiString::new()
        },
    };
    ScalarProperty { kind, size: 2 }
}

/// The predefined scalar property `float` (4 bytes).
#[allow(non_snake_case)]
pub fn FLOAT() -> (r: ScalarProperty)
    ensures
        r@ == (kind_float(), 4u64),
{
    let b = [0x66u8, 0x6c, 0x6f, 0x61, 0x74];
    assert(b@ =~= kind_float());
    let kind = match AsciiString::from_slice(&b) {
        Ok(kind) => kind,
        Err(_) => {
            assert(false);
            AsciiString::new()
        },
    };
    ScalarProperty { kind, size: 4 }
}

/// The predefined scalar property `float32` (4 bytes).
#[allow(non_snake_case)]
pub fn FLOAT32() -> (r: ScalarProperty)
    ensures
        r@ == (kind_float32(), 4u64),
{
    let b = [0x66u8, 0x6c, 0x6f, 0x61, 0x74, 0x33, 0x32];
    assert(b@ =~= kind_float32());
    let kind = match AsciiString::from_slice(&b) {
        Ok(kind) => kind,
        Err(_) => {
            assert(false);
            AsciiString::new()
        },
    };
    ScalarProperty { kind, size: 4 }
}

/// The predefined scalar property `int` (4 bytes).
#[allow(non_snake_case)]
pub fn INT() -> (r: ScalarProperty)
    ensures
        r@ == (kind_int(), 4u64),
{
    let b = [0x69u8, 0x6e, 0x74];
    assert(b@ =~= kind_int());
    let kind = match AsciiString::from_slice(&b) {
        Ok(kind) => kind,
        Err(_) => {
            assert(false);
            AsciiString::new()
        },
    };
    ScalarProperty { kind, size: 4 }
}

/// The predefined scalar property `int32` (4 bytes).
#[allow(non_snake_case)]
pub fn INT32() -> (r: ScalarProperty)
    ensures
        r@ == (kind_int32(), 4u64),
{
    let b = [0x69u8, 0x6e, 0x74, 0x33, 0x32];
    assert(b@ =~= kind_int32());
    let kind = match AsciiString::from_slice(&b) {
        Ok(kind) => kind,
        Err(_) => {
            assert(false);
            AsciiString::new()
        },
    };
    ScalarProperty { kind, size: 4 }
}

/// The predefined scalar property `uint` (4 bytes).
#[allow(non_snake_case)]
pub fn UINT() -> (r: ScalarProperty)
    ensures
        r@ == (kind_uint(), 4u64),
{
    let b = [0x75u8, 0x69, 0x6e, 0x74];
    assert(b@ =~= kind_uint());
    let kind = match AsciiString::from_slice(&b) {
        Ok(kind) => kind,
        Err(_) => {
            assert(false);
            AsciiString::new()
        },
    };
    ScalarProperty { kind, size: 4 }
}

/// The predefined scalar property `uint32` (4 bytes).
#[allow(non_snake_case)]
pub fn UINT32() -> (r: ScalarProperty)
    ensures
        r@ == (kind_uint32(), 4u64),
{
    let b = [0x75u8, 0x69, 0x6e, 0x74, 0x33, 0x32];
    assert(b@ =~= kind_uint32());
    let kind = match AsciiString::from_slice(&b) {
        Ok(kind) => kind,
        Err(_) => {
            assert(false);
            AsciiString::new()
        },
    };
    ScalarProperty { kind, size: 4 }
}

/// The predefined scalar property `double` (8 bytes).
#[allow(non_snake_case)]
pub fn DOUBLE() -> (r: ScalarProperty)
    ensures
        r@ == (kind_double(), 8u64),
{
    let b = [0x64u8, 0x6f, 0x75, 0x62, 0x6c, 0x65];
    assert(b@ =~= kind_double());
    let kind = match AsciiString::from_slice(&b) {
        Ok(kind) => kind,
        Err(_) => {
            assert(false);
            AsciiString::new()
        },
    };
    ScalarProperty { kind, size: 8 }
}

/// The predefined scalar property `float64` (8 bytes).
#[allow(non_snake_case)]
pub fn FLOAT64() -> (r: ScalarProperty)
    ensures
        r@ == (kind_float64(), 8u64),
{
    let b = [0x66u8, 0x6c, 0x6f, 0x61, 0x74, 0x36, 0x34];
    assert(b@ =~= kind_float64());
    let kind = match AsciiString::from_slice(&b) {
        Ok(kind) => kind,
        Err(_) => {
            assert(false);
            AsciiString::new()
        },
    };
    ScalarProperty { kind, size: 8 }
}

/// The predefined scalar property `int64` (8 bytes).
#[allow(non_snake_case)]
pub fn INT64() -> (r: ScalarProperty)
    ensures
        r@ == (kind_int64(), 8u64),
{
    let b = [0x69u8, 0x6e, 0x74, 0x36, 0x34];
    assert(b@ =~= kind_int64());
    let kind = match AsciiString::from_slice(&b) {
        Ok(kind) => kind,
        Err(_) => {
            assert(false);
            AsciiString::new()
        },
    };
    ScalarProperty { kind, size: 8 }
}

/// The predefined scalar property `long` (8 bytes).
#[allow(non_snake_case)]
pub fn LONG() -> (r: ScalarProperty)
    ensures
        r@ == (kind_long(), 8u64),
{
    let b = [0x6cu8, 0x6f, 0x6e, 0x67];
    assert(b@ =~= kind_long());
    let kind = match AsciiString::from_slice(&b) {
        Ok(kind) => kind,
        Err(_) => {
            assert(false);
            AsciiString::new()
        },
    };
    ScalarProperty { kind, size: 8 }
}

/// The predefined scalar property `uint64` (8 bytes).
#[allow(non_snake_case)]
pub fn UINT64() -> (r: ScalarProperty)
    ensures
        r@ == (kind_uint64(), 8u64),
{
    let b = [0x75u8, 0x69, 0x6e, 0x74, 0x36, 0x34];
    assert(b@ =~= kind_uint64());
    let kind = match AsciiString::from_slice(&b) {
        Ok(kind) => kind,
        Err(_) => {
            assert(false);
            AsciiString::new()
        },
    };
    ScalarProperty { kind, size: 8 }
}

/// The predefined scalar property `ulong` (8 bytes).
#[allow(non_snake_case)]
pub fn ULONG() -> (r: ScalarProperty)
    ensures
        r@ == (kind_ulong(), 8u64),
{
    let b = [0x75u8, 0x6c, 0x6f, 0x6e, 0x67];
    assert(b@ =~= kind_ulong());
    let kind = match AsciiString::from_slice(&b) {
        Ok(kind) => kind,
        Err(_) => {
            assert(false);
            AsciiString::new()
        },
    };
    ScalarProperty { kind, size: 8 }
}
/// A domain of scalar properties: each known kind with its size.
///
/// The kinds are distinct; the domain maps each of them to its size.
pub struct ScalarPropertyDomain {
    entries: Vec<ScalarProperty>,
    map: Ghost<Map<Seq<u8>, u64>>,
}

impl View for ScalarPropertyDomain {
    type V = Map<Seq<u8>, u64>;

    closed spec fn view(&self) -> Map<Seq<u8>, u64> {
        self.map@
    }
}

/// The scalar property that a domain holds for `kind`.
pub open spec fn domain_lookup(domain: Map<Seq<u8>, u64>, kind: Seq<u8>) -> Option<(Seq<u8>, u64)> {
    if domain.contains_key(kind) {
        Some((kind, domain[kind]))
    } else {
        None
    }
}

/// The entries hold each kind of the map once, with its size.
closed spec fn entries_match(entries: Seq<ScalarProperty>, map: Map<Seq<u8>, u64>) -> bool {
    &&& forall|i: int|
        0 <= i < entries.len() ==> #[trigger] map.contains_key(entries[i].kind@)
            && map[entries[i].kind@] == entries[i].size
    &&& forall|k: Seq<u8>|
        #[trigger] map.contains_key(k) ==> exists|i: int|
            0 <= i < entries.len() && #[trigger] entries[i].kind@ == k
    &&& forall|i: int, j: int|
        0 <= i < entries.len() && 0 <= j < entries.len() && i != j
            ==> #[trigger] entries[i].kind@ != #[trigger] entries[j].kind@
}

impl ScalarPropertyDomain {
    #[verifier::type_invariant]
    closed spec fn inv(self) -> bool {
        entries_match(self.entries@, self.map@)
    }

    /// The position of `kind` among the entries.
    fn position(&self, kind: &[u8]) -> (r: Option<usize>)
        ensures
            match r {
                Some(i) => i < self.entries@.len() && self.entries@[i as int].kind@ == kind@
                    && self@.contains_key(kind@),
                None => !self@.contains_key(kind@),
            },
    {
        proof {
            use_type_invariant(self);
        }
        let mut i: usize = 0;
        while i < self.entries.len()
            invariant
                i <= self.entries@.len(),
                forall|k: int| 0 <= k < i ==> #[trigger] self.entries@[k].kind@ != kind@,
            decreases self.entries@.len() - i,
        {
            if self.entries[i].kind.eq_bytes(kind) {
                proof {
                    use_type_invariant(self);
                }
                return Some(i);
            }
            i += 1;
        }
        proof {
            if self@.contains_key(kind@) {
                let j = choose|j: int|
                    0 <= j < self.entries@.len() && #[trigger] self.entries@[j].kind@ == kind@;
                assert(self.entries@[j].kind@ != kind@);
            }
        }
        None
    }

    /// An empty domain.
    fn empty() -> (r: Self)
        ensures
            r@ == Map::<Seq<u8>, u64>::empty(),
    {
        ScalarPropertyDomain { entries: Vec::new(), map: Ghost(Map::empty()) }
    }

    /// Puts `property` into the domain under its kind, and gives back the
    /// property that was there.
    fn insert(&mut self, property: ScalarProperty) -> (r: Option<ScalarProperty>)
        ensures
            final(self)@ == old(self)@.insert(property@.0, property@.1),
            match r {
                Some(p) => domain_lookup(old(self)@, property@.0) == Some(p@),
                None => domain_lookup(old(self)@, property@.0) is None,
            },
    {
        proof {
            use_type_invariant(&*self);
        }
        let ghost old_map = self.map@;
        let ghost kind = property@.0;
        let ghost size = property@.1;
        match self.position(property.kind.as_bytes()) {
            Some(i) => {
                let mut taken = ScalarPropertyDomain::empty();
                std::mem::swap(&mut taken, self);
                let ScalarPropertyDomain { mut entries, map: _ } = taken;
                let ghost old_entries = entries@;
                let old = entries[i].clone();
                entries.set(i, property);
                proof {
                    assert(entries@ == old_entries.update(i as int, entries@[i as int]));
                    assert forall|k: Seq<u8>| #[trigger]
                        old_map.insert(kind, size).contains_key(k) implies exists|j: int|
                        0 <= j < entries@.len() && #[trigger] entries@[j].kind@ == k by {
                        if k == kind {
                            assert(entries@[i as int].kind@ == k);
                        } else {
                            let j = choose|j: int|
                                0 <= j < old_entries.len() && #[trigger] old_entries[j].kind@ == k;
                            assert(entries@[j].kind@ == k);
                        }
                    }
                    assert forall|a: int, b: int|
                        0 <= a < entries@.len() && 0 <= b < entries@.len() && a != b
                            implies #[trigger] entries@[a].kind@ != #[trigger] entries@[b].kind@ by {
                        if a == i {
                            assert(old_entries[b].kind@ != old_entries[a].kind@);
                        } else if b == i {
                            assert(old_entries[b].kind@ != old_entries[a].kind@);
                        } else {
                            assert(old_entries[b].kind@ != old_entries[a].kind@);
                        }
                    }
                }
                assert(entries_match(entries@, old_map.insert(kind, size)));
                *self = ScalarPropertyDomain { entries, map: Ghost(old_map.insert(kind, size)) };
                Some(old)
            },
            None => {
                let mut taken = ScalarPropertyDomain::empty();
                std::mem::swap(&mut taken, self);
                let ScalarPropertyDomain { mut entries, map: _ } = taken;
                let ghost old_entries = entries@;
                entries.push(property);
                proof {
                    assert forall|k: Seq<u8>| #[trigger]
                        old_map.insert(kind, size).contains_key(k) implies exists|j: int|
                        0 <= j < entries@.len() && #[trigger] entries@[j].kind@ == k by {
                        if k == kind {
                            assert(entries@[old_entries.len() as int].kind@ == k);
                        } else {
                            let j = choose|j: int|
                                0 <= j < old_entries.len() && #[trigger] old_entries[j].kind@ == k;
                            assert(entries@[j].kind@ == k);
                        }
                    }
                    assert forall|a: int, b: int|
                        0 <= a < entries@.len() && 0 <= b < entries@.len() && a != b
                            implies #[trigger] entries@[a].kind@ != #[trigger] entries@[b].kind@ by {
                        if a == old_entries.len() {
                            assert(old_map.contains_key(entries@[b].kind@));
                        } else if b == old_entries.len() {
                            assert(old_map.contains_key(entries@[a].kind@));
                        } else {
                            assert(old_entries[b].kind@ != old_entries[a].kind@);
                        }
                    }
                }
                assert(entries_match(entries@, old_map.insert(kind, size)));
                *self = ScalarPropertyDomain { entries, map: Ghost(old_map.insert(kind, size)) };
                None
            },
        }
    }

    /// Takes the property of `kind` out of the domain.
    #[verifier::spinoff_prover]
    #[verifier::rlimit(40)]
    fn remove(&mut self, kind: &[u8]) -> (r: Option<ScalarProperty>)
        ensures
            final(self)@ == old(self)@.remove(kind@),
            match r {
                Some(p) => domain_lookup(old(self)@, kind@) == Some(p@),
                None => domain_lookup(old(self)@, kind@) is None,
            },
    {
        proof {
            use_type_invariant(&*self);
        }
        let ghost old_map = self.map@;
        match self.position(kind) {
            Some(i) => {
                let mut taken = ScalarPropertyDomain::empty();
                std::mem::swap(&mut taken, self);
                let ScalarPropertyDomain { mut entries, map: _ } = taken;
                let ghost old_entries = entries@;
                let old = entries.remove(i);
                proof {
                    assert forall|j: int| 0 <= j < entries@.len() implies #[trigger]
                        old_map.remove(kind@).contains_key(entries@[j].kind@)
                        && old_map.remove(kind@)[entries@[j].kind@] == entries@[j].size by {
                        assert(entries_match(old_entries, old_map));
                        if j < i {
                            assert(entries@[j] == old_entries[j]);
                            assert(old_map.contains_key(old_entries[j].kind@));
                            assert(old_entries[j].kind@ != old_entries[i as int].kind@);
                        } else {
                            assert(entries@[j] == old_entries[j + 1]);
                            assert(old_map.contains_key(old_entries[j + 1].kind@));
                            assert(old_entries[j + 1].kind@ != old_entries[i as int].kind@);
                        }
                    }
                    assert forall|k: Seq<u8>| #[trigger]
                        old_map.remove(kind@).contains_key(k) implies exists|j: int|
                        0 <= j < entries@.len() && #[trigger] entries@[j].kind@ == k by {
                        let j = choose|j: int|
                            0 <= j < old_entries.len() && #[trigger] old_entries[j].kind@ == k;
                        if j < i {
                            assert(entries@[j].kind@ == k);
                        } else {
                            assert(j != i);
                            assert(entries@[j - 1].kind@ == k);
                        }
                    }
                    assert forall|a: int, b: int|
                        0 <= a < entries@.len() && 0 <= b < entries@.len() && a != b
                            implies #[trigger] entries@[a].kind@ != #[trigger] entries@[b].kind@ by {
                        let oa = if a < i { a } else { a + 1 };
                        let ob = if b < i { b } else { b + 1 };
                        assert(entries@[a] == old_entries[oa]);
                        assert(entries@[b] == old_entries[ob]);
                        assert(old_entries[oa].kind@ != old_entries[ob].kind@);
                    }
                }
                let ghost new_map = old_map.remove(kind@);
                assert(forall|a: int, b: int|
                    0 <= a < entries@.len() && 0 <= b < entries@.len() && a != b
                        ==> #[trigger] entries@[a].kind@ != #[trigger] entries@[b].kind@);
                assert(forall|j: int|
                    0 <= j < entries@.len() ==> #[trigger] new_map.contains_key(entries@[j].kind@)
                        && new_map[entries@[j].kind@] == entries@[j].size);
                assert(forall|k: Seq<u8>|
                    #[trigger] new_map.contains_key(k) ==> exists|j: int|
                        0 <= j < entries@.len() && #[trigger] entries@[j].kind@ == k);
                assert(entries_match(entries@, new_map));
                *self = ScalarPropertyDomain { entries, map: Ghost(new_map) };
                Some(old)
            },
            None => {
                proof {
                    assert(old_map.remove(kind@) =~= old_map);
                }
                None
            },
        }
    }
}

impl ScalarPropertyDomain {
    /// The domain of the predefined scalar properties.
    pub fn new() -> (r: Self)
        ensures
            r@ == predefined_domain(),
    {
        let mut d = ScalarPropertyDomain::empty();
        d.insert(LIST());
        d.insert(CHAR());
        d.insert(INT8());
        d.insert(UCHAR());
        d.insert(UINT8());
        d.insert(FLOAT16());
        d.insert(HALF());
        d.insert(INT16());
        d.insert(SHORT());
        d.insert(UINT16());
        d.insert(USHORT());
        d.insert(FLOAT());
        d.insert(FLOAT32());
        d.insert(INT());
        d.insert(INT32());
        d.insert(UINT());
        d.insert(UINT32());
        d.insert(DOUBLE());
        d.insert(FLOAT64());
        d.insert(INT64());
        d.insert(LONG());
        d.insert(UINT64());
        d.insert(ULONG());
        d
    }

    /// The number of kinds in the domain.
    pub fn len(&self) -> (r: usize)
        ensures
            r == self@.dom().len(),
    {
        proof {
            use_type_invariant(self);
            lemma_entries_cover(self);
        }
        self.entries.len()
    }
}

proof fn lemma_entries_cover(d: &ScalarPropertyDomain)
    requires
        d.inv(),
    ensures
        d@.dom().len() == d.entries@.len(),
        d@.dom().finite(),
{
    let kinds = d.entries@.map_values(|p: ScalarProperty| p@.0);
    assert(kinds.no_duplicates()) by {
        assert forall|a: int, b: int| 0 <= a < kinds.len() && 0 <= b < kinds.len() && a != b
            implies kinds[a] != kinds[b] by {
            assert(d.entries@[a].kind@ != d.entries@[b].kind@);
        }
    }
    assert(kinds.to_set() =~= d@.dom()) by {
        assert forall|k: Seq<u8>| #[trigger] d@.dom().contains(k) implies kinds.to_set().contains(k) by {
            let i = choose|i: int| 0 <= i < d.entries@.len() && #[trigger] d.entries@[i].kind@ == k;
            assert(kinds[i] == k);
        }
        assert forall|k: Seq<u8>| kinds.to_set().contains(k) implies #[trigger] d@.dom().contains(k) by {
            let i = choose|i: int| 0 <= i < kinds.len() && kinds[i] == k;
            assert(d.map@.contains_key(d.entries@[i].kind@));
        }
    }
    kinds.unique_seq_to_set();
}

impl ScalarProperty {
    /// A scalar property of the given kind and size, when the kind is ASCII.
    pub fn try_new(kind: &[u8], size: u64) -> (r: Result<ScalarProperty, Error>)
        ensures
            match r {
                Ok(p) => is_ascii_bytes(kind@) && p@ == (kind@, size),
                Err(e) => !is_ascii_bytes(kind@) && e@ == ErrorV::InvalidAscii(crate::error::utf8_lossy(kind@)),
            },
    {
        match AsciiString::from_slice(kind) {
            Ok(kind) => Ok(ScalarProperty { kind, size }),
            Err(bytes) => Err(Error::InvalidAscii(crate::error::lossy_text(bytes.as_slice()))),
        }
    }

    /// Registers the kind with its size in the domain, and gives back the
    /// property that the kind had before. The kind `"list"` is reserved and
    /// cannot be registered; a kind that is not ASCII is refused.
    pub fn register(
        domain: &mut ScalarPropertyDomain,
        kind: &[u8],
        size: u64,
    ) -> (r: Result<Option<ScalarProperty>, Error>)
        ensures
            match r {
                Err(e) => final(domain)@ == old(domain)@ && if kind@ == list_kind() {
                    e@ == ErrorV::InvalidPolygonPropertyKind(crate::error::utf8_lossy(kind@))
                } else {
                    !is_ascii_bytes(kind@) && e@ == ErrorV::InvalidAscii(crate::error::utf8_lossy(kind@))
                },
                Ok(o) => kind@ != list_kind() && is_ascii_bytes(kind@) && final(domain)@
                    == old(domain)@.insert(kind@, size) && match o {
                    Some(p) => domain_lookup(old(domain)@, kind@) == Some(p@),
                    None => domain_lookup(old(domain)@, kind@) is None,
                },
            },
            final(domain)@ == register_effect(old(domain)@, kind@, size),
    {
        if is_list_kind(kind) {
            return Err(Error::InvalidPolygonPropertyKind(crate::error::lossy_text(kind)));
        }
        let property = ScalarProperty::try_new(kind, size)?;
        Ok(domain.insert(property))
    }

    /// The property that the domain holds for `kind`.
    pub fn search(domain: &ScalarPropertyDomain, kind: &[u8]) -> (r: Option<ScalarProperty>)
        ensures
            match r {
                Some(p) => domain_lookup(domain@, kind@) == Some(p@),
                None => domain_lookup(domain@, kind@) is None,
            },
            !is_ascii_bytes(kind@) ==> r is None,
    {
        match domain.position(kind) {
            Some(i) => {
                proof {
                    use_type_invariant(domain);
                }
                let entry = &domain.entries[i];
                proof {
                    use_type_invariant(&entry.kind);
                }
                Some(entry.clone())
            },
            None => None,
        }
    }

    /// Removes the kind from the domain and gives back its property. The
    /// kind `"list"` is reserved and stays.
    pub fn unregister(domain: &mut ScalarPropertyDomain, kind: &[u8]) -> (r: Option<ScalarProperty>)
        ensures
            kind@ == list_kind() ==> r is None && final(domain)@ == old(domain)@,
            kind@ != list_kind() ==> final(domain)@ == old(domain)@.remove(kind@) && match r {
                Some(p) => domain_lookup(old(domain)@, kind@) == Some(p@),
                None => domain_lookup(old(domain)@, kind@) is None,
            },
            final(domain)@ == unregister_effect(old(domain)@, kind@),
    {
        if is_list_kind(kind) {
            return None;
        }
        domain.remove(kind)
    }
}

/// The scalar property read by [`ScalarProperty::decode`] from the front of `s`.
pub open spec fn scalar_property_spec(s: Seq<u8>, domain: Map<Seq<u8>, u64>) -> Result<
    ((Seq<u8>, u64), int),
    ErrorV,
> {
    match word_field(s) {
        Err(FieldGap::Missing) => Err(ErrorV::MissingToken("<kind>")),
        Err(FieldGap::Eof) => Err(ErrorV::UnexpectedEof),
        Ok((kind, n)) => match domain_lookup(domain, kind) {
            Some(p) => Ok((p, n)),
            None => Err(ErrorV::InvalidPolygonPropertyKind(crate::error::utf8_lossy(kind))),
        },
    }
}

/// The bytes that [`ScalarProperty::encode`] writes.
pub open spec fn scalar_property_bytes(p: (Seq<u8>, u64)) -> Seq<u8> {
    p.0 + seq![SPACE]
}

impl ScalarProperty {
    /// Reads a scalar property from the front of `input`: its kind, which
    /// the domain must hold.
    pub fn decode(input: &[u8], domain: &ScalarPropertyDomain) -> (r: Result<(ScalarProperty, usize), Error>)
        ensures
            decoded(r) == scalar_property_spec(input@, domain@),
            r matches Ok((_, n)) ==> n <= input@.len(),
    {
        match read_word(input) {
            Err(FieldGap::Missing) => Err(Error::MissingToken("<kind>")),
            Err(FieldGap::Eof) => Err(Error::UnexpectedEof),
            Ok((kind, n)) => match ScalarProperty::search(domain, kind.as_slice()) {
                Some(p) => Ok((p, n)),
                None => Err(Error::InvalidPolygonPropertyKind(crate::error::lossy_text(kind.as_slice()))),
            },
        }
    }

    /// Writes the kind and a space.
    pub fn encode(&self, out: &mut Vec<u8>)
        ensures
            final(out)@ == old(out)@ + scalar_property_bytes(self@),
    {
        crate::function::push_all(out, self.kind.as_bytes());
        out.push(SPACE);
        assert(final(out)@ =~= old(out)@ + scalar_property_bytes(self@));
    }

    /// The kind of the property, as it is written.
    pub fn to_display_bytes(&self) -> (r: Vec<u8>)
        ensures
            r@ == self@.0,
    {
        vstd::slice::slice_to_vec(self.kind.as_bytes())
    }
}

impl Default for ScalarProperty {
    fn default() -> (r: Self)
        ensures
            r@ == (kind_float(), 4u64),
    {
        FLOAT()
    }
}

impl Default for ScalarPropertyDomain {
    fn default() -> (r: Self)
        ensures
            r@ == predefined_domain(),
    {
        ScalarPropertyDomain::new()
    }
}

/// A scalar property consumes at least one byte and no more than there are.
pub proof fn lemma_scalar_property_bound(s: Seq<u8>, domain: Map<Seq<u8>, u64>)
    ensures
        scalar_property_spec(s, domain) matches Ok((p, n)) ==> 0 < n <= s.len(),
{
    crate::function::lemma_word_field_bound(s);
}

/// A scalar property that the domain holds reads back as itself from its
/// encoding, whatever follows.
pub proof fn lemma_scalar_property_roundtrip(
    p: (Seq<u8>, u64),
    rest: Seq<u8>,
    domain: Map<Seq<u8>, u64>,
)
    requires
        crate::function::is_clean_word(p.0),
        domain_lookup(domain, p.0) == Some(p),
    ensures
        scalar_property_spec(scalar_property_bytes(p) + rest, domain) == Ok::<((Seq<u8>, u64), int), ErrorV>(
            (p, p.0.len() + 1int),
        ),
{
    crate::function::lemma_word_field_clean(p.0, rest);
    assert(scalar_property_bytes(p) + rest =~= p.0 + seq![SPACE] + rest);
}

/// The domain after registering `kind` with `size`: the kind `"list"` and
/// kinds that are not ASCII are refused and leave it as it was.
pub open spec fn register_effect(domain: Map<Seq<u8>, u64>, kind: Seq<u8>, size: u64) -> Map<Seq<u8>, u64> {
    if kind != list_kind() && is_ascii_bytes(kind) {
        domain.insert(kind, size)
    } else {
        domain
    }
}

/// The domain after unregistering `kind`: the kind `"list"` stays.
pub open spec fn unregister_effect(domain: Map<Seq<u8>, u64>, kind: Seq<u8>) -> Map<Seq<u8>, u64> {
    if kind != list_kind() {
        domain.remove(kind)
    } else {
        domain
    }
}

/// A call on a domain: registering a kind with a size, or unregistering a
/// kind.
pub enum DomainCall {
    Register(Seq<u8>, u64),
    Unregister(Seq<u8>),
}

/// The domain after the calls, in order.
pub open spec fn after_calls(domain: Map<Seq<u8>, u64>, calls: Seq<DomainCall>) -> Map<Seq<u8>, u64>
    decreases calls.len(),
{
    if calls.len() == 0 {
        domain
    } else {
        let d = after_calls(domain, calls.drop_last());
        match calls.last() {
            DomainCall::Register(kind, size) => register_effect(d, kind, size),
            DomainCall::Unregister(kind) => unregister_effect(d, kind),
        }
    }
}

/// Every kind of the predefined domain is ASCII.
proof fn lemma_predefined_ascii()
    ensures
        forall|k: Seq<u8>| #[trigger] predefined_domain().contains_key(k) ==> is_ascii_bytes(k),
{
    assert(is_ascii_bytes(kind_list()));
    assert(is_ascii_bytes(kind_char()));
    assert(is_ascii_bytes(kind_int8()));
    assert(is_ascii_bytes(kind_uchar()));
    assert(is_ascii_bytes(kind_uint8()));
    assert(is_ascii_bytes(kind_float16()));
    assert(is_ascii_bytes(kind_half()));
    assert(is_ascii_bytes(kind_int16()));
    assert(is_ascii_bytes(kind_short()));
    assert(is_ascii_bytes(kind_uint16()));
    assert(is_ascii_bytes(kind_ushort()));
    assert(is_ascii_bytes(kind_float()));
    assert(is_ascii_bytes(kind_float32()));
    assert(is_ascii_bytes(kind_int()));
    assert(is_ascii_bytes(kind_int32()));
    assert(is_ascii_bytes(kind_uint()));
    assert(is_ascii_bytes(kind_uint32()));
    assert(is_ascii_bytes(kind_double()));
    assert(is_ascii_bytes(kind_float64()));
    assert(is_ascii_bytes(kind_int64()));
    assert(is_ascii_bytes(kind_long()));
    assert(is_ascii_bytes(kind_uint64()));
    assert(is_ascii_bytes(kind_ulong()));
}

/// Whatever kinds are registered and unregistered, starting from the
/// predefined domain, `"list"` is still there with size 0, and every kind
/// of the domain is ASCII.
pub proof fn lemma_list_kept(calls: Seq<DomainCall>)
    ensures
        domain_lookup(after_calls(predefined_domain(), calls), list_kind()) == Some((list_kind(), 0u64)),
        forall|k: Seq<u8>| #[trigger] after_calls(predefined_domain(), calls).contains_key(k) ==> is_ascii_bytes(k),
    decreases calls.len(),
{
    if calls.len() == 0 {
        lemma_list_kind_predefined();
        lemma_predefined_ascii();
    } else {
        lemma_list_kept(calls.drop_last());
    }
}

/// A kind that registering puts in a domain is found there with its size,
/// and the other kinds are found as before.
pub proof fn lemma_register_then_search(domain: Map<Seq<u8>, u64>, kind: Seq<u8>, size: u64, other: Seq<u8>)
    ensures
        domain_lookup(domain.insert(kind, size), kind) == Some((kind, size)),
        other != kind ==> domain_lookup(domain.insert(kind, size), other) == domain_lookup(domain, other),
{
}

/// A kind that unregistering takes out of a domain is not found there any
/// more, and the other kinds are found as before.
pub proof fn lemma_unregister_then_search(domain: Map<Seq<u8>, u64>, kind: Seq<u8>, other: Seq<u8>)
    ensures
        domain_lookup(domain.remove(kind), kind) is None,
        other != kind ==> domain_lookup(domain.remove(kind), other) == domain_lookup(domain, other),
{
}

/// The kind `"list"` stays in every domain that starts from the predefined
/// one: registering refuses it and unregistering keeps it.
pub proof fn lemma_list_kind_predefined()
    ensures
        domain_lookup(predefined_domain(), list_kind()) == Some((list_kind(), 0u64)),
{
    assert(kind_list() == list_kind());
}

} // verus!
