//! Scalar property blocks.

use vstd::prelude::*;

use crate::function::{decimal_digits, push_all, push_decimal, SPACE};

pub use crate::head::block::property::scalar::{
    ScalarProperty, CHAR, DOUBLE, FLOAT, FLOAT16, FLOAT32, FLOAT64, HALF, INT, INT16, INT32,
    INT64, INT8, LIST, LONG, SHORT, UCHAR, UINT, UINT16, UINT32, UINT64, UINT8, ULONG, USHORT,
};

verus! {

/// The kind of a scalar property and the size of one datum of it.
pub type ScalarPropertyBlockInfo = ScalarProperty;

/// The data of a scalar property: its data, one after another.
pub type ScalarPropertyBlockData = Vec<u8>;

/// A scalar property: its kind and its data.
#[derive(Clone, Debug, Default, PartialEq, Eq, Hash, PartialOrd, Ord)]
pub struct ScalarPropertyBlock {
    pub data: ScalarPropertyBlockData,
    pub info: ScalarPropertyBlockInfo,
}

/// `"{ "`, the kind, `" ["`, the number of data in decimal and `"] }"`.
pub open spec fn scalar_block_summary(kind: Seq<u8>, count: nat) -> Seq<u8> {
    seq![0x7bu8, SPACE] + kind + seq![SPACE, 0x5bu8] + decimal_digits(count) + seq![0x5du8, SPACE, 0x7du8]
}

impl ScalarPropertyBlock {
    /// A summary of the block: its kind and how many data it holds, as
    /// `{ <kind> [<count>] }`.
    pub fn summary(&self) -> (r: Vec<u8>)
        requires
            self.info.size > 0,
        ensures
            r@ == scalar_block_summary(self.info.kind@, self.data@.len() / self.info.size as nat),
    {
        let mut r: Vec<u8> = Vec::new();
        r.push(0x7b);
        r.push(SPACE);
        push_all(&mut r, self.info.kind.as_bytes());
        r.push(SPACE);
        r.push(0x5b);
        let count = self.data.len() as u64 / self.info.size;
        push_decimal(&mut r, count);
        r.push(0x5d);
        r.push(SPACE);
        r.push(0x7d);
        assert(r@ =~= scalar_block_summary(self.info.kind@, self.data@.len() / self.info.size as nat));
        r
    }
}

impl std::ops::Deref for ScalarPropertyBlock {
    type Target = ScalarPropertyBlockInfo;

    fn deref(&self) -> (r: &ScalarPropertyBlockInfo)
        ensures
            r == &self.info,
    {
        &self.info
    }
}

} // verus!
