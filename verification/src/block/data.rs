//! Data blocks: the bytes of an element, packed or one vector per property.

use vstd::prelude::*;

verus! {

/// A data block with its identifier.
#[derive(Clone, Debug, PartialEq, Eq)]
pub struct DataBlock {
    pub id: u32,
    pub variant: DataBlockVariant,
}

/// The layouts of a data block.
#[derive(Clone, Debug, PartialEq, Eq)]
pub enum DataBlockVariant {
    Packed(DataPacked),
    Planar(DataPlanar),
}

/// The records of an element, one after another.
#[derive(Clone, Debug, PartialEq, Eq)]
pub struct DataPacked {
    pub inner: Vec<u8>,
}

/// The data of an element, one vector per property.
#[derive(Clone, Debug, PartialEq, Eq)]
pub struct DataPlanar {
    pub inner: Vec<Vec<u8>>,
}

} // verus!
