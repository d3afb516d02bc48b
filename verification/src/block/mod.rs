//! Blocks of a header, as an earlier grammar writes them.

pub mod comment;
pub mod data;
pub mod element;
pub mod format;
pub mod property;

pub use comment::{CommentBlock, ObjInfoBlock};
pub use element::ElementBlock;
pub use format::{FormatBlock, FormatVariant};
pub use property::{
    ListProperty, ListPropertyBlock, ListPropertyBlockInfo, PropertyBlock, PropertyBlockVariant,
    ScalarPropertyBlock, ScalarPropertyBlockInfo,
};

use vstd::prelude::*;

verus! {

/// A block.
#[derive(Clone, Debug, Default, PartialEq, Eq, Hash, PartialOrd, Ord)]
pub struct Block {
    pub variant: BlockVariant,
}

/// The kinds of blocks.
#[derive(Clone, Debug, PartialEq, Eq, Hash, PartialOrd, Ord)]
pub enum BlockVariant {
    Comment(CommentBlock),
    Element(ElementBlock),
    ObjInfo(ObjInfoBlock),
    Property(PropertyBlock),
}

impl Default for BlockVariant {
    fn default() -> (r: Self)
        ensures
            r matches BlockVariant::Comment(c) && c@.len() == 0,
    {
        BlockVariant::Comment(CommentBlock { message: crate::ascii::AsciiString::new() })
    }
}

impl vstd::std_specs::convert::FromSpecImpl<CommentBlock> for Block {
    open spec fn obeys_from_spec() -> bool {
        true
    }

    open spec fn from_spec(b: CommentBlock) -> Self {
        Block { variant: BlockVariant::Comment(b) }
    }
}

impl From<CommentBlock> for Block {
    fn from(b: CommentBlock) -> (r: Self)
        ensures
            r == (Block { variant: BlockVariant::Comment(b) }),
    {
        Block { variant: BlockVariant::Comment(b) }
    }
}

impl vstd::std_specs::convert::FromSpecImpl<ElementBlock> for Block {
    open spec fn obeys_from_spec() -> bool {
        true
    }

    open spec fn from_spec(b: ElementBlock) -> Self {
        Block { variant: BlockVariant::Element(b) }
    }
}

impl From<ElementBlock> for Block {
    fn from(b: ElementBlock) -> (r: Self)
        ensures
            r == (Block { variant: BlockVariant::Element(b) }),
    {
        Block { variant: BlockVariant::Element(b) }
    }
}

impl vstd::std_specs::convert::FromSpecImpl<PropertyBlock> for Block {
    open spec fn obeys_from_spec() -> bool {
        true
    }

    open spec fn from_spec(b: PropertyBlock) -> Self {
        Block { variant: BlockVariant::Property(b) }
    }
}

impl From<PropertyBlock> for Block {
    fn from(b: PropertyBlock) -> (r: Self)
        ensures
            r == (Block { variant: BlockVariant::Property(b) }),
    {
        Block { variant: BlockVariant::Property(b) }
    }
}

impl Block {
    /// Whether this is a comment.
    pub fn is_comment(&self) -> (r: bool)
        ensures
            r == (self.variant is Comment),
    {
        matches!(self.variant, BlockVariant::Comment(_))
    }

    /// Whether this is an element.
    pub fn is_element(&self) -> (r: bool)
        ensures
            r == (self.variant is Element),
    {
        matches!(self.variant, BlockVariant::Element(_))
    }

    /// Whether this is an object information.
    pub fn is_obj_info(&self) -> (r: bool)
        ensures
            r == (self.variant is ObjInfo),
    {
        matches!(self.variant, BlockVariant::ObjInfo(_))
    }

    /// Whether this is a property.
    pub fn is_property(&self) -> (r: bool)
        ensures
            r == (self.variant is Property),
    {
        matches!(self.variant, BlockVariant::Property(_))
    }

    /// The comment, when this is one.
    pub fn as_comment(&self) -> (r: Option<&CommentBlock>)
        ensures
            match self.variant {
                BlockVariant::Comment(b) => r == Some(&b),
                _ => r is None,
            },
    {
        match &self.variant {
            BlockVariant::Comment(b) => Some(b),
            _ => None,
        }
    }

    /// The element, when this is one.
    pub fn as_element(&self) -> (r: Option<&ElementBlock>)
        ensures
            match self.variant {
                BlockVariant::Element(b) => r == Some(&b),
                _ => r is None,
            },
    {
        match &self.variant {
            BlockVariant::Element(b) => Some(b),
            _ => None,
        }
    }

    /// The object information, when this is one.
    pub fn as_obj_info(&self) -> (r: Option<&ObjInfoBlock>)
        ensures
            match self.variant {
                BlockVariant::ObjInfo(b) => r == Some(&b),
                _ => r is None,
            },
    {
        match &self.variant {
            BlockVariant::ObjInfo(b) => Some(b),
            _ => None,
        }
    }

    /// The property, when this is one.
    pub fn as_property(&self) -> (r: Option<&PropertyBlock>)
        ensures
            match self.variant {
                BlockVariant::Property(b) => r == Some(&b),
                _ => r is None,
            },
    {
        match &self.variant {
            BlockVariant::Property(b) => Some(b),
            _ => None,
        }
    }
}

} // verus!
