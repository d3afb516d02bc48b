//! The blocks of a head, each with an identifier.

pub mod comment;
pub mod element;
pub mod format;
pub mod property;

pub use comment::{CommentBlock, ObjInfoBlock};
pub use element::ElementBlock;
pub use format::{FormatBlock, FormatVariant};
pub use property::{
    ListProperty, ListPropertyBlock, PropertyBlock, PropertyVariant, ScalarProperty,
    ScalarPropertyBlock, ScalarPropertyDomain,
};

use vstd::prelude::*;

use crate::group::id::Id;

verus! {

/// A block of a head, with its identifier.
#[derive(Clone, Debug, PartialEq, Eq, Hash, PartialOrd, Ord)]
pub struct HeadBlock {
    pub id: Id,
    pub variant: HeadBlockVariant,
}

/// The kinds of blocks of a head.
#[derive(Clone, Debug, PartialEq, Eq, Hash, PartialOrd, Ord)]
pub enum HeadBlockVariant {
    Element(ElementBlock),
    Property(PropertyBlock),
    Comment(CommentBlock),
    ObjInfo(ObjInfoBlock),
}

impl HeadBlockVariant {
    /// Whether this is a comment.
    pub fn is_comment(&self) -> (r: bool)
        ensures
            r == (self is Comment),
    {
        matches!(self, HeadBlockVariant::Comment(_))
    }

    /// Whether this is an element.
    pub fn is_element(&self) -> (r: bool)
        ensures
            r == (self is Element),
    {
        matches!(self, HeadBlockVariant::Element(_))
    }

    /// Whether this is an object information.
    pub fn is_obj_info(&self) -> (r: bool)
        ensures
            r == (self is ObjInfo),
    {
        matches!(self, HeadBlockVariant::ObjInfo(_))
    }

    /// Whether this is a property.
    pub fn is_property(&self) -> (r: bool)
        ensures
            r == (self is Property),
    {
        matches!(self, HeadBlockVariant::Property(_))
    }

    /// The comment, when this is one.
    pub fn as_comment(&self) -> (r: Option<&CommentBlock>)
        ensures
            match self {
                HeadBlockVariant::Comment(b) => r == Some(b),
                _ => r is None,
            },
    {
        match self {
            HeadBlockVariant::Comment(b) => Some(b),
            _ => None,
        }
    }

    /// The element, when this is one.
    pub fn as_element(&self) -> (r: Option<&ElementBlock>)
        ensures
            match self {
                HeadBlockVariant::Element(b) => r == Some(b),
                _ => r is None,
            },
    {
        match self {
            HeadBlockVariant::Element(b) => Some(b),
            _ => None,
        }
    }

    /// The object information, when this is one.
    pub fn as_obj_info(&self) -> (r: Option<&ObjInfoBlock>)
        ensures
            match self {
                HeadBlockVariant::ObjInfo(b) => r == Some(b),
                _ => r is None,
            },
    {
        match self {
            HeadBlockVariant::ObjInfo(b) => Some(b),
            _ => None,
        }
    }

    /// The property, when this is one.
    pub fn as_property(&self) -> (r: Option<&PropertyBlock>)
        ensures
            match self {
                HeadBlockVariant::Property(b) => r == Some(b),
                _ => r is None,
            },
    {
        match self {
            HeadBlockVariant::Property(b) => Some(b),
            _ => None,
        }
    }
}

} // verus!
