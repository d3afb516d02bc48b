//! The metas of a head: one line each.

pub mod comment;
pub mod element;
pub mod format;
pub mod property;

pub use comment::{CommentMeta, ObjInfoMeta};

pub use element::ElementMeta;
pub use format::{FormatMeta, FormatMetaVariant};
pub use property::{
    ListPropertyMeta, PropertyMeta, PropertyMetaVariant, PropertyVariantV, ScalarPropertyDomain,
    ScalarPropertyMeta,
};

use vstd::prelude::*;

verus! {

/// A meta of a head.
#[derive(Clone, Debug, PartialEq, Eq, Hash, PartialOrd, Ord)]
pub struct Meta {
    pub variant: MetaVariant,
}

/// The kinds of metas.
#[derive(Clone, Debug, PartialEq, Eq, Hash, PartialOrd, Ord)]
pub enum MetaVariant {
    Comment(CommentMeta),
    Element(ElementMeta),
    ObjInfo(ObjInfoMeta),
    Property(PropertyMeta),
}

/// The value of a meta.
pub enum MetaV {
    Comment(Seq<u8>),
    Element((Seq<u8>, usize)),
    ObjInfo(Seq<u8>),
    Property((Seq<u8>, PropertyVariantV)),
}

impl View for MetaVariant {
    type V = MetaV;

    open spec fn view(&self) -> MetaV {
        match self {
            MetaVariant::Comment(m) => MetaV::Comment(m@),
            MetaVariant::Element(m) => MetaV::Element(m@),
            MetaVariant::ObjInfo(m) => MetaV::ObjInfo(m@),
            MetaVariant::Property(m) => MetaV::Property(m@),
        }
    }
}

impl View for Meta {
    type V = MetaV;

    open spec fn view(&self) -> MetaV {
        self.variant@
    }
}

impl Default for MetaVariant {
    fn default() -> (r: Self)
        ensures
            r@ == MetaV::Comment(Seq::<u8>::empty()),
    {
        MetaVariant::Comment(CommentMeta::from(crate::ascii::AsciiString::new()))
    }
}

impl Default for Meta {
    fn default() -> (r: Self)
        ensures
            r@ == MetaV::Comment(Seq::<u8>::empty()),
    {
        Meta { variant: MetaVariant::default() }
    }
}

impl vstd::std_specs::convert::FromSpecImpl<MetaVariant> for Meta {
    open spec fn obeys_from_spec() -> bool {
        true
    }

    open spec fn from_spec(variant: MetaVariant) -> Self {
        Meta { variant }
    }
}

impl From<MetaVariant> for Meta {
    fn from(variant: MetaVariant) -> (r: Self)
        ensures
            r@ == variant@,
    {
        Meta { variant }
    }
}

impl Meta {
    /// Whether this is a comment.
    pub fn is_comment(&self) -> (r: bool)
        ensures
            r == (self.variant is Comment),
    {
        matches!(self.variant, MetaVariant::Comment(_))
    }

    /// Whether this is an element.
    pub fn is_element(&self) -> (r: bool)
        ensures
            r == (self.variant is Element),
    {
        matches!(self.variant, MetaVariant::Element(_))
    }

    /// Whether this is an object information.
    pub fn is_obj_info(&self) -> (r: bool)
        ensures
            r == (self.variant is ObjInfo),
    {
        matches!(self.variant, MetaVariant::ObjInfo(_))
    }

    /// Whether this is a property.
    pub fn is_property(&self) -> (r: bool)
        ensures
            r == (self.variant is Property),
    {
        matches!(self.variant, MetaVariant::Property(_))
    }

    /// The comment, when this is one.
    pub fn as_comment(&self) -> (r: Option<&CommentMeta>)
        ensures
            match self.variant {
                MetaVariant::Comment(m) => r == Some(&m),
                _ => r is None,
            },
    {
        match &self.variant {
            MetaVariant::Comment(m) => Some(m),
            _ => None,
        }
    }

    /// The element, when this is one.
    pub fn as_element(&self) -> (r: Option<&ElementMeta>)
        ensures
            match self.variant {
                MetaVariant::Element(m) => r == Some(&m),
                _ => r is None,
            },
    {
        match &self.variant {
            MetaVariant::Element(m) => Some(m),
            _ => None,
        }
    }

    /// The object information, when this is one.
    pub fn as_obj_info(&self) -> (r: Option<&ObjInfoMeta>)
        ensures
            match self.variant {
                MetaVariant::ObjInfo(m) => r == Some(&m),
                _ => r is None,
            },
    {
        match &self.variant {
            MetaVariant::ObjInfo(m) => Some(m),
            _ => None,
        }
    }

    /// The property, when this is one.
    pub fn as_property(&self) -> (r: Option<&PropertyMeta>)
        ensures
            match self.variant {
                MetaVariant::Property(m) => r == Some(&m),
                _ => r is None,
            },
    {
        match &self.variant {
            MetaVariant::Property(m) => Some(m),
            _ => None,
        }
    }
}

} // verus!
