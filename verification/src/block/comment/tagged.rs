//! Comment lines tagged with the keyword that starts them.

use vstd::prelude::*;

verus! {

/// A comment line: its message and the keyword that starts it.
#[derive(Clone, Debug, PartialEq, Eq)]
pub struct CommentBlock {
    pub message: String,
    pub variant: CommentVariant,
}

/// The keywords that start a comment line.
#[derive(Clone, Copy, Debug, PartialEq, Eq, Structural)]
pub enum CommentVariant {
    Comment,
    ObjInfo,
}

impl CommentBlock {
    /// The keyword of the comment line.
    pub fn key(&self) -> (r: &'static str)
        ensures
            r == (match self.variant {
                CommentVariant::Comment => "comment",
                CommentVariant::ObjInfo => "obj_info",
            }),
    {
        match self.variant {
            CommentVariant::Comment => "comment",
            CommentVariant::ObjInfo => "obj_info",
        }
    }
}

} // verus!
