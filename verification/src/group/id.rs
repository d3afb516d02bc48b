//! Identifiers of the blocks of a group.

use vstd::prelude::*;

use crate::ascii::AsciiString;
use crate::function::{decimal_digits, lemma_digits_valid_utf8, push_decimal};

verus! {

/// An identifier: a number drawn from an [`IdCounter`].
#[derive(Clone, Copy, Debug, PartialEq, Eq, Structural, Hash, PartialOrd, Ord)]
pub struct Id(u64);

/// The source of identifiers: each identifier drawn is the number after
/// the previous one, and the number after `u64::MAX` is `0`.
#[derive(Debug)]
pub struct IdCounter {
    next: u64,
}

/// The number after `n`, wrapping around after `u64::MAX`.
pub open spec fn next_number(n: u64) -> u64 {
    if n == u64::MAX {
        0
    } else {
        (n + 1) as u64
    }
}

impl View for Id {
    type V = u64;

    closed spec fn view(&self) -> u64 {
        self.0
    }
}

impl View for IdCounter {
    type V = u64;

    closed spec fn view(&self) -> u64 {
        self.next
    }
}

impl IdCounter {
    /// A counter whose first identifier is `0`.
    pub fn new() -> (r: Self)
        ensures
            r@ == 0,
    {
        IdCounter { next: 0 }
    }
}

impl Id {
    /// Draws the next identifier of `counter`.
    pub fn new(counter: &mut IdCounter) -> (r: Self)
        ensures
            r@ == old(counter)@,
            final(counter)@ == next_number(old(counter)@),
    {
        let id = counter.next;
        counter.next = id.wrapping_add(1);
        Id(id)
    }

    /// The number of the identifier.
    pub fn value(&self) -> (r: u64)
        ensures
            r == self@,
    {
        self.0
    }

    /// The number of the identifier in decimal.
    pub fn to_ascii_string(&self) -> (r: AsciiString)
        ensures
            r@ == decimal_digits(self@ as nat),
    {
        let mut digits: Vec<u8> = Vec::new();
        push_decimal(&mut digits, self.0);
        proof {
            assert(digits@ =~= decimal_digits(self@ as nat));
            crate::function::lemma_decimal_digits(self@ as nat);
            lemma_digits_valid_utf8(digits@);
        }
        match AsciiString::from_bytes(digits) {
            Ok(s) => s,
            Err(_) => {
                assert(false);
                AsciiString::new()
            },
        }
    }
}

impl std::ops::Deref for Id {
    type Target = u64;

    fn deref(&self) -> (r: &u64)
        ensures
            *r == self@,
    {
        &self.0
    }
}

impl vstd::std_specs::convert::FromSpecImpl<Id> for u64 {
    open spec fn obeys_from_spec() -> bool {
        true
    }

    open spec fn from_spec(id: Id) -> u64 {
        id@
    }
}

impl From<Id> for u64 {
    fn from(id: Id) -> (r: u64)
        ensures
            r == id@,
    {
        id.0
    }
}

impl vstd::std_specs::convert::FromSpecImpl<Id> for usize {
    open spec fn obeys_from_spec() -> bool {
        true
    }

    open spec fn from_spec(id: Id) -> usize {
        id@ as usize
    }
}

impl From<Id> for usize {
    fn from(id: Id) -> (r: usize)
        ensures
            r == id@ as usize,
    {
        id.0 as usize
    }
}

} // verus!
