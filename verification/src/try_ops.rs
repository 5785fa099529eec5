//! Checked arithmetic and indexing that report failure as an `Error` instead of panicking.

use vstd::prelude::*;

use crate::error::Error;

verus! {

/// Addition that fails instead of overflowing.
pub trait TryAdd: Sized {
    /// Attempts to add `self + rhs`, returning `Err` if overflow occurred.
    fn try_add(self, rhs: Self) -> Result<Self, Error>;
}

impl TryAdd for usize {
    fn try_add(self, rhs: usize) -> (r: Result<usize, Error>)
        ensures
            self + rhs <= usize::MAX ==> r == Ok::<usize, Error>((self + rhs) as usize),
            self + rhs > usize::MAX ==> r == Err::<usize, Error>(
                Error::OverflowUsize { left: self, right: rhs },
            ),
    {
        match self.checked_add(rhs) {
            Some(v) => Ok(v),
            None => Err(Error::OverflowUsize { left: self, right: rhs }),
        }
    }
}

impl TryAdd for u16 {
    fn try_add(self, rhs: u16) -> (r: Result<u16, Error>)
        ensures
            self + rhs <= u16::MAX ==> r == Ok::<u16, Error>((self + rhs) as u16),
            self + rhs > u16::MAX ==> r == Err::<u16, Error>(Error::OverflowU16 { lhs: self, rhs }),
    {
        match self.checked_add(rhs) {
            Some(v) => Ok(v),
            None => Err(Error::OverflowU16 { lhs: self, rhs }),
        }
    }
}

/// Indexing that fails instead of panicking.
pub trait TryGet {
    /// Returns the bytes at positions `start..end`, or `Err` if out of bounds.
    fn try_get(&self, start: usize, end: usize) -> Result<&[u8], Error>;
}

impl TryGet for [u8] {
    fn try_get(&self, start: usize, end: usize) -> (r: Result<&[u8], Error>)
        ensures
            start <= end <= self@.len() ==> (r matches Ok(s) && s@ == self@.subrange(
                start as int,
                end as int,
            )),
            !(start <= end <= self@.len()) ==> r == Err::<&[u8], Error>(
                Error::OutOfRange { start, end, len: self@.len() as usize },
            ),
    {
        if start <= end && end <= self.len() {
            Ok(vstd::slice::slice_subrange(self, start, end))
        } else {
            Err(Error::OutOfRange { start, end, len: self.len() })
        }
    }
}

/// Mutable indexing that fails instead of panicking.
pub trait TryGetMut {
    /// Returns a mutable reference to the byte at `index`, or `Err` if out of bounds.
    fn try_get_mut(&mut self, index: usize) -> Result<&mut u8, Error>;
}

impl TryGetMut for Vec<u8> {
    fn try_get_mut(&mut self, index: usize) -> (r: Result<&mut u8, Error>)
        ensures
            index < old(self)@.len() ==> (r matches Ok(b) && *b == old(self)@[index as int]
                && final(self)@ == old(self)@.update(index as int, *final(b))),
            index >= old(self)@.len() ==> (r matches Err(e) && e == Error::IndexOutOfRange {
                index,
                len: old(self)@.len() as usize,
            } && final(self)@ == old(self)@),
    {
        if index < self.len() {
            Ok(&mut self[index])
        } else {
            Err(Error::IndexOutOfRange { index, len: self.len() })
        }
    }
}

} // verus!
