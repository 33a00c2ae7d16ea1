//! Helpers for those who write entries: sort keys, gradients and formatting.

use vstd::prelude::*;

pub use crate::float_format::format_pretty_float;
pub use crate::format::{format_pretty_int, format_pretty_time, format_pretty_time_hms};
pub use crate::gradient::ColorGradient;

verus! {

/// The first key that a fresh source of sort keys hands out.
pub const FIRST_SORT_KEY: i32 = 1;

/// The key that follows `key`: the next integer, and the least one after the
/// greatest.
pub open spec fn following_key(key: i32) -> i32 {
    if key == i32::MAX {
        i32::MIN
    } else {
        (key + 1) as i32
    }
}

/// The key that is handed out `n` keys after `first`.
pub open spec fn nth_key(first: i32, n: nat) -> i32
    decreases n,
{
    if n == 0 {
        first
    } else {
        following_key(nth_key(first, (n - 1) as nat))
    }
}

/// A source of sort keys, each greater than the one before.
///
/// An entry that takes its key from the source when it is made stands after
/// all entries made before it.
#[derive(Debug)]
pub struct SortKeys {
    next: i32,
}

impl SortKeys {
    /// The key that the source hands out next.
    pub closed spec fn upcoming(&self) -> i32 {
        self.next
    }

    /// A source that begins with the key 1.
    pub fn new() -> (keys: Self)
        ensures
            keys.upcoming() == FIRST_SORT_KEY,
    {
        SortKeys { next: FIRST_SORT_KEY }
    }

    /// Hands out a key, and goes on to the one that follows it.
    pub fn next_sort_key(&mut self) -> (key: i32)
        ensures
            key == old(self).upcoming(),
            final(self).upcoming() == following_key(key),
            key < i32::MAX ==> final(self).upcoming() > key,
    {
        let key: i32 = self.next;
        self.next = if key == i32::MAX {
            i32::MIN
        } else {
            key + 1
        };
        key
    }
}

} // verus!
