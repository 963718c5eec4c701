//! Appending to a text while learning where the appended part landed.
use vstd::prelude::*;

use core::ops::Range;

use crate::chars::{copy_range, push_str};
use crate::style::AnsiDisplay;

verus! {

/// A growable text that reports the range of what is appended, so that
/// parts of it can be found again.
pub trait StringExt {
    /// The characters of the text.
    spec fn chars_of(&self) -> Seq<char>;

    /// The characters in `range`.
    fn slice(&self, range: Range<usize>) -> (r: Vec<char>)
        requires
            range.start <= range.end <= self.chars_of().len(),
        ensures
            r@ == self.chars_of().subrange(range.start as int, range.end as int),
    ;

    /// Appends `s`; returns where it went.
    fn push_str_get_range(&mut self, s: &str) -> (r: Range<usize>)
        ensures
            final(self).chars_of() == old(self).chars_of() + s@,
            r.start == old(self).chars_of().len(),
            r.end == final(self).chars_of().len(),
    ;

    /// Appends `s1` and `s2`; returns where each went.
    fn push_str_get_range2(&mut self, s1: &str, s2: &str) -> (r: (Range<usize>, Range<usize>))
        ensures
            final(self).chars_of() == old(self).chars_of() + s1@ + s2@,
            r.0.start == old(self).chars_of().len(),
            r.0.end == r.1.start,
            r.1.start == old(self).chars_of().len() + s1@.len(),
            r.1.end == final(self).chars_of().len(),
    ;

    /// Appends each of `parts` in turn; returns where they went together.
    fn extend_get_range(&mut self, parts: &[&str]) -> (r: Range<usize>)
        ensures
            final(self).chars_of() == old(self).chars_of() + crate::text::concat(parts@.map_values(|p: &str| p@)),
            r.start == old(self).chars_of().len(),
            r.end == final(self).chars_of().len(),
    ;

    /// Appends what `content` writes.
    fn write<D: AnsiDisplay>(&mut self, content: D)
        ensures
            final(self).chars_of() == old(self).chars_of() + content.ansi(),
    ;

    /// Appends what `content` writes; returns where it went.
    fn write_get_range<D: AnsiDisplay>(&mut self, content: D) -> (r: Range<usize>)
        ensures
            final(self).chars_of() == old(self).chars_of() + content.ansi(),
            r.start == old(self).chars_of().len(),
            r.end == final(self).chars_of().len(),
    ;
}

impl StringExt for Vec<char> {
    open spec fn chars_of(&self) -> Seq<char> {
        self@
    }

    fn slice(&self, range: Range<usize>) -> (r: Vec<char>) {
        copy_range(self.as_slice(), range.start, range.end)
    }

    fn push_str_get_range(&mut self, s: &str) -> (r: Range<usize>) {
        let start = self.len();
        push_str(self, s);
        Range { start, end: self.len() }
    }

    fn push_str_get_range2(&mut self, s1: &str, s2: &str) -> (r: (Range<usize>, Range<usize>)) {
        let start = self.len();
        push_str(self, s1);
        let middle = self.len();
        push_str(self, s2);
        (Range { start, end: middle }, Range { start: middle, end: self.len() })
    }

    fn extend_get_range(&mut self, parts: &[&str]) -> (r: Range<usize>) {
        let ghost ps = parts@.map_values(|p: &str| p@);
        let ghost base = self@;
        let start = self.len();
        let mut i: usize = 0;
        while i < parts.len()
            invariant
                ps == parts@.map_values(|p: &str| p@),
                i <= parts@.len(),
                self@ == base + crate::text::concat(ps.take(i as int)),
            decreases parts@.len() - i,
        {
            assert(ps.take(i as int + 1).drop_last() =~= ps.take(i as int));
            assert(ps[i as int] == parts@[i as int]@);
            push_str(self, parts[i]);
            assert(self@ =~= base + crate::text::concat(ps.take(i as int + 1)));
            i = i + 1;
        }
        assert(ps.take(i as int) =~= ps);
        Range { start, end: self.len() }
    }

    fn write<D: AnsiDisplay>(&mut self, content: D) {
        content.write_ansi(self);
    }

    fn write_get_range<D: AnsiDisplay>(&mut self, content: D) -> (r: Range<usize>) {
        let start = self.len();
        content.write_ansi(self);
        Range { start, end: self.len() }
    }
}

} // verus!
