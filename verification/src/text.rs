//! Plain text positions, ranges and edits.
//!
//! A request enters the library as an offset into the source text, and the
//! result of a successful transform is a single minimal edit: a source
//! range together with its replacement text.

use vstd::prelude::*;

verus! {

/// A half-open range `[start, end)` of character offsets in the source text.
#[derive(Clone, Copy, PartialEq, Eq, Structural, Debug)]
pub struct TextRange {
    pub start: usize,
    pub end: usize,
}

impl TextRange {
    /// A range is well formed when it does not end before it starts.
    pub open spec fn wf(self) -> bool {
        self.start <= self.end
    }

    /// Whether `offset` falls inside the range.
    pub open spec fn spec_contains(self, offset: usize) -> bool {
        self.start <= offset && offset < self.end
    }

    /// The number of characters the range covers.
    pub open spec fn spec_len(self) -> int {
        self.end - self.start
    }

    pub fn new(start: usize, end: usize) -> (r: TextRange)
        requires
            start <= end,
        ensures
            r == (TextRange { start, end }),
    {
        TextRange { start, end }
    }

    pub fn contains(&self, offset: usize) -> (r: bool)
        ensures
            r == self.spec_contains(offset),
    {
        self.start <= offset && offset < self.end
    }

    pub fn len(&self) -> (r: usize)
        requires
            self.wf(),
        ensures
            r == self.spec_len(),
    {
        self.end - self.start
    }
}

/// A minimal textual change: replace the characters covered by `range`
/// with `replacement`.
pub struct Edit {
    pub range: TextRange,
    pub replacement: String,
}

impl Edit {
    /// Apply the edit to a source text: the text before the range, the
    /// replacement, the text after the range.
    pub fn apply(&self, source: &str) -> (r: String)
        requires
            self.range.wf(),
            self.range.end <= source@.len(),
        ensures
            r@ == source@.subrange(0, self.range.start as int) + self.replacement@
                + source@.subrange(self.range.end as int, source@.len() as int),
    {
        let n: usize = source.unicode_len();
        let prefix: &str = source.substring_char(0, self.range.start);
        let suffix: &str = source.substring_char(self.range.end, n);
        let mut out: String = prefix.to_owned();
        out.append(self.replacement.as_str());
        out.append(suffix);
        out
    }
}

} // verus!
