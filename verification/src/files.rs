//! Source text with an index of its lines.
use core::ops::Range;
use vstd::prelude::*;
use vstd::utf8::encode_utf8;

verus! {

/// The byte offsets at which the lines of a text begin: 0, and the offset
/// after each line feed.
pub open spec fn line_starts_of(bytes: Seq<u8>) -> Seq<int>
    decreases bytes.len(),
{
    if bytes.len() == 0 {
        seq![0int]
    } else if bytes.last() == 10u8 {
        line_starts_of(bytes.drop_last()).push(bytes.len() as int)
    } else {
        line_starts_of(bytes.drop_last())
    }
}

/// The first line begins at 0, every line begins after the one before it,
/// and none begins behind the end of the text.
pub proof fn lemma_line_starts_increasing(bytes: Seq<u8>)
    ensures
        line_starts_of(bytes).len() >= 1,
        line_starts_of(bytes)[0] == 0,
        forall|i: int|
            0 <= i < line_starts_of(bytes).len() ==> 0 <= #[trigger] line_starts_of(bytes)[i]
                <= bytes.len(),
        forall|i: int, j: int|
            0 <= i < j < line_starts_of(bytes).len() ==> #[trigger] line_starts_of(bytes)[i]
                < #[trigger] line_starts_of(bytes)[j],
    decreases bytes.len(),
{
    if bytes.len() > 0 {
        lemma_line_starts_increasing(bytes.drop_last());
    }
}

/// A line starts after each line feed, and nowhere else but at 0.
pub proof fn lemma_line_starts_are_after_line_feeds(bytes: Seq<u8>, at: int)
    ensures
        line_starts_of(bytes).contains(at) <==> at == 0 || (0 < at <= bytes.len() && bytes[at - 1]
            == 10u8),
    decreases bytes.len(),
{
    let starts = line_starts_of(bytes);
    if bytes.len() == 0 {
        assert(starts[0] == 0);
        if starts.contains(at) {
            let i = choose|i: int| 0 <= i < starts.len() && starts[i] == at;
        }
    } else {
        let front = bytes.drop_last();
        let inner = line_starts_of(front);
        lemma_line_starts_are_after_line_feeds(front, at);
        lemma_line_starts_increasing(front);
        if inner.contains(at) {
            let i = choose|i: int| 0 <= i < inner.len() && inner[i] == at;
            assert(starts[i] == at);
        }
        if at == bytes.len() && bytes.last() == 10u8 {
            assert(starts[starts.len() - 1] == at);
        }
    }
}

/// A source code with line information.
#[derive(Debug, PartialEq, Eq)]
pub struct Source {
    source: String,
    line_starts: Vec<usize>,
}

impl Clone for Source {
    fn clone(&self) -> (r: Self)
        ensures
            r@ == self@,
    {
        proof {
            use_type_invariant(self);
        }
        let mut line_starts: Vec<usize> = Vec::new();
        let mut i: usize = 0;
        while i < self.line_starts.len()
            invariant
                i <= self.line_starts.len(),
                line_starts@ == self.line_starts@.take(i as int),
            decreases self.line_starts.len() - i,
        {
            line_starts.push(self.line_starts[i]);
            i += 1;
        }
        assert(self.line_starts@.take(self.line_starts.len() as int) =~= self.line_starts@);
        Source { source: self.source.clone(), line_starts }
    }
}

impl Source {
    /// The text.
    pub closed spec fn view(&self) -> Seq<char> {
        self.source@
    }

    /// The text as bytes, in UTF-8.
    pub open spec fn bytes(&self) -> Seq<u8> {
        encode_utf8(self@)
    }

    /// The byte offsets at which the lines begin.
    pub open spec fn line_starts(&self) -> Seq<int> {
        line_starts_of(self.bytes())
    }

    #[verifier::type_invariant]
    closed spec fn inv(&self) -> bool {
        self.line_starts@.map_values(|start: usize| start as int) == line_starts_of(
            encode_utf8(self.source@),
        )
    }

    /// Indexes the lines of `source`.
    pub fn new(source: String) -> (s: Self)
        ensures
            s@ == source@,
    {
        let mut line_starts: Vec<usize> = Vec::new();
        line_starts.push(0);
        let bytes = source.as_str().as_bytes();
        let mut i: usize = 0;
        while i < bytes.len()
            invariant
                i <= bytes.len(),
                line_starts@.map_values(|start: usize| start as int) == line_starts_of(
                    bytes@.take(i as int),
                ),
            decreases bytes.len() - i,
        {
            proof {
                assert(bytes@.take(i + 1).drop_last() =~= bytes@.take(i as int));
            }
            if bytes[i] == 10u8 {
                line_starts.push(i + 1);
            }
            i += 1;
        }
        proof {
            assert(bytes@.take(bytes.len() as int) =~= bytes@);
        }
        Source { source, line_starts }
    }

    /// Hands the text back.
    pub fn into_inner(self) -> (source: String)
        ensures
            source@ == self@,
    {
        self.source
    }

    /// The text.
    pub fn as_str(&self) -> (text: &str)
        ensures
            text@ == self@,
    {
        self.source.as_str()
    }

    /// The number of lines, which is at least one.
    pub fn line_count(&self) -> (n: usize)
        ensures
            n == self.line_starts().len(),
            n >= 1,
    {
        proof {
            use_type_invariant(self);
            lemma_line_starts_increasing(self.bytes());
        }
        self.line_starts.len()
    }

    /// The index of the line that holds the byte offset `idx`: the last line
    /// that begins at or before it.
    pub fn line_index(&self, idx: usize) -> (line: usize)
        ensures
            line < self.line_starts().len(),
            self.line_starts()[line as int] <= idx,
            line + 1 < self.line_starts().len() ==> idx < self.line_starts()[line + 1],
    {
        proof {
            use_type_invariant(self);
            lemma_line_starts_increasing(self.bytes());
        }
        let ghost starts = self.line_starts@.map_values(|start: usize| start as int);
        let mut lo: usize = 0;
        let mut hi: usize = self.line_starts.len();
        while hi - lo > 1
            invariant
                lo < hi <= self.line_starts@.len(),
                starts == self.line_starts@.map_values(|start: usize| start as int),
                self.line_starts@[lo as int] <= idx,
                hi < self.line_starts@.len() ==> idx < self.line_starts@[hi as int],
            decreases hi - lo,
        {
            let mid = lo + (hi - lo) / 2;
            if self.line_starts[mid] <= idx {
                lo = mid;
            } else {
                hi = mid;
            }
        }
        lo
    }

    /// The byte range of line `line`, where it is the last line: from its
    /// beginning to the end of the text. For an earlier line the index of the
    /// last line comes back as the error.
    pub fn line_range(&self, line: usize) -> (r: Result<Range<usize>, usize>)
        requires
            line < self.line_starts().len(),
        ensures
            line + 1 == self.line_starts().len() ==> r == Ok::<Range<usize>, usize>(
                (self.line_starts()[line as int] as usize)..(self.bytes().len() as usize),
            ),
            line + 1 < self.line_starts().len() ==> r == Err::<Range<usize>, usize>(
                (self.line_starts().len() - 1) as usize,
            ),
    {
        proof {
            use_type_invariant(self);
        }
        let count = self.line_starts.len();
        if count == line + 1 {
            Ok(self.line_starts[line]..self.source.as_str().len())
        } else {
            Err(count - 1)
        }
    }
}

} // verus!
