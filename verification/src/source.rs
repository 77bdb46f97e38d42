//! A source text with the byte offset of each of its characters.
use vstd::prelude::*;
use crate::text;
use crate::token::Span;

verus! {

/// The first character index at or after `k` whose byte offset is at least `pos`.
pub open spec fn seek_from(s: Seq<char>, pos: int, k: int) -> int
    decreases s.len() - k,
{
    if 0 <= k < s.len() && text::offset(s, k) < pos {
        seek_from(s, pos, k + 1)
    } else {
        k
    }
}

/// The character index at byte offset `pos`: the number of characters that start before it.
pub open spec fn seek(s: Seq<char>, pos: int) -> int {
    seek_from(s, pos, 0)
}

/// The text of `s` between two byte offsets.
pub open spec fn slice(s: Seq<char>, start: int, end: int) -> Seq<char> {
    let a = seek(s, start);
    let b = seek(s, end);
    if 0 <= a <= b <= s.len() {
        s.subrange(a, b)
    } else {
        seq![]
    }
}

/// The text that `span` covers.
pub open spec fn span_text(s: Seq<char>, span: Span) -> Seq<char> {
    slice(s, span.start as int, span.end as int)
}

/// `seek` from `k` stops at `r` when every earlier character starts before `pos`.
pub proof fn lemma_seek_from(s: Seq<char>, pos: int, k: int, r: int)
    requires
        0 <= k <= r <= s.len(),
        forall|j: int| k <= j < r ==> text::offset(s, j) < pos,
        r < s.len() ==> text::offset(s, r) >= pos,
    ensures
        seek_from(s, pos, k) == r,
    decreases r - k,
{
    if k < r {
        assert(text::offset(s, k) < pos);
        lemma_seek_from(s, pos, k + 1, r);
    }
}

/// A character index is found again from its own byte offset.
pub proof fn law_seek_offset(s: Seq<char>, k: int)
    requires
        0 <= k <= s.len(),
    ensures
        seek(s, text::offset(s, k) as int) == k,
{
    assert forall|j: int| 0 <= j < k implies text::offset(s, j) < text::offset(s, k) by {
        text::lemma_offset_monotone(s, j, k);
    }
    lemma_seek_from(s, text::offset(s, k) as int, 0, k);
}

pub proof fn lemma_seek_range(s: Seq<char>, pos: int, k: int)
    requires
        0 <= k <= s.len(),
    ensures
        k <= seek_from(s, pos, k) <= s.len(),
    decreases s.len() - k,
{
    if k < s.len() && text::offset(s, k) < pos {
        lemma_seek_range(s, pos, k + 1);
    }
}

/// A source text, as characters and as byte offsets.
pub struct Source {
    pub chars: Vec<char>,
    pub offsets: Vec<usize>,
}

impl View for Source {
    type V = Seq<char>;

    open spec fn view(&self) -> Seq<char> {
        self.chars@
    }
}

impl Source {
    /// `offsets` holds the byte offset of each character, and of the end.
    pub open spec fn wf(&self) -> bool {
        &&& self.offsets@.len() == self.chars@.len() + 1
        &&& forall|k: int|
            0 <= k <= self.chars@.len() ==> #[trigger] self.offsets@[k] == text::offset(self.chars@, k)
    }

    pub fn new(input: &str) -> (r: Source)
        ensures
            r.wf(),
            r@ == input@,
    {
        let chars = text::chars_of(input);
        let size: usize = input.as_bytes().len();
        proof {
            text::lemma_byte_len_encoding(input@);
        }
        let mut offsets: Vec<usize> = Vec::new();
        offsets.push(0);
        let mut i: usize = 0;
        let mut at: usize = 0;
        assert(chars@.take(0) =~= Seq::<char>::empty());
        while i < chars.len()
            invariant
                i <= chars.len(),
                chars@ == input@,
                size == text::byte_len(chars@),
                at == text::offset(chars@, i as int),
                offsets@.len() == i + 1,
                forall|k: int| 0 <= k <= i ==> #[trigger] offsets@[k] == text::offset(chars@, k),
            decreases chars.len() - i,
        {
            proof {
                text::lemma_offset_step(chars@, i as int);
                text::lemma_offset_monotone(chars@, i + 1, chars@.len() as int);
                assert(chars@.take(chars@.len() as int) =~= chars@);
            }
            at = at + text::width_of(chars[i]) as usize;
            offsets.push(at);
            i = i + 1;
        }
        Source { chars, offsets }
    }

    /// Number of bytes of the source.
    pub fn size(&self) -> (n: usize)
        requires
            self.wf(),
        ensures
            n == text::byte_len(self@),
    {
        assert(self@.take(self@.len() as int) =~= self@);
        self.offsets[self.chars.len()]
    }

    /// The character index at byte offset `pos`.
    pub fn index_at(&self, pos: usize) -> (r: usize)
        requires
            self.wf(),
        ensures
            r == seek(self@, pos as int),
            r <= self.chars@.len(),
    {
        let mut lo: usize = 0;
        let mut hi: usize = self.chars.len();
        while lo < hi
            invariant
                self.wf(),
                lo <= hi <= self.chars@.len(),
                forall|j: int| 0 <= j < lo ==> text::offset(self@, j) < pos,
                hi < self.chars@.len() ==> text::offset(self@, hi as int) >= pos,
            decreases hi - lo,
        {
            let mid: usize = lo + (hi - lo) / 2;
            let at: usize = self.offsets[mid];
            if at < pos {
                proof {
                    assert forall|j: int| 0 <= j < mid + 1 implies text::offset(self@, j) < pos by {
                        text::lemma_offset_monotone(self@, j, mid as int);
                    }
                }
                lo = mid + 1;
            } else {
                hi = mid;
            }
        }
        proof {
            lemma_seek_from(self@, pos as int, 0, lo as int);
        }
        lo
    }

    /// The text between two byte offsets.
    pub fn text_between(&self, start: usize, end: usize) -> (r: Vec<char>)
        requires
            self.wf(),
        ensures
            r@ == slice(self@, start as int, end as int),
    {
        let a = self.index_at(start);
        let b = self.index_at(end);
        if a <= b {
            text::copy_range(&self.chars, a, b)
        } else {
            Vec::new()
        }
    }
}

} // verus!
