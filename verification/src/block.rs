//! Blocks of text: an ordered sequence of lines.
//!
//! A string is cut into lines at each line feed. A carriage return that
//! stands directly before a line feed belongs to the line ending, and a line
//! feed at the very end of the string opens no further line.

use vstd::prelude::*;
use crate::text::{chars_of, string_of};

verus! {

/// Where the first line feed of `s` stands, or `s.len()` if it has none.
pub open spec fn first_newline(s: Seq<char>) -> int
    decreases s.len(),
{
    if s.len() == 0 || s[0] == '\n' {
        0
    } else {
        1 + first_newline(s.drop_first())
    }
}

/// `line` without the carriage return at its end, if it has one.
pub open spec fn strip_cr(line: Seq<char>) -> Seq<char> {
    if line.len() > 0 && line.last() == '\r' {
        line.drop_last()
    } else {
        line
    }
}

/// The lines of `s`.
pub open spec fn lines_of(s: Seq<char>) -> Seq<Seq<char>>
    decreases s.len(),
{
    if s.len() == 0 {
        Seq::empty()
    } else {
        let cut = first_newline(s);
        if cut < 0 || cut >= s.len() {
            seq![s]
        } else {
            seq![strip_cr(s.take(cut))] + lines_of(s.skip(cut + 1))
        }
    }
}

/// The lines of a block written out with one line feed between neighbours.
pub open spec fn join_lines(lines: Seq<Seq<char>>) -> Seq<char>
    decreases lines.len(),
{
    if lines.len() == 0 {
        Seq::empty()
    } else if lines.len() == 1 {
        lines[0]
    } else {
        join_lines(lines.drop_last()) + seq!['\n'] + lines.last()
    }
}

/// `first_newline` is the least index that holds a line feed.
pub proof fn lemma_first_newline(s: Seq<char>, cut: int)
    requires
        0 <= cut <= s.len(),
        forall|k: int| 0 <= k < cut ==> s[k] != '\n',
        cut == s.len() || s[cut] == '\n',
    ensures
        first_newline(s) == cut,
    decreases cut,
{
    if cut > 0 {
        let rest = s.drop_first();
        assert forall|k: int| 0 <= k < cut - 1 implies rest[k] != '\n' by {
            assert(rest[k] == s[k + 1]);
        }
        lemma_first_newline(rest, cut - 1);
    }
}

/// `line` ends in a carriage return.
pub open spec fn ends_in_cr(line: Seq<char>) -> bool {
    line.len() > 0 && line.last() == '\r'
}

/// The lines of a block are tidy: none holds a line feed, none ends in a
/// carriage return, and the last one is not empty.
pub open spec fn is_tidy(lines: Seq<Seq<char>>) -> bool {
    &&& forall|i: int, k: int|
        0 <= i < lines.len() && 0 <= k < lines[i].len() ==> (#[trigger] lines[i][k]) != '\n'
    &&& forall|i: int| 0 <= i < lines.len() ==> !ends_in_cr(#[trigger] lines[i])
    &&& lines.len() > 0 ==> lines.last().len() > 0
}

/// A block of two lines or more, written out, is its first line, a line
/// feed, and the rest of the block written out.
pub proof fn lemma_join_lines_front(lines: Seq<Seq<char>>)
    requires
        lines.len() >= 2,
    ensures
        join_lines(lines) == lines[0] + seq!['\n'] + join_lines(lines.drop_first()),
    decreases lines.len(),
{
    let front = lines.drop_last();
    let rest = lines.drop_first();
    if front.len() == 1 {
        assert(rest.len() == 1);
        assert(join_lines(rest) == rest[0]);
        assert(join_lines(front) == front[0]);
    } else {
        lemma_join_lines_front(front);
        assert(rest.drop_last() =~= front.drop_first());
        assert(rest.last() == lines.last());
        assert(join_lines(lines) =~= lines[0] + seq!['\n'] + join_lines(rest));
    }
}

/// A tidy block written out and cut into lines again is the block.
pub proof fn law_lines_of_joined(lines: Seq<Seq<char>>)
    requires
        is_tidy(lines),
    ensures
        lines_of(join_lines(lines)) == lines,
    decreases lines.len(),
{
    if lines.len() == 0 {
        assert(lines =~= Seq::<Seq<char>>::empty());
    } else if lines.len() == 1 {
        let only = lines[0];
        assert forall|k: int| 0 <= k < only.len() implies only[k] != '\n' by {
            assert(lines[0][k] != '\n');
        }
        lemma_first_newline(only, only.len() as int);
        assert(lines =~= seq![only]);
    } else {
        let first = lines[0];
        let rest = lines.drop_first();
        let text = join_lines(lines);
        lemma_join_lines_front(lines);
        assert forall|i: int, k: int| 0 <= i < rest.len() && 0 <= k < rest[i].len() implies (
        #[trigger] rest[i][k]) != '\n' by {
            assert(rest[i] == lines[i + 1]);
            assert(lines[i + 1][k] != '\n');
        }
        assert forall|i: int| 0 <= i < rest.len() implies !ends_in_cr(#[trigger] rest[i]) by {
            assert(rest[i] == lines[i + 1]);
        }
        assert(rest.last() == lines.last());
        law_lines_of_joined(rest);
        let cut = first.len() as int;
        assert forall|k: int| 0 <= k < cut implies text[k] != '\n' by {
            assert(text[k] == lines[0][k]);
        }
        assert(text[cut] == '\n');
        lemma_first_newline(text, cut);
        assert(text.take(cut) =~= first);
        assert(strip_cr(first) == first) by {
            assert(!ends_in_cr(lines[0]));
        }
        assert(text.skip(cut + 1) =~= join_lines(rest));
        assert(seq![first] + rest =~= lines);
    }
}

/// A block of text, line by line.
pub struct RenderedBlock {
    pub lines: Vec<Vec<char>>,
}

impl View for RenderedBlock {
    type V = Seq<Seq<char>>;

    open spec fn view(&self) -> Seq<Seq<char>> {
        Seq::new(self.lines@.len(), |i: int| self.lines@[i]@)
    }
}

/// The characters `chars[from..to]` as a vector of their own.
fn copy_range(chars: &Vec<char>, from: usize, to: usize) -> (out: Vec<char>)
    requires
        from <= to <= chars.len(),
    ensures
        out@ == chars@.subrange(from as int, to as int),
{
    let mut out: Vec<char> = Vec::new();
    let mut i: usize = from;
    while i < to
        invariant
            from <= i <= to <= chars.len(),
            out@ == chars@.subrange(from as int, i as int),
        decreases to - i,
    {
        out.push(chars[i]);
        i += 1;
        assert(chars@.subrange(from as int, i as int) =~= chars@.subrange(
            from as int,
            i - 1,
        ).push(chars@[i - 1]));
    }
    out
}

impl RenderedBlock {
    /// The block with no line.
    pub fn new() -> (block: RenderedBlock)
        ensures
            block@ == Seq::<Seq<char>>::empty(),
    {
        let block = RenderedBlock { lines: Vec::new() };
        assert(block@ =~= Seq::<Seq<char>>::empty());
        block
    }

    /// Cuts `text` into its lines.
    pub fn from_text(text: &str) -> (block: RenderedBlock)
        ensures
            block@ == lines_of(text@),
    {
        let chars = chars_of(text);
        RenderedBlock::from_chars(&chars)
    }

    /// Cuts a sequence of characters into its lines.
    pub fn from_chars(chars: &Vec<char>) -> (block: RenderedBlock)
        ensures
            block@ == lines_of(chars@),
    {
        let n = chars.len();
        let mut block = RenderedBlock { lines: Vec::new() };
        let mut start: usize = 0;
        assert(block@ =~= Seq::<Seq<char>>::empty());
        assert(chars@.skip(0) =~= chars@);
        while start < n
            invariant
                n == chars.len(),
                start <= n,
                lines_of(chars@) == block@ + lines_of(chars@.skip(start as int)),
            decreases n - start,
        {
            let ghost rest = chars@.skip(start as int);
            let ghost before = block@;
            let mut end: usize = start;
            while end < n && chars[end] != '\n'
                invariant
                    n == chars.len(),
                    start <= end <= n,
                    forall|k: int| start <= k < end ==> chars@[k] != '\n',
                decreases n - end,
            {
                end += 1;
            }
            proof {
                lemma_first_newline(rest, end - start);
            }
            if end == n {
                let line = copy_range(chars, start, n);
                block.lines.push(line);
                proof {
                    assert(line@ =~= rest);
                    assert(block@ =~= before.push(rest));
                    assert(chars@.skip(n as int) =~= Seq::<char>::empty());
                    assert(before + seq![rest] =~= before.push(rest));
                }
                start = n;
            } else {
                let stop = if end > start && chars[end - 1] == '\r' {
                    end - 1
                } else {
                    end
                };
                let line = copy_range(chars, start, stop);
                block.lines.push(line);
                proof {
                    let whole = rest.take(end - start);
                    assert(whole =~= chars@.subrange(start as int, end as int));
                    assert(line@ =~= strip_cr(whole));
                    assert(block@ =~= before.push(line@));
                    assert(rest.skip(end - start + 1) =~= chars@.skip(end + 1));
                    assert(before + (seq![line@] + lines_of(chars@.skip(end + 1)))
                        =~= before.push(line@) + lines_of(chars@.skip(end + 1)));
                }
                start = end + 1;
            }
        }
        assert(block@ + Seq::<Seq<char>>::empty() =~= block@);
        block
    }

    /// How many lines the block has.
    pub fn line_count(&self) -> (count: usize)
        ensures
            count == self@.len(),
    {
        self.lines.len()
    }

    /// The line at `index`.
    pub fn line(&self, index: usize) -> (line: String)
        requires
            index < self@.len(),
        ensures
            line@ == self@[index as int],
    {
        string_of(&self.lines[index])
    }

    /// The block as a sequence of characters, a line feed between each
    /// line and the next.
    pub fn to_chars(&self) -> (out: Vec<char>)
        ensures
            out@ == join_lines(self@),
    {
        let mut out: Vec<char> = Vec::new();
        let mut i: usize = 0;
        assert(self@.take(0) =~= Seq::<Seq<char>>::empty());
        while i < self.lines.len()
            invariant
                i <= self.lines.len(),
                out@ == join_lines(self@.take(i as int)),
            decreases self.lines.len() - i,
        {
            let ghost before = out@;
            if i > 0 {
                out.push('\n');
            }
            let line = &self.lines[i];
            let ghost mid = out@;
            let mut j: usize = 0;
            while j < line.len()
                invariant
                    j <= line.len(),
                    out@ == mid + line@.take(j as int),
                decreases line.len() - j,
            {
                out.push(line[j]);
                j += 1;
                assert(line@.take(j as int) =~= line@.take(j - 1).push(line@[j - 1]));
            }
            i += 1;
            proof {
                let upto = self@.take(i as int);
                assert(line@.take(line.len() as int) =~= line@);
                assert(upto.drop_last() =~= self@.take(i - 1));
                assert(upto.last() == line@);
                if i == 1 {
                    assert(out@ =~= line@);
                } else {
                    assert(out@ =~= before + seq!['\n'] + line@);
                }
            }
        }
        assert(self@.take(self.lines.len() as int) =~= self@);
        out
    }

    /// The block as one string, a line feed between each line and the next.
    pub fn to_text(&self) -> (text: String)
        ensures
            text@ == join_lines(self@),
    {
        let chars = self.to_chars();
        string_of(&chars)
    }
}

} // verus!
