//! Cutting the output of a process into lines of bounded length.
use vstd::prelude::*;
use vstd::string::*;
use crate::text::{lossy, lossy_text, trim_end, trimmed_end};

verus! {

/// The longest line, its end mark included, that is read.
pub const LINE_LIMIT: usize = 1_048_576;

pub const NEWLINE: u8 = 10;

/// Where a line comes from.
#[derive(Debug, Clone, Copy, PartialEq, Eq, Structural)]
pub enum Source {
    Stdout,
    Stderr,
}

pub open spec fn source_name(source: Source) -> Seq<char> {
    match source {
        Source::Stdout => "stdout"@,
        Source::Stderr => "stderr"@,
    }
}

impl Source {
    pub fn name(self) -> (name: &'static str)
        ensures
            name@ == source_name(self),
    {
        match self {
            Source::Stdout => "stdout",
            Source::Stderr => "stderr",
        }
    }
}

/// A line, or the reason why no more lines come.
pub type Line = Result<String, String>;

pub open spec fn line_view(line: Line) -> Result<Seq<char>, Seq<char>> {
    match line {
        Ok(text) => Ok(text@),
        Err(why) => Err(why@),
    }
}

pub open spec fn line_views(lines: Seq<Line>) -> Seq<Result<Seq<char>, Seq<char>>> {
    lines.map_values(|line: Line| line_view(line))
}

/// What has been read of the current line, and whether reading goes on.
pub struct Reading {
    pub partial: Seq<u8>,
    pub active: bool,
}

/// What is reported for a line that does not end in time.
pub open spec fn too_long(source: Source) -> Seq<char> {
    source_name(source) + " 单行超过 1 MiB，已停止进程"@
}

/// Reading one more byte, and the lines that this yields.
pub open spec fn read_byte(source: Source, r: Reading, byte: u8) -> (
    Reading,
    Seq<Result<Seq<char>, Seq<char>>>,
) {
    let grown = r.partial.push(byte);
    if !r.active {
        (r, Seq::empty())
    } else if grown.len() > LINE_LIMIT {
        (Reading { partial: r.partial, active: false }, seq![Err(too_long(source))])
    } else if byte == NEWLINE {
        (
            Reading { partial: Seq::empty(), active: true },
            seq![Ok(trimmed_end(lossy_text(grown)))],
        )
    } else {
        (Reading { partial: grown, active: true }, Seq::empty())
    }
}

/// Reading several bytes, and the lines that this yields.
pub open spec fn read_bytes(source: Source, r: Reading, bytes: Seq<u8>) -> (
    Reading,
    Seq<Result<Seq<char>, Seq<char>>>,
)
    decreases bytes.len(),
{
    if bytes.len() == 0 {
        (r, Seq::empty())
    } else {
        let (before, lines) = read_bytes(source, r, bytes.drop_last());
        let (after, more) = read_byte(source, before, bytes.last());
        (after, lines + more)
    }
}

/// How the output was divided into chunks makes no difference to the lines.
pub proof fn chunks_do_not_matter(source: Source, r: Reading, a: Seq<u8>, b: Seq<u8>)
    ensures
        ({
            let first = read_bytes(source, r, a);
            let second = read_bytes(source, first.0, b);
            read_bytes(source, r, a + b) == (second.0, first.1 + second.1)
        }),
    decreases b.len(),
{
    let first = read_bytes(source, r, a);
    if b.len() == 0 {
        assert(a + b =~= a);
        assert(first.1 + Seq::<Result<Seq<char>, Seq<char>>>::empty() =~= first.1);
    } else {
        chunks_do_not_matter(source, r, a, b.drop_last());
        assert((a + b).drop_last() =~= a + b.drop_last());
        assert((a + b).last() == b.last());
        let middle = read_bytes(source, first.0, b.drop_last());
        let (after, more) = read_byte(source, middle.0, b.last());
        assert(first.1 + middle.1 + more =~= first.1 + (middle.1 + more));
    }
}

/// A line that fits is passed on without its end and trailing white space, and the next line
/// starts afresh.
pub proof fn a_fitting_line_is_passed_on(source: Source, line: Seq<u8>)
    requires
        line.len() < LINE_LIMIT,
        !line.contains(NEWLINE),
    ensures
        ({
            let r = read_bytes(
                source,
                Reading { partial: Seq::empty(), active: true },
                line.push(NEWLINE),
            );
            &&& r.0.active
            &&& r.0.partial.len() == 0
            &&& r.1 == seq![
                Ok::<Seq<char>, Seq<char>>(trimmed_end(lossy_text(line.push(NEWLINE)))),
            ]
        }),
{
    lemma_unfinished_line(source, line);
    assert(line.push(NEWLINE).drop_last() =~= line);
}

proof fn lemma_unfinished_line(source: Source, line: Seq<u8>)
    requires
        line.len() <= LINE_LIMIT,
        !line.contains(NEWLINE),
    ensures
        read_bytes(source, Reading { partial: Seq::empty(), active: true }, line) == (
            Reading { partial: line, active: true },
            Seq::<Result<Seq<char>, Seq<char>>>::empty(),
        ),
    decreases line.len(),
{
    if line.len() > 0 {
        let head = line.drop_last();
        assert(line.last() == line[line.len() - 1]);
        assert(!head.contains(NEWLINE)) by {
            if head.contains(NEWLINE) {
                let i = choose|i: int| 0 <= i < head.len() && head[i] == NEWLINE;
                assert(line[i] == NEWLINE);
            }
        }
        lemma_unfinished_line(source, head);
        assert(head.push(line.last()) =~= line);
    } else {
        assert(line =~= Seq::<u8>::empty());
    }
}

/// A line that goes on beyond the limit ends the reading with an error, whatever follows.
pub proof fn an_overlong_line_ends_the_reading(source: Source, line: Seq<u8>, rest: Seq<u8>)
    requires
        line.len() == LINE_LIMIT + 1,
        !line.drop_last().contains(NEWLINE),
    ensures
        ({
            let r = read_bytes(
                source,
                Reading { partial: Seq::empty(), active: true },
                line + rest,
            );
            &&& !r.0.active
            &&& r.1 == seq![Err::<Seq<char>, Seq<char>>(too_long(source))]
        }),
{
    let start = Reading { partial: Seq::empty(), active: true };
    lemma_unfinished_line(source, line.drop_last());
    chunks_do_not_matter(source, start, line, rest);
    let stopped = read_bytes(source, start, line);
    assert(stopped.1 =~= seq![Err::<Seq<char>, Seq<char>>(too_long(source))]);
    lemma_inactive(source, stopped.0, rest);
    assert(stopped.1 + Seq::<Result<Seq<char>, Seq<char>>>::empty() =~= stopped.1);
}

proof fn lemma_inactive(source: Source, r: Reading, bytes: Seq<u8>)
    requires
        !r.active,
    ensures
        read_bytes(source, r, bytes) == (r, Seq::<Result<Seq<char>, Seq<char>>>::empty()),
    decreases bytes.len(),
{
    if bytes.len() > 0 {
        lemma_inactive(source, r, bytes.drop_last());
        assert(Seq::<Result<Seq<char>, Seq<char>>>::empty() + Seq::<
            Result<Seq<char>, Seq<char>>,
        >::empty() =~= Seq::<Result<Seq<char>, Seq<char>>>::empty());
    }
}

/// Cuts the output of a process into lines.
pub struct LineReader {
    source: Source,
    partial: Vec<u8>,
    active: bool,
}

impl View for LineReader {
    type V = Reading;

    closed spec fn view(&self) -> Reading {
        Reading { partial: self.partial@, active: self.active }
    }
}

impl LineReader {
    pub closed spec fn origin(&self) -> Source {
        self.source
    }

    /// The current line is within the limit.
    pub open spec fn well_formed(&self) -> bool {
        self@.partial.len() <= LINE_LIMIT
    }

    pub fn new(source: Source) -> (reader: LineReader)
        ensures
            reader.well_formed(),
            reader.origin() == source,
            reader@ == (Reading { partial: Seq::empty(), active: true }),
    {
        LineReader { source, partial: Vec::new(), active: true }
    }

    /// Whether reading goes on.
    pub fn is_active(&self) -> (yes: bool)
        ensures
            yes == self@.active,
    {
        self.active
    }

    /// Takes the next chunk of output and yields the lines that it completes.
    pub fn read_output(&mut self, chunk: &[u8]) -> (lines: Vec<Line>)
        requires
            old(self).well_formed(),
        ensures
            final(self).well_formed(),
            final(self).origin() == old(self).origin(),
            (final(self)@, line_views(lines@)) == read_bytes(
                old(self).origin(),
                old(self)@,
                chunk@,
            ),
    {
        let mut lines: Vec<Line> = Vec::new();
        let mut i: usize = 0;
        assert(chunk@.take(0) =~= Seq::<u8>::empty());
        assert(line_views(lines@) =~= Seq::<Result<Seq<char>, Seq<char>>>::empty());
        while i < chunk.len()
            invariant
                i <= chunk@.len(),
                self.well_formed(),
                self.origin() == old(self).origin(),
                (self@, line_views(lines@)) == read_bytes(
                    old(self).origin(),
                    old(self)@,
                    chunk@.take(i as int),
                ),
            decreases chunk@.len() - i,
        {
            let byte: u8 = chunk[i];
            let ghost before = self@;
            let ghost told = lines@;
            proof {
                let next = chunk@.take(i + 1);
                assert(next.drop_last() =~= chunk@.take(i as int));
                assert(next.last() == byte);
            }
            if self.active {
                if self.partial.len() == LINE_LIMIT {
                    self.active = false;
                    lines.push(Err(self.source.name().to_owned().concat(" 单行超过 1 MiB，已停止进程")));
                } else {
                    self.partial.push(byte);
                    if byte == NEWLINE {
                        let text = lossy(self.partial.as_slice());
                        lines.push(Ok(trim_end(text.as_str())));
                        self.partial.clear();
                    }
                }
            }
            proof {
                let (after, more) = read_byte(self.origin(), before, byte);
                assert(self@.partial =~= after.partial);
                assert(line_views(lines@) =~= line_views(told) + more);
            }
            i = i + 1;
        }
        assert(chunk@.take(i as int) =~= chunk@);
        lines
    }

    /// The unfinished line that stands at the end of the output.
    pub fn finish(&self) -> (last: Option<String>)
        ensures
            match last {
                Some(text) => self@.active && self@.partial.len() > 0 && text@ == lossy_text(
                    self@.partial,
                ),
                None => !self@.active || self@.partial.len() == 0,
            },
    {
        if self.active && self.partial.len() > 0 {
            Some(lossy(self.partial.as_slice()))
        } else {
            None
        }
    }
}

} // verus!
