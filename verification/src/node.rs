//! The node logic's side of the runtime: the interface it implements and the
//! sink it writes its replies to.

use crate::message::{texts_view, Fields, Init, Message};
use crate::payload::Payload;
use crate::wire::{encode_fields, encode_line};
use vstd::prelude::*;
use vstd::string::StringExecFns;

verus! {

/// A stream of lines as one text: each line followed by one newline.
pub open spec fn framed(lines: Seq<Seq<char>>) -> Seq<char>
    decreases lines.len(),
{
    if lines.len() == 0 {
        Seq::empty()
    } else {
        framed(lines.drop_last()) + lines.last() + seq!['\n']
    }
}

/// The lines written so far and not yet taken, oldest first. A line is one
/// message; the newline that ends it on the stream is not part of it.
pub struct OutputSink {
    lines: Vec<String>,
}

impl View for OutputSink {
    type V = Seq<Seq<char>>;

    closed spec fn view(&self) -> Seq<Seq<char>> {
        texts_view(self.lines@)
    }
}

impl OutputSink {
    /// A sink that holds nothing.
    pub fn new() -> (sink: OutputSink)
        ensures
            sink@ == Seq::<Seq<char>>::empty(),
    {
        let sink = OutputSink { lines: Vec::new() };
        assert(sink@ =~= Seq::empty());
        sink
    }

    /// The number of lines held.
    pub fn len(&self) -> (n: usize)
        ensures
            n == self@.len(),
    {
        self.lines.len()
    }

    /// Writes one line after those already written.
    pub fn write_line(&mut self, line: String)
        ensures
            final(self)@ == old(self)@.push(line@),
    {
        self.lines.push(line);
        assert(self@ =~= old(self)@.push(line@));
    }

    /// Writes a message, with the payload as it lies on the wire, as one
    /// line.
    pub fn send_fields(&mut self, message: &Message<Fields>)
        ensures
            final(self)@ == old(self)@.push(encode_line(message@)),
    {
        self.write_line(encode_fields(message));
    }

    /// Writes a message as one line: the header, and beside it the members
    /// that the payload type lays out for the payload.
    pub fn send<P: Payload>(&mut self, message: &Message<P>)
        ensures
            exists|line: Seq<char>|
                #![trigger message.encodes_to(line)]
                message.encodes_to(line) && final(self)@ == old(self)@.push(line),
    {
        let line = message.encode();
        assert(message.encodes_to(line@));
        self.write_line(line);
    }

    /// Writes all the lines of another sink after those already written.
    pub fn append(&mut self, other: OutputSink)
        ensures
            final(self)@ == old(self)@ + other@,
    {
        let mut other = other;
        let ghost added = other@;
        self.lines.append(&mut other.lines);
        assert(self@ =~= old(self)@ + added);
    }

    /// Takes the lines out as the text to put on the stream, each line
    /// followed by one newline, and leaves the sink empty.
    pub fn take_text(&mut self) -> (text: String)
        ensures
            text@ == framed(old(self)@),
            final(self)@ == Seq::<Seq<char>>::empty(),
    {
        let lines = self.take();
        let ghost all = texts_view(lines@);
        let mut text = String::new();
        let mut i: usize = 0;
        assert(all.take(0) =~= Seq::empty());
        while i < lines.len()
            invariant
                i <= lines.len(),
                all == texts_view(lines@),
                text@ == framed(all.take(i as int)),
            decreases lines.len() - i,
        {
            proof {
                reveal_strlit("\n");
                assert(all.take(i + 1).drop_last() =~= all.take(i as int));
                assert(all.take(i + 1).last() == lines@[i as int]@);
                assert("\n"@ =~= seq!['\n']);
            }
            text.append(lines[i].as_str());
            text.append("\n");
            i += 1;
        }
        assert(all.take(i as int) =~= all);
        text
    }

    /// Takes the lines out, oldest first, and leaves the sink empty.
    pub fn take(&mut self) -> (lines: Vec<String>)
        ensures
            texts_view(lines@) == old(self)@,
            final(self)@ == Seq::<Seq<char>>::empty(),
    {
        let mut lines: Vec<String> = Vec::new();
        core::mem::swap(&mut self.lines, &mut lines);
        assert(self@ =~= Seq::empty());
        lines
    }
}

/// The node logic. The runtime builds the node once, from what the startup
/// exchange gave, and then hands it one message at a time.
///
/// A failure of either operation ends the run; its reason is the node
/// logic's own.
pub trait Node<S, Payload>: Sized {
    /// Builds the node from the state the embedding program supplies and
    /// from the node's name and the names of all nodes.
    fn from_init(state: S, init: Init) -> Result<Self, String>;

    /// Handles one message. Replies go to `output`, one line each, in the
    /// order in which they are written.
    fn step(&mut self, input: Message<Payload>, output: &mut OutputSink) -> Result<(), String>;
}

} // verus!
