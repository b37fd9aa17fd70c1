//! Decisions of the interactive prompt: which command a line names, and
//! what waiting on an async stream yields after each event.

use vstd::prelude::*;
use vstd::utf8::*;
use vstd::std_specs::iter::IteratorSpec;
use crate::grammar::input::{char_len_utf8, utf8_width};
use crate::stream::StreamEvent;
use crate::value::Value;

verus! {

broadcast use vstd::string::group_string_axioms, vstd::string::next_postcondition;

/// A prompt command (a line starting with `.`).
#[derive(Debug, PartialEq)]
pub enum ReplCommand {
    /// `.quit`, `.q`, `.exit`: leave the prompt.
    Quit,
    /// `.help`, `.h`, `.?`: show the help.
    Help,
    /// `.clear`: clear the screen.
    Clear,
    /// `.reset`: reset the interpreter state.
    Reset,
    /// `.objects`: list the named objects.
    Objects,
    /// `.debug`: show debug information for the last input.
    Debug,
    /// Any other word, which is reported as unknown.
    Unknown(String),
}

/// The characters of a line before its first space (all of them if none).
pub open spec fn command_word(line: Seq<char>) -> Seq<char>
    decreases line.len(),
{
    if line.len() == 0 || line[0] == ' ' {
        Seq::empty()
    } else {
        seq![line[0]] + command_word(line.drop_first())
    }
}

/// The command a word names, `None` for an unknown word.
pub open spec fn known_command(w: Seq<char>) -> Option<ReplCommand> {
    if w == ".quit"@ || w == ".q"@ || w == ".exit"@ {
        Some(ReplCommand::Quit)
    } else if w == ".help"@ || w == ".h"@ || w == ".?"@ {
        Some(ReplCommand::Help)
    } else if w == ".clear"@ {
        Some(ReplCommand::Clear)
    } else if w == ".reset"@ {
        Some(ReplCommand::Reset)
    } else if w == ".objects"@ {
        Some(ReplCommand::Objects)
    } else if w == ".debug"@ {
        Some(ReplCommand::Debug)
    } else {
        None
    }
}

/// UTF-8 encoding distributes over concatenation.
proof fn lemma_encode_concat(a: Seq<char>, b: Seq<char>)
    ensures
        encode_utf8(a + b) == encode_utf8(a) + encode_utf8(b),
    decreases a.len(),
{
    if a.len() > 0 {
        assert((a + b).drop_first() =~= a.drop_first() + b);
        assert((a + b)[0] == a[0]);
        lemma_encode_concat(a.drop_first(), b);
    } else {
        assert(a + b =~= b);
    }
}

/// The end of an encoded prefix is a character boundary.
proof fn lemma_prefix_boundary(a: Seq<char>, b: Seq<char>)
    ensures
        is_char_boundary(encode_utf8(a + b), encode_utf8(a).len() as int),
    decreases a.len(),
{
    let x = a + b;
    encode_utf8_valid_utf8(x);
    if a.len() > 0 {
        assert(x.drop_first() =~= a.drop_first() + b);
        assert(x[0] == a[0]);
        encode_utf8_first_scalar(x);
        let w = encode_scalar(x[0] as u32).len();
        assert(pop_first_scalar(encode_utf8(x)) =~= encode_utf8(x.drop_first()));
        lemma_prefix_boundary(a.drop_first(), b);
        lemma_encode_concat(a, b);
        assert(encode_utf8(a).len() == w + encode_utf8(a.drop_first()).len());
    }
}

/// The command word is the prefix before the first space.
proof fn lemma_command_word_prefix(line: Seq<char>, n: int)
    requires
        0 <= n <= line.len(),
        forall|j: int| 0 <= j < n ==> line[j] != ' ',
        n == line.len() || line[n] == ' ',
    ensures
        command_word(line) == line.take(n),
    decreases n,
{
    if n > 0 {
        lemma_command_word_prefix(line.drop_first(), n - 1);
        assert(line.take(n) =~= seq![line[0]] + line.drop_first().take(n - 1));
    } else {
        assert(line.take(0) =~= Seq::<char>::empty());
    }
}

/// The characters before the first space of `line`.
fn first_word(line: &str) -> (r: &str)
    ensures
        r@ == command_word(line@),
{
    let total = line.as_bytes().len();
    let mut it = line.chars();
    let mut off: usize = 0;
    let ghost mut n: int = 0;
    proof {
        lemma_encode_concat(line@.take(0), line@.skip(0));
        assert(line@.take(0) + line@.skip(0) =~= line@);
        assert(line@.skip(0) =~= line@);
    }
    loop
        invariant_except_break
            it.remaining() == line@.skip(n),
            it.obeys_prophetic_iter_laws(),
        invariant
            0 <= n <= line@.len(),
            off == encode_utf8(line@.take(n)).len(),
            total == encode_utf8(line@).len(),
            forall|j: int| 0 <= j < n ==> line@[j] != ' ',
        ensures
            0 <= n <= line@.len(),
            off == encode_utf8(line@.take(n)).len(),
            forall|j: int| 0 <= j < n ==> line@[j] != ' ',
            n == line@.len() || line@[n] == ' ',
        decreases line@.len() - n,
    {
        match it.next() {
            Some(c) => {
                if c == ' ' {
                    break;
                }
                proof {
                    let a = line@.take(n + 1);
                    assert(a =~= line@.take(n) + seq![c]);
                    lemma_encode_concat(line@.take(n), seq![c]);
                    assert(seq![c].drop_first() =~= Seq::<char>::empty());
                    reveal_with_fuel(encode_utf8, 2);
                    assert(encode_utf8(seq![c]) =~= encode_scalar(c as u32));
                    lemma_encode_concat(a, line@.skip(n + 1));
                    assert(a + line@.skip(n + 1) =~= line@);
                }
                off = off + char_len_utf8(c);
                proof {
                    n = n + 1;
                }
            },
            None => {
                break;
            },
        }
    }
    proof {
        lemma_prefix_boundary(line@.take(n), line@.skip(n));
        assert(line@.take(n) + line@.skip(n) =~= line@);
        lemma_encode_concat(line@.take(n), line@.skip(n));
        lemma_command_word_prefix(line@, n);
    }
    let (word, _) = line.split_at(off);
    proof {
        assert(encode_utf8(word@) =~= encode_utf8(line@.take(n)));
        encode_utf8_decode_utf8(word@);
        encode_utf8_decode_utf8(line@.take(n));
    }
    word
}

/// Which command a prompt line names: its first word decides.
pub fn classify_command(line: &str) -> (r: ReplCommand)
    ensures
        match known_command(command_word(line@)) {
            Some(c) => r == c,
            None => r matches ReplCommand::Unknown(w) && w@ == command_word(line@),
        },
{
    let word = first_word(line).to_owned();
    if word == ".quit".to_string() || word == ".q".to_string() || word == ".exit".to_string() {
        ReplCommand::Quit
    } else if word == ".help".to_string() || word == ".h".to_string() || word == ".?".to_string() {
        ReplCommand::Help
    } else if word == ".clear".to_string() {
        ReplCommand::Clear
    } else if word == ".reset".to_string() {
        ReplCommand::Reset
    } else if word == ".objects".to_string() {
        ReplCommand::Objects
    } else if word == ".debug".to_string() {
        ReplCommand::Debug
    } else {
        ReplCommand::Unknown(word)
    }
}

/// What waiting on an async stream does after an event.
#[derive(Debug)]
pub enum WaitStep {
    /// Keep waiting, with this as the latest data value.
    Continue(Value),
    /// Stop with this result.
    Finished(Value),
    /// Stop: the stream failed with this error value.
    Failed(Value),
    /// Stop: the stream closed without any result.
    NoResult,
}

/// The next step of waiting on an async stream, given the latest data
/// value so far (null at first) and the next event (`None` once the stream
/// has closed): data is kept and waiting goes on; a success value or an
/// error ends it; completion ends it with the latest data (null if none);
/// a close ends it with the latest data, or without a result when there
/// was none.
pub fn wait_step(latest: Value, event: Option<StreamEvent>) -> (r: WaitStep)
    ensures
        match event {
            Some(StreamEvent::Data(v)) => r == WaitStep::Continue(v),
            Some(StreamEvent::Success(v)) => r == WaitStep::Finished(v),
            Some(StreamEvent::Failure(e)) => r == WaitStep::Failed(e),
            Some(StreamEvent::Done) => r == WaitStep::Finished(latest),
            None => if latest is Null {
                r == WaitStep::NoResult
            } else {
                r == WaitStep::Finished(latest)
            },
        },
{
    match event {
        Some(StreamEvent::Data(v)) => WaitStep::Continue(v),
        Some(StreamEvent::Success(v)) => WaitStep::Finished(v),
        Some(StreamEvent::Failure(e)) => WaitStep::Failed(e),
        Some(StreamEvent::Done) => WaitStep::Finished(latest),
        None => match latest {
            Value::Null => WaitStep::NoResult,
            other => WaitStep::Finished(other),
        },
    }
}

} // verus!
