//! The command line of the client: a line of text split into words, with
//! double quotes to keep spaces inside a word and a backslash to escape.

use crate::outside::push_char;
use crate::types::texts;
use vstd::prelude::*;
use vstd::std_specs::iter::IteratorSpec;

verus! {

/// The state of the splitter between two characters.
pub struct Splitter {
    /// The words that are complete.
    pub parts: Seq<Seq<char>>,
    /// The word that is being read.
    pub buffer: Seq<char>,
    /// The last character was an unescaped backslash.
    pub escape: bool,
    /// The splitter is inside double quotes.
    pub quote: bool,
}

/// The splitter before the first character.
pub open spec fn splitter_start() -> Splitter {
    Splitter { parts: Seq::empty(), buffer: Seq::empty(), escape: false, quote: false }
}

/// What one character does to the splitter.
///
/// After a backslash, a backslash or a double quote stands for itself, and
/// any other character keeps the backslash in front of it. A double quote
/// opens a quotation at the start of a word and closes an open one; inside
/// a word it is an ordinary character. A space outside quotes ends the
/// word, also an empty one.
pub open spec fn splitter_step(s: Splitter, c: char) -> Splitter {
    if s.escape {
        if c != '\\' && c != '"' {
            Splitter { buffer: s.buffer.push('\\').push(c), escape: false, ..s }
        } else {
            Splitter { buffer: s.buffer.push(c), escape: false, ..s }
        }
    } else if c == '\\' {
        Splitter { escape: true, ..s }
    } else if c == '"' && (s.buffer.len() == 0 || s.quote) {
        Splitter { quote: !s.quote, ..s }
    } else if c == ' ' && !s.quote {
        Splitter { parts: s.parts.push(s.buffer), buffer: Seq::empty(), ..s }
    } else {
        Splitter { buffer: s.buffer.push(c), ..s }
    }
}

/// The splitter after a run of characters.
pub open spec fn splitter_run(s: Splitter, input: Seq<char>) -> Splitter
    decreases input.len(),
{
    if input.len() == 0 {
        s
    } else {
        splitter_step(splitter_run(s, input.drop_last()), input.last())
    }
}

/// The words at the end of the line: a backslash that escapes nothing is
/// kept, and the last word counts unless it is empty.
pub open spec fn splitter_finish(s: Splitter) -> Seq<Seq<char>> {
    let last = if s.escape {
        s.buffer.push('\\')
    } else {
        s.buffer
    };
    if last.len() > 0 {
        s.parts.push(last)
    } else {
        s.parts
    }
}

/// The words of a command line.
pub open spec fn parse_spec(input: Seq<char>) -> Seq<Seq<char>> {
    splitter_finish(splitter_run(splitter_start(), input))
}

/// Splits a command line into its words.
pub fn parse(input: &str) -> (parts: Vec<String>)
    ensures
        texts(parts@) == parse_spec(input@),
{
    broadcast use vstd::string::group_string_axioms;

    let mut parts: Vec<String> = Vec::new();
    let mut buffer = String::new();
    let mut escape = false;
    let mut quote = false;
    let mut chars = input.chars();
    let ghost mut seen: Seq<char> = Seq::empty();
    assert(texts(parts@) =~= Seq::<Seq<char>>::empty());
    loop
        invariant
            chars.decrease() is Some,
            seen + chars.remaining() == input@,
            splitter_run(splitter_start(), seen) == (Splitter {
                parts: texts(parts@),
                buffer: buffer@,
                escape,
                quote,
            }),
        ensures
            seen == input@,
        decreases chars.decrease()->0,
    {
        let ghost before = chars.remaining();
        let ghost words = texts(parts@);
        match chars.next() {
            Some(c) => {
                proof {
                    assert(seen.push(c).drop_last() =~= seen);
                    assert(seen.push(c) + before.drop_first() =~= seen + before);
                    seen = seen.push(c);
                }
                if escape {
                    escape = false;
                    if c != '\\' && c != '"' {
                        push_char(&mut buffer, '\\');
                    }
                    push_char(&mut buffer, c);
                } else if c == '\\' {
                    escape = true;
                } else if c == '"' && (buffer.as_str().is_empty() || quote) {
                    quote = !quote;
                } else if c == ' ' && !quote {
                    parts.push(buffer);
                    buffer = String::new();
                    assert(texts(parts@) =~= words.push(parts@.last()@));
                } else {
                    push_char(&mut buffer, c);
                }
            },
            None => {
                assert(seen =~= input@);
                break ;
            },
        }
    }
    if escape {
        push_char(&mut buffer, '\\');
    }
    if !buffer.as_str().is_empty() {
        let ghost words = texts(parts@);
        parts.push(buffer);
        assert(texts(parts@) =~= words.push(parts@.last()@));
    }
    parts
}

} // verus!
