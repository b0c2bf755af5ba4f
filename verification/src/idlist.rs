//! Lists of ids as text: decimal numbers with commas between them, as the
//! roles of a user are kept in a table.

use crate::outside::push_char;
use vstd::prelude::*;
use vstd::std_specs::iter::IteratorSpec;

verus! {

/// The character of a decimal digit.
pub open spec fn digit_char(d: nat) -> char {
    (48 + d) as char
}

/// A number in decimal, without leading zeros.
pub open spec fn decimal(n: nat) -> Seq<char>
    decreases n,
{
    if n < 10 {
        seq![digit_char(n)]
    } else {
        decimal(n / 10).push(digit_char(n % 10))
    }
}

/// A list of ids as text: the numbers in decimal, with a comma between
/// each two.
pub open spec fn list_text(ids: Seq<usize>) -> Seq<char>
    decreases ids.len(),
{
    if ids.len() == 0 {
        Seq::empty()
    } else if ids.len() == 1 {
        decimal(ids[0] as nat)
    } else {
        list_text(ids.drop_last()).push(',') + decimal(ids.last() as nat)
    }
}

/// The state of the reader between two characters.
pub struct Reader {
    /// The numbers that are complete.
    pub done: Seq<usize>,
    /// The number that is being read, once it has a digit.
    pub current: Option<nat>,
    /// A character was no digit and no comma, or a number was too large.
    pub failed: bool,
}

/// The reader before the first character.
pub open spec fn reader_start() -> Reader {
    Reader { done: Seq::empty(), current: None, failed: false }
}

/// What one character does to the reader: a comma ends the number that is
/// being read, if there is one; a digit goes on with it; anything else, and
/// a number beyond `usize::MAX`, fails.
pub open spec fn reader_step(r: Reader, c: char) -> Reader {
    if r.failed {
        r
    } else if c == ',' {
        match r.current {
            Some(n) => Reader { done: r.done.push(n as usize), current: None, failed: false },
            None => r,
        }
    } else if '0' <= c && c <= '9' {
        let n = (match r.current {
            Some(n) => n,
            None => 0,
        }) * 10 + (c as nat - 48);
        if n > usize::MAX {
            Reader { failed: true, ..r }
        } else {
            Reader { current: Some(n as nat), ..r }
        }
    } else {
        Reader { failed: true, ..r }
    }
}

/// The reader after a run of characters.
pub open spec fn reader_run(r: Reader, text: Seq<char>) -> Reader
    decreases text.len(),
{
    if text.len() == 0 {
        r
    } else {
        reader_step(reader_run(r, text.drop_last()), text.last())
    }
}

/// The list that a text stands for: its decimal numbers, which commas
/// part; empty places between commas count for nothing. A text with
/// another character, or with a number beyond `usize::MAX`, stands for no
/// list.
pub open spec fn parse_list(text: Seq<char>) -> Option<Seq<usize>> {
    let r = reader_run(reader_start(), text);
    if r.failed {
        None
    } else {
        match r.current {
            Some(n) => Some(r.done.push(n as usize)),
            None => Some(r.done),
        }
    }
}

fn push_decimal(text: &mut String, n: usize)
    ensures
        final(text)@ == old(text)@ + decimal(n as nat),
    decreases n,
{
    if n >= 10 {
        push_decimal(text, n / 10);
    }
    let ghost before = text@;
    let digit: u8 = (n % 10) as u8;
    push_char(text, (48 + digit) as char);
    proof {
        if n >= 10 {
            assert(text@ =~= old(text)@ + decimal((n / 10) as nat).push(digit_char((n % 10) as nat)));
        } else {
            assert(text@ =~= old(text)@ + seq![digit_char(n as nat)]);
        }
    }
}

/// Writes a list of ids as text.
pub fn from_list(input: &[usize]) -> (text: String)
    ensures
        text@ == list_text(input@),
{
    let mut text = String::new();
    let mut i: usize = 0;
    while i < input.len()
        invariant
            i <= input.len(),
            text@ == list_text(input@.take(i as int)),
        decreases input.len() - i,
    {
        assert(input@.take(i + 1).drop_last() =~= input@.take(i as int));
        let ghost before = text@;
        if i > 0 {
            push_char(&mut text, ',');
        }
        push_decimal(&mut text, input[i]);
        proof {
            if i == 0 {
                assert(before =~= Seq::<char>::empty());
                assert(text@ =~= decimal(input@[0] as nat));
            }
        }
        i += 1;
    }
    assert(input@.take(input.len() as int) =~= input@);
    text
}

/// Reads a list of ids from text. `None` says that the text is no list.
pub fn get_list(input: &str) -> (list: Option<Vec<usize>>)
    ensures
        match parse_list(input@) {
            Some(ids) => list matches Some(v) && v@ == ids,
            None => list is None,
        },
{
    broadcast use vstd::string::group_string_axioms;

    let mut done: Vec<usize> = Vec::new();
    let mut current: Option<usize> = None;
    let mut chars = input.chars();
    let ghost mut seen: Seq<char> = Seq::empty();
    loop
        invariant
            chars.decrease() is Some,
            seen + chars.remaining() == input@,
            reader_run(reader_start(), seen) == (Reader {
                done: done@,
                current: match current {
                    Some(n) => Some(n as nat),
                    None => None,
                },
                failed: false,
            }),
        ensures
            seen == input@,
        decreases chars.decrease()->0,
    {
        let ghost before = chars.remaining();
        match chars.next() {
            Some(c) => {
                proof {
                    assert(seen.push(c).drop_last() =~= seen);
                    assert(seen.push(c) + before.drop_first() =~= seen + before);
                }
                let ghost shorter = seen;
                proof {
                    seen = seen.push(c);
                }
                if c == ',' {
                    match current {
                        Some(n) => {
                            done.push(n);
                            current = None;
                        },
                        None => {},
                    }
                } else if '0' <= c && c <= '9' {
                    let d: usize = (c as u8 - 48) as usize;
                    let n: usize = match current {
                        Some(n) => n,
                        None => 0,
                    };
                    let next = match n.checked_mul(10) {
                        Some(m) => m.checked_add(d),
                        None => None,
                    };
                    match next {
                        Some(v) => {
                            current = Some(v);
                        },
                        None => {
                            proof {
                                lemma_failure_stays(seen, chars.remaining());
                                assert(seen + chars.remaining() =~= input@);
                            }
                            return None;
                        },
                    }
                } else {
                    proof {
                        lemma_failure_stays(seen, chars.remaining());
                        assert(seen + chars.remaining() =~= input@);
                    }
                    return None;
                }
            },
            None => {
                assert(seen =~= input@);
                break ;
            },
        }
    }
    match current {
        Some(n) => {
            done.push(n);
        },
        None => {},
    }
    Some(done)
}

/// Running the reader over two texts in a row is running it over the
/// first and going on over the second.
pub proof fn lemma_run_concat(r: Reader, a: Seq<char>, b: Seq<char>)
    ensures
        reader_run(r, a + b) == reader_run(reader_run(r, a), b),
    decreases b.len(),
{
    if b.len() == 0 {
        assert(a + b =~= a);
    } else {
        assert((a + b).drop_last() =~= a + b.drop_last());
        assert((a + b).last() == b.last());
        lemma_run_concat(r, a, b.drop_last());
    }
}

/// A reader that has failed stays failed.
pub proof fn lemma_failed_run(r: Reader, text: Seq<char>)
    requires
        r.failed,
    ensures
        reader_run(r, text) == r,
    decreases text.len(),
{
    if text.len() > 0 {
        lemma_failed_run(r, text.drop_last());
    }
}

proof fn lemma_failure_stays(seen: Seq<char>, rest: Seq<char>)
    requires
        reader_run(reader_start(), seen).failed,
    ensures
        parse_list(seen + rest) is None,
{
    lemma_run_concat(reader_start(), seen, rest);
    lemma_failed_run(reader_run(reader_start(), seen), rest);
}

/// Reading the decimal form of a number gives the number.
pub proof fn lemma_read_decimal(done: Seq<usize>, n: nat)
    requires
        n <= usize::MAX,
    ensures
        reader_run(Reader { done, current: None, failed: false }, decimal(n)) == (Reader {
            done,
            current: Some(n),
            failed: false,
        }),
    decreases n,
{
    let start = Reader { done, current: None, failed: false };
    if n < 10 {
        let text = seq![digit_char(n)];
        assert(text.drop_last() =~= Seq::<char>::empty());
        assert(text.last() == digit_char(n));
        assert(reader_run(start, text.drop_last()) == start);
    } else {
        lemma_read_decimal(done, n / 10);
        let text = decimal(n / 10).push(digit_char(n % 10));
        assert(text.drop_last() =~= decimal(n / 10));
        assert(text.last() == digit_char(n % 10));
    }
}

/// Reading the text of a list gives the reader that has all its ids but
/// the last in `done` and the last in `current`.
pub proof fn lemma_read_list(ids: Seq<usize>)
    requires
        ids.len() > 0,
    ensures
        reader_run(reader_start(), list_text(ids)) == (Reader {
            done: ids.drop_last(),
            current: Some(ids.last() as nat),
            failed: false,
        }),
    decreases ids.len(),
{
    if ids.len() == 1 {
        assert(ids.drop_last() =~= Seq::<usize>::empty());
        lemma_read_decimal(Seq::empty(), ids[0] as nat);
    } else {
        let head = ids.drop_last();
        lemma_read_list(head);
        let a = list_text(head).push(',');
        let b = decimal(ids.last() as nat);
        lemma_run_concat(reader_start(), a, b);
        assert(a.drop_last() =~= list_text(head));
        assert(a.last() == ',');
        let after = reader_run(reader_start(), a);
        assert(head.drop_last().push(head.last()) =~= head);
        assert(after == Reader { done: head, current: None, failed: false });
        lemma_read_decimal(head, ids.last() as nat);
    }
}

/// Round trip: the text of a list stands for the list.
pub proof fn lemma_list_roundtrip(ids: Seq<usize>)
    ensures
        parse_list(list_text(ids)) == Some(ids),
{
    if ids.len() == 0 {
        assert(parse_list(list_text(ids))->0 =~= ids);
    } else {
        lemma_read_list(ids);
        assert(ids.drop_last().push(ids.last()) =~= ids);
    }
}

} // verus!
