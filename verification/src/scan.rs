//! Phase A: splitting one line of text into its token strings.

use vstd::prelude::*;
use vstd::string::StrSliceExecFns;

use crate::token::lemma_strings_view_push;
use crate::token::strings_view;

verus! {

/// The white-space characters: exactly the Unicode `White_Space` set, the
/// characters on which a token ends outside a string literal. The character
/// itself is discarded.
pub open spec fn is_space(c: char) -> bool {
    ||| c == ' '
    ||| c == '\t'
    ||| c == '\n'
    ||| c == '\u{b}'
    ||| c == '\u{c}'
    ||| c == '\r'
    ||| c == '\u{85}'
    ||| c == '\u{a0}'
    ||| c == '\u{1680}'
    ||| c == '\u{2000}'
    ||| c == '\u{2001}'
    ||| c == '\u{2002}'
    ||| c == '\u{2003}'
    ||| c == '\u{2004}'
    ||| c == '\u{2005}'
    ||| c == '\u{2006}'
    ||| c == '\u{2007}'
    ||| c == '\u{2008}'
    ||| c == '\u{2009}'
    ||| c == '\u{200a}'
    ||| c == '\u{2028}'
    ||| c == '\u{2029}'
    ||| c == '\u{202f}'
    ||| c == '\u{205f}'
    ||| c == '\u{3000}'
}

/// The fixed separator set: brackets, comparison and logical signs,
/// punctuation and the arithmetic operators. Outside a string literal each
/// of these ends the token in progress and stands as a token of its own.
pub open spec fn is_separator(c: char) -> bool {
    ||| c == '('
    ||| c == ')'
    ||| c == '{'
    ||| c == '}'
    ||| c == '['
    ||| c == ']'
    ||| c == '<'
    ||| c == '>'
    ||| c == '!'
    ||| c == '|'
    ||| c == '&'
    ||| c == ','
    ||| c == '.'
    ||| c == ':'
    ||| c == ';'
    ||| c == '+'
    ||| c == '*'
    ||| c == '/'
    ||| c == '-'
    ||| c == '='
    ||| c == '^'
}

/// Decides [`is_space`].
pub fn is_space_char(c: char) -> (r: bool)
    ensures
        r == is_space(c),
{
    match c {
        ' ' | '\t' | '\n' | '\u{b}' | '\u{c}' | '\r' | '\u{85}' | '\u{a0}' | '\u{1680}'
        | '\u{2000}' | '\u{2001}' | '\u{2002}' | '\u{2003}' | '\u{2004}' | '\u{2005}'
        | '\u{2006}' | '\u{2007}' | '\u{2008}' | '\u{2009}' | '\u{200a}' | '\u{2028}'
        | '\u{2029}' | '\u{202f}' | '\u{205f}' | '\u{3000}' => true,
        _ => false,
    }
}

/// Decides [`is_separator`].
pub fn is_separator_char(c: char) -> (r: bool)
    ensures
        r == is_separator(c),
{
    match c {
        '(' | ')' | '{' | '}' | '[' | ']' | '<' | '>' | '!' | '|' | '&' | ',' | '.' | ':'
        | ';' | '+' | '*' | '/' | '-' | '=' | '^' => true,
        _ => false,
    }
}

/// The pending accumulator as a token list: a non-empty accumulator flushes
/// as one completed token, an empty one contributes nothing.
pub open spec fn flush(acc: Seq<char>) -> Seq<Seq<char>> {
    if acc.len() > 0 {
        seq![acc]
    } else {
        Seq::<Seq<char>>::empty()
    }
}

/// The token strings that the remaining characters of a line split into,
/// given the token accumulated so far and the string-literal flag.
///
/// A `"` toggles the flag and is discarded. Inside a literal every other
/// character joins the accumulator. Outside, white space flushes the
/// accumulator, a separator flushes it and then stands as a token of its
/// own, and any other character joins the accumulator. At the end of the
/// line a non-empty accumulator flushes as a final token.
pub open spec fn split_rest(rest: Seq<char>, acc: Seq<char>, in_string: bool) -> Seq<Seq<char>>
    decreases rest.len(),
{
    if rest.len() == 0 {
        flush(acc)
    } else {
        let c = rest[0];
        let tail = rest.drop_first();
        if c == '"' {
            split_rest(tail, acc, !in_string)
        } else if in_string {
            split_rest(tail, acc.push(c), in_string)
        } else if is_space(c) {
            flush(acc) + split_rest(tail, Seq::<char>::empty(), in_string)
        } else if is_separator(c) {
            flush(acc) + seq![seq![c]] + split_rest(tail, Seq::<char>::empty(), in_string)
        } else {
            split_rest(tail, acc.push(c), in_string)
        }
    }
}

/// The token strings a whole line splits into: scanning starts with an
/// empty accumulator, outside any string literal.
pub open spec fn split_line(line: Seq<char>) -> Seq<Seq<char>> {
    split_rest(line, Seq::<char>::empty(), false)
}

/// Relies on `String: FromIterator<char>`, through `Iterator::collect`:
/// collecting characters yields the string of exactly those characters.
#[verifier::external_body]
fn string_from_chars(cs: &Vec<char>) -> (r: String)
    ensures
        r@ == cs@,
{
    cs.iter().collect()
}

/// Phase A: split one line into its token strings.
pub fn scan_line(line: &str) -> (tokens: Vec<String>)
    ensures
        strings_view(tokens@) == split_line(line@),
{
    let n: usize = line.unicode_len();
    let mut tokens: Vec<String> = Vec::new();
    let mut acc: Vec<char> = Vec::new();
    let mut in_string: bool = false;
    let mut j: usize = 0;
    proof {
        assert(acc@ =~= Seq::<char>::empty());
        assert(line@.skip(0) =~= line@);
        assert(strings_view(tokens@) + split_rest(line@, acc@, false) =~= split_rest(
            line@,
            acc@,
            false,
        ));
    }
    while j < n
        invariant
            n as int == line@.len() as int,
            j <= n,
            split_line(line@) == strings_view(tokens@) + split_rest(
                line@.skip(j as int),
                acc@,
                in_string,
            ),
        decreases n - j,
    {
        let ghost rest = line@.skip(j as int);
        let ghost tail = line@.skip(j as int + 1);
        let c = line.get_char(j);
        proof {
            assert(rest.len() > 0);
            assert(rest[0] == c);
            assert(rest.drop_first() =~= tail);
        }
        if c == '"' {
            in_string = !in_string;
        } else if in_string {
            acc.push(c);
        } else if is_space_char(c) {
            let ghost old_view = strings_view(tokens@);
            let ghost old_acc = acc@;
            if acc.len() > 0 {
                let t = string_from_chars(&acc);
                proof {
                    lemma_strings_view_push(tokens@, t);
                }
                tokens.push(t);
                acc.clear();
            }
            proof {
                assert(acc@ =~= Seq::<char>::empty());
                assert(split_rest(rest, old_acc, false) == flush(old_acc) + split_rest(
                    tail,
                    Seq::<char>::empty(),
                    false,
                ));
                assert(strings_view(tokens@) + split_rest(tail, acc@, false) =~= old_view + (flush(
                    old_acc,
                ) + split_rest(tail, Seq::<char>::empty(), false)));
            }
        } else if is_separator_char(c) {
            let ghost old_view = strings_view(tokens@);
            let ghost old_acc = acc@;
            if acc.len() > 0 {
                let t = string_from_chars(&acc);
                proof {
                    lemma_strings_view_push(tokens@, t);
                }
                tokens.push(t);
                acc.clear();
            }
            let ghost mid_view = strings_view(tokens@);
            proof {
                assert(mid_view =~= old_view + flush(old_acc));
            }
            let mut sep: Vec<char> = Vec::new();
            sep.push(c);
            let st = string_from_chars(&sep);
            proof {
                assert(st@ =~= seq![c]);
                lemma_strings_view_push(tokens@, st);
            }
            tokens.push(st);
            proof {
                assert(acc@ =~= Seq::<char>::empty());
                assert(split_rest(rest, old_acc, false) == flush(old_acc) + seq![seq![c]]
                    + split_rest(tail, Seq::<char>::empty(), false));
                assert(strings_view(tokens@) + split_rest(tail, acc@, false) =~= old_view + (flush(
                    old_acc,
                ) + seq![seq![c]] + split_rest(tail, Seq::<char>::empty(), false)));
            }
        } else {
            acc.push(c);
        }
        j += 1;
        proof {
            assert(line@.skip(j as int) =~= tail);
        }
    }
    proof {
        assert(line@.skip(j as int) =~= Seq::<char>::empty());
    }
    if acc.len() > 0 {
        let t = string_from_chars(&acc);
        proof {
            lemma_strings_view_push(tokens@, t);
        }
        tokens.push(t);
    }
    proof {
        assert(strings_view(tokens@) =~= split_line(line@));
    }
    tokens
}

} // verus!
