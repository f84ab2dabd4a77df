//! Phase B: stripping the single-line comment from a line's token list.

use vstd::prelude::*;
use vstd::string::StrSliceExecFns;

use crate::token::lemma_strings_view_take;
use crate::token::strings_view;

verus! {

/// The token a lone `/` becomes: two of these in a row open a comment.
pub open spec fn slash_token() -> Seq<char> {
    seq!['/']
}

/// Tokens `i` and `i + 1` both exist and are each exactly `/`.
pub open spec fn comment_pair_at(ts: Seq<Seq<char>>, i: int) -> bool {
    &&& 0 <= i
    &&& i + 1 < ts.len()
    &&& ts[i] == slash_token()
    &&& ts[i + 1] == slash_token()
}

/// The tokens kept once the scan for a comment has reached index `i`: at
/// the first pair of adjacent `/` tokens the line is cut just before the
/// pair, and a line without such a pair is left whole.
pub open spec fn strip_from(ts: Seq<Seq<char>>, i: int) -> Seq<Seq<char>>
    decreases ts.len() - i,
{
    if i + 1 >= ts.len() {
        ts
    } else if ts[i] == slash_token() && ts[i + 1] == slash_token() {
        ts.take(i)
    } else {
        strip_from(ts, i + 1)
    }
}

/// Phase B on a whole line: the scan starts at the first token.
pub open spec fn strip_comment(ts: Seq<Seq<char>>) -> Seq<Seq<char>> {
    strip_from(ts, 0)
}

/// While no pair of adjacent `/` tokens starts before `i`, the scan's
/// outcome from the start is its outcome from `i`.
pub proof fn lemma_strip_from_skip(ts: Seq<Seq<char>>, i: int)
    requires
        0 <= i,
        forall|k: int| 0 <= k < i ==> !comment_pair_at(ts, k),
    ensures
        strip_from(ts, 0) == strip_from(ts, i),
    decreases i,
{
    if i > 0 {
        lemma_strip_from_skip(ts, i - 1);
        assert(!comment_pair_at(ts, i - 1));
    }
}

/// Comment truncation: a line whose first pair of adjacent `/` tokens
/// starts at `i` keeps exactly the tokens before the pair.
pub proof fn lemma_strip_at_first_pair(ts: Seq<Seq<char>>, i: int)
    requires
        comment_pair_at(ts, i),
        forall|k: int| 0 <= k < i ==> !comment_pair_at(ts, k),
    ensures
        strip_comment(ts) == ts.take(i),
{
    lemma_strip_from_skip(ts, i);
}

/// A line without a pair of adjacent `/` tokens is left whole.
pub proof fn lemma_strip_no_pair(ts: Seq<Seq<char>>)
    requires
        forall|k: int| !comment_pair_at(ts, k),
    ensures
        strip_comment(ts) == ts,
{
    if ts.len() >= 2 {
        lemma_strip_from_skip(ts, ts.len() - 1);
    }
}

/// Whether one token is exactly the single character `/`.
fn is_slash(s: &String) -> (r: bool)
    ensures
        r == (s@ == slash_token()),
{
    if s.as_str().unicode_len() == 1 {
        let c = s.as_str().get_char(0);
        proof {
            if c == '/' {
                assert(s@ =~= slash_token());
            }
        }
        c == '/'
    } else {
        false
    }
}

/// Phase B: cut the line's token list just before the first pair of
/// adjacent `/` tokens, if there is one.
pub fn strip_line_comment(tokens: &mut Vec<String>)
    ensures
        strings_view(final(tokens)@) == strip_comment(strings_view(old(tokens)@)),
{
    let n: usize = tokens.len();
    if n > 1 {
        let mut i: usize = 0;
        while i < n - 1
            invariant
                *tokens == *old(tokens),
                n == tokens@.len(),
                i < n,
                forall|k: int| 0 <= k < i as int ==> !comment_pair_at(strings_view(tokens@), k),
            decreases n - i,
        {
            if is_slash(&tokens[i]) && is_slash(&tokens[i + 1]) {
                proof {
                    lemma_strip_at_first_pair(strings_view(tokens@), i as int);
                    lemma_strings_view_take(tokens@, i as int);
                }
                tokens.truncate(i);
                return ;
            }
            i += 1;
        }
        proof {
            assert forall|k: int| !comment_pair_at(strings_view(tokens@), k) by {
                if 0 <= k && k + 1 < strings_view(tokens@).len() {
                    assert(!comment_pair_at(strings_view(tokens@), k));
                }
            }
            lemma_strip_no_pair(strings_view(tokens@));
        }
    } else {
        proof {
            assert(strings_view(tokens@).len() == tokens@.len());
            assert(strip_comment(strings_view(tokens@)) == strings_view(tokens@));
        }
    }
}

} // verus!
