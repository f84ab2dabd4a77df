//! The whole scanner: lines of text in, a flat position-annotated token
//! stream out.

use vstd::prelude::*;

use crate::comments::strip_comment;
use crate::comments::strip_line_comment;
use crate::scan::scan_line;
use crate::scan::split_line;
use crate::token::Token;
use crate::token::TokenModel;
use crate::token::lemma_token_models_push;
use crate::token::strings_view;
use crate::token::token_models;

verus! {

/// The views of the input lines.
pub open spec fn lines_view(lines: Seq<String>) -> Seq<Seq<char>> {
    lines.map_values(|s: String| s@)
}

/// The token strings one line contributes: splitting, then comment
/// stripping.
pub open spec fn line_result(line: Seq<char>) -> Seq<Seq<char>> {
    strip_comment(split_line(line))
}

/// The tokens of one line: the `j`-th token string of line `ln` becomes a
/// token at line `ln`, position `j`.
pub open spec fn line_token_models(ts: Seq<Seq<char>>, ln: nat) -> Seq<TokenModel> {
    Seq::new(ts.len(), |j: int| TokenModel { text: ts[j], line: ln, token_number: j as nat })
}

/// Phase C over the first `n` rows of a table of per-line token strings.
pub open spec fn flatten_prefix(table: Seq<Seq<Seq<char>>>, n: int) -> Seq<TokenModel>
    decreases n,
{
    if n <= 0 {
        Seq::<TokenModel>::empty()
    } else {
        flatten_prefix(table, n - 1) + line_token_models(table[n - 1], (n - 1) as nat)
    }
}

/// Phase C over a whole table.
pub open spec fn flatten_table_spec(table: Seq<Seq<Seq<char>>>) -> Seq<TokenModel> {
    flatten_prefix(table, table.len() as int)
}

/// The table of per-line token strings: each line split and
/// comment-stripped, in line order.
pub open spec fn results_table(lines: Seq<Seq<char>>) -> Seq<Seq<Seq<char>>> {
    lines.map_values(|l: Seq<char>| line_result(l))
}

/// What the scanner returns: every line is split and comment-stripped, and
/// the per-line results are flattened in line order.
pub open spec fn tokenize_spec(lines: Seq<Seq<char>>) -> Seq<TokenModel> {
    flatten_table_spec(results_table(lines))
}

/// The per-row views of a table of token strings.
pub open spec fn table_view(t: Seq<Vec<String>>) -> Seq<Seq<Seq<char>>> {
    t.map_values(|row: Vec<String>| strings_view(row@))
}

/// Phase C: walk the table in row order, tagging each token string with
/// its line and its position within the line.
fn flatten_table(table: &Vec<Vec<String>>) -> (out: Vec<Token>)
    ensures
        token_models(out@) == flatten_table_spec(table_view(table@)),
{
    let mut out: Vec<Token> = Vec::new();
    let mut ln: usize = 0;
    proof {
        assert(token_models(out@) =~= flatten_prefix(table_view(table@), 0));
    }
    while ln < table.len()
        invariant
            ln <= table@.len(),
            table_view(table@).len() == table@.len(),
            token_models(out@) == flatten_prefix(table_view(table@), ln as int),
        decreases table@.len() - ln,
    {
        let row = &table[ln];
        let m: usize = row.len();
        let ghost models = line_token_models(strings_view(row@), ln as nat);
        let mut k: usize = 0;
        proof {
            assert(token_models(out@) + models.take(0) =~= token_models(out@));
        }
        let ghost done = token_models(out@);
        while k < m
            invariant
                k <= m,
                m == row@.len(),
                ln < table@.len(),
                models == line_token_models(strings_view(row@), ln as nat),
                models.len() == m,
                token_models(out@) == done + models.take(k as int),
            decreases m - k,
        {
            let t = Token { token: row[k].clone(), line: ln, token_number: k };
            proof {
                lemma_token_models_push(out@, t);
                assert(t@ == models[k as int]);
                assert(models.take(k as int + 1) =~= models.take(k as int) + seq![t@]);
                assert((done + models.take(k as int)) + seq![t@] =~= done + models.take(
                    k as int + 1,
                ));
            }
            out.push(t);
            k += 1;
        }
        proof {
            assert(models.take(m as int) =~= models);
            assert(table_view(table@)[ln as int] == strings_view(row@));
        }
        ln += 1;
    }
    out
}

/// The tokenizer and pre-processor.
///
/// Every line is split at white space and at the separator characters,
/// except inside a string literal, whose content stays one token with the
/// quotes discarded; the first pair of adjacent `/` tokens on a line and
/// everything after it is dropped; and the per-line results are flattened
/// into one stream of [`Token`] records tagged with line and position,
/// both zero-based.
pub fn tokenize(lines: Vec<String>) -> (tokens: Vec<Token>)
    ensures
        token_models(tokens@) == tokenize_spec(lines_view(lines@)),
{
    let mut table: Vec<Vec<String>> = Vec::new();
    let mut li: usize = 0;
    while li < lines.len()
        invariant
            li <= lines@.len(),
            table@.len() == li as int,
            forall|k: int|
                0 <= k < li as int ==> strings_view((#[trigger] table@[k])@) == line_result(
                    lines@[k]@,
                ),
        decreases lines@.len() - li,
    {
        let mut ts = scan_line(lines[li].as_str());
        strip_line_comment(&mut ts);
        table.push(ts);
        li += 1;
    }
    proof {
        assert(table_view(table@) =~= results_table(lines_view(lines@)));
    }
    flatten_table(&table)
}

} // verus!
