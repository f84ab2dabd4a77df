//! The laws of the scanner, stated and proved over its model.

use vstd::prelude::*;

use crate::comments::comment_pair_at;
use crate::comments::lemma_strip_at_first_pair;
use crate::comments::slash_token;
use crate::comments::strip_comment;
use crate::scan::flush;
use crate::scan::is_separator;
use crate::scan::is_space;
use crate::scan::split_line;
use crate::scan::split_rest;
use crate::token::TokenModel;
use crate::tokenizer::flatten_prefix;
use crate::tokenizer::line_result;
use crate::tokenizer::line_token_models;
use crate::tokenizer::results_table;
use crate::tokenizer::tokenize_spec;

verus! {

/// The string-literal flag after scanning `u`, starting from `in_string`:
/// each `"` toggles it, every other character leaves it alone.
pub open spec fn flag_after(u: Seq<char>, in_string: bool) -> bool
    decreases u.len(),
{
    if u.len() == 0 {
        in_string
    } else if u[0] == '"' {
        flag_after(u.drop_first(), !in_string)
    } else {
        flag_after(u.drop_first(), in_string)
    }
}

/// The token in progress after scanning `u` from accumulator `acc` and
/// flag `in_string`.
pub open spec fn acc_after(u: Seq<char>, acc: Seq<char>, in_string: bool) -> Seq<char>
    decreases u.len(),
{
    if u.len() == 0 {
        acc
    } else {
        let c = u[0];
        let tail = u.drop_first();
        if c == '"' {
            acc_after(tail, acc, !in_string)
        } else if in_string {
            acc_after(tail, acc.push(c), in_string)
        } else if is_space(c) {
            acc_after(tail, Seq::<char>::empty(), in_string)
        } else if is_separator(c) {
            acc_after(tail, Seq::<char>::empty(), in_string)
        } else {
            acc_after(tail, acc.push(c), in_string)
        }
    }
}

/// The tokens completed while scanning `u` from accumulator `acc` and flag
/// `in_string`; the token still in progress at the end is not among them.
pub open spec fn emitted(u: Seq<char>, acc: Seq<char>, in_string: bool) -> Seq<Seq<char>>
    decreases u.len(),
{
    if u.len() == 0 {
        Seq::<Seq<char>>::empty()
    } else {
        let c = u[0];
        let tail = u.drop_first();
        if c == '"' {
            emitted(tail, acc, !in_string)
        } else if in_string {
            emitted(tail, acc.push(c), in_string)
        } else if is_space(c) {
            flush(acc) + emitted(tail, Seq::<char>::empty(), in_string)
        } else if is_separator(c) {
            flush(acc) + seq![seq![c]] + emitted(tail, Seq::<char>::empty(), in_string)
        } else {
            emitted(tail, acc.push(c), in_string)
        }
    }
}

/// Splitting decomposes at any cut of the line: first the tokens completed
/// inside the left part, then the split of the right part carried on from
/// the accumulator and flag the left part leaves behind.
pub proof fn lemma_split_decompose(u: Seq<char>, w: Seq<char>, acc: Seq<char>, in_string: bool)
    ensures
        split_rest(u + w, acc, in_string) == emitted(u, acc, in_string) + split_rest(
            w,
            acc_after(u, acc, in_string),
            flag_after(u, in_string),
        ),
    decreases u.len(),
{
    if u.len() == 0 {
        assert(u + w =~= w);
        assert(emitted(u, acc, in_string) + split_rest(w, acc, in_string) =~= split_rest(
            w,
            acc,
            in_string,
        ));
    } else {
        let c = u[0];
        let tail = u.drop_first();
        assert((u + w)[0] == c);
        assert((u + w).drop_first() =~= tail + w);
        if c == '"' {
            lemma_split_decompose(tail, w, acc, !in_string);
        } else if in_string {
            lemma_split_decompose(tail, w, acc.push(c), in_string);
        } else if is_space(c) {
            lemma_split_decompose(tail, w, Seq::<char>::empty(), in_string);
            assert(flush(acc) + (emitted(tail, Seq::<char>::empty(), in_string) + split_rest(
                w,
                acc_after(u, acc, in_string),
                flag_after(u, in_string),
            )) =~= (flush(acc) + emitted(tail, Seq::<char>::empty(), in_string)) + split_rest(
                w,
                acc_after(u, acc, in_string),
                flag_after(u, in_string),
            ));
        } else if is_separator(c) {
            lemma_split_decompose(tail, w, Seq::<char>::empty(), in_string);
            assert((flush(acc) + seq![seq![c]]) + (emitted(tail, Seq::<char>::empty(), in_string)
                + split_rest(w, acc_after(u, acc, in_string), flag_after(u, in_string))) =~= (flush(
                acc,
            ) + seq![seq![c]] + emitted(tail, Seq::<char>::empty(), in_string)) + split_rest(
                w,
                acc_after(u, acc, in_string),
                flag_after(u, in_string),
            ));
        } else {
            lemma_split_decompose(tail, w, acc.push(c), in_string);
        }
    }
}

/// Whitespace idempotence: one extra white-space character inserted between
/// tokens and outside a string literal does not change the tokens a line
/// yields; inserting arbitrary extra white space is this law applied once
/// per character. The text before the insertion point is `u`: scanning it
/// must end outside a string literal with no token in progress, which is
/// what "between tokens" means.
pub proof fn lemma_whitespace_insertion(u: Seq<char>, v: Seq<char>, c: char)
    requires
        is_space(c),
        !flag_after(u, false),
        acc_after(u, Seq::<char>::empty(), false) == Seq::<char>::empty(),
    ensures
        split_line(u + seq![c] + v) == split_line(u + v),
        line_result(u + seq![c] + v) == line_result(u + v),
{
    lemma_split_decompose(u, seq![c] + v, Seq::<char>::empty(), false);
    lemma_split_decompose(u, v, Seq::<char>::empty(), false);
    assert(u + seq![c] + v =~= u + (seq![c] + v));
    assert((seq![c] + v)[0] == c);
    assert((seq![c] + v).drop_first() =~= v);
    assert(split_rest(seq![c] + v, Seq::<char>::empty(), false) =~= split_rest(
        v,
        Seq::<char>::empty(),
        false,
    ));
}

/// Separator isolation: a separator character outside a string literal is
/// always a single-character token of its own; whatever text was
/// accumulated before it flushes as a distinct token, and the rest of the
/// line is scanned from a fresh accumulator.
pub proof fn lemma_separator_isolation(u: Seq<char>, v: Seq<char>, c: char)
    requires
        is_separator(c),
        !flag_after(u, false),
    ensures
        split_line(u + seq![c] + v) == emitted(u, Seq::<char>::empty(), false) + flush(
            acc_after(u, Seq::<char>::empty(), false),
        ) + seq![seq![c]] + split_rest(v, Seq::<char>::empty(), false),
{
    lemma_split_decompose(u, seq![c] + v, Seq::<char>::empty(), false);
    assert(u + seq![c] + v =~= u + (seq![c] + v));
    assert((seq![c] + v)[0] == c);
    assert((seq![c] + v).drop_first() =~= v);
    let a = acc_after(u, Seq::<char>::empty(), false);
    assert(split_rest(seq![c] + v, a, false) == flush(a) + seq![seq![c]] + split_rest(
        v,
        Seq::<char>::empty(),
        false,
    ));
    assert(emitted(u, Seq::<char>::empty(), false) + (flush(a) + seq![seq![c]] + split_rest(
        v,
        Seq::<char>::empty(),
        false,
    )) =~= emitted(u, Seq::<char>::empty(), false) + flush(a) + seq![seq![c]] + split_rest(
        v,
        Seq::<char>::empty(),
        false,
    ));
}

/// Comment truncation: a line whose token strings are `[a, b, /, /, c, d]`,
/// with `b` not itself `/` (so that the pair shown is the first one), keeps
/// exactly `[a, b]`.
pub proof fn lemma_comment_pair_truncates(a: Seq<char>, b: Seq<char>, c: Seq<char>, d: Seq<char>)
    requires
        b != slash_token(),
    ensures
        strip_comment(seq![a, b, slash_token(), slash_token(), c, d]) == seq![a, b],
{
    let ts = seq![a, b, slash_token(), slash_token(), c, d];
    assert(comment_pair_at(ts, 2));
    assert forall|k: int| 0 <= k < 2 implies !comment_pair_at(ts, k) by {
        assert(ts[1] == b);
    }
    lemma_strip_at_first_pair(ts, 2);
    assert(ts.take(2) =~= seq![a, b]);
}

/// The output is grouped by ascending line, and within each line group the
/// positions are exactly 0, 1, 2, ... in emission order.
pub open spec fn well_ordered(ts: Seq<TokenModel>) -> bool {
    &&& forall|a: int, b: int|
        0 <= a < b < ts.len() ==> (#[trigger] ts[a]).line <= (#[trigger] ts[b]).line
    &&& forall|a: int|
        0 <= a < ts.len() && (a == 0 || (#[trigger] ts[a]).line != ts[a - 1].line)
            ==> ts[a].token_number == 0
    &&& forall|a: int|
        0 < a < ts.len() && (#[trigger] ts[a]).line == ts[a - 1].line ==> ts[a].token_number == ts[
            a - 1
        ].token_number + 1
}

/// Every flattened prefix is well ordered, and all its tokens come from
/// lines before `n`.
proof fn lemma_flatten_prefix_ordered(table: Seq<Seq<Seq<char>>>, n: int)
    requires
        0 <= n <= table.len(),
    ensures
        well_ordered(flatten_prefix(table, n)),
        forall|a: int|
            0 <= a < flatten_prefix(table, n).len() ==> (#[trigger] flatten_prefix(table, n)[
                a
            ]).line < n,
    decreases n,
{
    if n > 0 {
        lemma_flatten_prefix_ordered(table, n - 1);
        let pre = flatten_prefix(table, n - 1);
        let row = line_token_models(table[n - 1], (n - 1) as nat);
        let all = flatten_prefix(table, n);
        assert(all == pre + row);
        assert forall|j: int| 0 <= j < row.len() implies (#[trigger] row[j]).line == n - 1
            && row[j].token_number == j by {
        }
        assert forall|a: int, b: int| 0 <= a < b < all.len() implies (#[trigger] all[a]).line <= (
        #[trigger] all[b]).line by {
            if b < pre.len() {
                assert(all[a] == pre[a] && all[b] == pre[b]);
            } else if a < pre.len() {
                assert(all[a] == pre[a] && all[b] == row[b - pre.len()]);
                assert(pre[a].line < n - 1);
            } else {
                assert(all[a] == row[a - pre.len()] && all[b] == row[b - pre.len()]);
            }
        }
        assert forall|a: int|
            0 <= a < all.len() && (a == 0 || (#[trigger] all[a]).line != all[a - 1].line) implies all[
            a].token_number == 0 by {
            if a < pre.len() {
                assert(all[a] == pre[a]);
                if a > 0 {
                    assert(all[a - 1] == pre[a - 1]);
                }
            } else if a == pre.len() {
                assert(all[a] == row[0]);
            } else {
                assert(all[a] == row[a - pre.len()] && all[a - 1] == row[a - 1 - pre.len()]);
            }
        }
        assert forall|a: int|
            0 < a < all.len() && (#[trigger] all[a]).line == all[a - 1].line implies all[
            a].token_number == all[a - 1].token_number + 1 by {
            if a < pre.len() {
                assert(all[a] == pre[a] && all[a - 1] == pre[a - 1]);
            } else if a == pre.len() {
                assert(all[a] == row[0] && all[a - 1] == pre[a - 1]);
                assert(pre[a - 1].line < n - 1);
            } else {
                assert(all[a] == row[a - pre.len()] && all[a - 1] == row[a - 1 - pre.len()]);
            }
        }
    }
}

/// Ordering: the whole scanner's output is grouped by ascending line, the
/// positions within each line are exactly 0, 1, 2, ... in emission order,
/// and every token names a line of the input.
pub proof fn lemma_tokenize_ordered(lines: Seq<Seq<char>>)
    ensures
        well_ordered(tokenize_spec(lines)),
        forall|a: int|
            0 <= a < tokenize_spec(lines).len() ==> (#[trigger] tokenize_spec(lines)[a]).line
                < lines.len(),
{
    let table = results_table(lines);
    lemma_flatten_prefix_ordered(table, table.len() as int);
}

} // verus!
