//! The token record and its mathematical model.

use vstd::prelude::*;

verus! {

/// One lexical token: the recognized text, the zero-based index of the
/// source line it came from, and its zero-based position among the tokens
/// of that line.
#[derive(Debug, Clone)]
pub struct Token {
    /// The token itself, for example `let`.
    pub token: String,
    /// Which line it is at.
    pub line: usize,
    /// Which token in the line this is.
    pub token_number: usize,
}

/// The model of a [`Token`]: the same three fields, over `Seq<char>`
/// and `nat`.
pub ghost struct TokenModel {
    pub text: Seq<char>,
    pub line: nat,
    pub token_number: nat,
}

impl View for Token {
    type V = TokenModel;

    open spec fn view(&self) -> TokenModel {
        TokenModel { text: self.token@, line: self.line as nat, token_number: self.token_number as nat }
    }
}

/// The views of a sequence of strings.
pub open spec fn strings_view(ss: Seq<String>) -> Seq<Seq<char>> {
    ss.map_values(|s: String| s@)
}

/// The models of a sequence of tokens.
pub open spec fn token_models(ts: Seq<Token>) -> Seq<TokenModel> {
    ts.map_values(|t: Token| t@)
}

/// Mapping to views commutes with appending one string.
pub proof fn lemma_strings_view_push(ss: Seq<String>, s: String)
    ensures
        strings_view(ss.push(s)) == strings_view(ss) + seq![s@],
{
    assert(strings_view(ss.push(s)) =~= strings_view(ss) + seq![s@]);
}

/// Mapping to views commutes with truncation.
pub proof fn lemma_strings_view_take(ss: Seq<String>, n: int)
    requires
        0 <= n <= ss.len(),
    ensures
        strings_view(ss.take(n)) == strings_view(ss).take(n),
{
    assert(strings_view(ss.take(n)) =~= strings_view(ss).take(n));
}

/// Mapping to models commutes with appending one token.
pub proof fn lemma_token_models_push(ts: Seq<Token>, t: Token)
    ensures
        token_models(ts.push(t)) == token_models(ts) + seq![t@],
{
    assert(token_models(ts.push(t)) =~= token_models(ts) + seq![t@]);
}

} // verus!
