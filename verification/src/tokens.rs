//! A model of a token stream: identifiers, punctuation, literals and
//! delimited groups, each with a reference to where it came from.

use vstd::prelude::*;

verus! {

/// Where a token came from: the macro's call site, or the token of the input
/// with the given number.
#[derive(Clone, Copy, Debug, PartialEq, Eq, Structural)]
pub enum SpanRef {
    CallSite,
    Input(u64),
}

/// The delimiter of a group: `( )`, `{ }`, `[ ]`, or an invisible one.
#[derive(Clone, Copy, Debug, PartialEq, Eq, Structural)]
pub enum Delim {
    Parenthesis,
    Brace,
    Bracket,
    Invisible,
}

/// One token tree. `joint` tells whether a punctuation character is
/// immediately followed by another one.
#[derive(Debug, PartialEq, Eq)]
pub enum Token {
    Ident { text: String, span: SpanRef },
    Punct { ch: char, joint: bool, span: SpanRef },
    Literal { text: String, span: SpanRef },
    Group { delim: Delim, stream: Vec<Token>, span: SpanRef },
}

/// The mathematical value of a token tree.
pub enum TokenView {
    Ident { text: Seq<char>, span: SpanRef },
    Punct { ch: char, joint: bool, span: SpanRef },
    Literal { text: Seq<char>, span: SpanRef },
    Group { delim: Delim, stream: Seq<TokenView>, span: SpanRef },
}

/// The value of one token tree.
pub open spec fn token_view(t: Token) -> TokenView
    decreases t,
{
    match t {
        Token::Ident { text, span } => TokenView::Ident { text: text@, span },
        Token::Punct { ch, joint, span } => TokenView::Punct { ch, joint, span },
        Token::Literal { text, span } => TokenView::Literal { text: text@, span },
        Token::Group { delim, stream, span } => TokenView::Group {
            delim,
            stream: tokens_view(stream@),
            span,
        },
    }
}

/// The value of a sequence of token trees.
pub open spec fn tokens_view(s: Seq<Token>) -> Seq<TokenView>
    decreases s,
{
    if s.len() == 0 {
        Seq::empty()
    } else {
        tokens_view(s.drop_last()).push(token_view(s[s.len() - 1]))
    }
}

pub proof fn lemma_tokens_view_len(s: Seq<Token>)
    ensures
        tokens_view(s).len() == s.len(),
    decreases s.len(),
{
    if s.len() > 0 {
        lemma_tokens_view_len(s.drop_last());
    }
}

pub proof fn lemma_tokens_view_index(s: Seq<Token>, i: int)
    requires
        0 <= i < s.len(),
    ensures
        tokens_view(s)[i] == token_view(s[i]),
    decreases s.len(),
{
    lemma_tokens_view_len(s.drop_last());
    if i < s.len() - 1 {
        lemma_tokens_view_index(s.drop_last(), i);
    }
}

pub proof fn lemma_tokens_view_push(s: Seq<Token>, t: Token)
    ensures
        tokens_view(s.push(t)) == tokens_view(s).push(token_view(t)),
{
    assert(s.push(t).drop_last() =~= s);
}

pub proof fn lemma_tokens_view_concat(a: Seq<Token>, b: Seq<Token>)
    ensures
        tokens_view(a + b) == tokens_view(a) + tokens_view(b),
    decreases b.len(),
{
    if b.len() == 0 {
        assert(a + b =~= a);
        assert(tokens_view(a) + tokens_view(b) =~= tokens_view(a));
    } else {
        lemma_tokens_view_concat(a, b.drop_last());
        assert((a + b).drop_last() =~= a + b.drop_last());
        assert((tokens_view(a) + tokens_view(b.drop_last())).push(token_view(b[b.len() - 1]))
            =~= tokens_view(a) + tokens_view(b.drop_last()).push(token_view(b[b.len() - 1])));
    }
}

/// `t` starts with an ASCII digit, as every integer literal does.
pub open spec fn starts_with_digit(t: Seq<char>) -> bool {
    t.len() > 0 && '0' <= t[0] <= '9'
}

/// `t` starts with an ASCII digit, or with `-` and an ASCII digit: the
/// literal texts that syn reads as numbers.
pub open spec fn number_like(t: Seq<char>) -> bool {
    starts_with_digit(t) || (t.len() > 1 && t[0] == '-' && starts_with_digit(t.drop_first()))
}

/// A literal text that syn's `Lit::new` classifies by its first characters:
/// a string or raw string, a byte string, a byte, a character, or a number.
/// On any other literal, such as a C string `c"a"`, it panics.
pub open spec fn known_literal(t: Seq<char>) -> bool {
    ||| number_like(t)
    ||| t.len() > 0 && (t[0] == '"' || t[0] == 'r' || t[0] == '\'')
    ||| t.len() > 1 && t[0] == 'b' && (t[1] == '"' || t[1] == 'r' || t[1] == '\'')
}

/// Every literal in the token tree, at any depth, is a known literal.
pub open spec fn token_literals_known(t: TokenView) -> bool
    decreases t,
{
    match t {
        TokenView::Literal { text, .. } => known_literal(text),
        TokenView::Group { stream, .. } => literals_known(stream),
        _ => true,
    }
}

/// Every literal in the token trees, at any depth, is a known literal.
pub open spec fn literals_known(ts: Seq<TokenView>) -> bool
    decreases ts,
{
    if ts.len() == 0 {
        true
    } else {
        literals_known(ts.drop_last()) && token_literals_known(ts[ts.len() - 1])
    }
}

/// Whether the text looks like a number.
pub fn number_like_text(t: &String) -> (b: bool)
    ensures
        b == number_like(t@),
{
    let s = t.as_str();
    let n = s.unicode_len();
    if n == 0 {
        return false;
    }
    let c = s.get_char(0);
    if '0' <= c && c <= '9' {
        return true;
    }
    if c != '-' || n < 2 {
        return false;
    }
    let d = s.get_char(1);
    assert(t@.drop_first()[0] == t@[1]);
    '0' <= d && d <= '9'
}

/// Whether the text is a known literal.
pub fn known_literal_text(t: &String) -> (b: bool)
    ensures
        b == known_literal(t@),
{
    if number_like_text(t) {
        return true;
    }
    let s = t.as_str();
    let n = s.unicode_len();
    if n == 0 {
        return false;
    }
    let c = s.get_char(0);
    if c == '"' || c == 'r' || c == '\'' {
        return true;
    }
    if c != 'b' || n < 2 {
        return false;
    }
    let d = s.get_char(1);
    d == '"' || d == 'r' || d == '\''
}

/// Whether every literal in the token tree is a known literal.
pub fn token_literals_known_exec(t: &Token) -> (b: bool)
    ensures
        b == token_literals_known(token_view(*t)),
    decreases t,
{
    match t {
        Token::Literal { text, .. } => known_literal_text(text),
        Token::Group { stream, .. } => all_literals_known(stream),
        _ => true,
    }
}

/// Whether every literal in the token trees is a known literal.
pub fn all_literals_known(ts: &Vec<Token>) -> (b: bool)
    ensures
        b == literals_known(tokens_view(ts@)),
    decreases ts,
{
    let mut ok = true;
    let mut i: usize = 0;
    assert(ts@.take(0) =~= Seq::<Token>::empty());
    while i < ts.len()
        invariant
            0 <= i <= ts.len(),
            ok == literals_known(tokens_view(ts@.take(i as int))),
        decreases ts.len() - i,
    {
        assert(decreases_to!(ts => ts@[i as int]));
        let here = token_literals_known_exec(&ts[i]);
        proof {
            assert(ts@.take(i + 1) =~= ts@.take(i as int).push(ts@[i as int]));
            lemma_tokens_view_push(ts@.take(i as int), ts@[i as int]);
            let v = tokens_view(ts@.take(i as int)).push(token_view(ts@[i as int]));
            assert(v.drop_last() =~= tokens_view(ts@.take(i as int)));
        }
        ok = ok && here;
        i += 1;
    }
    assert(ts@.take(ts.len() as int) =~= ts@);
    ok
}

/// A token tree with the same value.
pub fn copy_token(t: &Token) -> (r: Token)
    ensures
        token_view(r) == token_view(*t),
    decreases t,
{
    match t {
        Token::Ident { text, span } => Token::Ident { text: text.clone(), span: *span },
        Token::Punct { ch, joint, span } => Token::Punct { ch: *ch, joint: *joint, span: *span },
        Token::Literal { text, span } => Token::Literal { text: text.clone(), span: *span },
        Token::Group { delim, stream, span } => Token::Group {
            delim: *delim,
            stream: copy_tokens(stream),
            span: *span,
        },
    }
}

/// Token trees with the same value.
pub fn copy_tokens(ts: &Vec<Token>) -> (r: Vec<Token>)
    ensures
        tokens_view(r@) == tokens_view(ts@),
    decreases ts,
{
    let mut out: Vec<Token> = Vec::new();
    let mut i: usize = 0;
    while i < ts.len()
        invariant
            0 <= i <= ts.len(),
            tokens_view(out@) == tokens_view(ts@.take(i as int)),
        decreases ts.len() - i,
    {
        assert(decreases_to!(ts => ts@[i as int]));
        let t = copy_token(&ts[i]);
        proof {
            lemma_tokens_view_push(out@, t);
            assert(ts@.take(i + 1).drop_last() =~= ts@.take(i as int));
        }
        out.push(t);
        i += 1;
    }
    assert(ts@.take(ts.len() as int) =~= ts@);
    out
}

#[verifier::external_type_specification]
#[verifier::external_body]
pub struct ExTokenStream(proc_macro2::TokenStream);

#[verifier::external_type_specification]
#[verifier::external_body]
pub struct ExTokenTree(proc_macro2::TokenTree);

#[verifier::external_type_specification]
#[verifier::external_body]
pub struct ExDelimiter(proc_macro2::Delimiter);

/// Names `proc_macro2::Delimiter` by the library's `Delim`, one for one.
#[verifier::external_body]
fn delim_of(d: proc_macro2::Delimiter) -> Delim {
    match d {
        proc_macro2::Delimiter::Parenthesis => Delim::Parenthesis,
        proc_macro2::Delimiter::Brace => Delim::Brace,
        proc_macro2::Delimiter::Bracket => Delim::Bracket,
        proc_macro2::Delimiter::None => Delim::Invisible,
    }
}

/// Reads one `proc_macro2::TokenTree` (its `to_string`, `as_char`,
/// `spacing`, `delimiter` and `stream`) into a token, keeping the tree at the
/// end of `trees` under the number its span refers to. No contract: it only
/// converts.
#[verifier::external_body]
fn token_of(tt: proc_macro2::TokenTree, trees: &mut Vec<proc_macro2::TokenTree>) -> Token {
    let span = SpanRef::Input(trees.len() as u64);
    trees.push(tt.clone());
    match tt {
        proc_macro2::TokenTree::Ident(i) => Token::Ident { text: i.to_string(), span },
        proc_macro2::TokenTree::Punct(p) => {
            let joint = p.spacing() == proc_macro2::Spacing::Joint;
            Token::Punct { ch: p.as_char(), joint, span }
        },
        proc_macro2::TokenTree::Literal(l) => Token::Literal { text: l.to_string(), span },
        proc_macro2::TokenTree::Group(g) => {
            Token::Group { delim: delim_of(g.delimiter()), stream: model_of(g.stream(), trees), span }
        },
    }
}

/// Reads a `proc_macro2::TokenStream`, by its `IntoIterator`, token by token.
/// No contract: it only converts.
#[verifier::external_body]
pub(crate) fn model_of(stream: proc_macro2::TokenStream, trees: &mut Vec<proc_macro2::TokenTree>) -> Vec<Token> {
    let mut out = Vec::new();
    for tt in stream {
        out.push(token_of(tt, trees));
    }
    out
}

/// The tokens of a macro's input: the stream itself, its model, and each
/// token tree of the stream under the number that its model's span carries.
/// Its fields are private to the crate, and only `from_stream` makes one, so
/// that the model is that of the stream.
pub struct TokenInput {
    pub(crate) stream: proc_macro2::TokenStream,
    pub(crate) trees: Vec<proc_macro2::TokenTree>,
    pub(crate) tokens: Vec<Token>,
}

impl View for TokenInput {
    type V = Seq<TokenView>;

    closed spec fn view(&self) -> Seq<TokenView> {
        tokens_view(self.tokens@)
    }
}

impl TokenInput {
    /// Reads a token stream into the model. Trusted, through `model_of`: the
    /// model holds the stream's tokens, in order, with their texts,
    /// characters, spacing and delimiters.
    #[verifier::external_body]
    pub fn from_stream(stream: proc_macro2::TokenStream) -> TokenInput {
        let mut trees = Vec::new();
        let tokens = model_of(stream.clone(), &mut trees);
        TokenInput { stream, trees, tokens }
    }

    /// Whether every literal of the input is a known literal.
    pub fn has_known_literals(&self) -> (b: bool)
        ensures
            b == literals_known(self@),
    {
        all_literals_known(&self.tokens)
    }

    /// The model of the tokens.
    pub fn tokens(&self) -> (r: &Vec<Token>)
        ensures
            tokens_view(r@) == self@,
    {
        &self.tokens
    }

    /// The token trees of the input, each under the number its model carries.
    pub fn trees(&self) -> &Vec<proc_macro2::TokenTree> {
        &self.trees
    }
}

} // verus!
