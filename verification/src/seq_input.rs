//! The input of `seq!`: `N in START..END { BODY }` or `N in START..=END {
//! BODY }`, its parser, and the expansion it asks for.

use vstd::prelude::*;
use crate::tokens::{
    number_like, number_like_text, starts_with_digit, copy_token, copy_tokens, lemma_tokens_view_concat, lemma_tokens_view_index,
    lemma_tokens_view_len, lemma_tokens_view_push, tokens_view, token_view, Delim, SpanRef, Token,
    TokenView,
};
use crate::expansion::{
    expand_all, expand_sections, has_section, has_section_view, is_punct_char,
    lemma_whole_block_is_one_section, range_end, repeat_view, sections_view, starts_with_section,
};

verus! {

/// Whether syn's `Ident` parser accepts `text`: every identifier but the
/// keywords and `_`.
pub uninterp spec fn syn_accepts_ident(text: Seq<char>) -> bool;

/// Whether syn's `LitInt` parser accepts `text` (an integer literal,
/// possibly negative).
pub uninterp spec fn syn_parses_lit_int(text: Seq<char>) -> bool;

/// The value that syn's `LitInt::base10_parse::<usize>` gives for the integer
/// literal `text`, or `None` where parsing fails.
pub uninterp spec fn syn_lit_int_usize(text: Seq<char>) -> Option<usize>;

/// Calls `syn::parse_str::<syn::Ident>`. Trusted: the answer is
/// `syn_accepts_ident(text)`, a function of the text alone.
#[verifier::external_body]
fn accepts_as_ident(text: &str) -> (b: bool)
    ensures
        b == syn_accepts_ident(text@),
{
    syn::parse_str::<syn::Ident>(text).is_ok()
}

/// Calls `syn::parse_str::<syn::LitInt>`. Trusted: the answer is
/// `syn_parses_lit_int(text)`, a function of the text alone. The text must
/// look like a number: syn panics on a literal it does not recognise, such
/// as `c"a"`.
#[verifier::external_body]
fn parses_as_lit_int(text: &str) -> (b: bool)
    requires
        number_like(text@),
    ensures
        b == syn_parses_lit_int(text@),
{
    syn::parse_str::<syn::LitInt>(text).is_ok()
}

/// Calls `syn::parse_str::<syn::LitInt>` and then `LitInt::base10_parse::<usize>`
/// on the literal. Trusted: the answer is `syn_lit_int_usize(text)`, a
/// function of the text alone. The text must look like a number, as for
/// `parses_as_lit_int`.
#[verifier::external_body]
fn lit_int_usize(text: &str) -> (r: Option<usize>)
    requires
        number_like(text@),
    ensures
        r == syn_lit_int_usize(text@),
{
    match syn::parse_str::<syn::LitInt>(text) {
        Ok(lit) => lit.base10_parse::<usize>().ok(),
        Err(_) => None,
    }
}

/// Why the input of `seq!` was refused, with the place of the token where
/// parsing stopped (`None` at the end of the input).
#[derive(Debug, PartialEq, Eq)]
pub enum SeqParseError {
    ExpectedIdent(Option<SpanRef>),
    ExpectedIn(Option<SpanRef>),
    ExpectedLitInt(Option<SpanRef>),
    ExpectedDotDot(Option<SpanRef>),
    ExpectedBraces(Option<SpanRef>),
    UnexpectedToken(SpanRef),
}

/// The parsed input of `seq!`.
pub struct SeqInput {
    name: String,
    start: String,
    end: String,
    stmts: Vec<Token>,
    has_section: bool,
    inclusive: bool,
}

/// What a `SeqInput` holds: the variable's name, the texts of the two
/// bounds, the body, whether the body holds a section, and whether the range
/// includes its end.
pub struct SeqInputView {
    pub name: Seq<char>,
    pub start: Seq<char>,
    pub end: Seq<char>,
    pub stmts: Seq<TokenView>,
    pub has_section: bool,
    pub inclusive: bool,
}

impl View for SeqInput {
    type V = SeqInputView;

    closed spec fn view(&self) -> SeqInputView {
        SeqInputView {
            name: self.name@,
            start: self.start@,
            end: self.end@,
            stmts: tokens_view(self.stmts@),
            has_section: self.has_section,
            inclusive: self.inclusive,
        }
    }
}

/// The place of a token.
pub open spec fn span_of(t: TokenView) -> SpanRef {
    match t {
        TokenView::Ident { span, .. } => span,
        TokenView::Punct { span, .. } => span,
        TokenView::Literal { span, .. } => span,
        TokenView::Group { span, .. } => span,
    }
}

/// The place of the token at `p`, or `None` past the end.
pub open spec fn span_at(f: Seq<TokenView>, p: int) -> Option<SpanRef> {
    if 0 <= p < f.len() {
        Some(span_of(f[p]))
    } else {
        None
    }
}

/// The tokens with every invisible group opened, at any depth of invisible
/// groups: what syn's parser sees.
pub open spec fn flatten_view(ts: Seq<TokenView>) -> Seq<TokenView>
    decreases ts,
{
    if ts.len() == 0 {
        Seq::empty()
    } else if ts[0] matches TokenView::Group { delim: Delim::Invisible, .. } {
        flatten_view(ts[0]->Group_stream) + flatten_view(ts.skip(1))
    } else {
        seq![ts[0]] + flatten_view(ts.skip(1))
    }
}

/// At `p` stands an identifier that syn takes as one.
pub open spec fn ident_at(f: Seq<TokenView>, p: int, accepts: spec_fn(Seq<char>) -> bool) -> bool {
    0 <= p < f.len() && f[p] is Ident && accepts(f[p]->Ident_text)
}

/// At `p` stands the keyword `in`.
pub open spec fn in_at(f: Seq<TokenView>, p: int) -> bool {
    0 <= p < f.len() && f[p] is Ident && f[p]->Ident_text == seq!['i', 'n']
}

/// The integer literal at `p` as syn reads it: its text and how many tokens
/// it takes (a literal, or a `-` and a literal). A literal whose text does
/// not look like a number (a digit, or `-` and a digit, first) is no integer
/// literal; after a `-`, the literal must start with a digit.
pub open spec fn lit_int_at(f: Seq<TokenView>, p: int, is_int: spec_fn(Seq<char>) -> bool) -> Option<
    (Seq<char>, int),
> {
    if 0 <= p < f.len() && f[p] is Literal {
        if number_like(f[p]->Literal_text) && is_int(f[p]->Literal_text) {
            Some((f[p]->Literal_text, 1))
        } else {
            None
        }
    } else if 0 <= p && p + 1 < f.len() && is_punct_char(f[p], '-') && f[p + 1] is Literal
        && starts_with_digit(f[p + 1]->Literal_text) && is_int(seq!['-'] + f[p + 1]->Literal_text) {
        Some((seq!['-'] + f[p + 1]->Literal_text, 2))
    } else {
        None
    }
}

/// At `p` stands the punctuation character `c`, joined to the next one.
pub open spec fn joint_punct_at(f: Seq<TokenView>, p: int, c: char) -> bool {
    0 <= p < f.len() && is_punct_char(f[p], c) && f[p]->Punct_joint
}

/// The range operator at `p`: whether it is `..=`, and how many tokens it
/// takes.
pub open spec fn dots_at(f: Seq<TokenView>, p: int) -> Option<(bool, int)> {
    if joint_punct_at(f, p, '.') && joint_punct_at(f, p + 1, '.') && p + 2 < f.len()
        && is_punct_char(f[p + 2], '=') {
        Some((true, 3))
    } else if joint_punct_at(f, p, '.') && p + 1 < f.len() && is_punct_char(f[p + 1], '.') {
        Some((false, 2))
    } else {
        None
    }
}

/// The parse of `N in START..END { BODY }` (or `..=`) from the front of `f`,
/// with the number of tokens it takes.
pub open spec fn parse_spec(f: Seq<TokenView>) -> Result<(SeqInputView, int), SeqParseError> {
    parse_spec_with(f, syn_ident_answer(), syn_int_answer())
}

/// What syn answers whether a text is an identifier.
pub open spec fn syn_ident_answer() -> spec_fn(Seq<char>) -> bool {
    |t: Seq<char>| syn_accepts_ident(t)
}

/// What syn answers whether a text is an integer literal.
pub open spec fn syn_int_answer() -> spec_fn(Seq<char>) -> bool {
    |t: Seq<char>| syn_parses_lit_int(t)
}

/// The parse of `N in START..END { BODY }` (or `..=`) from the front of `f`,
/// with the number of tokens it takes, where `accepts` tells which texts are
/// identifiers and `is_int` which are integer literals.
pub open spec fn parse_spec_with(
    f: Seq<TokenView>,
    accepts: spec_fn(Seq<char>) -> bool,
    is_int: spec_fn(Seq<char>) -> bool,
) -> Result<(SeqInputView, int), SeqParseError> {
    if !ident_at(f, 0, accepts) {
        Err(SeqParseError::ExpectedIdent(span_at(f, 0)))
    } else if !in_at(f, 1) {
        Err(SeqParseError::ExpectedIn(span_at(f, 1)))
    } else {
        match lit_int_at(f, 2, is_int) {
            None => Err(SeqParseError::ExpectedLitInt(span_at(f, 2))),
            Some((start, n1)) => {
                let p = 2 + n1;
                match dots_at(f, p) {
                    None => Err(SeqParseError::ExpectedDotDot(span_at(f, p))),
                    Some((inclusive, n2)) => {
                        let q = p + n2;
                        match lit_int_at(f, q, is_int) {
                            None => Err(SeqParseError::ExpectedLitInt(span_at(f, q))),
                            Some((end, n3)) => {
                                let r = q + n3;
                                if r < f.len() && f[r] matches TokenView::Group {
                                    delim: Delim::Brace,
                                    ..
                                } {
                                    Ok(
                                        (
                                            SeqInputView {
                                                name: f[0]->Ident_text,
                                                start,
                                                end,
                                                stmts: f[r]->Group_stream,
                                                has_section: has_section_view(f[r]->Group_stream),
                                                inclusive,
                                            },
                                            r + 1,
                                        ),
                                    )
                                } else {
                                    Err(SeqParseError::ExpectedBraces(span_at(f, r)))
                                }
                            },
                        }
                    },
                }
            },
        }
    }
}

/// The expansion that a parsed input asks for, where both bounds have a
/// value: the sections of the body repeated when it has one, else the whole
/// body repeated.
pub open spec fn body_view(v: SeqInputView) -> Seq<TokenView> {
    let lo = syn_lit_int_usize(v.start).unwrap() as int;
    let hi = range_end(syn_lit_int_usize(v.end).unwrap(), v.inclusive);
    if v.has_section {
        sections_view(v.stmts, v.name, lo, hi)
    } else {
        repeat_view(v.stmts, v.name, lo, hi)
    }
}

/// Both bounds of a parsed input have a value as a `usize`.
pub open spec fn bounds_fit(v: SeqInputView) -> bool {
    syn_lit_int_usize(v.start) is Some && syn_lit_int_usize(v.end) is Some
}

/// What `seq!` makes of its whole input: the parse error, or the parsed
/// input, refused with `UnexpectedToken` where tokens are left after it.
pub open spec fn seq_spec(input: Seq<TokenView>) -> Result<SeqInputView, SeqParseError> {
    let f = flatten_view(input);
    match parse_spec(f) {
        Err(e) => Err(e),
        Ok((v, k)) => if k < f.len() {
            Err(SeqParseError::UnexpectedToken(span_of(f[k])))
        } else {
            Ok(v)
        },
    }
}

/// The place of a token.
pub fn token_span(t: &Token) -> (s: SpanRef)
    ensures
        s == span_of(token_view(*t)),
{
    match t {
        Token::Ident { span, .. } => *span,
        Token::Punct { span, .. } => *span,
        Token::Literal { span, .. } => *span,
        Token::Group { span, .. } => *span,
    }
}

/// The tokens with every invisible group opened, as syn's parser sees them.
pub fn flatten_invisible(ts: &Vec<Token>) -> (r: Vec<Token>)
    ensures
        tokens_view(r@) == flatten_view(tokens_view(ts@)),
    decreases ts,
{
    let ghost v = tokens_view(ts@);
    let mut out: Vec<Token> = Vec::new();
    let mut i: usize = 0;
    proof {
        lemma_tokens_view_len(ts@);
        assert(v.skip(0) =~= v);
    }
    while i < ts.len()
        invariant
            0 <= i <= ts.len(),
            v == tokens_view(ts@),
            v.len() == ts@.len(),
            tokens_view(out@) + flatten_view(v.skip(i as int)) == flatten_view(v),
        decreases ts.len() - i,
    {
        let ghost rest = v.skip(i as int);
        let ghost before = out@;
        proof {
            lemma_tokens_view_index(ts@, i as int);
            assert(rest[0] == v[i as int]);
            assert(rest.skip(1) =~= v.skip(i + 1));
        }
        match &ts[i] {
            Token::Group { delim: Delim::Invisible, stream, .. } => {
                assert(decreases_to!(ts => ts@[i as int]));
                let mut inner = flatten_invisible(stream);
                proof {
                    lemma_tokens_view_concat(out@, inner@);
                }
                out.append(&mut inner);
            },
            other => {
                let t = copy_token(other);
                out.push(t);
                proof {
                    lemma_tokens_view_push(before, t);
                }
            },
        }
        i += 1;
    }
    proof {
        assert(v.skip(i as int) =~= Seq::<TokenView>::empty());
        assert(tokens_view(out@) + Seq::<TokenView>::empty() =~= tokens_view(out@));
    }
    out
}

fn span_at_exec(f: &Vec<Token>, p: usize) -> (r: Option<SpanRef>)
    ensures
        r == span_at(tokens_view(f@), p as int),
{
    proof {
        lemma_tokens_view_len(f@);
    }
    if p < f.len() {
        proof {
            lemma_tokens_view_index(f@, p as int);
        }
        Some(token_span(&f[p]))
    } else {
        None
    }
}

fn punct_at_exec(f: &Vec<Token>, p: usize, c: char) -> (r: bool)
    ensures
        r == (p < f.len() && is_punct_char(tokens_view(f@)[p as int], c)),
{
    proof {
        lemma_tokens_view_len(f@);
    }
    if p < f.len() {
        proof {
            lemma_tokens_view_index(f@, p as int);
        }
        match &f[p] {
            Token::Punct { ch, .. } => *ch == c,
            _ => false,
        }
    } else {
        false
    }
}

fn joint_punct_at_exec(f: &Vec<Token>, p: usize, c: char) -> (r: bool)
    ensures
        r == joint_punct_at(tokens_view(f@), p as int, c),
{
    proof {
        lemma_tokens_view_len(f@);
    }
    if p < f.len() {
        proof {
            lemma_tokens_view_index(f@, p as int);
        }
        match &f[p] {
            Token::Punct { ch, joint, .. } => *ch == c && *joint,
            _ => false,
        }
    } else {
        false
    }
}

fn digit_first(t: &String) -> (b: bool)
    ensures
        b == starts_with_digit(t@),
{
    let s = t.as_str();
    if s.unicode_len() == 0 {
        false
    } else {
        let c = s.get_char(0);
        '0' <= c && c <= '9'
    }
}

/// Answers to the two questions the parser asks syn, given in advance: the
/// texts that are identifiers, and the texts that are integer literals.
pub struct ParseAnswers {
    pub idents: Vec<String>,
    pub int_literals: Vec<String>,
}

/// The texts of a list of strings.
pub open spec fn texts_of(v: Seq<String>) -> Seq<Seq<char>> {
    v.map_values(|s: String| s@)
}

/// Which texts are identifiers: as given, or as syn answers.
pub open spec fn ident_answer(answers: Option<&ParseAnswers>) -> spec_fn(Seq<char>) -> bool {
    match answers {
        Some(a) => |t: Seq<char>| texts_of(a.idents@).contains(t),
        None => syn_ident_answer(),
    }
}

/// Which texts are integer literals: as given, or as syn answers.
pub open spec fn int_answer(answers: Option<&ParseAnswers>) -> spec_fn(Seq<char>) -> bool {
    match answers {
        Some(a) => |t: Seq<char>| texts_of(a.int_literals@).contains(t),
        None => syn_int_answer(),
    }
}

fn listed(v: &Vec<String>, t: &String) -> (b: bool)
    ensures
        b == texts_of(v@).contains(t@),
{
    let ghost tv = texts_of(v@);
    let mut k: usize = 0;
    while k < v.len()
        invariant
            0 <= k <= v.len(),
            tv == texts_of(v@),
            tv.len() == v.len(),
            forall|m: int| 0 <= m < k ==> tv[m] != t@,
        decreases v.len() - k,
    {
        assert(tv[k as int] == v@[k as int]@);
        if v[k] == *t {
            return true;
        }
        k += 1;
    }
    false
}

fn is_ident_text(t: &String, answers: Option<&ParseAnswers>) -> (b: bool)
    ensures
        b == (ident_answer(answers))(t@),
{
    match answers {
        Some(a) => listed(&a.idents, t),
        None => accepts_as_ident(t.as_str()),
    }
}

fn is_int_text(t: &String, answers: Option<&ParseAnswers>) -> (b: bool)
    requires
        number_like(t@),
    ensures
        b == (int_answer(answers))(t@),
{
    match answers {
        Some(a) => listed(&a.int_literals, t),
        None => parses_as_lit_int(t.as_str()),
    }
}

fn lit_int_at_exec(f: &Vec<Token>, p: usize, answers: Option<&ParseAnswers>) -> (r: Option<(String, usize)>)
    requires
        p < usize::MAX,
    ensures
        match lit_int_at(tokens_view(f@), p as int, int_answer(answers)) {
            None => r is None,
            Some((t, n)) => r matches Some((s, m)) && s@ == t && m == n && number_like(t),
        },
{
    let ghost fv = tokens_view(f@);
    proof {
        lemma_tokens_view_len(f@);
    }
    if p < f.len() {
        proof {
            lemma_tokens_view_index(f@, p as int);
        }
        match &f[p] {
            Token::Literal { text, .. } => {
                if number_like_text(text) && is_int_text(text, answers) {
                    return Some((text.clone(), 1));
                } else {
                    return None;
                }
            },
            _ => {},
        }
    }
    if punct_at_exec(f, p, '-') && p + 1 < f.len() {
        proof {
            lemma_tokens_view_index(f@, p + 1);
        }
        match &f[p + 1] {
            Token::Literal { text, .. } => {
                if !digit_first(text) {
                    return None;
                }
                let minus = "-";
                proof {
                    reveal_strlit("-");
                }
                let mut neg = minus.to_owned();
                neg.append(text.as_str());
                assert(neg@ == seq!['-'] + fv[p + 1]->Literal_text);
                assert(neg@.drop_first() =~= text@);
                if is_int_text(&neg, answers) {
                    return Some((neg, 2));
                }
            },
            _ => {},
        }
    }
    None
}

fn dots_at_exec(f: &Vec<Token>, p: usize) -> (r: Option<(bool, usize)>)
    requires
        p < usize::MAX - 2,
    ensures
        match dots_at(tokens_view(f@), p as int) {
            None => r is None,
            Some((incl, n)) => r matches Some((b, m)) && b == incl && m == n,
        },
{
    proof {
        lemma_tokens_view_len(f@);
    }
    if joint_punct_at_exec(f, p, '.') && joint_punct_at_exec(f, p + 1, '.') && punct_at_exec(
        f,
        p + 2,
        '=',
    ) {
        Some((true, 3))
    } else if joint_punct_at_exec(f, p, '.') && punct_at_exec(f, p + 1, '.') {
        Some((false, 2))
    } else {
        None
    }
}

/// Copies of the tokens of `f` from `k` on.
fn tokens_from(f: &Vec<Token>, k: usize) -> (r: Vec<Token>)
    requires
        k <= f.len(),
    ensures
        tokens_view(r@) == tokens_view(f@).skip(k as int),
{
    let ghost fv = tokens_view(f@);
    proof {
        lemma_tokens_view_len(f@);
    }
    let mut out: Vec<Token> = Vec::new();
    let mut i: usize = k;
    while i < f.len()
        invariant
            k <= i <= f.len(),
            fv == tokens_view(f@),
            fv.len() == f.len(),
            tokens_view(out@) == fv.subrange(k as int, i as int),
        decreases f.len() - i,
    {
        let t = copy_token(&f[i]);
        proof {
            lemma_tokens_view_push(out@, t);
            lemma_tokens_view_index(f@, i as int);
            assert(fv.subrange(k as int, i + 1) =~= fv.subrange(k as int, i as int).push(fv[i as int]));
        }
        out.push(t);
        i += 1;
    }
    assert(fv.subrange(k as int, i as int) =~= fv.skip(k as int));
    out
}

impl SeqInput {
    #[verifier::type_invariant]
    spec fn section_flag(self) -> bool {
        &&& self.has_section == has_section_view(tokens_view(self.stmts@))
        &&& number_like(self.start@)
        &&& number_like(self.end@)
    }

    /// Parses `N in START..END { BODY }` or `N in START..=END { BODY }` from
    /// the front of the input, seen with its invisible groups opened, and
    /// hands back the tokens that follow it.
    pub fn parse(input: &Vec<Token>) -> (r: Result<(SeqInput, Vec<Token>), SeqParseError>)
        ensures
            match parse_spec(flatten_view(tokens_view(input@))) {
                Err(e) => r == Err::<(SeqInput, Vec<Token>), SeqParseError>(e),
                Ok((v, k)) => r matches Ok((s, rest)) && s@ == v && tokens_view(rest@)
                    == flatten_view(tokens_view(input@)).skip(k),
            },
    {
        Self::parse_core(input, None)
    }

    /// `parse`, with the answers to which texts are identifiers and which are
    /// integer literals given in advance rather than asked of syn.
    pub fn parse_given(input: &Vec<Token>, answers: &ParseAnswers) -> (r: Result<
        (SeqInput, Vec<Token>),
        SeqParseError,
    >)
        ensures
            match parse_spec_with(
                flatten_view(tokens_view(input@)),
                ident_answer(Some(answers)),
                int_answer(Some(answers)),
            ) {
                Err(e) => r == Err::<(SeqInput, Vec<Token>), SeqParseError>(e),
                Ok((v, k)) => r matches Ok((s, rest)) && s@ == v && tokens_view(rest@)
                    == flatten_view(tokens_view(input@)).skip(k),
            },
    {
        Self::parse_core(input, Some(answers))
    }

    fn parse_core(input: &Vec<Token>, answers: Option<&ParseAnswers>) -> (r: Result<
        (SeqInput, Vec<Token>),
        SeqParseError,
    >)
        ensures
            match parse_spec_with(
                flatten_view(tokens_view(input@)),
                ident_answer(answers),
                int_answer(answers),
            ) {
                Err(e) => r == Err::<(SeqInput, Vec<Token>), SeqParseError>(e),
                Ok((v, k)) => r matches Ok((s, rest)) && s@ == v && tokens_view(rest@)
                    == flatten_view(tokens_view(input@)).skip(k),
            },
    {
        let f = flatten_invisible(input);
        let ghost fv = tokens_view(f@);
        proof {
            lemma_tokens_view_len(f@);
            reveal_strlit("in");
        }
        let name = if f.len() > 0 {
            proof {
                lemma_tokens_view_index(f@, 0);
            }
            match &f[0] {
                Token::Ident { text, .. } => {
                    if is_ident_text(text, answers) {
                        Some(text.clone())
                    } else {
                        None
                    }
                },
                _ => None,
            }
        } else {
            None
        };
        let name = match name {
            Some(n) => n,
            None => {
                return Err(SeqParseError::ExpectedIdent(span_at_exec(&f, 0)));
            },
        };
        let in_text = "in".to_owned();
        assert(in_text@ == seq!['i', 'n']);
        let keyword_in = if f.len() > 1 {
            proof {
                lemma_tokens_view_index(f@, 1);
            }
            match &f[1] {
                Token::Ident { text, .. } => *text == in_text,
                _ => false,
            }
        } else {
            false
        };
        if !keyword_in {
            return Err(SeqParseError::ExpectedIn(span_at_exec(&f, 1)));
        }
        let (start, n1) = match lit_int_at_exec(&f, 2, answers) {
            Some(x) => x,
            None => {
                return Err(SeqParseError::ExpectedLitInt(span_at_exec(&f, 2)));
            },
        };
        let p = 2 + n1;
        let (inclusive, n2) = match dots_at_exec(&f, p) {
            Some(x) => x,
            None => {
                return Err(SeqParseError::ExpectedDotDot(span_at_exec(&f, p)));
            },
        };
        let q = p + n2;
        let (end, n3) = match lit_int_at_exec(&f, q, answers) {
            Some(x) => x,
            None => {
                return Err(SeqParseError::ExpectedLitInt(span_at_exec(&f, q)));
            },
        };
        let r = q + n3;
        let stmts = if r < f.len() {
            proof {
                lemma_tokens_view_index(f@, r as int);
            }
            match &f[r] {
                Token::Group { delim: Delim::Brace, stream, .. } => Some(copy_tokens(stream)),
                _ => None,
            }
        } else {
            None
        };
        let stmts = match stmts {
            Some(s) => s,
            None => {
                return Err(SeqParseError::ExpectedBraces(span_at_exec(&f, r)));
            },
        };
        let has_section = has_section(&stmts);
        let rest = tokens_from(&f, r + 1);
        Ok((SeqInput { name, start, end, stmts, has_section, inclusive }, rest))
    }
}

impl SeqInput {
    /// The expansion: with a section in the body, the body with each section
    /// repeated over the range; without one, the whole body repeated over
    /// the range.
    pub fn body(&self) -> (r: Vec<Token>)
        requires
            bounds_fit(self@),
        ensures
            tokens_view(r@) == body_view(self@),
    {
        proof {
            use_type_invariant(self);
        }
        let start: usize = lit_int_usize(self.start.as_str()).unwrap();
        let end: usize = lit_int_usize(self.end.as_str()).unwrap();
        if self.has_section {
            expand_sections(&self.stmts, &self.name, start, end, self.inclusive)
        } else {
            expand_all(&self.stmts, &self.name, start, end, self.inclusive)
        }
    }

    /// The expansion where both bounds have a value as a `usize`, else `None`.
    pub fn try_body(&self) -> (r: Option<Vec<Token>>)
        ensures
            r is Some <==> bounds_fit(self@),
            r matches Some(out) ==> tokens_view(out@) == body_view(self@),
    {
        proof {
            use_type_invariant(self);
        }
        if lit_int_usize(self.start.as_str()).is_none() || lit_int_usize(self.end.as_str()).is_none() {
            None
        } else {
            Some(self.body())
        }
    }
}

/// `seq!` on its whole input: the parse error, where the input is refused;
/// else the expansion, or `None` where a bound has no value as a `usize`.
pub fn seq(input: &Vec<Token>) -> (r: Result<Option<Vec<Token>>, SeqParseError>)
    ensures
        match seq_spec(tokens_view(input@)) {
            Err(e) => r == Err::<Option<Vec<Token>>, SeqParseError>(e),
            Ok(v) => r matches Ok(o) && (o is Some <==> bounds_fit(v)) && (o matches Some(out)
                ==> tokens_view(out@) == body_view(v)),
        },
{
    let (parsed, rest) = match SeqInput::parse(input) {
        Ok(x) => x,
        Err(e) => {
            return Err(e);
        },
    };
    proof {
        lemma_tokens_view_len(rest@);
    }
    if rest.len() > 0 {
        proof {
            lemma_tokens_view_index(rest@, 0);
        }
        return Err(SeqParseError::UnexpectedToken(token_span(&rest[0])));
    }
    Ok(parsed.try_body())
}

/// The name is refused exactly when the first token is not an identifier
/// that syn (or the given answers) accept, whatever its length; where the
/// parse succeeds, the name is that identifier's text.
pub proof fn lemma_name_is_any_accepted_identifier(
    f: Seq<TokenView>,
    accepts: spec_fn(Seq<char>) -> bool,
    is_int: spec_fn(Seq<char>) -> bool,
)
    ensures
        (parse_spec_with(f, accepts, is_int) matches Err(SeqParseError::ExpectedIdent(_))) <==> !(
        f.len() > 0 && f[0] is Ident && accepts(f[0]->Ident_text)),
        parse_spec_with(f, accepts, is_int) matches Ok((v, _)) ==> f.len() > 0 && v.name
            == f[0]->Ident_text,
{
}

/// The input `pre { block }`: the tokens `pre`, then `block` in braces.
pub open spec fn braced(pre: Seq<TokenView>, block: Seq<TokenView>, span: SpanRef) -> Seq<TokenView> {
    pre.push(TokenView::Group { delim: Delim::Brace, stream: block, span })
}

proof fn lemma_flatten_push(s: Seq<TokenView>, t: TokenView)
    requires
        !(t matches TokenView::Group { delim: Delim::Invisible, .. }),
    ensures
        flatten_view(s.push(t)) == flatten_view(s).push(t),
    decreases s.len(),
{
    let st = s.push(t);
    if s.len() == 0 {
        assert(st.skip(1) =~= Seq::<TokenView>::empty());
        assert(st[0] == t);
        assert(flatten_view(st.skip(1)) == Seq::<TokenView>::empty());
        assert(flatten_view(st) =~= seq![t]);
    } else {
        assert(st[0] == s[0]);
        assert(st.skip(1) =~= s.skip(1).push(t));
        lemma_flatten_push(s.skip(1), t);
        assert(flatten_view(st) =~= flatten_view(s).push(t));
    }
}

/// `f` and `g` differ at most in the body of a last token that is a group
/// in braces with the same place in both.
spec fn differ_in_last_block(f: Seq<TokenView>, g: Seq<TokenView>) -> bool {
    &&& f.len() == g.len()
    &&& f.len() > 0
    &&& forall|i: int| 0 <= i < f.len() - 1 ==> f[i] == g[i]
    &&& f[f.len() - 1] matches TokenView::Group { delim: Delim::Brace, span: s1, .. }
    &&& g[g.len() - 1] matches TokenView::Group { delim: Delim::Brace, span: s2, .. }
    &&& s1 == s2
}

proof fn lemma_positions_agree(f: Seq<TokenView>, g: Seq<TokenView>, p: int, accepts: spec_fn(Seq<char>) -> bool, is_int: spec_fn(Seq<char>) -> bool)
    requires
        differ_in_last_block(f, g),
    ensures
        ident_at(f, p, accepts) == ident_at(g, p, accepts),
        in_at(f, p) == in_at(g, p),
        lit_int_at(f, p, is_int) == lit_int_at(g, p, is_int),
        dots_at(f, p) == dots_at(g, p),
        span_at(f, p) == span_at(g, p),
{
    let n = f.len() - 1;
    if 0 <= p < f.len() && p != n {
        assert(f[p] == g[p]);
    }
    if 0 <= p + 1 < f.len() && p + 1 != n {
        assert(f[p + 1] == g[p + 1]);
    }
    if 0 <= p + 2 < f.len() && p + 2 != n {
        assert(f[p + 2] == g[p + 2]);
    }
}

proof fn lemma_parse_differ_in_last_block(f: Seq<TokenView>, g: Seq<TokenView>)
    requires
        differ_in_last_block(f, g),
    ensures
        match (parse_spec(f), parse_spec(g)) {
            (Err(e1), Err(e2)) => e1 == e2,
            (Ok((v1, k1)), Ok((v2, k2))) => k1 == k2 && v1.name == v2.name && v1.start == v2.start
                && v1.end == v2.end && v1.inclusive == v2.inclusive && (k1 < f.len() ==> v1 == v2)
                && (k1 == f.len() ==> v1.stmts == f[f.len() - 1]->Group_stream && v2.stmts
                == g[g.len() - 1]->Group_stream),
            _ => false,
        },
{
    let acc = syn_ident_answer();
    let is_int = syn_int_answer();
    lemma_positions_agree(f, g, 0, acc, is_int);
    lemma_positions_agree(f, g, 1, acc, is_int);
    lemma_positions_agree(f, g, 2, acc, is_int);
    if let Some((start, n1)) = lit_int_at(f, 2, is_int) {
        let p = 2 + n1;
        lemma_positions_agree(f, g, p, acc, is_int);
        if let Some((inclusive, n2)) = dots_at(f, p) {
            let q = p + n2;
            lemma_positions_agree(f, g, q, acc, is_int);
            if let Some((end, n3)) = lit_int_at(f, q, is_int) {
                let r = q + n3;
                lemma_positions_agree(f, g, r, acc, is_int);
                if 0 <= r < f.len() - 1 {
                    assert(f[r] == g[r]);
                }
            }
        }
    }
}

/// A block without a section `# ( ... ) *` expands as if it were wrapped in
/// one: `seq!` on `pre { block }` gives what it gives on
/// `pre { # ( block ) * }`, the same error or the same expansion.
pub proof fn lemma_seq_block_as_one_section(
    pre: Seq<TokenView>,
    block: Seq<TokenView>,
    span: SpanRef,
    open: TokenView,
    close: TokenView,
    inner_span: SpanRef,
)
    requires
        !has_section_view(block),
        is_punct_char(open, '#'),
        is_punct_char(close, '*'),
    ensures
        match (
            seq_spec(braced(pre, block, span)),
            seq_spec(
                braced(
                    pre,
                    seq![open, TokenView::Group { delim: Delim::Parenthesis, stream: block, span: inner_span }, close],
                    span,
                ),
            ),
        ) {
            (Err(e1), Err(e2)) => e1 == e2,
            (Ok(v1), Ok(v2)) => bounds_fit(v1) == bounds_fit(v2) && (bounds_fit(v1) ==> body_view(v1)
                == body_view(v2)),
            _ => false,
        },
{
    let wrapped = seq![open, TokenView::Group { delim: Delim::Parenthesis, stream: block, span: inner_span }, close];
    let a = braced(pre, block, span);
    let b = braced(pre, wrapped, span);
    let ga = TokenView::Group { delim: Delim::Brace, stream: block, span };
    let gb = TokenView::Group { delim: Delim::Brace, stream: wrapped, span };
    lemma_flatten_push(pre, ga);
    lemma_flatten_push(pre, gb);
    let f = flatten_view(a);
    let g = flatten_view(b);
    assert(differ_in_last_block(f, g));
    lemma_parse_differ_in_last_block(f, g);
    if let (Ok((v1, k1)), Ok((v2, k2))) = (parse_spec(f), parse_spec(g)) {
        if k1 < f.len() {
            assert(span_of(f[k1]) == span_of(g[k1]));
        } else {
            assert(!v1.has_section);
            assert(starts_with_section(wrapped));
            assert(v2.has_section);
            lemma_whole_block_is_one_section(block, v1.name, syn_lit_int_usize(v1.start).unwrap() as int,
                range_end(syn_lit_int_usize(v1.end).unwrap(), v1.inclusive), open, close, inner_span);
        }
    }
}

/// The description of a parsed input: its name, bounds and whether it has a
/// section, then, on a line of its own, `body_text`, the printed expansion,
/// and a line break.
pub open spec fn describe_view(v: SeqInputView, body_text: Seq<char>) -> Seq<char> {
    "name: "@ + v.name + ", start: "@ + v.start + ", end: "@ + v.end + ", has_section: "@ + (if v.has_section {
        "YES"@
    } else {
        "NO"@
    }) + ", body: \n"@ + body_text + "\n"@
}

impl SeqInput {
    /// The description of the input, given the printed text of its
    /// expansion.
    pub fn describe(&self, body_text: &str) -> (r: String)
        ensures
            r@ == describe_view(self@, body_text@),
    {
        let mut s = "name: ".to_owned();
        s.append(self.name.as_str());
        s.append(", start: ");
        s.append(self.start.as_str());
        s.append(", end: ");
        s.append(self.end.as_str());
        s.append(", has_section: ");
        if self.has_section {
            s.append("YES");
        } else {
            s.append("NO");
        }
        s.append(", body: \n");
        s.append(body_text);
        s.append("\n");
        s
    }
}

} // verus!
