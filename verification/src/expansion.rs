//! Repetition of a token block over a range of integers: the loop variable
//! is replaced by each integer, `x~N` pastes the integer onto `x`, and
//! `#( ... )*` marks the part of the block that repeats.

use vstd::prelude::*;
use crate::tokens::{
    copy_token, lemma_tokens_view_concat, lemma_tokens_view_index, lemma_tokens_view_len, lemma_tokens_view_push, tokens_view,
    token_view, Delim, SpanRef, Token, TokenView,
};

verus! {

/// The decimal digit for `d < 10`.
pub open spec fn digit_char(d: nat) -> char {
    (d + 48) as char
}

/// The decimal digits of `n`, without sign, suffix or leading zeros.
pub open spec fn decimal(n: nat) -> Seq<char>
    decreases n,
{
    if n < 10 {
        seq![digit_char(n)]
    } else {
        decimal(n / 10).push(digit_char(n % 10))
    }
}

/// Calls `proc_macro2::Literal::usize_unsuffixed` and renders the literal
/// with `to_string`. Trusted: the literal's text is the decimal digits of
/// `n` (the crate builds it from `n.to_string()`).
#[verifier::external_body]
fn unsuffixed_usize_text(n: usize) -> (r: String)
    ensures
        r@ == decimal(n as nat),
{
    proc_macro2::Literal::usize_unsuffixed(n).to_string()
}

/// `t` is an identifier spelled `name`.
pub open spec fn is_ident_named(t: TokenView, name: Seq<char>) -> bool {
    t matches TokenView::Ident { text, .. } && text == name
}

/// `t` is the punctuation character `c`.
pub open spec fn is_punct_char(t: TokenView, c: char) -> bool {
    t matches TokenView::Punct { ch, .. } && ch == c
}

/// `ts` starts with `x ~ var`: an identifier, a `~`, and the variable.
pub open spec fn starts_with_paste(ts: Seq<TokenView>, var: Seq<char>) -> bool {
    &&& ts.len() >= 3
    &&& ts[0] is Ident
    &&& is_punct_char(ts[1], '~')
    &&& is_ident_named(ts[2], var)
}

/// One repetition of `ts` for the value `n` of the variable `var`:
/// `x ~ var` becomes the identifier `x` followed by the digits of `n` (with
/// the span of `x`), `var` becomes the unsuffixed literal `n` (with the call
/// site's span), groups are rewritten inside, and all else is kept.
pub open spec fn expand_view(ts: Seq<TokenView>, var: Seq<char>, n: nat) -> Seq<TokenView>
    decreases ts,
{
    if ts.len() == 0 {
        Seq::empty()
    } else if starts_with_paste(ts, var) {
        seq![TokenView::Ident { text: ts[0]->Ident_text + decimal(n), span: ts[0]->Ident_span }]
            + expand_view(ts.skip(3), var, n)
    } else if is_ident_named(ts[0], var) {
        seq![TokenView::Literal { text: decimal(n), span: SpanRef::CallSite }]
            + expand_view(ts.skip(1), var, n)
    } else if ts[0] is Group {
        seq![TokenView::Group {
            delim: ts[0]->Group_delim,
            stream: expand_view(ts[0]->Group_stream, var, n),
            span: ts[0]->Group_span,
        }] + expand_view(ts.skip(1), var, n)
    } else {
        seq![ts[0]] + expand_view(ts.skip(1), var, n)
    }
}

/// The repetitions of `ts` for `lo, lo + 1, ..., hi - 1`, one after another.
pub open spec fn repeat_view(ts: Seq<TokenView>, var: Seq<char>, lo: int, hi: int) -> Seq<TokenView>
    decreases hi - lo,
{
    if hi <= lo {
        Seq::empty()
    } else {
        repeat_view(ts, var, lo, hi - 1) + expand_view(ts, var, (hi - 1) as nat)
    }
}

/// The end, exclusive, of the range `start..end` or `start..=end`.
pub open spec fn range_end(end: usize, inclusive: bool) -> int {
    if inclusive {
        end + 1
    } else {
        end as int
    }
}

/// `ts` starts with a section `# ( ... ) *`.
pub open spec fn starts_with_section(ts: Seq<TokenView>) -> bool {
    &&& ts.len() >= 3
    &&& is_punct_char(ts[0], '#')
    &&& ts[1] matches TokenView::Group { delim: Delim::Parenthesis, .. }
    &&& is_punct_char(ts[2], '*')
}

/// `ts` holds a section `# ( ... ) *`, at its top level or inside a group.
pub open spec fn has_section_view(ts: Seq<TokenView>) -> bool
    decreases ts,
{
    if ts.len() == 0 {
        false
    } else if starts_with_section(ts) {
        true
    } else if ts[0] is Group {
        has_section_view(ts[0]->Group_stream) || has_section_view(ts.skip(1))
    } else {
        has_section_view(ts.skip(1))
    }
}

/// `ts` with each section `# ( body ) *` replaced by the repetitions of
/// `body` for `lo..hi`, at every depth; all else is kept.
pub open spec fn sections_view(ts: Seq<TokenView>, var: Seq<char>, lo: int, hi: int) -> Seq<TokenView>
    decreases ts,
{
    if ts.len() == 0 {
        Seq::empty()
    } else if starts_with_section(ts) {
        repeat_view(ts[1]->Group_stream, var, lo, hi) + sections_view(ts.skip(3), var, lo, hi)
    } else if ts[0] is Group {
        seq![TokenView::Group {
            delim: ts[0]->Group_delim,
            stream: sections_view(ts[0]->Group_stream, var, lo, hi),
            span: ts[0]->Group_span,
        }] + sections_view(ts.skip(1), var, lo, hi)
    } else {
        seq![ts[0]] + sections_view(ts.skip(1), var, lo, hi)
    }
}

fn ident_named(t: &Token, name: &String) -> (b: bool)
    ensures
        b == is_ident_named(token_view(*t), name@),
{
    match t {
        Token::Ident { text, .. } => *text == *name,
        _ => false,
    }
}

fn punct_char(t: &Token, c: char) -> (b: bool)
    ensures
        b == is_punct_char(token_view(*t), c),
{
    match t {
        Token::Punct { ch, .. } => *ch == c,
        _ => false,
    }
}

/// One repetition of `ts` for the value `n` of the variable `var`.
pub fn expand(ts: &Vec<Token>, var: &String, n: usize) -> (r: Vec<Token>)
    ensures
        tokens_view(r@) == expand_view(tokens_view(ts@), var@, n as nat),
    decreases ts,
{
    let digits = unsuffixed_usize_text(n);
    let ghost v = tokens_view(ts@);
    let mut out: Vec<Token> = Vec::new();
    let mut i: usize = 0;
    proof {
        lemma_tokens_view_len(ts@);
        assert(v.skip(0) =~= v);
    }
    while i < ts.len()
        invariant
            0 <= i <= ts.len(),
            v == tokens_view(ts@),
            v.len() == ts@.len(),
            digits@ == decimal(n as nat),
            tokens_view(out@) + expand_view(v.skip(i as int), var@, n as nat)
                == expand_view(v, var@, n as nat),
        decreases ts.len() - i,
    {
        let ghost rest = v.skip(i as int);
        let ghost before = out@;
        proof {
            lemma_tokens_view_index(ts@, i as int);
            assert(rest[0] == v[i as int]);
        }
        let paste = match &ts[i] {
            Token::Ident { text, span } => {
                if ts.len() - i > 2 && punct_char(&ts[i + 1], '~') && ident_named(&ts[i + 2], var) {
                    Some((text, *span))
                } else {
                    None
                }
            },
            _ => None,
        };
        if let Some((text, span)) = paste {
            proof {
                lemma_tokens_view_index(ts@, i + 1);
                lemma_tokens_view_index(ts@, i + 2);
                assert(starts_with_paste(rest, var@));
                assert(rest.skip(3) =~= v.skip(i + 3));
            }
            let mut pasted = text.clone();
            pasted.append(digits.as_str());
            let t = Token::Ident { text: pasted, span };
            out.push(t);
            proof {
                lemma_tokens_view_push(before, t);
            }
            i += 3;
        } else if ident_named(&ts[i], var) {
            proof {
                assert(!starts_with_paste(rest, var@)) by {
                    if ts.len() - i > 2 {
                        lemma_tokens_view_index(ts@, i + 1);
                        lemma_tokens_view_index(ts@, i + 2);
                    }
                }
                assert(rest.skip(1) =~= v.skip(i + 1));
            }
            let t = Token::Literal { text: digits.clone(), span: SpanRef::CallSite };
            out.push(t);
            proof {
                lemma_tokens_view_push(before, t);
            }
            i += 1;
        } else {
            proof {
                assert(!starts_with_paste(rest, var@)) by {
                    if ts.len() - i > 2 {
                        lemma_tokens_view_index(ts@, i + 1);
                        lemma_tokens_view_index(ts@, i + 2);
                    }
                }
                assert(rest.skip(1) =~= v.skip(i + 1));
            }
            let t = match &ts[i] {
                Token::Group { delim, stream, span } => {
                    assert(decreases_to!(ts => ts@[i as int]));
                    Token::Group { delim: *delim, stream: expand(stream, var, n), span: *span }
                },
                other => copy_token(other),
            };
            out.push(t);
            proof {
                lemma_tokens_view_push(before, t);
            }
            i += 1;
        }
    }
    proof {
        assert(v.skip(i as int) =~= Seq::<TokenView>::empty());
        assert(tokens_view(out@) + Seq::<TokenView>::empty() =~= tokens_view(out@));
    }
    out
}

/// The repetitions of `ts` for each integer of `start..end`, or of
/// `start..=end` when `inclusive`, one after another.
pub fn expand_all(ts: &Vec<Token>, var: &String, start: usize, end: usize, inclusive: bool) -> (r:
    Vec<Token>)
    ensures
        tokens_view(r@) == repeat_view(tokens_view(ts@), var@, start as int, range_end(end, inclusive)),
{
    let ghost v = tokens_view(ts@);
    let mut out: Vec<Token> = Vec::new();
    if start > end {
        return out;
    }
    let mut i: usize = start;
    while i < end
        invariant
            start <= i <= end,
            v == tokens_view(ts@),
            tokens_view(out@) == repeat_view(v, var@, start as int, i as int),
        decreases end - i,
    {
        let mut one = expand(ts, var, i);
        proof {
            lemma_tokens_view_concat(out@, one@);
        }
        out.append(&mut one);
        i += 1;
    }
    if inclusive {
        let mut one = expand(ts, var, end);
        proof {
            lemma_tokens_view_concat(out@, one@);
        }
        out.append(&mut one);
    }
    out
}

/// Tells whether `ts` holds a section `# ( ... ) *`, at any depth.
pub fn has_section(ts: &Vec<Token>) -> (b: bool)
    ensures
        b == has_section_view(tokens_view(ts@)),
    decreases ts,
{
    let ghost v = tokens_view(ts@);
    proof {
        lemma_tokens_view_len(ts@);
        assert(v.skip(0) =~= v);
    }
    let mut i: usize = 0;
    while i < ts.len()
        invariant
            0 <= i <= ts.len(),
            v == tokens_view(ts@),
            v.len() == ts@.len(),
            has_section_view(v) == has_section_view(v.skip(i as int)),
        decreases ts.len() - i,
    {
        let ghost rest = v.skip(i as int);
        proof {
            lemma_tokens_view_index(ts@, i as int);
            assert(rest[0] == v[i as int]);
            assert(rest.skip(1) =~= v.skip(i + 1));
        }
        let section = ts.len() - i > 2 && punct_char(&ts[i], '#') && punct_char(&ts[i + 2], '*')
            && match &ts[i + 1] {
            Token::Group { delim: Delim::Parenthesis, .. } => true,
            _ => false,
        };
        proof {
            if ts.len() - i > 2 {
                lemma_tokens_view_index(ts@, i + 1);
                lemma_tokens_view_index(ts@, i + 2);
            }
        }
        if section {
            return true;
        }
        match &ts[i] {
            Token::Group { stream, .. } => {
                assert(decreases_to!(ts => ts@[i as int]));
                if has_section(stream) {
                    return true;
                }
            },
            _ => {},
        }
        i += 1;
    }
    false
}

/// `ts` with each section `# ( body ) *` replaced by the repetitions of
/// `body` for each integer of `start..end`, or of `start..=end` when
/// `inclusive`, at every depth.
pub fn expand_sections(ts: &Vec<Token>, var: &String, start: usize, end: usize, inclusive: bool) -> (r:
    Vec<Token>)
    ensures
        tokens_view(r@) == sections_view(
            tokens_view(ts@),
            var@,
            start as int,
            range_end(end, inclusive),
        ),
    decreases ts,
{
    let ghost v = tokens_view(ts@);
    let ghost hi = range_end(end, inclusive);
    let mut out: Vec<Token> = Vec::new();
    let mut i: usize = 0;
    proof {
        lemma_tokens_view_len(ts@);
        assert(v.skip(0) =~= v);
    }
    while i < ts.len()
        invariant
            0 <= i <= ts.len(),
            v == tokens_view(ts@),
            v.len() == ts@.len(),
            hi == range_end(end, inclusive),
            tokens_view(out@) + sections_view(v.skip(i as int), var@, start as int, hi)
                == sections_view(v, var@, start as int, hi),
        decreases ts.len() - i,
    {
        let ghost rest = v.skip(i as int);
        let ghost before = out@;
        proof {
            lemma_tokens_view_index(ts@, i as int);
            assert(rest[0] == v[i as int]);
            if ts.len() - i > 2 {
                lemma_tokens_view_index(ts@, i + 1);
                lemma_tokens_view_index(ts@, i + 2);
            }
        }
        let section = ts.len() - i > 2 && punct_char(&ts[i], '#') && punct_char(&ts[i + 2], '*')
            && match &ts[i + 1] {
            Token::Group { delim: Delim::Parenthesis, .. } => true,
            _ => false,
        };
        if section {
            proof {
                assert(starts_with_section(rest));
                assert(rest.skip(3) =~= v.skip(i + 3));
            }
            let mut body = match &ts[i + 1] {
                Token::Group { stream, .. } => expand_all(stream, var, start, end, inclusive),
                _ => Vec::new(),
            };
            proof {
                lemma_tokens_view_concat(out@, body@);
            }
            out.append(&mut body);
            i += 3;
        } else {
            proof {
                assert(rest.skip(1) =~= v.skip(i + 1));
            }
            let t = match &ts[i] {
                Token::Group { delim, stream, span } => {
                    assert(decreases_to!(ts => ts@[i as int]));
                    Token::Group {
                        delim: *delim,
                        stream: expand_sections(stream, var, start, end, inclusive),
                        span: *span,
                    }
                },
                other => copy_token(other),
            };
            out.push(t);
            proof {
                lemma_tokens_view_push(before, t);
            }
            i += 1;
        }
    }
    proof {
        assert(v.skip(i as int) =~= Seq::<TokenView>::empty());
        assert(tokens_view(out@) + Seq::<TokenView>::empty() =~= tokens_view(out@));
    }
    out
}

/// `ts` holds, at any depth, an identifier spelled `var`.
pub open spec fn mentions_ident(ts: Seq<TokenView>, var: Seq<char>) -> bool
    decreases ts,
{
    if ts.len() == 0 {
        false
    } else if is_ident_named(ts[0], var) {
        true
    } else if ts[0] is Group {
        mentions_ident(ts[0]->Group_stream, var) || mentions_ident(ts.skip(1), var)
    } else {
        mentions_ident(ts.skip(1), var)
    }
}

/// Expanding everything repeats the block exactly as one section
/// `# ( block ) *` around the whole block would: a block with no section
/// behaves as if it were wrapped in one.
pub proof fn lemma_whole_block_is_one_section(
    ts: Seq<TokenView>,
    var: Seq<char>,
    lo: int,
    hi: int,
    open: TokenView,
    close: TokenView,
    span: SpanRef,
)
    requires
        is_punct_char(open, '#'),
        is_punct_char(close, '*'),
    ensures
        sections_view(
            seq![open, TokenView::Group { delim: Delim::Parenthesis, stream: ts, span }, close],
            var,
            lo,
            hi,
        ) == repeat_view(ts, var, lo, hi),
{
    let w = seq![open, TokenView::Group { delim: Delim::Parenthesis, stream: ts, span }, close];
    assert(starts_with_section(w));
    assert(w.skip(3) =~= Seq::<TokenView>::empty());
    assert(sections_view(w.skip(3), var, lo, hi) == Seq::<TokenView>::empty());
    assert(w[1]->Group_stream == ts);
    assert(repeat_view(ts, var, lo, hi) + Seq::<TokenView>::empty() =~= repeat_view(ts, var, lo, hi));
}

/// Where no section `# ( ... ) *` occurs, expanding the sections leaves the
/// tokens as they are.
pub proof fn lemma_no_section_unchanged(ts: Seq<TokenView>, var: Seq<char>, lo: int, hi: int)
    requires
        !has_section_view(ts),
    ensures
        sections_view(ts, var, lo, hi) == ts,
    decreases ts,
{
    if ts.len() > 0 {
        lemma_no_section_unchanged(ts.skip(1), var, lo, hi);
        if ts[0] is Group {
            lemma_no_section_unchanged(ts[0]->Group_stream, var, lo, hi);
            assert(TokenView::Group {
                delim: ts[0]->Group_delim,
                stream: ts[0]->Group_stream,
                span: ts[0]->Group_span,
            } == ts[0]);
        }
        assert(seq![ts[0]] + ts.skip(1) =~= ts);
    }
}

/// A repetition of a block that never names the variable is the block itself.
pub proof fn lemma_expand_without_variable(ts: Seq<TokenView>, var: Seq<char>, n: nat)
    requires
        !mentions_ident(ts, var),
    ensures
        expand_view(ts, var, n) == ts,
    decreases ts,
{
    if ts.len() > 0 {
        lemma_expand_without_variable(ts.skip(1), var, n);
        if ts.len() >= 3 {
            assert(!mentions_ident(ts.skip(1), var));
            assert(ts.skip(1)[0] == ts[1]);
            assert(!mentions_ident(ts.skip(1).skip(1), var));
            assert(ts.skip(1).skip(1)[0] == ts[2]);
            assert(!is_ident_named(ts[2], var));
        }
        if ts[0] is Group {
            lemma_expand_without_variable(ts[0]->Group_stream, var, n);
            assert(TokenView::Group {
                delim: ts[0]->Group_delim,
                stream: ts[0]->Group_stream,
                span: ts[0]->Group_span,
            } == ts[0]);
        }
        assert(seq![ts[0]] + ts.skip(1) =~= ts);
    }
}

proof fn lemma_mentions_concat(a: Seq<TokenView>, b: Seq<TokenView>, var: Seq<char>)
    ensures
        mentions_ident(a + b, var) == (mentions_ident(a, var) || mentions_ident(b, var)),
    decreases a.len(),
{
    if a.len() == 0 {
        assert(a + b =~= b);
    } else {
        assert((a + b)[0] == a[0]);
        assert((a + b).skip(1) =~= a.skip(1) + b);
        lemma_mentions_concat(a.skip(1), b, var);
    }
}

proof fn lemma_mentions_one(t: TokenView, var: Seq<char>)
    ensures
        mentions_ident(seq![t], var) == (is_ident_named(t, var) || (t is Group && mentions_ident(
            t->Group_stream,
            var,
        ))),
{
    let s = seq![t];
    assert(s[0] == t);
    assert(s.skip(1) =~= Seq::<TokenView>::empty());
    assert(!mentions_ident(s.skip(1), var));
}

proof fn lemma_decimal_ends_in_digit(n: nat)
    ensures
        decimal(n).len() > 0,
        '0' <= decimal(n)[decimal(n).len() - 1] <= '9',
    decreases n,
{
    if n >= 10 {
        lemma_decimal_ends_in_digit(n / 10);
    }
}

/// Whatever the body, one repetition leaves no identifier spelled like the
/// variable, at any depth of groups of any delimiter: each use of the
/// variable becomes the literal value, and each `x ~ var` becomes an
/// identifier that ends in a digit. This needs a name that does not itself
/// end in a digit (with `var` = `a0`, pasting `a ~ a0` for 0 gives `a0`).
pub proof fn lemma_variable_does_not_survive(ts: Seq<TokenView>, var: Seq<char>, n: nat)
    requires
        var.len() > 0,
        !('0' <= var[var.len() - 1] <= '9'),
    ensures
        !mentions_ident(expand_view(ts, var, n), var),
    decreases ts,
{
    if ts.len() > 0 {
        if starts_with_paste(ts, var) {
            let text = ts[0]->Ident_text + decimal(n);
            lemma_decimal_ends_in_digit(n);
            assert(text[text.len() - 1] == decimal(n)[decimal(n).len() - 1]);
            let t = TokenView::Ident { text, span: ts[0]->Ident_span };
            lemma_mentions_one(t, var);
            lemma_variable_does_not_survive(ts.skip(3), var, n);
            lemma_mentions_concat(seq![t], expand_view(ts.skip(3), var, n), var);
        } else if is_ident_named(ts[0], var) {
            let t = TokenView::Literal { text: decimal(n), span: SpanRef::CallSite };
            lemma_mentions_one(t, var);
            lemma_variable_does_not_survive(ts.skip(1), var, n);
            lemma_mentions_concat(seq![t], expand_view(ts.skip(1), var, n), var);
        } else if ts[0] is Group {
            let t = TokenView::Group {
                delim: ts[0]->Group_delim,
                stream: expand_view(ts[0]->Group_stream, var, n),
                span: ts[0]->Group_span,
            };
            lemma_variable_does_not_survive(ts[0]->Group_stream, var, n);
            lemma_mentions_one(t, var);
            lemma_variable_does_not_survive(ts.skip(1), var, n);
            lemma_mentions_concat(seq![t], expand_view(ts.skip(1), var, n), var);
        } else {
            lemma_mentions_one(ts[0], var);
            lemma_variable_does_not_survive(ts.skip(1), var, n);
            lemma_mentions_concat(seq![ts[0]], expand_view(ts.skip(1), var, n), var);
        }
    }
}

/// One repetition rewrites the inside of a group of any delimiter exactly as
/// it rewrites a stream, and keeps the group's delimiter and place.
pub proof fn lemma_expand_enters_every_group(
    delim: Delim,
    stream: Seq<TokenView>,
    span: SpanRef,
    var: Seq<char>,
    n: nat,
)
    ensures
        expand_view(seq![TokenView::Group { delim, stream, span }], var, n) == seq![TokenView::Group {
            delim,
            stream: expand_view(stream, var, n),
            span,
        }],
{
    let s = seq![TokenView::Group { delim, stream, span }];
    assert(s.skip(1) =~= Seq::<TokenView>::empty());
    assert(expand_view(s.skip(1), var, n) == Seq::<TokenView>::empty());
    assert(seq![TokenView::Group { delim, stream: expand_view(stream, var, n), span }]
        + Seq::<TokenView>::empty() =~= seq![TokenView::Group {
        delim,
        stream: expand_view(stream, var, n),
        span,
    }]);
}

/// A section inside a group of any delimiter is found, and expanded in
/// place: the group keeps its delimiter and place, and its inside is
/// expanded exactly as a stream is.
pub proof fn lemma_sections_enter_every_group(
    delim: Delim,
    stream: Seq<TokenView>,
    span: SpanRef,
    var: Seq<char>,
    lo: int,
    hi: int,
)
    ensures
        has_section_view(seq![TokenView::Group { delim, stream, span }]) == has_section_view(stream),
        sections_view(seq![TokenView::Group { delim, stream, span }], var, lo, hi) == seq![TokenView::Group {
            delim,
            stream: sections_view(stream, var, lo, hi),
            span,
        }],
{
    let s = seq![TokenView::Group { delim, stream, span }];
    assert(s.skip(1) =~= Seq::<TokenView>::empty());
    assert(has_section_view(s.skip(1)) == false);
    assert(sections_view(s.skip(1), var, lo, hi) == Seq::<TokenView>::empty());
    assert(seq![TokenView::Group { delim, stream: sections_view(stream, var, lo, hi), span }]
        + Seq::<TokenView>::empty() =~= seq![TokenView::Group {
        delim,
        stream: sections_view(stream, var, lo, hi),
        span,
    }]);
}

} // verus!
