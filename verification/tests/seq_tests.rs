use builder_seq::expansion::{expand, expand_all, expand_sections, has_section};
use builder_seq::seq_input::{ParseAnswers, SeqInput, SeqParseError};
use builder_seq::tokens::{
    all_literals_known, copy_tokens, known_literal_text, number_like_text, Delim, SpanRef, Token,
};

fn ident(s: &str, id: u64) -> Token {
    Token::Ident { text: s.to_string(), span: SpanRef::Input(id) }
}

fn punct(c: char, joint: bool, id: u64) -> Token {
    Token::Punct { ch: c, joint, span: SpanRef::Input(id) }
}

fn lit(s: &str, id: u64) -> Token {
    Token::Literal { text: s.to_string(), span: SpanRef::Input(id) }
}

fn group(delim: Delim, stream: Vec<Token>, id: u64) -> Token {
    Token::Group { delim, stream, span: SpanRef::Input(id) }
}

fn num(n: usize) -> Token {
    Token::Literal { text: n.to_string(), span: SpanRef::CallSite }
}

/// `NAME in START..END { body }` (or `..=`).
fn seq_input(name: &str, start: &str, end: &str, inclusive: bool, body: Vec<Token>) -> Vec<Token> {
    let mut v = vec![ident(name, 1), ident("in", 2), lit(start, 3), punct('.', true, 4)];
    if inclusive {
        v.push(punct('.', true, 5));
        v.push(punct('=', false, 6));
    } else {
        v.push(punct('.', false, 5));
    }
    v.push(lit(end, 7));
    v.push(group(Delim::Brace, body, 8));
    v
}

/// `#( Irq~N , )*`
fn irq_section() -> Vec<Token> {
    vec![
        punct('#', false, 20),
        group(
            Delim::Parenthesis,
            vec![ident("Irq", 21), punct('~', false, 22), ident("N", 23), punct(',', false, 24)],
            25,
        ),
        punct('*', false, 26),
    ]
}

#[test]
fn sections_repeat_only_the_marked_part() {
    let body = vec![
        ident("enum", 10),
        ident("Interrupt", 11),
        group(Delim::Brace, irq_section(), 12),
    ];
    let out = builder_seq::seq_input::seq(&seq_input("N", "0", "16", false, body)).unwrap().unwrap();
    assert_eq!(out.len(), 3);
    assert_eq!(out[0], ident("enum", 10));
    assert_eq!(out[1], ident("Interrupt", 11));
    let mut expected = Vec::new();
    for i in 0..16 {
        expected.push(Token::Ident { text: format!("Irq{}", i), span: SpanRef::Input(21) });
        expected.push(punct(',', false, 24));
    }
    assert_eq!(out[2], group(Delim::Brace, expected, 12));
}

#[test]
fn pasted_variants_are_numbered_in_order() {
    let out = builder_seq::seq_input::seq(&seq_input("N", "0", "16", false, irq_section())).unwrap().unwrap();
    assert_eq!(out.len(), 32);
    assert_eq!(out[16], Token::Ident { text: "Irq8".to_string(), span: SpanRef::Input(21) });
    assert_eq!(out[30], Token::Ident { text: "Irq15".to_string(), span: SpanRef::Input(21) });
}

#[test]
fn without_section_the_whole_block_repeats() {
    // compile_error!(concat!("error number ", stringify!(N)));
    let inner = vec![lit("\"error number \"", 13), punct(',', false, 14), ident("stringify", 15), punct('!', false, 16), group(Delim::Parenthesis, vec![ident("N", 17)], 18)];
    let body = vec![
        ident("compile_error", 10),
        punct('!', false, 11),
        group(Delim::Parenthesis, vec![ident("concat", 19), punct('!', false, 20), group(Delim::Parenthesis, inner, 21)], 12),
        punct(';', false, 22),
    ];
    let out = builder_seq::seq_input::seq(&seq_input("N", "0", "4", false, body)).unwrap().unwrap();
    assert_eq!(out.len(), 16);
    for i in 0..4 {
        assert_eq!(out[4 * i], ident("compile_error", 10));
        match &out[4 * i + 2] {
            Token::Group { stream, .. } => match &stream[2] {
                Token::Group { stream, .. } => match &stream[4] {
                    Token::Group { stream, .. } => assert_eq!(stream[0], num(i)),
                    other => panic!("unexpected {:?}", other),
                },
                other => panic!("unexpected {:?}", other),
            },
            other => panic!("unexpected {:?}", other),
        }
    }
}

#[test]
fn inclusive_range_includes_its_end() {
    let out = builder_seq::seq_input::seq(&seq_input("N", "1", "3", true, vec![ident("N", 10), punct(',', false, 11)])).unwrap().unwrap();
    assert_eq!(out, vec![num(1), punct(',', false, 11), num(2), punct(',', false, 11), num(3), punct(',', false, 11)]);
}

#[test]
fn empty_ranges_give_nothing() {
    assert_eq!(builder_seq::seq_input::seq(&seq_input("N", "5", "5", false, vec![ident("N", 10)])).unwrap().unwrap(), vec![]);
    assert_eq!(builder_seq::seq_input::seq(&seq_input("N", "5", "4", true, vec![ident("N", 10)])).unwrap().unwrap(), vec![]);
    assert_eq!(builder_seq::seq_input::seq(&seq_input("N", "5", "5", true, vec![ident("N", 10)])).unwrap().unwrap(), vec![num(5)]);
}

/// Sums `a * 10 + b` over every `a * 10 + b` in the tokens, at any depth.
fn sum_terms(ts: &[Token]) -> usize {
    let mut total = 0;
    let mut i = 0;
    while i < ts.len() {
        if let Token::Group { stream, .. } = &ts[i] {
            total += sum_terms(stream);
        }
        if i + 4 < ts.len() {
            if let (Token::Literal { text: a, .. }, Token::Punct { ch: '*', .. }, Token::Literal { text: ten, .. }, Token::Punct { ch: '+', .. }, Token::Literal { text: b, .. }) =
                (&ts[i], &ts[i + 1], &ts[i + 2], &ts[i + 3], &ts[i + 4])
            {
                if ten == "10" {
                    total += a.parse::<usize>().unwrap() * 10 + b.parse::<usize>().unwrap();
                }
            }
        }
        i += 1;
    }
    total
}

/// Expands every inner `seq!( ... );` of the tokens, as the compiler would.
fn expand_inner(ts: &[Token]) -> Vec<Token> {
    let mut out = Vec::new();
    let mut i = 0;
    while i < ts.len() {
        if let (Token::Ident { text, .. }, Some(Token::Punct { ch: '!', .. }), Some(Token::Group { stream, .. })) = (&ts[i], ts.get(i + 1), ts.get(i + 2)) {
            if text == "seq" {
                out.extend(builder_seq::seq_input::seq(stream).unwrap().unwrap());
                i += 4;
                continue;
            }
        }
        out.push(ts[i].clone_token());
        i += 1;
    }
    out
}

trait CloneToken {
    fn clone_token(&self) -> Token;
}

impl CloneToken for Token {
    fn clone_token(&self) -> Token {
        builder_seq::tokens::copy_token(self)
    }
}

/// `seq!(M in 0..INNER { ans += N * 10 + M; });`
fn nested_body(inner_end: Token) -> Vec<Token> {
    let body = vec![
        ident("ans", 40),
        punct('+', true, 41),
        punct('=', false, 42),
        ident("N", 43),
        punct('*', false, 44),
        lit("10", 45),
        punct('+', false, 46),
        ident("M", 47),
        punct(';', false, 48),
    ];
    let inner = vec![ident("M", 30), ident("in", 31), lit("0", 32), punct('.', true, 33), punct('.', false, 34), inner_end, group(Delim::Brace, body, 36)];
    vec![ident("seq", 50), punct('!', false, 51), group(Delim::Parenthesis, inner, 52), punct(';', false, 53)]
}

#[test]
fn independent_nested_loops() {
    let outer = builder_seq::seq_input::seq(&seq_input("N", "0", "5", false, nested_body(lit("5", 35)))).unwrap().unwrap();
    assert_eq!(sum_terms(&expand_inner(&outer)), 550);
}

#[test]
fn dependent_nested_loops() {
    let outer = builder_seq::seq_input::seq(&seq_input("N", "0", "5", false, nested_body(ident("N", 35)))).unwrap().unwrap();
    assert_eq!(sum_terms(&expand_inner(&outer)), 310);
}

#[test]
fn parse_errors_name_the_place() {
    let mut missing_in = seq_input("N", "0", "4", false, vec![]);
    missing_in[1] = ident("on", 2);
    assert_eq!(builder_seq::seq_input::seq(&missing_in), Err(SeqParseError::ExpectedIn(Some(SpanRef::Input(2)))));

    let keyword = seq_input("in", "0", "4", false, vec![]);
    assert_eq!(builder_seq::seq_input::seq(&keyword), Err(SeqParseError::ExpectedIdent(Some(SpanRef::Input(1)))));

    assert_eq!(builder_seq::seq_input::seq(&vec![]), Err(SeqParseError::ExpectedIdent(None)));

    let not_int = seq_input("N", "x", "4", false, vec![]);
    assert_eq!(builder_seq::seq_input::seq(&not_int), Err(SeqParseError::ExpectedLitInt(Some(SpanRef::Input(3)))));

    let float = seq_input("N", "0", "4.5", false, vec![]);
    assert_eq!(builder_seq::seq_input::seq(&float), Err(SeqParseError::ExpectedLitInt(Some(SpanRef::Input(7)))));

    let mut apart = seq_input("N", "0", "4", false, vec![]);
    apart[3] = punct('.', false, 4);
    assert_eq!(builder_seq::seq_input::seq(&apart), Err(SeqParseError::ExpectedDotDot(Some(SpanRef::Input(4)))));

    let mut no_braces = seq_input("N", "0", "4", false, vec![]);
    no_braces.pop();
    assert_eq!(builder_seq::seq_input::seq(&no_braces), Err(SeqParseError::ExpectedBraces(None)));

    let mut parens = seq_input("N", "0", "4", false, vec![]);
    parens[6] = group(Delim::Parenthesis, vec![], 8);
    assert_eq!(builder_seq::seq_input::seq(&parens), Err(SeqParseError::ExpectedBraces(Some(SpanRef::Input(8)))));

    let mut trailing = seq_input("N", "0", "4", false, vec![]);
    trailing.push(punct(';', false, 9));
    assert_eq!(builder_seq::seq_input::seq(&trailing), Err(SeqParseError::UnexpectedToken(SpanRef::Input(9))));
}

#[test]
fn invisible_groups_are_seen_through() {
    let input = vec![
        group(Delim::Invisible, vec![ident("N", 1)], 100),
        ident("in", 2),
        group(Delim::Invisible, vec![lit("0", 3), punct('.', true, 4)], 101),
        punct('.', false, 5),
        lit("2", 7),
        group(Delim::Brace, vec![ident("N", 10)], 8),
        group(Delim::Invisible, vec![], 102),
    ];
    assert_eq!(builder_seq::seq_input::seq(&input).unwrap().unwrap(), vec![num(0), num(1)]);
}

#[test]
fn bounds_that_do_not_fit_give_no_expansion() {
    let big = seq_input("N", "0", "99999999999999999999999", false, vec![]);
    assert_eq!(builder_seq::seq_input::seq(&big), Ok(None));
    let (parsed, rest) = SeqInput::parse(&big).unwrap();
    assert!(rest.is_empty());
    assert!(parsed.try_body().is_none());
}

#[test]
fn negative_start_is_parsed_but_has_no_value() {
    let mut input = seq_input("N", "1", "4", false, vec![]);
    input.insert(2, punct('-', false, 60));
    assert_eq!(builder_seq::seq_input::seq(&input), Ok(None));
}

#[test]
fn suffixed_and_underscored_bounds() {
    let out = builder_seq::seq_input::seq(&seq_input("N", "0x1", "1_0usize", false, vec![ident("N", 10)])).unwrap().unwrap();
    assert_eq!(out.len(), 9);
    assert_eq!(out[0], num(1));
    assert_eq!(out[8], num(9));
}

#[test]
fn body_follows_section_flag() {
    let (parsed, _) = SeqInput::parse(&seq_input("N", "0", "2", false, irq_section())).unwrap();
    assert_eq!(parsed.body().len(), 4);
    let (parsed, _) = SeqInput::parse(&seq_input("N", "0", "2", false, vec![ident("x", 10)])).unwrap();
    assert_eq!(parsed.body(), vec![ident("x", 10), ident("x", 10)]);
}

#[test]
fn has_section_looks_inside_groups() {
    assert!(has_section(&irq_section()));
    assert!(has_section(&vec![group(Delim::Bracket, irq_section(), 1)]));
    assert!(!has_section(&vec![punct('#', false, 1), group(Delim::Bracket, vec![], 2), punct('*', false, 3)]));
    assert!(!has_section(&vec![punct('#', false, 1), group(Delim::Parenthesis, vec![], 2)]));
}

#[test]
fn expand_replaces_and_pastes() {
    let ts = vec![ident("f", 1), punct('~', false, 2), ident("N", 3), ident("N", 4), ident("M", 5), punct('~', false, 6), ident("K", 7)];
    let out = expand(&ts, &"N".to_string(), 12);
    assert_eq!(out, vec![
        Token::Ident { text: "f12".to_string(), span: SpanRef::Input(1) },
        num(12),
        ident("M", 5),
        punct('~', false, 6),
        ident("K", 7),
    ]);
}

#[test]
fn expand_all_and_sections_agree_on_a_wrapped_block() {
    let block = vec![ident("N", 1), punct(',', false, 2)];
    let wrapped = vec![punct('#', false, 3), group(Delim::Parenthesis, copy_tokens(&block), 4), punct('*', false, 5)];
    let var = "N".to_string();
    assert_eq!(expand_all(&block, &var, 2, 6, false), expand_sections(&wrapped, &var, 2, 6, false));
    assert_eq!(expand_sections(&block, &var, 2, 6, true), block);
}

#[test]
fn block_without_the_variable_is_copied_unchanged() {
    let ts = vec![ident("x", 1), punct('~', false, 2), ident("M", 3), group(Delim::Bracket, vec![lit("7", 4)], 5)];
    assert_eq!(expand(&ts, &"N".to_string(), 3), ts);
    let out = expand_all(&ts, &"N".to_string(), 0, 3, false);
    assert_eq!(out.len(), 12);
    assert_eq!(&out[8..12], &ts[..]);
}

#[test]
fn literals_that_are_no_numbers_are_refused() {
    let c_string = seq_input("N", "c\"a\"", "3", false, vec![]);
    assert_eq!(builder_seq::seq_input::seq(&c_string), Err(SeqParseError::ExpectedLitInt(Some(SpanRef::Input(3)))));
    let string = seq_input("N", "0", "\"3\"", false, vec![]);
    assert_eq!(builder_seq::seq_input::seq(&string), Err(SeqParseError::ExpectedLitInt(Some(SpanRef::Input(7)))));
    let mut minus_string = seq_input("N", "\"1\"", "4", false, vec![]);
    minus_string.insert(2, punct('-', false, 60));
    assert_eq!(builder_seq::seq_input::seq(&minus_string), Err(SeqParseError::ExpectedLitInt(Some(SpanRef::Input(60)))));
}

#[test]
fn reads_a_token_stream() {
    let input = builder_seq::tokens::TokenInput::from_stream("N in 0..3 { x~N = N; }".parse().unwrap());
    let out = builder_seq::seq_input::seq(input.tokens()).unwrap().unwrap();
    assert_eq!(out.len(), 12);
    match &out[4] {
        Token::Ident { text, .. } => assert_eq!(text, "x1"),
        other => panic!("unexpected {:?}", other),
    }
    assert_eq!(out[6], num(1));
    assert!(input.trees().len() >= 9);
}

#[test]
fn describe_gives_the_debug_text() {
    let (parsed, _) = SeqInput::parse(&seq_input("N", "0", "2", false, vec![ident("x", 10)])).unwrap();
    assert_eq!(parsed.describe("x x"), "name: N, start: 0, end: 2, has_section: NO, body: \nx x\n");
    let (parsed, _) = SeqInput::parse(&seq_input("N", "1", "3", true, irq_section())).unwrap();
    assert_eq!(parsed.describe(""), "name: N, start: 1, end: 3, has_section: YES, body: \n\n");
}

#[test]
fn parse_given_answers() {
    let answers = ParseAnswers {
        idents: vec!["N".to_string()],
        int_literals: vec!["0".to_string(), "16".to_string()],
    };
    let input = seq_input("N", "0", "16", false, irq_section());
    let (parsed, rest) = SeqInput::parse_given(&input, &answers).unwrap();
    assert!(rest.is_empty());
    assert_eq!(parsed.body().len(), 32);
    let other_name = seq_input("M", "0", "16", false, vec![]);
    assert_eq!(SeqInput::parse_given(&other_name, &answers).err(), Some(SeqParseError::ExpectedIdent(Some(SpanRef::Input(1)))));
    let other_end = seq_input("N", "0", "17", false, vec![]);
    assert_eq!(SeqInput::parse_given(&other_end, &answers).err(), Some(SeqParseError::ExpectedLitInt(Some(SpanRef::Input(7)))));
}

#[test]
fn negative_literal_token_is_read_as_an_integer() {
    let input = seq_input("N", "-5", "4", false, vec![]);
    let (parsed, rest) = SeqInput::parse(&input).unwrap();
    assert!(rest.is_empty());
    assert_eq!(parsed.describe(""), "name: N, start: -5, end: 4, has_section: NO, body: \n\n");
    assert!(parsed.try_body().is_none());
    assert_eq!(builder_seq::seq_input::seq(&input), Ok(None));
}

#[test]
fn block_without_section_expands_as_if_wrapped() {
    let block = vec![ident("a", 10), punct('~', false, 11), ident("N", 12), punct(',', false, 13)];
    let wrapped = vec![punct('#', false, 20), group(Delim::Parenthesis, copy_tokens(&block), 21), punct('*', false, 22)];
    let plain = builder_seq::seq_input::seq(&seq_input("N", "1", "4", true, block)).unwrap().unwrap();
    let marked = builder_seq::seq_input::seq(&seq_input("N", "1", "4", true, wrapped)).unwrap().unwrap();
    assert_eq!(plain.len(), 8);
    assert_eq!(plain, marked);
}

#[test]
fn known_literals() {
    assert!(number_like_text(&"7".to_string()));
    assert!(number_like_text(&"-7".to_string()));
    assert!(!number_like_text(&"-".to_string()));
    assert!(!number_like_text(&"x7".to_string()));
    for t in ["0x1f", "\"s\"", "r\"s\"", "b\"s\"", "br\"s\"", "b'a'", "'a'", "-1.5"] {
        assert!(known_literal_text(&t.to_string()), "{}", t);
    }
    for t in ["c\"s\"", "cr\"s\"", "", "b"] {
        assert!(!known_literal_text(&t.to_string()), "{}", t);
    }
    let nested = vec![group(Delim::Brace, vec![group(Delim::Bracket, vec![lit("c\"a\"", 2)], 3)], 4)];
    assert!(!all_literals_known(&nested));
    assert!(all_literals_known(&vec![lit("1", 1), group(Delim::Parenthesis, vec![lit("'x'", 2)], 3)]));
}
