use bending::data::{decimal_string, GenSym, ObjectPattern};
use bending::parsing::data::ParseResult;
use bending::parsing::parse_object_pattern;
use bending::parsing::pattern_parser::parse;
use bending::parsing::data::MatchError;
use bending::token::Token;

#[test]
fn gensym_hands_out_distinct_names() {
    let mut g = GenSym::new();
    let mut names = vec![];
    for _ in 0..12 {
        names.push(g.gen());
    }
    assert_eq!(names[0], "gen_sym_0");
    assert_eq!(names[9], "gen_sym_9");
    assert_eq!(names[10], "gen_sym_10");
    assert_eq!(names[11], "gen_sym_11");
    for i in 0..names.len() {
        for j in 0..i {
            assert_ne!(names[i], names[j]);
        }
    }
}

#[test]
fn decimal_digits() {
    assert_eq!(decimal_string(0), "0");
    assert_eq!(decimal_string(7), "7");
    assert_eq!(decimal_string(10), "10");
    assert_eq!(decimal_string(1234567890), "1234567890");
    assert_eq!(decimal_string(u64::MAX), "18446744073709551615");
}

#[test]
fn l_next_lists_children_in_order() {
    let p = ObjectPattern::Struct {
        name: "S".to_string(),
        fields: vec![
            ("a".to_string(), ObjectPattern::Next),
            ("b".to_string(), ObjectPattern::Wild),
        ],
        rest: false,
    };
    let kids = p.l_next();
    assert_eq!(format!("{:?}", kids), "[Next, Wild]");
    let at = ObjectPattern::At { name: "x".to_string(), pattern: Box::new(ObjectPattern::Rest) };
    assert_eq!(format!("{:?}", at.l_next()), "[Rest]");
    assert!(ObjectPattern::Literal("1".to_string()).l_next().is_empty());
}

#[test]
fn has_next_finds_nested_holes() {
    let deep = ObjectPattern::Or(vec![
        ObjectPattern::Wild,
        ObjectPattern::Tuple(vec![ObjectPattern::List(vec![ObjectPattern::Next])]),
    ]);
    assert!(deep.has_next());
    let none = ObjectPattern::Tuple(vec![ObjectPattern::Wild, ObjectPattern::Rest]);
    assert!(!none.has_next());
    assert!(ObjectPattern::Next.has_next());
}

#[test]
fn next_chain_parses_holes_then_a_last_pattern() {
    let toks = vec![
        Token::Punct('!'),
        Token::Punct(';'),
        Token::Punct('!'),
        Token::Punct(';'),
        Token::Ident("_".to_string()),
    ];
    let pats = parse_object_pattern(&toks).unwrap();
    assert_eq!(format!("{:?}", pats), "[Next, Next, Wild]");
    let toks = vec![Token::Punct('!'), Token::Punct(';'), Token::Literal("5".to_string())];
    assert_eq!(format!("{:?}", parse_object_pattern(&toks).unwrap()), "[Next, Literal(\"5\")]");
}

#[test]
fn next_chain_errors() {
    let toks = vec![Token::Punct('!')];
    assert_eq!(parse_object_pattern(&toks).unwrap_err(), MatchError::Fatal(0));
    let toks = vec![Token::Ident("_".to_string()), Token::Ident("_".to_string())];
    assert_eq!(parse_object_pattern(&toks).unwrap_err(), MatchError::FatalEndOfFile);
    let toks: Vec<Token> = vec![];
    assert_eq!(parse_object_pattern(&toks).unwrap_err(), MatchError::FatalEndOfFile);
}

#[test]
fn single_token_parser() {
    let toks = vec![Token::Ident("_".to_string())];
    let mut pos = 0;
    assert!(matches!(parse(&toks, &mut pos), ParseResult::Success(ObjectPattern::Wild)));
    assert_eq!(pos, 1);
    assert!(matches!(parse(&toks, &mut pos), ParseResult::Error));
    assert_eq!(pos, 1);
}
