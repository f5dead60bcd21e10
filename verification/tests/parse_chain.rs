use bending::parsing::data::MatchError;
use bending::parsing::object_pattern::parse_object_pattern;
use bending::token::{Delimiter, Token};

fn id(s: &str) -> Token {
    Token::Ident(s.to_string())
}

fn p(c: char) -> Token {
    Token::Punct(c)
}

fn lit(s: &str) -> Token {
    Token::Literal(s.to_string())
}

fn grp(delimiter: Delimiter, stream: Vec<Token>, text: &str, stream_text: &str) -> Token {
    Token::Group { delimiter, stream, text: text.to_string(), stream_text: stream_text.to_string() }
}

fn paren(stream: Vec<Token>) -> Token {
    grp(Delimiter::Parenthesis, stream, "( .. )", "..")
}

fn action(text: &str) -> Token {
    grp(Delimiter::Brace, vec![id("x")], text, "x")
}

fn arrow_action(mut toks: Vec<Token>, text: &str) -> Vec<Token> {
    toks.push(p('='));
    toks.push(p('>'));
    toks.push(action(text));
    toks
}

fn parsed(toks: &Vec<Token>) -> String {
    let pa = parse_object_pattern(toks).unwrap();
    format!("{:?} => {}", pa.obj_pats, pa.action)
}

#[test]
fn single_binding_pattern() {
    let toks = arrow_action(vec![id("x")], "{ x }");
    assert_eq!(parsed(&toks), "[Or([Cons { cons: \"x\", params: [] }])] => { x }");
}

#[test]
fn readme_next_chain() {
    // Cons(_, !); Cons(!, _); x => { x }
    let toks = arrow_action(
        vec![
            id("Cons"),
            paren(vec![id("_"), p(','), p('!')]),
            p(';'),
            id("Cons"),
            paren(vec![p('!'), p(','), id("_")]),
            p(';'),
            id("x"),
        ],
        "{ x }",
    );
    assert_eq!(
        parsed(&toks),
        "[Or([Cons { cons: \"Cons\", params: [Or([Wild]), Or([Next])] }]), \
         Or([Cons { cons: \"Cons\", params: [Or([Next]), Or([Wild])] }]), \
         Or([Cons { cons: \"x\", params: [] }])] => { x }"
    );
}

#[test]
fn condition_then_execute() {
    // Cons(x @ !, _) ? { *x % 2 == 0 } & { let y = *x + 1; }; y => { y }
    let toks = arrow_action(
        vec![
            id("Cons"),
            paren(vec![id("x"), p('@'), p('!'), p(','), id("_")]),
            p('?'),
            grp(Delimiter::Brace, vec![], "{ * x % 2 == 0 }", "* x % 2 == 0"),
            p('&'),
            grp(Delimiter::Brace, vec![], "{ let y = * x + 1 ; }", "let y = * x + 1 ;"),
            p(';'),
            id("y"),
        ],
        "{ y }",
    );
    assert_eq!(
        parsed(&toks),
        "[Execute { pattern: If { pattern: Or([Cons { cons: \"Cons\", params: [Or([At { name: \"x\", pattern: Or([Next]) }]), Or([Wild])] }]), condition: \"{ * x % 2 == 0 }\" }, action: \"let y = * x + 1 ;\" }, \
         Or([Cons { cons: \"y\", params: [] }])] => { y }"
    );
}

#[test]
fn execute_before_condition_is_refused() {
    // !& { a }? { b }; x => { x }: the condition must come first
    let toks = arrow_action(
        vec![
            p('!'),
            p('&'),
            grp(Delimiter::Brace, vec![], "{ a }", "a"),
            p('?'),
            grp(Delimiter::Brace, vec![], "{ b }", "b"),
            p(';'),
            id("x"),
        ],
        "{ x }",
    );
    assert_eq!(parse_object_pattern(&toks).unwrap_err(), MatchError::Error(3));
}

#[test]
fn range_literal_or_and_paths() {
    // -1 ..= 5 | 'a' | ::std::option::Option::None => { x }
    let toks = arrow_action(
        vec![
            p('-'),
            lit("1"),
            p('.'),
            p('.'),
            p('='),
            lit("5"),
            p('|'),
            lit("'a'"),
            p('|'),
            p(':'),
            p(':'),
            id("std"),
            p(':'),
            p(':'),
            id("option"),
            p(':'),
            p(':'),
            id("Option"),
            p(':'),
            p(':'),
            id("None"),
        ],
        "{ x }",
    );
    assert_eq!(
        parsed(&toks),
        "[Or([RangeInclusive { start: \"-1\", end: \"5\" }, Literal(\"'a'\"), \
         Cons { cons: \"::std::option::Option::None\", params: [] }])] => { x }"
    );
}

#[test]
fn structs_lists_and_tuples() {
    // Point { x, y: ! , .. }; [first, rest @ ..]; (a, ..) => { x }
    let fields = grp(
        Delimiter::Brace,
        vec![id("x"), p(','), id("y"), p(':'), p('!'), p(','), p('.'), p('.')],
        "{ .. }",
        "..",
    );
    let items = grp(
        Delimiter::Bracket,
        vec![id("first"), p(','), id("rest"), p('@'), p('.'), p('.')],
        "[ .. ]",
        "..",
    );
    let toks = arrow_action(
        vec![
            id("Point"),
            fields,
            p(';'),
            items,
            p(';'),
            paren(vec![id("a"), p(','), id("b")]),
        ],
        "{ x }",
    );
    // the list holds no `!`, so the chain check refuses it after parsing
    assert_eq!(parse_object_pattern(&toks).unwrap_err(), MatchError::FatalEndOfFile);
}

#[test]
fn struct_with_rest_parses() {
    // Point { x, y: !, .. }; y => { y }
    let fields = grp(
        Delimiter::Brace,
        vec![id("x"), p(','), id("y"), p(':'), p('!'), p(','), p('.'), p('.')],
        "{ .. }",
        "..",
    );
    let toks = arrow_action(vec![id("Point"), fields, p(';'), id("y")], "{ y }");
    assert_eq!(
        parsed(&toks),
        "[Or([Struct { name: \"Point\", fields: [(\"x\", Literal(\"x\")), (\"y\", Or([Next]))], rest: true }]), \
         Or([Cons { cons: \"y\", params: [] }])] => { y }"
    );
}

#[test]
fn list_and_tuple_parse() {
    // [!, rest @ ..]; (a, b) => { a }
    let items = grp(
        Delimiter::Bracket,
        vec![p('!'), p(','), id("rest"), p('@'), p('.'), p('.')],
        "[ .. ]",
        "..",
    );
    let toks = arrow_action(
        vec![items, p(';'), paren(vec![id("a"), p(','), id("b")])],
        "{ a }",
    );
    assert_eq!(
        parsed(&toks),
        "[Or([List([Or([Next]), At { name: \"rest\", pattern: Rest }])]), \
         Or([Tuple([Or([Cons { cons: \"a\", params: [] }]), Or([Cons { cons: \"b\", params: [] }])])])] => { a }"
    );
}

#[test]
fn rest_after_a_parameter_is_fatal() {
    // (a, ..) => { a }: a parameter is tried as a pattern first, and a
    // pattern that does not start commits the parse
    let toks = arrow_action(vec![paren(vec![id("a"), p(','), p('.'), p('.')])], "{ a }");
    assert_eq!(parse_object_pattern(&toks).unwrap_err(), MatchError::Fatal(2));
}

#[test]
fn empty_groups() {
    // Unit(); []; () => ..., every pattern needs a hole but the last
    let toks = arrow_action(
        vec![
            id("Unit"),
            paren(vec![]),
            p('|'),
            p('!'),
            p(';'),
            grp(Delimiter::Bracket, vec![], "[]", ""),
            p('|'),
            paren(vec![]),
        ],
        "{ x }",
    );
    assert_eq!(
        parsed(&toks),
        "[Or([Cons { cons: \"Unit\", params: [] }, Next]), Or([List([]), Tuple([])])] => { x }"
    );
}

#[test]
fn empty_struct_braces_are_fatal() {
    let toks = arrow_action(vec![id("S"), grp(Delimiter::Brace, vec![], "{}", "")], "{ x }");
    assert_eq!(parse_object_pattern(&toks).unwrap_err(), MatchError::FatalEndOfFile);
}

#[test]
fn trailing_comma_in_params_is_fatal() {
    let toks = arrow_action(vec![id("Some"), paren(vec![id("a"), p(',')])], "{ x }");
    assert_eq!(parse_object_pattern(&toks).unwrap_err(), MatchError::FatalEndOfFile);
}

#[test]
fn last_pattern_with_next_is_an_error() {
    let toks = arrow_action(vec![id("Some"), paren(vec![p('!')])], "{ x }");
    assert_eq!(parse_object_pattern(&toks).unwrap_err(), MatchError::ErrorEndOfFile);
}

#[test]
fn leading_pattern_without_next_is_fatal() {
    let toks = arrow_action(vec![id("a"), p(';'), id("b")], "{ x }");
    assert_eq!(parse_object_pattern(&toks).unwrap_err(), MatchError::FatalEndOfFile);
}

#[test]
fn tokens_after_the_action_are_fatal() {
    let mut toks = arrow_action(vec![id("a")], "{ x }");
    toks.push(id("extra"));
    assert_eq!(parse_object_pattern(&toks).unwrap_err(), MatchError::FatalEndOfFile);
}

#[test]
fn missing_arrow_is_an_error() {
    let toks = vec![id("a"), action("{ x }")];
    // `a { x }` reads as a struct pattern, and then the arrow is missing
    assert_eq!(parse_object_pattern(&toks).unwrap_err(), MatchError::ErrorEndOfFile);
}

#[test]
fn equals_without_greater_is_fatal() {
    let toks = vec![id("a"), p('='), action("{ x }")];
    assert_eq!(parse_object_pattern(&toks).unwrap_err(), MatchError::Fatal(2));
}

#[test]
fn missing_action_group_is_an_error() {
    let toks = vec![id("a"), p('='), p('>'), id("b")];
    assert_eq!(parse_object_pattern(&toks).unwrap_err(), MatchError::Error(3));
}

#[test]
fn empty_input_is_fatal() {
    let toks: Vec<Token> = vec![];
    assert_eq!(parse_object_pattern(&toks).unwrap_err(), MatchError::FatalEndOfFile);
}

#[test]
fn single_colon_in_path_is_fatal() {
    // a:b => { x }
    let toks = arrow_action(vec![id("a"), p(':'), id("b")], "{ x }");
    assert_eq!(parse_object_pattern(&toks).unwrap_err(), MatchError::Fatal(2));
}

#[test]
fn condition_without_group_is_fatal() {
    let toks = arrow_action(vec![id("a"), p('?'), id("b")], "{ x }");
    assert_eq!(parse_object_pattern(&toks).unwrap_err(), MatchError::Fatal(2));
}
