use bending::data::{GenSym, ObjPatsAct, ObjectPattern};
use bending::gen::object_pattern::object_pattern_matcher;
use bending::object_pattern;
use bending::parsing::data::MatchError;
use bending::token::{Delimiter, Token};

fn id(s: &str) -> Token {
    Token::Ident(s.to_string())
}

fn p(c: char) -> Token {
    Token::Punct(c)
}

fn paren(stream: Vec<Token>) -> Token {
    Token::Group {
        delimiter: Delimiter::Parenthesis,
        stream,
        text: "( .. )".to_string(),
        stream_text: "..".to_string(),
    }
}

fn brace(text: &str, stream_text: &str) -> Token {
    Token::Group {
        delimiter: Delimiter::Brace,
        stream: vec![],
        text: text.to_string(),
        stream_text: stream_text.to_string(),
    }
}

fn arm(name: &str, pat: &str, execute: &str, next: &str) -> String {
    format!(
        "\n        match {}.borrow() {{\n            {} => {{ \n                {}\n                {} \n            }},\n            _ => {{}},\n        }}\n        ",
        name, pat, execute, next
    )
}

fn closure(body: &str) -> String {
    format!(
        "\n    |gen_sym_input| {{\n        use std::borrow::Borrow;\n        let mut ret = vec![];\n        {}\n        ret\n    }}\n    ",
        body
    )
}

fn push(action: &str) -> String {
    format!("{{ ret.push( {} ); }}", action)
}

fn cons(name: &str, params: Vec<ObjectPattern>) -> ObjectPattern {
    ObjectPattern::Cons { cons: name.to_string(), params }
}

fn or1(p: ObjectPattern) -> ObjectPattern {
    ObjectPattern::Or(vec![p])
}

#[test]
fn single_pattern_matches_the_input() {
    let toks = vec![id("x"), p('='), p('>'), brace("{ x }", "x")];
    let code = object_pattern(&toks).unwrap();
    assert_eq!(code, closure(&arm("gen_sym_input", "x", "", &push("{ x }"))));
}

#[test]
fn readme_chain_expands_to_nested_matches() {
    // Cons(_, !); Cons(!, _); x => { x }
    let toks = vec![
        id("Cons"),
        paren(vec![id("_"), p(','), p('!')]),
        p(';'),
        id("Cons"),
        paren(vec![p('!'), p(','), id("_")]),
        p(';'),
        id("x"),
        p('='),
        p('>'),
        brace("{ x }", "x"),
    ];
    let code = object_pattern(&toks).unwrap();
    let inner = arm("gen_sym_0", "x", "", &push("{ x }"));
    let middle = arm("gen_sym_1", "Cons(gen_sym_0, _)", "", &inner);
    let outer = arm("gen_sym_input", "Cons(_, gen_sym_1)", "", &middle);
    assert_eq!(code, closure(&outer));
}

#[test]
fn two_holes_try_both_possibilities() {
    // TreeNode(!, !); Leaf(x) => { x }
    let toks = vec![
        id("TreeNode"),
        paren(vec![p('!'), p(','), p('!')]),
        p(';'),
        id("Leaf"),
        paren(vec![id("x")]),
        p('='),
        p('>'),
        brace("{ x }", "x"),
    ];
    let code = object_pattern(&toks).unwrap();
    let leaf = push("{ x }");
    let inner = arm("gen_sym_0", "Leaf(x)", "", &leaf) + &arm("gen_sym_1", "Leaf(x)", "", &leaf);
    // the holes take the names in writing order, and their blocks run in that
    // order too, so the results come out left to right
    let outer = arm("gen_sym_input", "TreeNode(gen_sym_0, gen_sym_1)", "", &inner);
    assert_eq!(code, closure(&outer));
}

#[test]
fn condition_and_block_go_into_the_arm() {
    // Cons(x @ !, _) ? { * x % 2 == 0 } & { let y = * x + 1 ; }; y => { y }
    let toks = vec![
        id("Cons"),
        paren(vec![id("x"), p('@'), p('!'), p(','), id("_")]),
        p('?'),
        brace("{ * x % 2 == 0 }", "* x % 2 == 0"),
        p('&'),
        brace("{ let y = * x + 1 ; }", "let y = * x + 1 ;"),
        p(';'),
        id("y"),
        p('='),
        p('>'),
        brace("{ y }", "y"),
    ];
    let code = object_pattern(&toks).unwrap();
    let inner = arm("gen_sym_0", "y", "", &push("{ y }"));
    let outer = arm(
        "gen_sym_input",
        "Cons(x @ gen_sym_0, _) if { * x % 2 == 0 }",
        "let y = * x + 1 ;",
        &inner,
    );
    assert_eq!(code, closure(&outer));
}

#[test]
fn parse_errors_come_through() {
    let toks = vec![id("x"), p('='), brace("{ x }", "x")];
    assert_eq!(object_pattern(&toks).unwrap_err(), MatchError::Fatal(2));
}

#[test]
fn matcher_renders_every_pattern_form() {
    let fields = vec![
        ("a".to_string(), ObjectPattern::Literal("a".to_string())),
        ("b".to_string(), or1(ObjectPattern::Wild)),
    ];
    let first = ObjectPattern::Or(vec![
        ObjectPattern::Struct { name: "S".to_string(), fields, rest: true },
        ObjectPattern::Struct { name: "T".to_string(), fields: vec![], rest: true },
        ObjectPattern::Struct {
            name: "U".to_string(),
            fields: vec![("n".to_string(), ObjectPattern::Next)],
            rest: false,
        },
        ObjectPattern::List(vec![ObjectPattern::Rest, ObjectPattern::Literal("1".to_string())]),
        ObjectPattern::Tuple(vec![ObjectPattern::Wild, ObjectPattern::Wild]),
        ObjectPattern::RangeInclusive { start: "1".to_string(), end: "9".to_string() },
        ObjectPattern::At { name: "v".to_string(), pattern: Box::new(ObjectPattern::Wild) },
    ]);
    let last = or1(cons("z", vec![]));
    let input = ObjPatsAct { obj_pats: vec![first, last], action: "{ z }".to_string() };
    let mut g = GenSym::new();
    let code = object_pattern_matcher(&mut g, input);
    let inner = arm("gen_sym_0", "z", "", &push("{ z }"));
    let outer = arm(
        "gen_sym_input",
        "S { a : a, b : _, .. } | T { .. } | U { n : gen_sym_0 } | [.., 1] | (_, _) | 1..=9 | v @ _",
        "",
        &inner,
    );
    assert_eq!(code, closure(&outer));
    // one name was handed out
    assert_eq!(g.gen(), "gen_sym_1");
}

#[test]
fn matcher_continues_from_the_generator_index() {
    let mut g = GenSym::new();
    assert_eq!(g.gen(), "gen_sym_0");
    let input = ObjPatsAct {
        obj_pats: vec![or1(cons("Some", vec![or1(ObjectPattern::Next)])), or1(cons("x", vec![]))],
        action: "{ x }".to_string(),
    };
    let code = object_pattern_matcher(&mut g, input);
    let inner = arm("gen_sym_1", "x", "", &push("{ x }"));
    let outer = arm("gen_sym_input", "Some(gen_sym_1)", "", &inner);
    assert_eq!(code, closure(&outer));
    assert_eq!(g.gen(), "gen_sym_2");
}

#[test]
fn execute_without_condition() {
    let input = ObjPatsAct {
        obj_pats: vec![
            ObjectPattern::Execute {
                pattern: Box::new(or1(cons("Some", vec![or1(ObjectPattern::Next)]))),
                action: "seen += 1 ;".to_string(),
            },
            or1(ObjectPattern::Wild),
        ],
        action: "{ seen }".to_string(),
    };
    let mut g = GenSym::new();
    let code = object_pattern_matcher(&mut g, input);
    let inner = arm("gen_sym_0", "_", "", &push("{ seen }"));
    let outer = arm("gen_sym_input", "Some(gen_sym_0)", "seen += 1 ;", &inner);
    assert_eq!(code, closure(&outer));
}

#[test]
fn three_holes_in_writing_order() {
    // Tri(!, Pair(!, !)); Leaf(x) => { x }
    let input = ObjPatsAct {
        obj_pats: vec![
            or1(cons(
                "Tri",
                vec![
                    or1(ObjectPattern::Next),
                    or1(cons("Pair", vec![or1(ObjectPattern::Next), or1(ObjectPattern::Next)])),
                ],
            )),
            or1(cons("Leaf", vec![or1(cons("x", vec![]))])),
        ],
        action: "{ x }".to_string(),
    };
    let mut g = GenSym::new();
    let code = object_pattern_matcher(&mut g, input);
    let leaf = push("{ x }");
    let inner = arm("gen_sym_0", "Leaf(x)", "", &leaf)
        + &arm("gen_sym_1", "Leaf(x)", "", &leaf)
        + &arm("gen_sym_2", "Leaf(x)", "", &leaf);
    let outer = arm("gen_sym_input", "Tri(gen_sym_0, Pair(gen_sym_1, gen_sym_2))", "", &inner);
    assert_eq!(code, closure(&outer));
}

#[test]
fn single_alternative_or_is_transparent() {
    let wrapped = ObjPatsAct {
        obj_pats: vec![or1(cons("Some", vec![ObjectPattern::Next])), or1(ObjectPattern::Wild)],
        action: "{ 0 }".to_string(),
    };
    let bare = ObjPatsAct {
        obj_pats: vec![cons("Some", vec![ObjectPattern::Next]), ObjectPattern::Wild],
        action: "{ 0 }".to_string(),
    };
    let a = object_pattern_matcher(&mut GenSym::new(), wrapped);
    let b = object_pattern_matcher(&mut GenSym::new(), bare);
    assert_eq!(a, b);
}

#[test]
fn same_input_same_code() {
    let toks = || vec![id("Some"), paren(vec![p('!')]), p(';'), id("y"), p('='), p('>'), brace("{ y }", "y")];
    assert_eq!(object_pattern(&toks()).unwrap(), object_pattern(&toks()).unwrap());
}
