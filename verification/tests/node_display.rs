use std::sync::Arc;

use vec1::Vec1;
use functional::interpreter::constants::{AllConstants, ConstantProvider};
use functional::interpreter::interpreter::{interpret, InterpretError};
use functional::interpreter::parser::{parse, Node, Variable};
use functional::interpreter::tokenizer::tokenize;
use functional::levels::section::SectionName;
use functional::levels::base::TestCase;
use functional::levels::{BaseLevel, GameLevel, JLevel, JLevelConfig, JSection, Level};

fn s(x: &str) -> String {
    x.to_string()
}

fn pairs(v: &[(&str, &str)]) -> Vec<(String, String)> {
    v.iter().map(|(a, b)| (s(a), s(b))).collect()
}

fn strings(v: &[&str]) -> Vec<String> {
    v.iter().map(|x| s(x)).collect()
}

fn level(
    name: &str,
    test_cases: &[(&str, &str)],
    solutions: &[&str],
    wrong_solutions: &[&str],
    provides_constant: bool,
    before_level_constants: &[(&str, &str)],
) -> JLevel {
    JLevel {
        name: s(name),
        description: format!("Solve {}", name),
        extra_info: None,
        test_cases: v1(pairs(test_cases)),
        solutions: v1(strings(solutions)),
        wrong_solutions: strings(wrong_solutions),
        provides_constant,
        show_constants: true,
        before_level_constants: pairs(before_level_constants),
        extra_info_is_hint: false,
    }
}

/// A small level configuration in the shape of the game's: a basic section,
/// a boolean section that introduces TRUE, FALSE, IF, NOT and AND, and a
/// numerals section.
fn game_config() -> JLevelConfig {
    JLevelConfig {
        sections: v1(vec![
            JSection {
                name: SectionName::Basic,
                levels: v1(vec![
                    level("identity", &[("f: f A", "A")], &["x: x"], &["x: B"], false, &[]),
                    level("first", &[("f: f A B", "A")], &["a: b: a"], &["a: b: b"], false, &[]),
                ]),
            },
            JSection {
                name: SectionName::Boolean,
                levels: v1(vec![
                    level(
                        "if",
                        &[("f: f TRUE A B", "A"), ("f: f FALSE A B", "B")],
                        &["c: t: e: c t e"],
                        &["c: t: e: t"],
                        true,
                        &[("TRUE", "a: b: a"), ("FALSE", "a: b: b")],
                    ),
                    level(
                        "not",
                        &[("f: f TRUE", "FALSE"), ("f: f FALSE", "TRUE")],
                        &["b: b FALSE TRUE", "b: IF b FALSE TRUE"],
                        &["b: b"],
                        true,
                        &[],
                    ),
                    level(
                        "and",
                        &[
                            ("f: f TRUE TRUE", "TRUE"),
                            ("f: f TRUE FALSE", "FALSE"),
                            ("f: f FALSE TRUE", "FALSE"),
                        ],
                        &["a: b: a b FALSE"],
                        &["a: b: a"],
                        true,
                        &[],
                    ),
                ]),
            },
            JSection {
                name: SectionName::Numerals,
                levels: v1(vec![level("zero", &[("f: f A B", "B")], &["f: x: x"], &["f: x: f x"], false, &[])]),
            },
        ]),
        tests: v1(pairs(&[("NOT TRUE", "FALSE"), ("IF TRUE A B", "A"), ("AND TRUE FALSE", "FALSE")])),
    }
}

fn parse_ok(text: &str) -> Box<Node> {
    parse(tokenize(text).unwrap()).unwrap()
}

fn var(depth: usize) -> Box<Node> {
    Box::new(Node::Variable(Variable { depth, original: '-' }))
}

fn named(depth: usize, original: char) -> Box<Node> {
    Box::new(Node::Variable(Variable { depth, original }))
}

fn fun(body: Box<Node>) -> Box<Node> {
    Box::new(Node::Function { variable: '-', body })
}

fn app(left: Box<Node>, right: Box<Node>) -> Box<Node> {
    Box::new(Node::Apply { left, right })
}

/// A level deep in the boolean section: every basic and boolean constant is
/// known, numerals are not.
fn boolean_level() -> Level {
    Level::GameLevel(Arc::new(GameLevel {
        base: BaseLevel {
            name: s("late boolean level"),
            description: s(""),
            extra_info: None,
            extra_info_is_hint: false,
            test_cases: v1(vec![TestCase::from(parse_ok("f: f"), parse_ok("A"))]),
        },
        section: SectionName::Boolean,
        idx: 100,
        solutions: v1(vec![s("A")]),
        wrong_solutions: vec![],
        show_constants: true,
    }))
}

fn interpret_full(text: &str, fully_resolve: bool) -> Result<Box<Node>, InterpretError> {
    let all = AllConstants::from_config(&game_config());
    let level = boolean_level();
    let provider = ConstantProvider::new(&level, &all);
    interpret(parse_ok(text), fully_resolve, &provider)
}

fn interpret_ok_full(text: &str, fully_resolve: bool) -> Box<Node> {
    interpret_full(text, fully_resolve).unwrap()
}

fn interpret_ok(text: &str) -> Box<Node> {
    interpret_ok_full(text, false)
}

fn interpret_err(text: &str) -> InterpretError {
    interpret_full(text, false).unwrap_err()
}

fn display_eq(original: &str, display: &str) {
    assert_eq!(display, &parse_ok(original).to_string());
}

fn interpret_display_eq(original: &str, display: &str) {
    assert_eq!(display, &interpret_ok_full(original, true).to_string());
}

#[test]
fn test_display() {
    display_eq("A", "A");
    display_eq("(x:x) A", "(x: x) A");
    display_eq("x:y:A", "x: y: A");
    display_eq("(x:x)", "x: x");
    display_eq("(x:x x)(x:x x)", "(x: x x) (x: x x)")
}

#[test]
fn test_display_func_prefix() {
    display_eq("a:b:c: a", "a: b: c: a");
    display_eq("x (x: (y: y x))", "x (x: y: y x)");
    display_eq("f:x: (f (f x))", "f: x: f (f x)");
}

#[test]
fn test_display_right_associative() {
    display_eq("((a b) c)", "a b c");
    display_eq("(a (b c))", "a (b c)");
    display_eq("((a b) c) d", "a b c d");
    display_eq("((a: b) c)", "(a: b) c");
    display_eq("x: x ((a b) c)", "x: x (a b c)");
}

#[test]
fn test_display_unbound() {
    // Simple variables don't need change
    display_eq("a", "a");
    display_eq("(x: x) x", "(x: x) x");
    // Need some interpretation to create unbound vars with same names
    // as bound vars
    interpret_display_eq("(x: y: x) x", "y: x");
    interpret_display_eq("(x: y: x) z", "y: z");
    interpret_display_eq("(x: y: x) y", "y: _y");
    interpret_display_eq("(x: y: x) y", "y: _y");
    // possible tricky case. Variable appears first without shadow binding
    // and later with shadow
    interpret_display_eq("y ((x: y: x) y)", "_y (y: _y)");
    interpret_display_eq("z ((x: y: x) z)", "z (y: z)");
}

#[test]
fn test_same_name_vars() {
    assert_eq!("-: -': - -'", &fun(fun(app(var(1), var(0)))).to_string());
    assert_eq!("-: -': -' -", &fun(fun(app(var(0), var(1)))).to_string());
}

#[test]
fn debug_form() {
    assert_eq!(parse_ok("(x: x y) A").debug_string(), "((x: (x_0 y_1)) A)");
    assert_eq!(named(12, 'q').debug_string(), "q_12");
}

#[test]
fn display_reads_back() {
    // what is shown parses back to an equal term
    for text in ["(x: x) A", "a b (c d)", "f: x: f (f x)", "x: y: (z: z) y x"] {
        let shown = parse_ok(text).to_string();
        assert_eq!(parse_ok(&shown), parse_ok(text));
    }
}

fn v1<T>(v: Vec<T>) -> Vec1<T> {
    Vec1::try_from_vec(v).unwrap()
}
