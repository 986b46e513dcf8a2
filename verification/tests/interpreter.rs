use std::sync::Arc;

use vec1::Vec1;
use functional::interpreter::constants::{AllConstants, ConstantProvider};
use functional::interpreter::interpreter::{interpret, interpret_itermediates, InterpretError};
use functional::interpreter::parser::{parse, Node, Variable};
use functional::interpreter::tokenizer::tokenize;
use functional::levels::section::SectionName;
use functional::levels::base::TestCase;
use functional::levels::{BaseLevel, GameLevel, JLevel, JLevelConfig, JSection, Level};

const Y_COMB: &str = "(f: (x: f (x x)) (x: f (x x)))";

fn s(x: &str) -> String {
    x.to_string()
}

fn pairs(v: &[(&str, &str)]) -> Vec<(String, String)> {
    v.iter().map(|(a, b)| (s(a), s(b))).collect()
}

fn strings(v: &[&str]) -> Vec<String> {
    v.iter().map(|x| s(x)).collect()
}

fn level(
    name: &str,
    test_cases: &[(&str, &str)],
    solutions: &[&str],
    wrong_solutions: &[&str],
    provides_constant: bool,
    before_level_constants: &[(&str, &str)],
) -> JLevel {
    JLevel {
        name: s(name),
        description: format!("Solve {}", name),
        extra_info: None,
        test_cases: v1(pairs(test_cases)),
        solutions: v1(strings(solutions)),
        wrong_solutions: strings(wrong_solutions),
        provides_constant,
        show_constants: true,
        before_level_constants: pairs(before_level_constants),
        extra_info_is_hint: false,
    }
}

/// A small level configuration in the shape of the game's: a basic section,
/// a boolean section that introduces TRUE, FALSE, IF, NOT and AND, and a
/// numerals section.
fn game_config() -> JLevelConfig {
    JLevelConfig {
        sections: v1(vec![
            JSection {
                name: SectionName::Basic,
                levels: v1(vec![
                    level("identity", &[("f: f A", "A")], &["x: x"], &["x: B"], false, &[]),
                    level("first", &[("f: f A B", "A")], &["a: b: a"], &["a: b: b"], false, &[]),
                ]),
            },
            JSection {
                name: SectionName::Boolean,
                levels: v1(vec![
                    level(
                        "if",
                        &[("f: f TRUE A B", "A"), ("f: f FALSE A B", "B")],
                        &["c: t: e: c t e"],
                        &["c: t: e: t"],
                        true,
                        &[("TRUE", "a: b: a"), ("FALSE", "a: b: b")],
                    ),
                    level(
                        "not",
                        &[("f: f TRUE", "FALSE"), ("f: f FALSE", "TRUE")],
                        &["b: b FALSE TRUE", "b: IF b FALSE TRUE"],
                        &["b: b"],
                        true,
                        &[],
                    ),
                    level(
                        "and",
                        &[
                            ("f: f TRUE TRUE", "TRUE"),
                            ("f: f TRUE FALSE", "FALSE"),
                            ("f: f FALSE TRUE", "FALSE"),
                        ],
                        &["a: b: a b FALSE"],
                        &["a: b: a"],
                        true,
                        &[],
                    ),
                ]),
            },
            JSection {
                name: SectionName::Numerals,
                levels: v1(vec![level("zero", &[("f: f A B", "B")], &["f: x: x"], &["f: x: f x"], false, &[])]),
            },
        ]),
        tests: v1(pairs(&[("NOT TRUE", "FALSE"), ("IF TRUE A B", "A"), ("AND TRUE FALSE", "FALSE")])),
    }
}

fn parse_ok(text: &str) -> Box<Node> {
    parse(tokenize(text).unwrap()).unwrap()
}

fn var(depth: usize) -> Box<Node> {
    Box::new(Node::Variable(Variable { depth, original: '-' }))
}

fn named(depth: usize, original: char) -> Box<Node> {
    Box::new(Node::Variable(Variable { depth, original }))
}

fn fun(body: Box<Node>) -> Box<Node> {
    Box::new(Node::Function { variable: '-', body })
}

fn app(left: Box<Node>, right: Box<Node>) -> Box<Node> {
    Box::new(Node::Apply { left, right })
}

/// A level deep in the boolean section: every basic and boolean constant is
/// known, numerals are not.
fn boolean_level() -> Level {
    Level::GameLevel(Arc::new(GameLevel {
        base: BaseLevel {
            name: s("late boolean level"),
            description: s(""),
            extra_info: None,
            extra_info_is_hint: false,
            test_cases: v1(vec![TestCase::from(parse_ok("f: f"), parse_ok("A"))]),
        },
        section: SectionName::Boolean,
        idx: 100,
        solutions: v1(vec![s("A")]),
        wrong_solutions: vec![],
        show_constants: true,
    }))
}

fn interpret_full(text: &str, fully_resolve: bool) -> Result<Box<Node>, InterpretError> {
    let all = AllConstants::from_config(&game_config());
    let level = boolean_level();
    let provider = ConstantProvider::new(&level, &all);
    interpret(parse_ok(text), fully_resolve, &provider)
}

fn interpret_ok_full(text: &str, fully_resolve: bool) -> Box<Node> {
    interpret_full(text, fully_resolve).unwrap()
}

fn interpret_ok(text: &str) -> Box<Node> {
    interpret_ok_full(text, false)
}

fn interpret_err(text: &str) -> InterpretError {
    interpret_full(text, false).unwrap_err()
}

fn interpret_eq_full(src: &str, expected: &str, fully_resolve: bool) {
    assert_eq!(interpret_ok_full(src, fully_resolve), interpret_ok_full(expected, fully_resolve));
}

fn interpret_eq(src: &str, expected: &str) {
    assert_eq!(interpret_ok(src), parse_ok(expected));
}

#[test]
fn no_apply() {
    interpret_eq("z", "z");
    interpret_eq("y:y", "y : y");
    interpret_eq("y:y", "x : x");
    interpret_eq("y:hello", "z : hello");
    // unbound vars are not equal
    assert_ne!(interpret_ok("a"), interpret_ok("b"));
    assert_ne!(interpret_ok("y:hello"), parse_ok("y:other"));
}

#[test]
fn simple_apply() {
    interpret_eq("(x: x) z", "z");
}

#[test]
fn more_apply() {
    interpret_eq("(x: x x) (y z)", "(y z) (y z)");
    interpret_eq("(x: x x) (y: y)", "(y: y)");
    interpret_eq("(x: x x) (y: z)", "z");
    interpret_eq("(x: x x x) (x: x)", "y: y");
    interpret_eq_full("((x:x)(y:y))(z:z)", "x:x", true);
}

#[test]
fn tricky1() {
    // easy, no name conflicts
    interpret_eq("(x: y: x) z", "y: z");
    interpret_eq("(x: y: x) w z", "w");
    // hard, name conflicts
    interpret_eq("(x: y: x) y", "z: y");
    interpret_eq("(x: y: x) y z", "y");
}

#[test]
fn tricky2() {
    interpret_eq("(x: x) (y: x)", "y: x");
    interpret_eq("(x: x x) (y: x)", "x");
}

#[test]
fn tricky3() {
    interpret_eq_full("(f: f f) (x: y: x y)", "(x: y: x y)", true);
    // (0: 1: 0 1) 1, built directly to get conflicting variable names
    let expr = app(fun(fun(app(var(1), var(0)))), named(0, 'z'));
    let all = AllConstants::from_config(&game_config());
    let level = boolean_level();
    let provider = ConstantProvider::new(&level, &all);
    assert_eq!(interpret(expr, false, &provider).unwrap(), parse_ok("x: z x"));
    // No variable conflicts when replacing
    let ex = "y: (x: y: x y) y";
    interpret_eq_full(ex, "y: z: y z", true);
    interpret_eq_full(&format!("({}) A B", ex), "A B", true);
    interpret_eq_full(&format!("({}) A B", ex), "A B", false);
    // Display can't reuse variable names for different vars
    assert_eq!(interpret_ok_full(ex, true).to_string(), "y: y': y y'");
}

#[test]
fn tricky4() {
    interpret_eq_full("(a: b: a) A B", "A", true);
    interpret_eq_full("(x: y: (a: b: a) x)", "(x: y: b: x)", true);
    interpret_eq_full("(b: x: y: b x y) (a: b: a) A B", "A", true);
}

#[test]
fn infinite() {
    assert_eq!(interpret_err("(x: x x) (y: y y)"), InterpretError::TooDeep);
    assert_eq!(interpret_err("(x: x x) (x: x x)"), InterpretError::TooDeep);
    assert_eq!(interpret_err("(x: x x x) (y: y y)"), InterpretError::TooDeep);
    assert_eq!(
        interpret_full("(x: z) ((x: x x) (x: x x))", true).unwrap_err(),
        InterpretError::TooDeep
    );
}

#[test]
fn actually_not_infinite() {
    interpret_eq("(x: z) ((x: x x) (x: x x))", "z");
    interpret_eq(&format!("({} (f: x:y: y x)) a b", Y_COMB), "b a");
}

#[test]
fn trick_eq() {
    interpret_eq("(x: w x x) (x: x)", "w (x: x) (x:x)");
    interpret_eq("(x: w x x) (y: z)", "w (a: z) (c:z)");
}

#[test]
fn recursive() {
    assert_eq!(
        interpret_err(&format!("({} (f: x:y: f x y)) a b", Y_COMB)),
        InterpretError::TooDeep
    );
}

#[test]
fn some_levels() {
    interpret_eq_full("(f: x: f (f x)) (x: x x) A", "(A A) (A A)", true);
}

fn assert_partial(code: &str, intermediates: Vec<&str>) {
    let all = AllConstants::from_config(&game_config());
    let level = boolean_level();
    let provider = ConstantProvider::new(&level, &all);
    assert_eq!(
        interpret_itermediates(parse_ok(code), false, &provider, usize::MAX),
        intermediates.into_iter().map(|e| parse_ok(e)).collect::<Vec<_>>()
    );
}

#[test]
fn partial() {
    assert_partial("(x: x x) (y: z)", vec!["(y: z) (y:z)", "z"]);
}

#[test]
fn interpreter_test_constants() {
    interpret_eq("TRUE A B", "A");
    interpret_eq("FALSE A B", "B");
    interpret_eq_full("(f:a:b: f b a) FALSE", "TRUE", true);
}

#[test]
fn intermediates_are_limited() {
    let all = AllConstants::from_config(&game_config());
    let level = boolean_level();
    let provider = ConstantProvider::new(&level, &all);
    let steps = interpret_itermediates(parse_ok("(x: x x) (y: z)"), false, &provider, 1);
    assert_eq!(steps, vec![parse_ok("(y: z) (y:z)")]);
    assert!(interpret_itermediates(parse_ok("(x: x x) (y: z)"), false, &provider, 0).is_empty());
    // a term without applications shows no intermediate term
    assert!(interpret_itermediates(parse_ok("x: x"), true, &provider, 10).is_empty());
}

#[test]
fn numerals_known_only_from_their_section() {
    let all = AllConstants::from_config(&game_config());
    let level = boolean_level();
    let boolean = ConstantProvider::new(&level, &all);
    let two = || Box::new(Node::Constant("2".to_string()));
    // the boolean section knows no numerals: a number stays a constant
    assert_eq!(interpret(two(), false, &boolean).unwrap(), two());
    // with every constant known, it is the Church numeral
    let every = ConstantProvider::all(&all);
    assert_eq!(interpret(two(), false, &every).unwrap(), parse_ok("f: x: f (f x)"));
}

fn v1<T>(v: Vec<T>) -> Vec1<T> {
    Vec1::try_from_vec(v).unwrap()
}
