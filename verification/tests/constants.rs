use std::sync::Arc;

use vec1::Vec1;
use functional::interpreter::constants::{AllConstants, ConstantProvider, Numerals};
use functional::interpreter::interpreter::{interpret, InterpretError};
use functional::interpreter::parser::{parse, Node};
use functional::interpreter::tokenizer::tokenize;
use functional::levels::section::SectionName;
use functional::levels::base::TestCase;
use functional::levels::{load_all, BaseLevel, GameLevel, JLevel, JLevelConfig, JSection, Level};

fn s(x: &str) -> String {
    x.to_string()
}

fn pairs(v: &[(&str, &str)]) -> Vec<(String, String)> {
    v.iter().map(|(a, b)| (s(a), s(b))).collect()
}

fn strings(v: &[&str]) -> Vec<String> {
    v.iter().map(|x| s(x)).collect()
}

fn level(
    name: &str,
    test_cases: &[(&str, &str)],
    solutions: &[&str],
    wrong_solutions: &[&str],
    provides_constant: bool,
    before_level_constants: &[(&str, &str)],
) -> JLevel {
    JLevel {
        name: s(name),
        description: format!("Solve {}", name),
        extra_info: None,
        test_cases: v1(pairs(test_cases)),
        solutions: v1(strings(solutions)),
        wrong_solutions: strings(wrong_solutions),
        provides_constant,
        show_constants: true,
        before_level_constants: pairs(before_level_constants),
        extra_info_is_hint: false,
    }
}

/// A small level configuration in the shape of the game's: a basic section,
/// a boolean section that introduces TRUE, FALSE, IF, NOT and AND, and a
/// numerals section.
fn game_config() -> JLevelConfig {
    JLevelConfig {
        sections: v1(vec![
            JSection {
                name: SectionName::Basic,
                levels: v1(vec![
                    level("identity", &[("f: f A", "A")], &["x: x"], &["x: B"], false, &[]),
                    level("first", &[("f: f A B", "A")], &["a: b: a"], &["a: b: b"], false, &[]),
                ]),
            },
            JSection {
                name: SectionName::Boolean,
                levels: v1(vec![
                    level(
                        "if",
                        &[("f: f TRUE A B", "A"), ("f: f FALSE A B", "B")],
                        &["c: t: e: c t e"],
                        &["c: t: e: t"],
                        true,
                        &[("TRUE", "a: b: a"), ("FALSE", "a: b: b")],
                    ),
                    level(
                        "not",
                        &[("f: f TRUE", "FALSE"), ("f: f FALSE", "TRUE")],
                        &["b: b FALSE TRUE", "b: IF b FALSE TRUE"],
                        &["b: b"],
                        true,
                        &[],
                    ),
                    level(
                        "and",
                        &[
                            ("f: f TRUE TRUE", "TRUE"),
                            ("f: f TRUE FALSE", "FALSE"),
                            ("f: f FALSE TRUE", "FALSE"),
                        ],
                        &["a: b: a b FALSE"],
                        &["a: b: a"],
                        true,
                        &[],
                    ),
                ]),
            },
            JSection {
                name: SectionName::Numerals,
                levels: v1(vec![level("zero", &[("f: f A B", "B")], &["f: x: x"], &["f: x: f x"], false, &[])]),
            },
        ]),
        tests: v1(pairs(&[("NOT TRUE", "FALSE"), ("IF TRUE A B", "A"), ("AND TRUE FALSE", "FALSE")])),
    }
}

fn parse_ok(text: &str) -> Box<Node> {
    parse(tokenize(text).unwrap()).unwrap()
}

/// A level deep in the boolean section: every basic and boolean constant is
/// known, numerals are not.
fn boolean_level() -> Level {
    Level::GameLevel(Arc::new(GameLevel {
        base: BaseLevel {
            name: s("late boolean level"),
            description: s(""),
            extra_info: None,
            extra_info_is_hint: false,
            test_cases: v1(vec![TestCase::from(parse_ok("f: f"), parse_ok("A"))]),
        },
        section: SectionName::Boolean,
        idx: 100,
        solutions: v1(vec![s("A")]),
        wrong_solutions: vec![],
        show_constants: true,
    }))
}

fn interpret_full(text: &str, fully_resolve: bool) -> Result<Box<Node>, InterpretError> {
    let all = AllConstants::from_config(&game_config());
    let level = boolean_level();
    let provider = ConstantProvider::new(&level, &all);
    interpret(parse_ok(text), fully_resolve, &provider)
}

fn interpret_ok_full(text: &str, fully_resolve: bool) -> Box<Node> {
    interpret_full(text, fully_resolve).unwrap()
}

fn interpret_ok(text: &str) -> Box<Node> {
    interpret_ok_full(text, false)
}

fn interpret_err(text: &str) -> InterpretError {
    interpret_full(text, false).unwrap_err()
}

#[test]
fn constants_test_constants() {
    // Can we load the constants without crashing?
    let all = AllConstants::from_config(&game_config());
    assert!(all.len() > 0);
}

#[test]
fn test_provider() {
    let config = game_config();
    let all = AllConstants::from_config(&config);
    let levels = load_all(&config, &all);
    let l0 = Level::GameLevel(levels[1].levels[0].clone());
    let p0 = ConstantProvider::new(&l0, &all);
    assert!(p0.get("TRUE").is_some());
    assert!(p0.get("IF").is_none());
    let l1 = Level::GameLevel(levels[1].levels[1].clone());
    let p1 = ConstantProvider::new(&l1, &all);
    assert!(p1.get("TRUE").is_some());
    assert!(p1.get("IF").is_some());
    assert!(p1.get("NOT").is_none());
    let l2 = Level::GameLevel(levels[1].levels[2].clone());
    let p2 = ConstantProvider::new(&l2, &all);
    assert!(p2.get("NOT").is_some());
}

#[test]
fn test_constants_are_resolved() {
    let all = AllConstants::from_config(&game_config());
    let none = ConstantProvider::none(&all);
    let interpret_clean = |n: Box<Node>| interpret(n, false, &none);
    for (_, node) in all.as_vec() {
        assert_eq!(interpret_clean(node.term.clone()), Ok(node.term.clone()));
    }
    for n in [0u16, 2, 20] {
        let constant = Numerals::Church.get_num(n).unwrap();
        assert_eq!(interpret_clean(constant.clone()), Ok(constant));
    }
}

#[test]
fn numerals() {
    assert!(Numerals::Disabled.get_num(0).is_none());
    assert!(Numerals::Disabled.get_num(2).is_none());
    assert_eq!(Numerals::Church.get_num(0), Some(interpret_ok("f:x: x")));
    assert_eq!(Numerals::Church.get_num(2), Some(interpret_ok_full("f:x: f (f x)", true)));
}

#[test]
fn known_constants() {
    let config = game_config();
    let all = AllConstants::from_config(&config);
    let levels = load_all(&config, &all);
    let l0 = Level::GameLevel(levels[1].levels[0].clone());
    assert_eq!(l0.all_known_constants(&all), vec!["TRUE".to_string(), "FALSE".to_string()]);
    let l2 = Level::GameLevel(levels[1].levels[2].clone());
    assert_eq!(
        l2.all_known_constants(&all),
        vec!["TRUE".to_string(), "FALSE".to_string(), "IF".to_string(), "NOT".to_string()]
    );
    // numerals are listed from their section on
    let numerals = Level::GameLevel(levels[2].levels[0].clone());
    assert_eq!(
        numerals.all_known_constants(&all),
        vec!["TRUE", "FALSE", "IF", "NOT", "AND", "0", "1", "..."]
            .into_iter()
            .map(|x| x.to_string())
            .collect::<Vec<_>>()
    );
    let every = ConstantProvider::all(&all);
    assert_eq!(every.all_known_constants().len(), 8);
}

#[test]
fn later_declaration_wins() {
    let mut config = game_config();
    config.sections[0].levels[0].before_level_constants = pairs(&[("ID", "x: x"), ("ID", "y: A")]);
    let all = AllConstants::from_config(&config);
    // one entry per name
    assert_eq!(all.len(), 6);
    let every = ConstantProvider::all(&all);
    assert_eq!(every.get("ID"), Some(parse_ok("y: A")));
}

#[test]
fn user_level_constants_come_first() {
    let all = AllConstants::from_config(&game_config());
    let level = Level::UserCreatedLevel(Arc::new(functional::levels::UserCreatedLevel {
        base: BaseLevel {
            name: s("mine"),
            description: s(""),
            extra_info: None,
            extra_info_is_hint: false,
            test_cases: v1(vec![TestCase::from(parse_ok("f: f"), parse_ok("A"))]),
        },
        extra_constants: vec![(s("TRUE"), parse_ok("x: x")), (s("DOUBLE"), parse_ok("x: x x"))],
        id: None,
    }));
    let p = ConstantProvider::new(&level, &all);
    assert_eq!(p.get("TRUE"), Some(parse_ok("x: x")));
    assert_eq!(p.get("DOUBLE"), Some(parse_ok("x: x x")));
    assert_eq!(p.get("NOT"), Some(parse_ok("b: b FALSE TRUE")));
    assert_eq!(p.get("3"), Some(parse_ok("f: x: f (f (f x))")));
    assert_eq!(p.get("65536"), None);
    assert_eq!(level.uuid(), None);
}

fn v1<T>(v: Vec<T>) -> Vec1<T> {
    Vec1::try_from_vec(v).unwrap()
}

#[test]
fn known_list_matches_lookup() {
    let config = game_config();
    let all = AllConstants::from_config(&config);
    let levels = load_all(&config, &all);
    let game_levels: Vec<Level> =
        levels.iter().flat_map(|s| s.levels.iter()).map(|l| Level::GameLevel(l.clone())).collect();
    let mut earlier: Vec<ConstantProvider> = vec![];
    for level in &game_levels {
        let p = ConstantProvider::new(level, &all);
        let known = p.all_known_constants();
        let mut sorted = known.clone();
        sorted.sort();
        sorted.dedup();
        assert_eq!(sorted.len(), known.len(), "duplicate known constant");
        for name in ["TRUE", "FALSE", "IF", "NOT", "AND", "NOPE"] {
            assert_eq!(known.contains(&name.to_string()), p.get(name).is_some());
            // what an earlier level knows, this one knows too
            for e in &earlier {
                if e.get(name).is_some() {
                    assert!(p.get(name).is_some());
                }
            }
        }
        earlier.push(p);
    }
}
