use std::collections::HashSet;
use std::sync::Arc;

use vec1::Vec1;
use functional::interpreter::constants::{AllConstants, ConstantProvider};
use functional::interpreter::interpreter::{interpret, InterpretError};
use functional::interpreter::parser::{parse, Node};
use functional::interpreter::tokenizer::tokenize;
use functional::levels::base::{LevelTestError, TestCase};
use functional::levels::section::SectionName;
use functional::levels::{load_all, BaseLevel, GameLevel, JLevel, JLevelConfig, JSection, Level};
use functional::audio::SFX;
use functional::gamestates::level_selection::{LevelSelectionEvent, LevelSelectionState};
use functional::gamestates::playground::{eval, PlaygroundState};
use functional::gamestates::running_solution::{running_tick, wait_text, RunningOutcome};
use functional::gamestates::show_results::{results_frame, results_passed, ResultsAction};
use functional::gamestates::user_created_levels::{description, LoadLevelError, UserCreatedLevelsState, UserLevelsEvent};
use functional::levels::UserCreatedLevel;
use functional::gamestates::{GameStateEvent, Key};
use functional::math::W;

fn s(x: &str) -> String {
    x.to_string()
}

fn pairs(v: &[(&str, &str)]) -> Vec<(String, String)> {
    v.iter().map(|(a, b)| (s(a), s(b))).collect()
}

fn strings(v: &[&str]) -> Vec<String> {
    v.iter().map(|x| s(x)).collect()
}

fn level(
    name: &str,
    test_cases: &[(&str, &str)],
    solutions: &[&str],
    wrong_solutions: &[&str],
    provides_constant: bool,
    before_level_constants: &[(&str, &str)],
) -> JLevel {
    JLevel {
        name: s(name),
        description: format!("Solve {}", name),
        extra_info: None,
        test_cases: v1(pairs(test_cases)),
        solutions: v1(strings(solutions)),
        wrong_solutions: strings(wrong_solutions),
        provides_constant,
        show_constants: true,
        before_level_constants: pairs(before_level_constants),
        extra_info_is_hint: false,
    }
}

/// A small level configuration in the shape of the game's: a basic section,
/// a boolean section that introduces TRUE, FALSE, IF, NOT and AND, and a
/// numerals section.
fn game_config() -> JLevelConfig {
    JLevelConfig {
        sections: v1(vec![
            JSection {
                name: SectionName::Basic,
                levels: v1(vec![
                    level("identity", &[("f: f A", "A")], &["x: x"], &["x: B"], false, &[]),
                    level("first", &[("f: f A B", "A")], &["a: b: a"], &["a: b: b"], false, &[]),
                ]),
            },
            JSection {
                name: SectionName::Boolean,
                levels: v1(vec![
                    level(
                        "if",
                        &[("f: f TRUE A B", "A"), ("f: f FALSE A B", "B")],
                        &["c: t: e: c t e"],
                        &["c: t: e: t"],
                        true,
                        &[("TRUE", "a: b: a"), ("FALSE", "a: b: b")],
                    ),
                    level(
                        "not",
                        &[("f: f TRUE", "FALSE"), ("f: f FALSE", "TRUE")],
                        &["b: b FALSE TRUE", "b: IF b FALSE TRUE"],
                        &["b: b"],
                        true,
                        &[],
                    ),
                    level(
                        "and",
                        &[
                            ("f: f TRUE TRUE", "TRUE"),
                            ("f: f TRUE FALSE", "FALSE"),
                            ("f: f FALSE TRUE", "FALSE"),
                        ],
                        &["a: b: a b FALSE"],
                        &["a: b: a"],
                        true,
                        &[],
                    ),
                ]),
            },
            JSection {
                name: SectionName::Numerals,
                levels: v1(vec![level("zero", &[("f: f A B", "B")], &["f: x: x"], &["f: x: f x"], false, &[])]),
            },
        ]),
        tests: v1(pairs(&[("NOT TRUE", "FALSE"), ("IF TRUE A B", "A"), ("AND TRUE FALSE", "FALSE")])),
    }
}

fn parse_ok(text: &str) -> Box<Node> {
    parse(tokenize(text).unwrap()).unwrap()
}

/// A level deep in the boolean section: every basic and boolean constant is
/// known, numerals are not.
fn boolean_level() -> Level {
    Level::GameLevel(Arc::new(GameLevel {
        base: BaseLevel {
            name: s("late boolean level"),
            description: s(""),
            extra_info: None,
            extra_info_is_hint: false,
            test_cases: v1(vec![TestCase::from(parse_ok("f: f"), parse_ok("A"))]),
        },
        section: SectionName::Boolean,
        idx: 100,
        solutions: v1(vec![s("A")]),
        wrong_solutions: vec![],
        show_constants: true,
    }))
}

fn interpret_full(text: &str, fully_resolve: bool) -> Result<Box<Node>, InterpretError> {
    let all = AllConstants::from_config(&game_config());
    let level = boolean_level();
    let provider = ConstantProvider::new(&level, &all);
    interpret(parse_ok(text), fully_resolve, &provider)
}

fn interpret_ok_full(text: &str, fully_resolve: bool) -> Box<Node> {
    interpret_full(text, fully_resolve).unwrap()
}

fn interpret_ok(text: &str) -> Box<Node> {
    interpret_ok_full(text, false)
}

fn interpret_err(text: &str) -> InterpretError {
    interpret_full(text, false).unwrap_err()
}

const CURSOR_J: i32 = 3;
const MID_J: i32 = W / 2;

#[test]
fn section_names_too_long() {
    for section in SectionName::all() {
        assert!(section.to_string().len() as i32 + CURSOR_J + 2 <= MID_J, "Too long name");
    }
}

#[test]
fn test_level_load() {
    // Can we load the levels without crashing?
    let config = game_config();
    let all = AllConstants::from_config(&config);
    assert!(load_all(&config, &all).len() > 0);
}

#[test]
fn unique_names() {
    let config = game_config();
    let all = AllConstants::from_config(&config);
    let levels = load_all(&config, &all);
    let names = levels
        .iter()
        .flat_map(|s| s.levels.iter())
        .map(|l| l.base.name.clone())
        .collect::<HashSet<_>>();
    assert_eq!(
        names.len(),
        levels.iter().flat_map(|s| s.levels.iter()).count(),
        "Some name is duplicated in the levels definition"
    );
}

#[test]
fn test_jsonnet_tests() {
    for (a, b) in game_config().tests {
        assert_eq!(interpret_ok(&a), interpret_ok(&b), "'{}' != '{}'", &a, &b);
    }
}

#[test]
fn test_wrong_solutions() {
    let config = game_config();
    let all = AllConstants::from_config(&config);
    let levels = load_all(&config, &all);
    let every = ConstantProvider::all(&all);
    for section in &levels {
        for l in &section.levels {
            let level = Level::GameLevel(l.clone());
            for s in &l.wrong_solutions {
                // a solution that cannot be run is no solution either
                let solved = match level.test(s, &every, &all) {
                    Ok(runs) => runs.runs.iter().all(|r| r.is_correct()),
                    Err(_) => false,
                };
                assert!(!solved, "Code was solution {} on level {}", s, l.base.name);
            }
        }
    }
}

#[test]
fn solutions_pass() {
    let config = game_config();
    let all = AllConstants::from_config(&config);
    let levels = load_all(&config, &all);
    for section in &levels {
        for l in &section.levels {
            let level = Level::GameLevel(l.clone());
            let provider = ConstantProvider::new(&level, &all);
            for s in l.solutions.iter() {
                let runs = level.test(s, &provider, &all).unwrap();
                assert_eq!(runs.runs.len(), l.base.test_cases.len());
                for r in &runs.runs {
                    assert!(r.is_correct(), "Code '{}' fails on level '{}'", s, l.base.name);
                }
            }
        }
    }
}

#[test]
fn load_numbers_levels() {
    let config = game_config();
    let all = AllConstants::from_config(&config);
    let levels = load_all(&config, &all);
    assert_eq!(levels.len(), 3);
    assert_eq!(levels[1].name, SectionName::Boolean);
    for section in &levels {
        for (i, l) in section.levels.iter().enumerate() {
            assert_eq!(l.idx, i);
            assert_eq!(l.section, section.name);
        }
    }
    // the expected result of a test case is interpreted: FALSE becomes its term
    assert_eq!(levels[1].levels[1].base.test_cases[0].expected_result, parse_ok("a: b: b"));
    let game = Level::GameLevel(levels[0].levels[1].clone());
    assert_eq!(game.uuid(), Some("first".to_string()));
    assert_eq!(game.base().name, "first");
}

#[test]
fn level_test_errors() {
    let config = game_config();
    let all = AllConstants::from_config(&config);
    let levels = load_all(&config, &all);
    let level = Level::GameLevel(levels[1].levels[0].clone());
    let provider = ConstantProvider::new(&level, &all);
    assert!(matches!(level.test("x + y", &provider, &all), Err(LevelTestError::TokenizeError(_))));
    assert!(matches!(level.test("(x", &provider, &all), Err(LevelTestError::ParseError(_))));
    // IF is not known yet on the level that introduces it
    match level.test("IF", &provider, &all) {
        Err(LevelTestError::UnknownConstant(c)) => assert_eq!(c, "IF"),
        other => panic!("unexpected {:?}", other.map(|r| r.runs.len())),
    }
    // the code is kept, and each test case run
    let runs = level.test("c: t: e: c t e", &provider, &all).unwrap();
    assert_eq!(runs.code, parse_ok("c: t: e: c t e"));
    assert_eq!(runs.runs.len(), 2);
    assert_eq!(runs.runs[0].test_expression, parse_ok("(f: f TRUE A B) (c: t: e: c t e)"));
}

#[test]
fn test_case_run() {
    let all = AllConstants::from_config(&game_config());
    let every = ConstantProvider::all(&all);
    let t = TestCase::from_or_fail("f: f A", "A", &all);
    assert!(t.test(parse_ok("x: x"), &every).is_correct());
    let wrong = t.test(parse_ok("x: B"), &every);
    assert!(!wrong.is_correct());
    assert_eq!(wrong.result, Ok(parse_ok("B")));
    let looping = t.test(parse_ok("x: (y: y y) (y: y y)"), &every);
    assert_eq!(looping.result, Err(InterpretError::TooDeep));
    assert!(!looping.is_correct());
}

fn v1<T>(v: Vec<T>) -> Vec1<T> {
    Vec1::try_from_vec(v).unwrap()
}

#[test]
fn level_selection_navigation() {
    let config = game_config();
    let all = AllConstants::from_config(&config);
    let levels = load_all(&config, &all);
    let mut st = LevelSelectionState::new(&levels);
    assert_eq!(st.cursors(), (0, None));
    st.on_event(Key::Up);
    assert_eq!(st.cursors(), (2, None));
    st.on_event(Key::Down);
    st.on_event(Key::Down);
    assert_eq!(st.cursors(), (1, None));
    st.on_event(Key::Right);
    assert_eq!(st.cursors(), (1, Some(0)));
    st.on_event(Key::Up);
    assert_eq!(st.cursors(), (1, Some(2)));
    st.on_event(Key::Down);
    assert_eq!(st.cursors(), (1, Some(0)));
    st.on_event(Key::Down);
    assert_eq!(st.cursors(), (1, Some(1)));
    match st.tick(Some(Key::Return)) {
        (Some(SFX::Confirm), LevelSelectionEvent::OpenLevel(l)) => assert_eq!(l.base.name, "not"),
        _ => panic!("the level under the cursor should open"),
    }
    st.on_event(Key::Left);
    assert_eq!(st.cursors(), (1, None));
    assert!(matches!(st.tick(Some(Key::Return)), (Some(SFX::Select), LevelSelectionEvent::Stay)));
    assert_eq!(st.cursors(), (1, Some(0)));
    assert!(matches!(st.tick(Some(Key::Escape)), (Some(SFX::Select), LevelSelectionEvent::Stay)));
    assert_eq!(st.cursors(), (1, None));
    assert!(matches!(st.tick(None), (None, LevelSelectionEvent::Stay)));
    assert!(matches!(st.tick(Some(Key::Escape)), (Some(SFX::Back), LevelSelectionEvent::MainMenu)));
}

#[test]
fn results_of_solutions() {
    let config = game_config();
    let all = AllConstants::from_config(&config);
    let levels = load_all(&config, &all);
    let level = Level::GameLevel(levels[1].levels[1].clone());
    let provider = ConstantProvider::new(&level, &all);
    assert!(results_passed(&level.test("b: b FALSE TRUE", &provider, &all)));
    assert!(!results_passed(&level.test("b: b", &provider, &all)));
    assert!(!results_passed(&level.test("(b", &provider, &all)));
}

#[test]
fn playground_eval() {
    let config = game_config();
    let all = AllConstants::from_config(&config);
    let every = ConstantProvider::all(&all);
    let d = eval("(x: x) A", &every).unwrap().unwrap();
    assert_eq!(d.steps.len(), 2);
    assert_eq!(d.steps[0], parse_ok("(x: x) A"));
    assert_eq!(d.steps[1], parse_ok("A"));
    assert_eq!(d.interpreted, Ok(parse_ok("A")));
    assert!(eval("x + y", &every).is_err());
    assert!(matches!(eval("(x", &every), Ok(Err(_))));
    let looping = eval("(x: x x) (x: x x)", &every).unwrap().unwrap();
    assert!(looping.steps.len() > 1 && looping.steps.len() <= 75);
    assert_eq!(looping.interpreted, Err(InterpretError::TooDeep));

    let mut pg = PlaygroundState::new(every);
    assert!(matches!(pg.tick::<()>("NOT TRUE", false, false, None), GameStateEvent::Stay));
    assert!(pg.data.is_none());
    assert!(matches!(pg.tick::<()>("NOT TRUE", false, true, Some(Key::Return)), GameStateEvent::Stay));
    let d = pg.data.as_ref().unwrap().as_ref().unwrap().as_ref().unwrap();
    assert_eq!(d.steps[0], parse_ok("NOT TRUE"));
    assert!(d.interpreted.is_ok());
    assert!(matches!(pg.tick::<()>("A", true, false, Some(Key::Escape)), GameStateEvent::Pop(1)));
    let d = pg.data.as_ref().unwrap().as_ref().unwrap().as_ref().unwrap();
    assert_eq!(d.steps, vec![parse_ok("A")]);
}

#[test]
fn running_solution_screen() {
    let config = game_config();
    let all = AllConstants::from_config(&config);
    let levels = load_all(&config, &all);
    let level = Level::GameLevel(levels[1].levels[1].clone());
    let provider = ConstantProvider::new(&level, &all);
    let good = level.test("b: b FALSE TRUE", &provider, &all);
    let bad = level.test("b: b", &provider, &all);
    assert_eq!(running_tick(Some(&good), None), (Some(SFX::Win), RunningOutcome::ShowResults));
    assert_eq!(running_tick(Some(&bad), Some(Key::Escape)), (Some(SFX::Wrong), RunningOutcome::ShowResults));
    assert_eq!(running_tick(None, Some(Key::Escape)), (Some(SFX::Back), RunningOutcome::Back));
    assert_eq!(running_tick(None, Some(Key::Return)), (None, RunningOutcome::Waiting));
    assert_eq!(wait_text(400), "Running solution, please wait");
    assert_eq!(wait_text(1600), "Running solution, please wait...");
    assert_eq!(wait_text(2000), "Running solution, please wait");
}

#[test]
fn section_achievements() {
    let config = game_config();
    let all = AllConstants::from_config(&config);
    let levels = load_all(&config, &all);
    assert_eq!(levels[0].achievement_name(), "SECTION_BASIC");
    assert_eq!(levels[1].achievement_name(), "SECTION_BOOLEAN");
    assert!(levels[0].completed(&strings(&["first", "zero", "identity"])));
    assert!(!levels[0].completed(&strings(&["first"])));
    assert!(!levels[1].completed(&vec![]));
}

#[test]
fn user_levels_screen() {
    let lvl = Arc::new(UserCreatedLevel {
        base: BaseLevel {
            name: s("made by ana"),
            description: s("d"),
            extra_info: None,
            extra_info_is_hint: false,
            test_cases: v1(vec![TestCase::from(parse_ok("f: f"), parse_ok("A"))]),
        },
        extra_constants: vec![],
        id: Some(7),
    });
    let broken = Err((42, LoadLevelError::ItemNotInstalled));
    assert_eq!(description(&broken), "Can't load level 42. Item is not installed. Steam should install it automatically.");
    assert_eq!(
        description(&Err((1, LoadLevelError::ValidationError(s("no title"))))),
        "Can't load level 1. Error validating config: no title"
    );
    assert_eq!(description(&Ok(lvl.clone())), "made by ana");
    let mut st = UserCreatedLevelsState::new(vec![Ok(lvl.clone()), broken]);
    match st.tick(Some(Key::Return)) {
        (Some(SFX::Select), UserLevelsEvent::Open(l)) => assert_eq!(l.id, Some(7)),
        _ => panic!("the level should open"),
    }
    assert!(matches!(st.tick(Some(Key::Up)), (None, UserLevelsEvent::Stay)));
    assert!(matches!(st.tick(Some(Key::Return)), (Some(SFX::Wrong), UserLevelsEvent::Stay)));
    assert!(matches!(st.tick(Some(Key::Escape)), (Some(SFX::Back), UserLevelsEvent::Back)));
    let mut empty = UserCreatedLevelsState::new(vec![]);
    assert!(matches!(empty.tick(Some(Key::Return)), (None, UserLevelsEvent::Stay)));
}

#[test]
fn results_explain_button() {
    let config = game_config();
    let all = AllConstants::from_config(&config);
    let levels = load_all(&config, &all);
    let level = Level::GameLevel(levels[1].levels[1].clone());
    let provider = ConstantProvider::new(&level, &all);
    let good = level.test("b: b FALSE TRUE", &provider, &all);
    // a click on a test case's button wins over the keys
    assert!(matches!(results_frame::<()>(&good, Some(1), Some(Key::Escape)), (None, ResultsAction::Explain(1))));
    // a click past the test cases is no click
    assert!(matches!(
        results_frame::<()>(&good, Some(9), Some(Key::Return)),
        (Some(SFX::Confirm), ResultsAction::Event(GameStateEvent::Pop(2)))
    ));
    let unread = level.test("(b", &provider, &all);
    assert!(matches!(
        results_frame::<()>(&unread, Some(0), Some(Key::Return)),
        (None, ResultsAction::Event(GameStateEvent::Stay))
    ));
}

#[test]
fn full_interpretation_reduces_everywhere() {
    // inside functions and on the right of applications too
    assert_eq!(interpret_ok_full("x: (y: y) x", true), parse_ok("x: x"));
    assert_eq!(interpret_ok_full("z: z ((y: y) A)", true), parse_ok("z: z A"));
}
