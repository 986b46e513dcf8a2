use vec1::Vec1;
use functional::gamestates::level_creator::{
    check_solutions, validate_workshop, ParsedUserLevelConfig, UserLevelConfig, ValidationError, WorkshopConfig,
};
use functional::interpreter::constants::AllConstants;
use functional::interpreter::parser::ParseError;
use functional::interpreter::tokenizer::TokenizeError;
use functional::levels::section::SectionName;
use functional::levels::{JLevel, JLevelConfig, JSection, Level, UserCreatedLevel};

fn s(x: &str) -> String {
    x.to_string()
}

fn pairs(v: &[(&str, &str)]) -> Vec<(String, String)> {
    v.iter().map(|(a, b)| (s(a), s(b))).collect()
}

fn strings(v: &[&str]) -> Vec<String> {
    v.iter().map(|x| s(x)).collect()
}

fn level(
    name: &str,
    test_cases: &[(&str, &str)],
    solutions: &[&str],
    wrong_solutions: &[&str],
    provides_constant: bool,
    before_level_constants: &[(&str, &str)],
) -> JLevel {
    JLevel {
        name: s(name),
        description: format!("Solve {}", name),
        extra_info: None,
        test_cases: v1(pairs(test_cases)),
        solutions: v1(strings(solutions)),
        wrong_solutions: strings(wrong_solutions),
        provides_constant,
        show_constants: true,
        before_level_constants: pairs(before_level_constants),
        extra_info_is_hint: false,
    }
}

/// A small level configuration in the shape of the game's: a basic section,
/// a boolean section that introduces TRUE, FALSE, IF, NOT and AND, and a
/// numerals section.
fn game_config() -> JLevelConfig {
    JLevelConfig {
        sections: v1(vec![
            JSection {
                name: SectionName::Basic,
                levels: v1(vec![
                    level("identity", &[("f: f A", "A")], &["x: x"], &["x: B"], false, &[]),
                    level("first", &[("f: f A B", "A")], &["a: b: a"], &["a: b: b"], false, &[]),
                ]),
            },
            JSection {
                name: SectionName::Boolean,
                levels: v1(vec![
                    level(
                        "if",
                        &[("f: f TRUE A B", "A"), ("f: f FALSE A B", "B")],
                        &["c: t: e: c t e"],
                        &["c: t: e: t"],
                        true,
                        &[("TRUE", "a: b: a"), ("FALSE", "a: b: b")],
                    ),
                    level(
                        "not",
                        &[("f: f TRUE", "FALSE"), ("f: f FALSE", "TRUE")],
                        &["b: b FALSE TRUE", "b: IF b FALSE TRUE"],
                        &["b: b"],
                        true,
                        &[],
                    ),
                    level(
                        "and",
                        &[
                            ("f: f TRUE TRUE", "TRUE"),
                            ("f: f TRUE FALSE", "FALSE"),
                            ("f: f FALSE TRUE", "FALSE"),
                        ],
                        &["a: b: a b FALSE"],
                        &["a: b: a"],
                        true,
                        &[],
                    ),
                ]),
            },
            JSection {
                name: SectionName::Numerals,
                levels: v1(vec![level("zero", &[("f: f A B", "B")], &["f: x: x"], &["f: x: f x"], false, &[])]),
            },
        ]),
        tests: v1(pairs(&[("NOT TRUE", "FALSE"), ("IF TRUE A B", "A"), ("AND TRUE FALSE", "FALSE")])),
    }
}

fn workshop() -> WorkshopConfig {
    WorkshopConfig { title: "a".to_string(), description: "b".to_string(), ..Default::default() }
}

fn config(test_cases: &[(&str, &str)], solutions: &[&str]) -> UserLevelConfig {
    UserLevelConfig {
        name: None,
        description: None,
        extra_info: None,
        hint: None,
        test_cases: v1(pairs(test_cases)),
        solutions: v1(strings(solutions)),
        wrong_solutions: vec![],
        extra_constants: vec![],
    }
}

fn validate_config(c: UserLevelConfig) -> Result<ParsedUserLevelConfig, ValidationError> {
    let all = AllConstants::from_config(&game_config());
    validate_workshop(&workshop())?;
    c.validate(workshop(), &all)
}

#[test]
fn validation_errors() {
    assert!(matches!(validate_workshop(&WorkshopConfig::default()), Err(ValidationError::EmptyTitle)));
    assert!(matches!(
        validate_workshop(&WorkshopConfig { title: "a".to_string(), ..Default::default() }),
        Err(ValidationError::EmptyDescription)
    ));
    assert!(matches!(
        validate_config(config(&[("f:A", "A")], &["(a"])),
        Err(ValidationError::ParseError(..))
    ));
    assert!(matches!(
        validate_config(config(&[("f:A", "B")], &["x:x"])),
        Err(ValidationError::WrongSolution { sol_idx: 1, test_idx: 1, got: _, expected: _ })
    ));
    let mut c = config(&[("f:A", "A")], &["x:A"]);
    c.wrong_solutions = c.solutions.to_vec();
    assert!(matches!(validate_config(c), Err(ValidationError::WrongSolutionIsCorrect(..))));
    assert!(matches!(
        validate_config(config(&[("f: f A", "A A")], &["UNKNOWN"])),
        Err(ValidationError::WrongSolution { .. })
    ));
    let mut c = config(&[("f: f A", "A")], &["x:x"]);
    c.extra_constants = pairs(&[("A2", "x: x x")]);
    assert!(matches!(validate_config(c), Err(ValidationError::InvalidConstantName(..))));
}

#[test]
fn validation_ok() {
    assert!(validate_config(config(&[("f:A", "A")], &["x:x"])).is_ok());
    let mut c = config(&[("f: f TRUE FALSE A B", "A"), ("f: f FALSE FALSE A B", "B")], &["a:b: x:y: a x (b x y)"]);
    c.wrong_solutions = strings(&["x:x"]);
    assert!(validate_config(c).is_ok());
    let mut c = config(&[("f: f A", "A A")], &["DOUBLE"]);
    c.extra_constants = pairs(&[("DOUBLE", "x: x x")]);
    assert!(validate_config(c).is_ok());
}

#[test]
fn validation_error_details() {
    let mut c = config(&[("f:A", "A")], &["x:x"]);
    c.extra_info = Some(s("info"));
    c.hint = Some(s("hint"));
    assert!(matches!(validate_config(c), Err(ValidationError::HasExtraInfoAndHint)));
    match validate_config(config(&[("f:A", "A"), ("f: f", "1")], &["x:x"])) {
        Err(ValidationError::TokenizeError(TokenizeError::UnknownCharacter('1'), source)) => {
            assert_eq!(source, "test case #2's result")
        },
        other => panic!("unexpected {:?}", other.is_ok()),
    }
    match validate_config(config(&[("f:A", "A")], &["x:x", "x:"])) {
        Err(ValidationError::ParseError(ParseError::MissingExpression, source)) => {
            assert_eq!(source, "solution #2")
        },
        other => panic!("unexpected {:?}", other.is_ok()),
    }
    match validate_config(config(&[("f: f A", "A"), ("f: f B", "B")], &["x: x", "x: (y: y y) (y: y y)"])) {
        Err(ValidationError::InterpretError(_, source)) => assert_eq!(source, "solution #2 on test case #1"),
        other => panic!("unexpected {:?}", other.is_ok()),
    }
    let mut c = config(&[("f: f A", "A")], &["x:x"]);
    c.extra_constants = pairs(&[("OK_NAME", "x: x"), ("BAD", "x: (")]);
    match validate_config(c) {
        Err(ValidationError::ParseError(_, source)) => assert_eq!(source, "constant 'BAD'"),
        other => panic!("unexpected {:?}", other.is_ok()),
    }
}

#[test]
fn validated_config_keeps_texts() {
    let mut c = config(&[("f: f A", "A")], &["x: x"]);
    c.hint = Some(s("try identity"));
    c.name = Some(s("Mine"));
    c.extra_constants = pairs(&[("ID", "x: x")]);
    let p = validate_config(c).unwrap();
    assert_eq!(p.name, "Mine");
    assert_eq!(p.description, "b");
    assert_eq!(p.extra_info, Some(s("try identity")));
    assert!(p.extra_info_is_hint);
    assert_eq!(p.test_cases, v1(pairs(&[("f: f A", "A")])));
    let level = UserCreatedLevel::try_from(p).unwrap();
    assert_eq!(level.base.name, "Mine");
    assert_eq!(level.extra_constants.len(), 1);
    assert_eq!(level.id, None);
}

#[test]
fn level_from_config_errors() {
    let p = ParsedUserLevelConfig {
        name: s("n"),
        description: s("d"),
        extra_info: None,
        extra_info_is_hint: false,
        test_cases: v1(pairs(&[("f: f A", "(A")])),
        extra_constants: vec![],
    };
    match Level::try_from(p) {
        Err(ValidationError::ParseError(ParseError::UnclosedParenthesis, source)) => {
            assert_eq!(source, "test case 1's result")
        },
        _ => panic!("expected a parse error"),
    }
}

#[test]
fn solutions_checked_in_order() {
    let all = AllConstants::from_config(&game_config());
    let every = functional::interpreter::constants::ConstantProvider::all(&all);
    let cases = vec![functional::levels::TestCase::from_or_fail("f: f A", "A", &all)];
    let parse = |t: &str| functional::levels::base::parse_or_fail(t);
    assert!(check_solutions(&cases, &vec![parse("x: x")], &vec![parse("x: B")], &every).is_ok());
    assert!(matches!(
        check_solutions(&cases, &vec![parse("x: x")], &vec![parse("x: B"), parse("y: y")], &every),
        Err(ValidationError::WrongSolutionIsCorrect(1))
    ));
}

fn v1<T>(v: Vec<T>) -> Vec1<T> {
    Vec1::try_from_vec(v).unwrap()
}

#[test]
fn checked_validation() {
    let all = AllConstants::from_config(&game_config());
    let good = config(&[("f: f A", "A")], &["x: x"]);
    let parsed = good.validate_checked(workshop(), &all).unwrap().unwrap();
    assert_eq!(parsed.name, "a");
    let wrong = config(&[("f: f A", "A")], &["x: B"]);
    assert!(matches!(wrong.validate_checked(workshop(), &all), Some(Err(_))));
    let level = Level::try_from_checked(parsed).unwrap().unwrap();
    assert_eq!(level.base().name, "a");
    let parsed = config(&[("f: f A", "A")], &["x: x"]).validate_checked(workshop(), &all).unwrap().unwrap();
    assert!(UserCreatedLevel::try_from_checked(parsed).unwrap().is_ok());
}
