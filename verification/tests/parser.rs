use functional::interpreter::parser::{parse, Node, ParseError, Variable};
use functional::interpreter::tokenizer::{tokenize, Token};

fn parse_ok(text: &str) -> Box<Node> {
    parse(tokenize(text).unwrap()).unwrap()
}

fn var(depth: usize) -> Box<Node> {
    Box::new(Node::Variable(Variable { depth, original: '-' }))
}

fn named(depth: usize, original: char) -> Box<Node> {
    Box::new(Node::Variable(Variable { depth, original }))
}

fn fun(body: Box<Node>) -> Box<Node> {
    Box::new(Node::Function { variable: '-', body })
}

fn app(left: Box<Node>, right: Box<Node>) -> Box<Node> {
    Box::new(Node::Apply { left, right })
}

fn parse_err(text: &str) -> ParseError {
    parse(tokenize(text).unwrap()).unwrap_err()
}

fn cst(name: &str) -> Box<Node> {
    Box::new(Node::Constant(name.to_string()))
}

#[test]
fn simple() {
    assert_eq!(parse_ok("A"), Box::new(Node::Constant("A".to_string())));
    assert_eq!(parse(vec![Token::Variable('x')]).unwrap(), named(0, 'x'));
    assert_ne!(parse(vec![Token::Variable('x')]).unwrap(), named(0, 'y'));
    assert_eq!(parse_ok("a bc c"), app(app(named(0, 'a'), cst("bc")), named(0, 'c')));
    assert_eq!(parse_ok("a b c"), app(app(named(0, 'a'), named(0, 'b')), named(0, 'c')));
    assert_eq!(parse_ok("x:y:x"), fun(fun(var(1))));
    assert_eq!(parse_ok("x:y:y"), fun(fun(var(0))));
    assert_eq!(parse_ok("x:y:z"), fun(fun(named(2, 'z'))));
    assert_eq!(parse_ok("(x: x) x"), app(fun(var(0)), named(0, 'x')));
    assert_eq!(parse_err(""), ParseError::MissingExpression);
}

#[test]
fn parenthesis() {
    assert_eq!(parse_ok("((x) (x: x))"), app(named(0, 'x'), fun(var(0))));
    assert_eq!(parse_ok("a b c"), parse_ok("((a b) c)"));
    assert_eq!(parse_err("(a b ())"), ParseError::MissingExpression);
    assert_eq!(parse_err("a)"), ParseError::ExtraCloseParenthesis);
    assert_eq!(parse_err("a (b c"), ParseError::UnclosedParenthesis);
}

#[test]
fn test_eq() {
    assert_eq!(named(0, 'x'), named(0, 'x'));
    assert_ne!(named(0, 'x'), named(0, 'y'));
    assert_ne!(cst("ab"), cst("hi"));
    // (x: x) == (y: y)
    assert_eq!(fun(named(0, 'x')), fun(named(0, 'y')));
    // (x: z) != (x: y)
    assert_ne!(fun(named(1, 'z')), fun(named(1, 'y')));
}

#[test]
fn parse_eq() {
    assert_eq!(parse_ok("(x: x) x"), parse_ok("(y: y) x"));
    assert_eq!(parse_ok("(x: x) (x: x)"), parse_ok("(y: y) (z :z)"));
    assert_eq!(parse_ok("(x: x y) (z: z y)"), parse_ok("(x: x y) (x: x y)"));
    assert_ne!(parse_ok("(x: x y) (z: z y)"), parse_ok("(x: x y) (z: z a)"));
    assert_ne!(parse_ok("(x: x x)"), parse_ok("(x: x y)"));
    // Variable names may be reused if they're bound, and it still works
    assert_eq!(fun(fun(named(0, 'x'))), fun(fun(named(0, 'y'))));
    assert_ne!(fun(fun(var(0))), fun(fun(var(1))));
    assert_eq!(parse_ok("(x: x) (x: x)"), app(fun(var(0)), fun(var(0))));
}

#[test]
fn some_errors() {
    assert_eq!(parse(vec![Token::Colon]).unwrap_err(), ParseError::ExtraColon);
    assert_eq!(parse_err("a: b c: d"), ParseError::FunctionInsideBody);
    assert_eq!(parse_err("x:"), ParseError::MissingExpression);
    assert_eq!(parse_err("x: : y"), ParseError::ExtraColon);
}

#[test]
fn unbound_variables_keep_their_nesting() {
    // a variable that no function binds gets the number of functions around it
    assert_eq!(parse_ok("x: y: (z: w)"), fun(fun(fun(named(3, 'w')))));
    // the innermost function of a name binds it
    assert_eq!(parse_ok("x: x: x"), fun(fun(var(0))));
}

#[test]
fn clone_is_equal() {
    let n = parse_ok("(x: y: x y) (a: A)");
    assert_eq!(n.clone(), n);
}
