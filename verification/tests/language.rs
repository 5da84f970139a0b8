use control_playground::ast::{BinOp, Expression, Program, Statement, SystemItem, SystemItemRhs, UnOp};
use control_playground::execution::{
    execute, load_matrix, run as run_text, table_to_matrix, Env, Error, Files, Output,
};
use control_playground::grammar::{ExpressionParser, ParseError, ProgramParser};
use control_playground::lexer::{tokenize, Token};
use control_playground::number::parse_decimal;
use control_playground::scalar::{Decimal, Scalar};
use control_playground::whole::Whole;

/// Double precision numbers as the engine's scalars.
#[derive(Clone, Copy, Debug, PartialEq)]
struct Real(f64);

impl Scalar for Real {
    fn spec_zero() -> Self {
        Real(0.0)
    }
    fn zero() -> Self {
        Self::spec_zero()
    }
    fn spec_one() -> Self {
        Real(1.0)
    }
    fn one() -> Self {
        Self::spec_one()
    }
    fn spec_from_decimal(d: Decimal) -> Self {
        let sign = if d.negative { "-" } else { "" };
        Real(format!("{}{}e{}", sign, d.mantissa, d.exponent).parse().unwrap())
    }
    fn from_decimal(d: Decimal) -> Self {
        Self::spec_from_decimal(d)
    }
    fn spec_plus(self, rhs: Self) -> Self {
        Real(self.0 + rhs.0)
    }
    fn plus(self, rhs: Self) -> Self {
        self.spec_plus(rhs)
    }
    fn spec_minus(self, rhs: Self) -> Self {
        Real(self.0 - rhs.0)
    }
    fn minus(self, rhs: Self) -> Self {
        self.spec_minus(rhs)
    }
    fn spec_times(self, rhs: Self) -> Self {
        Real(self.0 * rhs.0)
    }
    fn times(self, rhs: Self) -> Self {
        self.spec_times(rhs)
    }
    fn spec_over(self, rhs: Self) -> Self {
        Real(self.0 / rhs.0)
    }
    fn over(self, rhs: Self) -> Self {
        self.spec_over(rhs)
    }
    fn spec_negated(self) -> Self {
        Real(-self.0)
    }
    fn negated(self) -> Self {
        self.spec_negated()
    }
    fn spec_magnitude(self) -> Self {
        Real(self.0.abs())
    }
    fn magnitude(self) -> Self {
        self.spec_magnitude()
    }
    fn spec_is_zero(self) -> bool {
        self.0 == 0.0
    }
    fn is_zero(self) -> bool {
        self.spec_is_zero()
    }
    fn spec_is_one(self) -> bool {
        self.0 == 1.0
    }
    fn is_one(self) -> bool {
        self.spec_is_one()
    }
    fn spec_is_negative(self) -> bool {
        self.0 < 0.0
    }
    fn is_negative(self) -> bool {
        self.spec_is_negative()
    }
    fn spec_to_fixed(self) -> String {
        format!("{:.3}", self.0)
    }
    fn to_fixed(self) -> String {
        self.spec_to_fixed()
    }
    fn spec_to_text(self) -> String {
        format!("{}", self.0)
    }
    fn to_text(self) -> String {
        self.spec_to_text()
    }
}

fn files(entries: &[(&str, &str)]) -> Files {
    let mut store = Files::new();
    for (name, text) in entries {
        store.insert(name.to_string(), text.to_string());
    }
    store
}

fn run_with(source: &str, files: Files) -> Vec<Output<Real>> {
    run_text(source, &files).unwrap()
}

fn run(source: &str) -> Vec<Output<Real>> {
    run_with(source, files(&[]))
}

fn text(output: &Output<Real>) -> &str {
    match output {
        Output::Text(t) => t,
        other => panic!("no text: {:?}", other),
    }
}

fn plot(output: &Output<Real>) -> Vec<Vec<f64>> {
    match output {
        Output::Plot(m) => (0..m.nrows()).map(|i| m.row(i).iter().map(|v| v.0).collect()).collect(),
        other => panic!("no plot: {:?}", other),
    }
}

fn error(output: &Output<Real>) -> &Error {
    match output {
        Output::Error(e) => e,
        other => panic!("no error: {:?}", other),
    }
}

fn other(message: &str) -> Error {
    Error::Other(message.to_string())
}

fn number(mantissa: u64, exponent: i32) -> Expression {
    Expression::FloatLiteral(Decimal { negative: false, mantissa, exponent })
}

fn minus(mantissa: u64, exponent: i32) -> Expression {
    Expression::FloatLiteral(Decimal { negative: true, mantissa, exponent })
}

fn name(n: &str) -> Expression {
    Expression::Identifier(n.to_string())
}

fn parse(source: &str) -> Expression {
    ExpressionParser::new().parse(source).unwrap()
}

fn decimal(source: &str) -> Option<Decimal> {
    parse_decimal(&source.chars().collect())
}

#[test]
fn expression_parser() {
    let list = ExpressionParser::new().parse("tf( [56.6, 4,    -3.3], [])").unwrap();
    assert_eq!(
        list,
        Expression::FunctionCall {
            function: Expression::Identifier("tf".into()).into(),
            arguments: vec![
                Expression::VectorLiteral(vec![number(566, -1), number(4, 0), minus(33, -1)]),
                Expression::VectorLiteral(vec![]),
            ]
        }
    );
}

#[test]
fn vectors_take_commas_or_blanks() {
    let expected = Expression::VectorLiteral(vec![number(566, -1), number(4, 0), minus(33, -1)]);
    assert_eq!(parse("[56.6 4 -3.3]"), expected);
    assert_eq!(parse("[56.6, 4, -3.3]"), expected);
    assert_eq!(parse("[56.6,4 -3.3]"), expected);
    assert_eq!(parse("[a -b]"), Expression::VectorLiteral(vec![name("a"), Expression::UnOp(UnOp::Neg, Box::new(name("b")))]));
    assert_eq!(ExpressionParser::new().parse("[1,]"), Err(ParseError::UnexpectedToken));
    assert_eq!(ExpressionParser::new().parse("[,1]"), Err(ParseError::UnexpectedToken));
    assert_eq!(ExpressionParser::new().parse("[1 2"), Err(ParseError::UnexpectedToken));
}

#[test]
fn operators_have_their_precedence() {
    let b = |e: Expression| Box::new(e);
    assert_eq!(
        parse("1 + 2 * 3"),
        Expression::BinOp(BinOp::Add, b(number(1, 0)), b(Expression::BinOp(BinOp::Mul, b(number(2, 0)), b(number(3, 0)))))
    );
    assert_eq!(
        parse("1 - 2 - 3"),
        Expression::BinOp(BinOp::Sub, b(Expression::BinOp(BinOp::Sub, b(number(1, 0)), b(number(2, 0)))), b(number(3, 0)))
    );
    assert_eq!(
        parse("8 / 4 / 2"),
        Expression::BinOp(BinOp::Div, b(Expression::BinOp(BinOp::Div, b(number(8, 0)), b(number(4, 0)))), b(number(2, 0)))
    );
    assert_eq!(
        parse("(1 + 2) * x"),
        Expression::BinOp(BinOp::Mul, b(Expression::BinOp(BinOp::Add, b(number(1, 0)), b(number(2, 0)))), b(name("x")))
    );
    assert_eq!(parse("a -2"), Expression::BinOp(BinOp::Sub, b(name("a")), b(number(2, 0))));
    assert_eq!(parse("a * -2"), Expression::BinOp(BinOp::Mul, b(name("a")), b(minus(2, 0))));
    assert_eq!(parse("-x"), Expression::UnOp(UnOp::Neg, b(name("x"))));
    assert_eq!(parse("--1.5"), Expression::UnOp(UnOp::Neg, b(minus(15, -1))));
}

#[test]
fn calls_and_texts() {
    assert_eq!(
        parse("load(\"a b.csv\")"),
        Expression::FunctionCall {
            function: Box::new(name("load")),
            arguments: vec![Expression::StringLiteral("a b.csv".to_string())],
        }
    );
    assert_eq!(
        parse("f()(x, 1)"),
        Expression::FunctionCall {
            function: Box::new(Expression::FunctionCall { function: Box::new(name("f")), arguments: vec![] }),
            arguments: vec![name("x"), number(1, 0)],
        }
    );
    assert_eq!(ExpressionParser::new().parse("f(x,)"), Err(ParseError::UnexpectedToken));
    assert_eq!(ExpressionParser::new().parse("f(x"), Err(ParseError::UnexpectedToken));
    assert_eq!(ExpressionParser::new().parse("\"open"), Err(ParseError::InvalidToken));
    assert_eq!(ExpressionParser::new().parse("1 $ 2"), Err(ParseError::InvalidToken));
    assert_eq!(ExpressionParser::new().parse(""), Err(ParseError::UnexpectedToken));
    assert_eq!(ExpressionParser::new().parse("1 2"), Err(ParseError::UnexpectedToken));
    assert_eq!(ParseError::InvalidToken.to_string(), "invalid token");
    assert_eq!(ParseError::UnexpectedToken.to_string(), "unexpected token");
}

#[test]
fn system_blocks() {
    let expected = Expression::System(vec![
        SystemItem {
            output_name: "e".to_string(),
            rhs: SystemItemRhs::Difference { input1_name: "u".to_string(), input2_name: "y".to_string() },
        },
        SystemItem {
            output_name: "y".to_string(),
            rhs: SystemItemRhs::System { system_name: "plant".to_string(), input_name: "e".to_string() },
        },
    ]);
    assert_eq!(parse("system { e = u - y; y = plant(e) }"), expected);
    assert_eq!(parse("system {\n  e = u - y\n  y = plant(e)\n}"), expected);
    assert_eq!(ExpressionParser::new().parse("system { }"), Err(ParseError::UnexpectedToken));
    assert_eq!(ExpressionParser::new().parse("system { e = u + y }"), Err(ParseError::UnexpectedToken));
    assert_eq!(ExpressionParser::new().parse("system { e = u - y y = p(e) }"), Err(ParseError::UnexpectedToken));
}

#[test]
fn programs_are_statements_on_lines() {
    let program = ProgramParser::new().parse("a = 1; a\n\n b = a + 2 ;\n").unwrap();
    assert_eq!(
        program,
        Program {
            statements: vec![
                Statement::Assign("a".to_string(), number(1, 0)),
                Statement::ExpressionStatement(name("a")),
                Statement::Assign(
                    "b".to_string(),
                    Expression::BinOp(BinOp::Add, Box::new(name("a")), Box::new(number(2, 0)))
                ),
            ]
        }
    );
    assert_eq!(ProgramParser::new().parse("").unwrap(), Program::default());
    assert_eq!(ProgramParser::new().parse(" \n;\n").unwrap(), Program::default());
    assert_eq!(ProgramParser::new().parse("a = 1 b = 2"), Err(ParseError::UnexpectedToken));
    assert_eq!(ProgramParser::new().parse("a = "), Err(ParseError::UnexpectedToken));
    assert_eq!(ProgramParser::new().parse("a # b"), Err(ParseError::InvalidToken));
}

#[test]
fn tokens_know_their_places() {
    assert!(tokenize(&"2.5.".chars().collect()).is_none());
    let tokens = tokenize(&"ab_1 = \"x y\" system systems 2.5 7 x".chars().collect()).unwrap();
    assert_eq!(
        tokens,
        vec![
            Token::Identifier { start: 0, end: 4 },
            Token::Equals,
            Token::Text { start: 8, end: 11 },
            Token::System,
            Token::Identifier { start: 20, end: 27 },
            Token::Number(Decimal { negative: false, mantissa: 25, exponent: -1 }),
            Token::Number(Decimal { negative: false, mantissa: 7, exponent: 0 }),
            Token::Identifier { start: 34, end: 35 },
        ]
    );
    assert_eq!(
        tokenize(&"99999999999999999999".chars().collect()),
        Some(vec![Token::Number(Decimal { negative: false, mantissa: 9999999999999999999, exponent: 1 })])
    );
}

#[test]
fn decimal_numbers() {
    let d = |negative, mantissa, exponent| Some(Decimal { negative, mantissa, exponent });
    assert_eq!(decimal("12"), d(false, 12, 0));
    assert_eq!(decimal("-0.5"), d(true, 5, -1));
    assert_eq!(decimal("+2.50"), d(false, 250, -2));
    assert_eq!(decimal(".25"), d(false, 25, -2));
    assert_eq!(decimal("3."), d(false, 3, 0));
    assert_eq!(decimal("1e-3"), d(false, 1, -3));
    assert_eq!(decimal("1.5E+2"), d(false, 15, 1));
    assert_eq!(decimal("007"), d(false, 7, 0));
    assert_eq!(decimal("18446744073709551615"), d(false, u64::MAX, 0));
    assert_eq!(decimal("18446744073709551616"), d(false, 1844674407370955161, 1));
    assert_eq!(decimal("123456789012345678901234567890"), d(false, 12345678901234567890, 10));
    assert_eq!(decimal("1234567890.12345678901234567890"), d(false, 12345678901234567890, -10));
    assert_eq!(decimal("0.000000000000000000000000000012"), d(false, 12, -30));
    assert_eq!(decimal("1.0000000000000000000000000000"), d(false, 10000000000000000000, -19));
    assert_eq!(decimal("00000000000000000000000000000012"), d(false, 12, 0));
    assert_eq!(decimal("-99999999999999999999e-5"), d(true, 9999999999999999999, -4));
    assert_eq!(decimal("1e2147483647"), d(false, 1, 2147483647));
    assert_eq!(decimal("1e2147483648"), None);
    assert_eq!(decimal("10e2147483647"), d(false, 10, 2147483647));
    assert_eq!(decimal("0.1e-2147483648"), None);
    for bad in ["", "-", ".", "e5", "1e", "1e+", "1.2.3", " 1", "1 ", "abc", "1x", "inf", "NaN"] {
        assert_eq!(decimal(bad), None, "{bad}");
    }
}

#[test]
fn whole_numbers() {
    let d = |negative, mantissa, exponent| Whole::from_decimal(Decimal { negative, mantissa, exponent });
    assert_eq!(d(false, 12, 0), Whole(12));
    assert_eq!(d(true, 12, 2), Whole(-1200));
    assert_eq!(d(false, 1299, -2), Whole(12));
    assert_eq!(d(true, 5, -1), Whole(0));
    assert_eq!(d(false, 5, 30), Whole(i64::MAX));
    assert_eq!(d(true, u64::MAX, 0), Whole(-i64::MAX));
    assert_eq!(d(false, 0, i32::MAX), Whole(0));
    assert_eq!(d(false, 7, i32::MIN), Whole(0));
    assert_eq!(Whole(7).plus(Whole(-9)), Whole(-2));
    assert_eq!(Whole(i64::MAX).plus(Whole(1)), Whole(i64::MIN));
    assert_eq!(Whole(7).minus(Whole(9)), Whole(-2));
    assert_eq!(Whole(7).times(Whole(-3)), Whole(-21));
    assert_eq!(Whole(-7).over(Whole(2)), Whole(-3));
    assert_eq!(Whole(7).over(Whole(0)), Whole(0));
    assert_eq!(Whole(i64::MIN).over(Whole(-1)), Whole(0));
    assert_eq!(Whole(7).negated(), Whole(-7));
    assert_eq!(Whole(-7).magnitude(), Whole(7));
    assert_eq!(Whole::zero(), Whole(0));
    assert_eq!(Whole::one(), Whole(1));
    assert!(Whole(0).is_zero() && !Whole(1).is_zero());
    assert!(Whole(1).is_one() && !Whole(0).is_one());
    assert!(Whole(-1).is_negative() && !Whole(0).is_negative());
    assert_eq!(Whole(-1203).to_text(), "-1203");
    assert_eq!(Whole(0).to_text(), "0");
    assert_eq!(Whole(i64::MIN).to_text(), "-9223372036854775808");
    assert_eq!(Whole(45).to_fixed(), "45.000");
}

#[test]
fn whole_numbers_run_programs() {
    let program = ProgramParser::new().parse("step(tf([1], [1, -1]))\ntf([-2, 0, 3], [1])\n7 / 2").unwrap();
    let out: Vec<Output<Whole>> = execute(&program, &files(&[]));
    match &out[0] {
        Output::Plot(m) => {
            assert_eq!((m.nrows(), m.ncols()), (1, 36));
            let expected: Vec<Whole> = (1..=36).map(Whole).collect();
            assert_eq!(m.row(0), &expected);
        }
        other => panic!("no plot: {:?}", other),
    }
    assert_eq!(out[1], Output::Text("-2 + 3 z^-2\n".to_string()));
    assert_eq!(out[2], Output::Text("3".to_string()));
}

#[test]
fn step_response_of_a_transfer_function() {
    let out = run("a = tf([1], [1, -0.5]); step(a)");
    assert_eq!(out.len(), 1);
    let rows = plot(&out[0]);
    assert_eq!(rows.len(), 1);
    assert_eq!(rows[0].len(), 36);
    assert_eq!(&rows[0][..4], &[1.0, 1.5, 1.75, 1.875]);
    assert!((rows[0][35] - 2.0).abs() <= 2.0 * 0.5f64.powi(35));
}

#[test]
fn step_response_of_a_state_space_model() {
    let out = run("step(tf2ss(tf([1], [1, -0.5])))");
    assert_eq!(&plot(&out[0])[0][..4], &[1.0, 1.5, 1.75, 1.875]);
}

#[test]
fn a_gain_gives_a_constant_row() {
    let out = run("step(tf([2.5], [1]))");
    assert_eq!(plot(&out[0]), vec![vec![2.5; 36]]);
}

#[test]
fn transfer_function_is_shown() {
    let out = run("tf([1,2],[1])");
    assert_eq!(text(&out[0]), "1 + 2 z^-1\n");
    let out = run("tf([-1, 1.5, -2], [1.5, 0.5, 0.75])");
    assert_eq!(
        text(&out[0]),
        "  -1 + 1.5 z^-1 - 2 z^-2\n--------------------------\n1.5 + 0.5 z^-1 + 0.75 z^-2\n"
    );
}

#[test]
fn a_zero_leading_coefficient_is_no_state_space_model() {
    let out = run("t = tf([1],[0,1])\nt\ntf2ss(t)\nstep(t)");
    assert_eq!(out.len(), 3);
    assert_eq!(text(&out[0]), " 1\n----\nz^-1\n");
    assert_eq!(error(&out[1]), &other("Could not convert to state space"));
    assert_eq!(error(&out[2]), &other("could not init sim"));
}

#[test]
fn unbound_names() {
    let out = run("foo\nfoo(1)\nstep(foo)\n(foo + 1)(2)");
    assert_eq!(error(&out[0]), &Error::NullDeref("foo".to_string()));
    assert_eq!(error(&out[1]), &Error::UnknownFunction("foo".to_string()));
    assert_eq!(error(&out[2]), &Error::NullDeref("foo".to_string()));
    assert_eq!(error(&out[3]), &Error::UnknownFunction("foo".to_string()));
}

#[test]
fn a_system_reads_what_is_defined_before() {
    let out = run("plant = tf([1], [1, -0.5])\ns = system { e = u - y; y = plant(e) }\ns");
    assert_eq!(out.len(), 2);
    assert_eq!(error(&out[0]), &other("signal y does not exist"));
    assert_eq!(error(&out[1]), &Error::NullDeref("s".to_string()));
    let out = run("plant = tf([1], [1, -0.5])\ns = system { y = plant(u); e = u - y }\ns\nstep(s)");
    assert_eq!(out.len(), 2);
    match &out[0] {
        Output::System(system) => {
            assert_eq!(system.components.len(), 2);
            assert_eq!(system.components[1].name, "e");
        }
        other => panic!("no system: {:?}", other),
    }
    assert_eq!(&plot(&out[1])[0][..4], &[0.0, -0.5, -0.75, -0.875]);
}

#[test]
fn systems_with_faults() {
    let out = run("p = tf([1],[1])\nsystem { a = p(u); a = p(u) }\nsystem { a = q(u) }\nsystem { a = step(u) }");
    assert_eq!(error(&out[0]), &other("duplicate name a"));
    assert_eq!(error(&out[1]), &Error::NullDeref("q".to_string()));
    assert_eq!(error(&out[2]), &Error::TypeError);
}

#[test]
fn a_store_of_files() {
    let mut store = files(&[("a", "1"), ("b", "2")]);
    assert_eq!(store.read_file("a"), Some("1".to_string()));
    assert_eq!(store.read_file("b"), Some("2".to_string()));
    assert_eq!(store.read_file("c"), None);
    assert_eq!(store.read_file(""), None);
    store.insert("a".to_string(), "3".to_string());
    assert_eq!(store.read_file("a"), Some("3".to_string()));
    assert_eq!(Files::new().read_file("a"), None);
}

#[test]
fn the_file_that_is_named_is_read() {
    let store = files(&[("one.csv", "1\n"), ("two.csv", "2\n"), ("", "3\n")]);
    let out = run_with("load(\"two.csv\")\nname = \"one.csv\"\nload(name)\nload(\"\")", store);
    assert_eq!(plot(&out[0]), vec![vec![2.0]]);
    assert_eq!(plot(&out[1]), vec![vec![1.0]]);
    assert_eq!(plot(&out[2]), vec![vec![3.0]]);
}

#[test]
fn a_missing_file() {
    let out = run("load(\"missing.csv\")");
    assert_eq!(error(&out[0]), &other("file missing.csv could not be read"));
}

#[test]
fn a_table_becomes_a_matrix_of_columns() {
    let store = files(&[("data.csv", "1,2.5\n3,-4\n5e1,6\n"), ("bad.csv", "1,x\n"), ("ragged.csv", "1,2\n3\n")]);
    let out = run_with("load(\"data.csv\")\nload(\"bad.csv\")\nload(\"ragged.csv\")", store);
    assert_eq!(plot(&out[0]), vec![vec![1.0, 3.0, 50.0], vec![2.5, -4.0, 6.0]]);
    assert_eq!(error(&out[1]), &other("Error while parsing csv"));
    assert_eq!(error(&out[2]), &other("Error while parsing csv"));
}

#[test]
fn tables_and_files_without_a_program() {
    let row = |cells: &[&str]| cells.iter().map(|c| c.to_string()).collect::<Vec<String>>();
    let m = table_to_matrix::<Real>(&vec![row(&["1", "2"]), row(&["3", "4"]), row(&["5", "6"])]).unwrap();
    assert_eq!((m.nrows(), m.ncols()), (2, 3));
    assert_eq!(m.row(1), &vec![Real(2.0), Real(4.0), Real(6.0)]);
    let empty = table_to_matrix::<Real>(&vec![]).unwrap();
    assert_eq!((empty.nrows(), empty.ncols()), (0, 0));
    assert_eq!(table_to_matrix::<Real>(&vec![row(&["1"]), row(&["1", "2"])]), Err(other("Error while parsing csv")));
    assert_eq!(table_to_matrix::<Real>(&vec![row(&["one"])]), Err(other("Error while parsing csv")));
    let quoted = load_matrix::<Real>(&"q".to_string(), Some("\"1\",\"2\"\n".to_string())).unwrap();
    assert_eq!(quoted.row(0), &vec![Real(1.0)]);
    assert_eq!(quoted.row(1), &vec![Real(2.0)]);
    assert_eq!(load_matrix::<Real>(&"n".to_string(), None), Err(other("file n could not be read")));
}

#[test]
fn long_numbers_are_read() {
    let out = run("123456789012345678901234567890\n0.10000000000000000000000000000000\n1.00000000000000000000000000000000001");
    let shown: Vec<&str> = out.iter().map(text).collect();
    assert_eq!(shown, vec!["123456789012345680000000000000", "0.1", "1"]);
    let store = files(&[("long.csv", "3.14159265358979323846264338327950288,100000000000000000000\n")]);
    let out = run_with("load(\"long.csv\")", store);
    assert_eq!(plot(&out[0]), vec![vec![3.14159265358979323846264338327950288], vec![1e20]]);
}

#[test]
fn arithmetic_on_numbers() {
    let out = run("1 + 2 * 3\n(1 + 2) * 3\n7 / 2\n-(2 - 5)\n1 / 0\nx = 1.5; x - 0.25");
    let shown: Vec<&str> = out.iter().map(text).collect();
    assert_eq!(shown, vec!["7", "9", "3.5", "3", "inf", "1.25"]);
}

#[test]
fn values_are_shown_by_their_kind() {
    let out = run("\"hello\"\n[1, 2.5, -3]\nstep\ntf2ss(tf([2],[4]))");
    assert_eq!(text(&out[0]), "hello");
    assert_eq!(text(&out[1]), "[1, 2.5, -3]");
    assert_eq!(text(&out[2]), "<builtin_function>");
    assert_eq!(text(&out[3]), "A: [[]] B: [[]] C: [[]] D: [[0.5]] ");
}

#[test]
fn kinds_must_fit() {
    let out = run("1 + \"a\"\n\"a\" + 1\n-\"a\"\n[1, \"a\"]\n1(2)\ntf(1, [1])\ntf([1], 1)\ntf2ss([1])\nstep(1)\nload(1)");
    assert_eq!(out.len(), 10);
    for o in &out {
        assert_eq!(error(o), &Error::TypeError);
    }
}

#[test]
fn functions_count_their_arguments() {
    let out = run("tf([1])\ntf2ss()\nstep(1, 2)\nload()\ntf([1], [1], [1])");
    assert_eq!(error(&out[0]), &Error::IncorrectNumberOfArguments(2, 1));
    assert_eq!(error(&out[1]), &Error::IncorrectNumberOfArguments(1, 0));
    assert_eq!(error(&out[2]), &Error::IncorrectNumberOfArguments(1, 2));
    assert_eq!(error(&out[3]), &Error::IncorrectNumberOfArguments(1, 0));
    assert_eq!(error(&out[4]), &Error::IncorrectNumberOfArguments(2, 3));
}

#[test]
fn the_first_error_ends_a_statement() {
    let out = run("a + (1 + \"x\")\ntf([], [1])\nb = c\nb\nstep = 1\nstep(1)");
    assert_eq!(error(&out[0]), &Error::NullDeref("a".to_string()));
    assert_eq!(error(&out[1]), &other("Could not construct tf"));
    assert_eq!(error(&out[2]), &Error::NullDeref("c".to_string()));
    assert_eq!(error(&out[3]), &Error::NullDeref("b".to_string()));
    assert_eq!(error(&out[4]), &Error::TypeError);
    assert_eq!(out.len(), 5);
}

#[test]
fn a_value_can_be_used_many_times() {
    let out = run("p = tf([1], [1, -0.5])\nq = p\nstep(p)\nstep(q)\np");
    assert_eq!(plot(&out[0]), plot(&out[1]));
    assert_eq!(text(&out[2]), "     1\n------------\n1 - 0.5 z^-1\n");
}

#[test]
fn the_same_program_shows_the_same() {
    let source = "p = tf([1, 0.3], [1, -0.5, 0.1])\nstep(system { y = p(u); e = u - y })";
    assert_eq!(run(source), run(source));
}

#[test]
fn a_text_that_is_no_program_is_not_run() {
    assert_eq!(run_text::<Real, Files>("1 +", &files(&[])), Err(ParseError::UnexpectedToken));
    assert_eq!(run_text::<Real, Files>("1 ? 2", &files(&[])), Err(ParseError::InvalidToken));
    assert_eq!(run_text::<Real, Files>("", &files(&[])), Ok(vec![]));
}

#[test]
fn copies_are_equal() {
    let source = "a = [1 -2.5]\nf(a, \"x\")(-b * 2)\nsystem { e = u - y; y = p(e) }";
    let program = ProgramParser::new().parse(source).unwrap();
    let copy = program.clone();
    assert_eq!(copy, program);
    assert_eq!(copy.statements[1].clone(), program.statements[1]);
    let expression = parse("tf([1, 2], [3]) + system { y = p(u) }");
    assert_eq!(expression.clone(), expression);
    for error in [
        Error::IO(std::fmt::Error),
        Error::NullDeref("a".to_string()),
        Error::UnknownFunction("f".to_string()),
        Error::TypeError,
        Error::IncorrectNumberOfArguments(2, 1),
        other("message"),
    ] {
        assert_eq!(error.clone(), error);
    }
    let out = run("1 +\"a\"\n\"text\"\nstep(tf([1],[1]))\np = tf([1],[1])\nsystem { y = p(u) }");
    assert_eq!(out.len(), 4);
    for output in &out {
        assert_eq!(&output.clone(), output);
    }
}

#[test]
fn formatting_errors_are_io_errors() {
    assert_eq!(Error::from(std::fmt::Error), Error::IO(std::fmt::Error));
}
