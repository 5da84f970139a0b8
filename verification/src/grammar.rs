use vstd::prelude::*;
use vstd::string::{StrSliceExecFns, StringExecFns};
use crate::ast::{
    expression_view, expression_views, lemma_expression_views, system_item_views, BinOp, Expression,
    ExpressionView, Program, Statement, StatementView, SystemItem, SystemItemRhs, SystemItemRhsView,
    SystemItemView, UnOp,
};
use crate::lexer::{tokenize, tokens_of, within, Token};
use crate::scalar::Decimal;
use crate::text::chars_of;

verus! {

/// Why a text is no program.
#[derive(Clone, Copy, Debug, PartialEq, Eq)]
pub enum ParseError {
    /// A character that begins no token, a text without its closing quote, or
    /// a number with more digits than 32 bits count.
    InvalidToken,
    /// The tokens do not follow the grammar.
    UnexpectedToken,
}

/// What was read, and the place of the token after it.
pub struct Parsed<T> {
    pub value: T,
    pub next: int,
}

pub open spec fn is_token(ts: Seq<Token>, i: int, token: Token) -> bool {
    0 <= i < ts.len() && ts[i] == token
}

/// The name that the token at `i` is, where it is one.
pub open spec fn name_at(ts: Seq<Token>, s: Seq<char>, i: int) -> Option<Seq<char>> {
    if 0 <= i < ts.len() {
        match ts[i] {
            Token::Identifier { start, end } => Some(s.subrange(start as int, end as int)),
            _ => None,
        }
    } else {
        None
    }
}

pub open spec fn number_at(ts: Seq<Token>, i: int) -> Option<Decimal> {
    if 0 <= i < ts.len() {
        match ts[i] {
            Token::Number(d) => Some(d),
            _ => None,
        }
    } else {
        None
    }
}

pub open spec fn negative(d: Decimal) -> Decimal {
    Decimal { negative: true, mantissa: d.mantissa, exponent: d.exponent }
}

/// The place of the first token from `from` on that is no separator.
pub open spec fn skip_separators(ts: Seq<Token>, from: int) -> int
    decreases ts.len() - from,
{
    if is_token(ts, from, Token::Separator) {
        skip_separators(ts, from + 1)
    } else {
        from
    }
}

/// A line of a `system` block:
/// `name = name - name` or `name = name ( name )`.
pub open spec fn item(ts: Seq<Token>, s: Seq<char>, i: int) -> Option<Parsed<SystemItemView>> {
    match (name_at(ts, s, i), name_at(ts, s, i + 2), name_at(ts, s, i + 4)) {
        (Some(output), Some(first), Some(second)) => if !is_token(ts, i + 1, Token::Equals) {
            None
        } else if is_token(ts, i + 3, Token::Minus) {
            Some(
                Parsed {
                    value: SystemItemView {
                        output_name: output,
                        rhs: SystemItemRhsView::Difference { input1_name: first, input2_name: second },
                    },
                    next: i + 5,
                },
            )
        } else if is_token(ts, i + 3, Token::LeftParen) && is_token(ts, i + 5, Token::RightParen) {
            Some(
                Parsed {
                    value: SystemItemView {
                        output_name: output,
                        rhs: SystemItemRhsView::System { system_name: first, input_name: second },
                    },
                    next: i + 6,
                },
            )
        } else {
            None
        },
        _ => None,
    }
}

/// The lines of a `system` block up to its closing brace, after the lines
/// `acc`. Lines are set apart by separators; there must be at least one line.
pub open spec fn items(ts: Seq<Token>, s: Seq<char>, i: int, acc: Seq<SystemItemView>) -> Option<
    Parsed<ExpressionView>,
>
    decreases ts.len() - i,
{
    let j = skip_separators(ts, i);
    if j < i || j >= ts.len() {
        None
    } else if ts[j] == Token::RightBrace {
        if acc.len() > 0 {
            Some(Parsed { value: ExpressionView::System(acc), next: j + 1 })
        } else {
            None
        }
    } else {
        match item(ts, s, j) {
            Some(p) => if is_token(ts, p.next, Token::Separator) || is_token(ts, p.next, Token::RightBrace) {
                items(ts, s, p.next, acc.push(p.value))
            } else {
                None
            },
            None => None,
        }
    }
}

/// A number, a negative number, a text, a name, an expression in round
/// brackets, a vector in square brackets, or a `system` block.
pub open spec fn primary(ts: Seq<Token>, s: Seq<char>, i: int) -> Option<Parsed<ExpressionView>>
    decreases ts.len() - i, 0nat,
{
    if i < 0 || i >= ts.len() {
        None
    } else {
        match ts[i] {
            Token::Number(d) => Some(Parsed { value: ExpressionView::FloatLiteral(d), next: i + 1 }),
            Token::Minus => match number_at(ts, i + 1) {
                Some(d) => Some(Parsed { value: ExpressionView::FloatLiteral(negative(d)), next: i + 2 }),
                None => None,
            },
            Token::Text { start, end } => Some(
                Parsed { value: ExpressionView::StringLiteral(s.subrange(start as int, end as int)), next: i + 1 },
            ),
            Token::Identifier { start, end } => Some(
                Parsed { value: ExpressionView::Identifier(s.subrange(start as int, end as int)), next: i + 1 },
            ),
            Token::LeftParen => match expression(ts, s, i + 1) {
                Some(p) => if is_token(ts, p.next, Token::RightParen) {
                    Some(Parsed { value: p.value, next: p.next + 1 })
                } else {
                    None
                },
                None => None,
            },
            Token::LeftBracket => elements(ts, s, i + 1, Seq::empty()),
            Token::System => if is_token(ts, i + 1, Token::LeftBrace) {
                items(ts, s, i + 2, Seq::empty())
            } else {
                None
            },
            _ => None,
        }
    }
}

/// The elements of a vector up to its closing bracket, after the elements
/// `acc`. A comma may stand between two elements.
pub open spec fn elements(ts: Seq<Token>, s: Seq<char>, i: int, acc: Seq<ExpressionView>) -> Option<
    Parsed<ExpressionView>,
>
    decreases ts.len() - i, 5nat,
{
    if i < 0 || i >= ts.len() {
        None
    } else if ts[i] == Token::RightBracket {
        Some(Parsed { value: ExpressionView::VectorLiteral(acc), next: i + 1 })
    } else {
        let j = if ts[i] == Token::Comma && acc.len() > 0 {
            i + 1
        } else {
            i
        };
        match unary(ts, s, j) {
            Some(p) => if j < p.next <= ts.len() {
                elements(ts, s, p.next, acc.push(p.value))
            } else {
                None
            },
            None => None,
        }
    }
}

/// The arguments of a call up to its closing bracket, after the arguments
/// `acc`, with commas between them.
pub open spec fn arguments(ts: Seq<Token>, s: Seq<char>, i: int, acc: Seq<ExpressionView>) -> Option<
    Parsed<Seq<ExpressionView>>,
>
    decreases ts.len() - i, 5nat,
{
    if i < 0 || i >= ts.len() {
        None
    } else if acc.len() == 0 && ts[i] == Token::RightParen {
        Some(Parsed { value: acc, next: i + 1 })
    } else {
        match expression(ts, s, i) {
            Some(p) => if i < p.next < ts.len() {
                if ts[p.next] == Token::RightParen {
                    Some(Parsed { value: acc.push(p.value), next: p.next + 1 })
                } else if ts[p.next] == Token::Comma {
                    arguments(ts, s, p.next + 1, acc.push(p.value))
                } else {
                    None
                }
            } else {
                None
            },
            None => None,
        }
    }
}

/// The calls that follow `callee`: `callee(..)(..)`.
pub open spec fn calls(ts: Seq<Token>, s: Seq<char>, i: int, callee: ExpressionView) -> Option<
    Parsed<ExpressionView>,
>
    decreases ts.len() - i, 6nat,
{
    if is_token(ts, i, Token::LeftParen) {
        match arguments(ts, s, i + 1, Seq::empty()) {
            Some(p) => if i < p.next <= ts.len() {
                calls(
                    ts,
                    s,
                    p.next,
                    ExpressionView::FunctionCall { function: Box::new(callee), arguments: p.value },
                )
            } else {
                None
            },
            None => None,
        }
    } else {
        Some(Parsed { value: callee, next: i })
    }
}

pub open spec fn postfix(ts: Seq<Token>, s: Seq<char>, i: int) -> Option<Parsed<ExpressionView>>
    decreases ts.len() - i, 1nat,
{
    match primary(ts, s, i) {
        Some(p) => if i < p.next <= ts.len() {
            calls(ts, s, p.next, p.value)
        } else {
            None
        },
        None => None,
    }
}

/// A minus sign before a number makes a negative number; before anything else
/// it negates.
pub open spec fn unary(ts: Seq<Token>, s: Seq<char>, i: int) -> Option<Parsed<ExpressionView>>
    decreases ts.len() - i, 2nat,
{
    if is_token(ts, i, Token::Minus) && number_at(ts, i + 1) is None {
        match unary(ts, s, i + 1) {
            Some(p) => Some(Parsed { value: ExpressionView::UnOp(UnOp::Neg, Box::new(p.value)), next: p.next }),
            None => None,
        }
    } else {
        postfix(ts, s, i)
    }
}

/// The products and quotients that follow `left`, taken from left to right.
pub open spec fn factors(ts: Seq<Token>, s: Seq<char>, i: int, left: ExpressionView) -> Option<
    Parsed<ExpressionView>,
>
    decreases ts.len() - i, 6nat,
{
    if is_token(ts, i, Token::Star) || is_token(ts, i, Token::Slash) {
        let op = if ts[i] == Token::Star {
            BinOp::Mul
        } else {
            BinOp::Div
        };
        match unary(ts, s, i + 1) {
            Some(p) => if i < p.next <= ts.len() {
                factors(ts, s, p.next, ExpressionView::BinOp(op, Box::new(left), Box::new(p.value)))
            } else {
                None
            },
            None => None,
        }
    } else {
        Some(Parsed { value: left, next: i })
    }
}

pub open spec fn multiplicative(ts: Seq<Token>, s: Seq<char>, i: int) -> Option<Parsed<ExpressionView>>
    decreases ts.len() - i, 3nat,
{
    match unary(ts, s, i) {
        Some(p) => if i < p.next <= ts.len() {
            factors(ts, s, p.next, p.value)
        } else {
            None
        },
        None => None,
    }
}

/// The sums and differences that follow `left`, taken from left to right.
pub open spec fn terms(ts: Seq<Token>, s: Seq<char>, i: int, left: ExpressionView) -> Option<
    Parsed<ExpressionView>,
>
    decreases ts.len() - i, 6nat,
{
    if is_token(ts, i, Token::Plus) || is_token(ts, i, Token::Minus) {
        let op = if ts[i] == Token::Plus {
            BinOp::Add
        } else {
            BinOp::Sub
        };
        match multiplicative(ts, s, i + 1) {
            Some(p) => if i < p.next <= ts.len() {
                terms(ts, s, p.next, ExpressionView::BinOp(op, Box::new(left), Box::new(p.value)))
            } else {
                None
            },
            None => None,
        }
    } else {
        Some(Parsed { value: left, next: i })
    }
}

/// An expression: sums and differences of products and quotients of signed
/// operands, with the usual precedence.
pub open spec fn expression(ts: Seq<Token>, s: Seq<char>, i: int) -> Option<Parsed<ExpressionView>>
    decreases ts.len() - i, 4nat,
{
    match multiplicative(ts, s, i) {
        Some(p) => if i < p.next <= ts.len() {
            terms(ts, s, p.next, p.value)
        } else {
            None
        },
        None => None,
    }
}

/// A statement: `name = expression`, or an expression.
pub open spec fn statement(ts: Seq<Token>, s: Seq<char>, i: int) -> Option<Parsed<StatementView>> {
    if name_at(ts, s, i) is Some && is_token(ts, i + 1, Token::Equals) {
        match expression(ts, s, i + 2) {
            Some(p) => Some(Parsed { value: StatementView::Assign(name_at(ts, s, i).unwrap(), p.value), next: p.next }),
            None => None,
        }
    } else {
        match expression(ts, s, i) {
            Some(p) => Some(Parsed { value: StatementView::ExpressionStatement(p.value), next: p.next }),
            None => None,
        }
    }
}

/// The statements from `i` on, after the statements `acc`. Statements are set
/// apart by separators.
pub open spec fn statements(ts: Seq<Token>, s: Seq<char>, i: int, acc: Seq<StatementView>) -> Option<
    Seq<StatementView>,
>
    decreases ts.len() - i,
{
    let j = skip_separators(ts, i);
    if j < i {
        None
    } else if j >= ts.len() {
        Some(acc)
    } else {
        match statement(ts, s, j) {
            Some(p) => if j < p.next <= ts.len() && (p.next == ts.len() || ts[p.next] == Token::Separator) {
                statements(ts, s, p.next, acc.push(p.value))
            } else {
                None
            },
            None => None,
        }
    }
}

/// The program that a text is.
pub open spec fn program_of(s: Seq<char>) -> Result<Seq<StatementView>, ParseError> {
    match tokens_of(s) {
        None => Err(ParseError::InvalidToken),
        Some(ts) => match statements(ts, s, 0, Seq::empty()) {
            Some(program) => Ok(program),
            None => Err(ParseError::UnexpectedToken),
        },
    }
}

/// The expression that a text is.
pub open spec fn expression_of(s: Seq<char>) -> Result<ExpressionView, ParseError> {
    match tokens_of(s) {
        None => Err(ParseError::InvalidToken),
        Some(ts) => match expression(ts, s, 0) {
            Some(p) => if p.next == ts.len() {
                Ok(p.value)
            } else {
                Err(ParseError::UnexpectedToken)
            },
            None => Err(ParseError::UnexpectedToken),
        },
    }
}

pub open spec fn statement_views(statements: Seq<Statement>) -> Seq<StatementView> {
    Seq::new(statements.len(), |k: int| statements[k]@)
}

proof fn lemma_views_push(items: Seq<Expression>, e: Expression)
    ensures
        expression_views(items.push(e), 0) == expression_views(items, 0).push(expression_view(e)),
{
    lemma_expression_views(items, 0);
    lemma_expression_views(items.push(e), 0);
    assert(expression_views(items.push(e), 0) =~= expression_views(items, 0).push(expression_view(e)));
}

fn token_is(tokens: &Vec<Token>, i: usize, token: Token) -> (r: bool)
    ensures
        r == is_token(tokens@, i as int, token),
        tokens@.len() <= usize::MAX,
{
    i < tokens.len() && tokens[i] == token
}

fn name_of(tokens: &Vec<Token>, text: &str, i: usize) -> (r: Option<String>)
    requires
        within(tokens@, text@.len() as int),
    ensures
        match r {
            Some(name) => name_at(tokens@, text@, i as int) == Some(name@),
            None => name_at(tokens@, text@, i as int) is None,
        },
{
    if i >= tokens.len() {
        return None;
    }
    match tokens[i] {
        Token::Identifier { start, end } => Some(String::from_str(text.substring_char(start, end))),
        _ => None,
    }
}

fn number_of(tokens: &Vec<Token>, i: usize) -> (r: Option<Decimal>)
    ensures
        r == number_at(tokens@, i as int),
{
    if i >= tokens.len() {
        return None;
    }
    match tokens[i] {
        Token::Number(d) => Some(d),
        _ => None,
    }
}

fn pass_separators(tokens: &Vec<Token>, from: usize) -> (r: usize)
    requires
        from <= tokens@.len(),
    ensures
        r == skip_separators(tokens@, from as int),
        from <= r <= tokens@.len(),
{
    let mut i: usize = from;
    while token_is(tokens, i, Token::Separator)
        invariant
            from <= i <= tokens@.len(),
            skip_separators(tokens@, from as int) == skip_separators(tokens@, i as int),
        decreases tokens@.len() - i,
    {
        i += 1;
    }
    i
}

fn parse_item(tokens: &Vec<Token>, text: &str, i: usize) -> (r: Option<(SystemItem, usize)>)
    requires
        within(tokens@, text@.len() as int),
        i < tokens@.len(),
    ensures
        match r {
            Some((value, next)) => item(tokens@, text@, i as int) == Some(Parsed { value: value@, next: next as int })
                && i < next <= tokens@.len(),
            None => item(tokens@, text@, i as int) is None,
        },
{
    let n = tokens.len();
    if n - i < 5 {
        return None;
    }
    let output = name_of(tokens, text, i);
    let first = name_of(tokens, text, i + 2);
    let second = name_of(tokens, text, i + 4);
    match (output, first, second) {
        (Some(output), Some(first), Some(second)) => {
            if !token_is(tokens, i + 1, Token::Equals) {
                None
            } else if token_is(tokens, i + 3, Token::Minus) {
                Some(
                    (
                        SystemItem {
                            output_name: output,
                            rhs: SystemItemRhs::Difference { input1_name: first, input2_name: second },
                        },
                        i + 5,
                    ),
                )
            } else if n - i >= 6 && token_is(tokens, i + 3, Token::LeftParen) && token_is(
                tokens,
                i + 5,
                Token::RightParen,
            ) {
                Some(
                    (
                        SystemItem {
                            output_name: output,
                            rhs: SystemItemRhs::System { system_name: first, input_name: second },
                        },
                        i + 6,
                    ),
                )
            } else {
                None
            }
        },
        _ => None,
    }
}

fn parse_items(tokens: &Vec<Token>, text: &str, i: usize, acc: Vec<SystemItem>) -> (r: Option<(Expression, usize)>)
    requires
        within(tokens@, text@.len() as int),
        i <= tokens@.len(),
    ensures
        match r {
            Some((value, next)) => items(tokens@, text@, i as int, system_item_views(acc@)) == Some(
                Parsed { value: value@, next: next as int },
            ) && i < next <= tokens@.len(),
            None => items(tokens@, text@, i as int, system_item_views(acc@)) is None,
        },
    decreases tokens@.len() - i,
{
    let j = pass_separators(tokens, i);
    if j >= tokens.len() {
        return None;
    }
    if token_is(tokens, j, Token::RightBrace) {
        if acc.len() > 0 {
            return Some((Expression::System(acc), j + 1));
        } else {
            return None;
        }
    }
    match parse_item(tokens, text, j) {
        Some((value, next)) => {
            if token_is(tokens, next, Token::Separator) || token_is(tokens, next, Token::RightBrace) {
                let ghost before = system_item_views(acc@);
                let ghost view = value@;
                let mut acc = acc;
                acc.push(value);
                assert(system_item_views(acc@) =~= before.push(view));
                parse_items(tokens, text, next, acc)
            } else {
                None
            }
        },
        None => None,
    }
}

fn parse_primary(tokens: &Vec<Token>, text: &str, i: usize) -> (r: Option<(Expression, usize)>)
    requires
        within(tokens@, text@.len() as int),
        i <= tokens@.len(),
    ensures
        match r {
            Some((value, next)) => primary(tokens@, text@, i as int) == Some(
                Parsed { value: value@, next: next as int },
            ) && i < next <= tokens@.len(),
            None => primary(tokens@, text@, i as int) is None,
        },
    decreases tokens@.len() - i, 0nat,
{
    if i >= tokens.len() {
        return None;
    }
    match tokens[i] {
        Token::Number(d) => Some((Expression::FloatLiteral(d), i + 1)),
        Token::Minus => match number_of(tokens, i + 1) {
            Some(d) => Some(
                (
                    Expression::FloatLiteral(Decimal { negative: true, mantissa: d.mantissa, exponent: d.exponent }),
                    i + 2,
                ),
            ),
            None => None,
        },
        Token::Text { start, end } => Some(
            (Expression::StringLiteral(String::from_str(text.substring_char(start, end))), i + 1),
        ),
        Token::Identifier { start, end } => Some(
            (Expression::Identifier(String::from_str(text.substring_char(start, end))), i + 1),
        ),
        Token::LeftParen => match parse_expression(tokens, text, i + 1) {
            Some((value, next)) => {
                if token_is(tokens, next, Token::RightParen) {
                    Some((value, next + 1))
                } else {
                    None
                }
            },
            None => None,
        },
        Token::LeftBracket => {
            let acc: Vec<Expression> = Vec::new();
            assert(expression_views(acc@, 0) =~= Seq::empty());
            parse_elements(tokens, text, i + 1, acc)
        },
        Token::System => {
            if token_is(tokens, i + 1, Token::LeftBrace) {
                let acc: Vec<SystemItem> = Vec::new();
                assert(system_item_views(acc@) =~= Seq::empty());
                parse_items(tokens, text, i + 2, acc)
            } else {
                None
            }
        },
        _ => None,
    }
}

fn parse_elements(tokens: &Vec<Token>, text: &str, i: usize, acc: Vec<Expression>) -> (r: Option<
    (Expression, usize),
>)
    requires
        within(tokens@, text@.len() as int),
        i <= tokens@.len(),
    ensures
        match r {
            Some((value, next)) => elements(tokens@, text@, i as int, expression_views(acc@, 0)) == Some(
                Parsed { value: value@, next: next as int },
            ) && i < next <= tokens@.len(),
            None => elements(tokens@, text@, i as int, expression_views(acc@, 0)) is None,
        },
    decreases tokens@.len() - i, 5nat,
{
    if i >= tokens.len() {
        return None;
    }
    if token_is(tokens, i, Token::RightBracket) {
        return Some((Expression::VectorLiteral(acc), i + 1));
    }
    proof {
        lemma_expression_views(acc@, 0);
    }
    let j = if token_is(tokens, i, Token::Comma) && acc.len() > 0 {
        i + 1
    } else {
        i
    };
    match parse_unary(tokens, text, j) {
        Some((value, next)) => {
            proof {
                lemma_views_push(acc@, value);
            }
            let mut acc = acc;
            acc.push(value);
            parse_elements(tokens, text, next, acc)
        },
        None => None,
    }
}

fn parse_arguments(tokens: &Vec<Token>, text: &str, i: usize, acc: Vec<Expression>) -> (r: Option<
    (Vec<Expression>, usize),
>)
    requires
        within(tokens@, text@.len() as int),
        i <= tokens@.len(),
    ensures
        match r {
            Some((value, next)) => arguments(tokens@, text@, i as int, expression_views(acc@, 0)) == Some(
                Parsed { value: expression_views(value@, 0), next: next as int },
            ) && i < next <= tokens@.len(),
            None => arguments(tokens@, text@, i as int, expression_views(acc@, 0)) is None,
        },
    decreases tokens@.len() - i, 5nat,
{
    if i >= tokens.len() {
        return None;
    }
    proof {
        lemma_expression_views(acc@, 0);
    }
    if acc.len() == 0 && token_is(tokens, i, Token::RightParen) {
        return Some((acc, i + 1));
    }
    match parse_expression(tokens, text, i) {
        Some((value, next)) => {
            proof {
                lemma_views_push(acc@, value);
            }
            if token_is(tokens, next, Token::RightParen) {
                let mut acc = acc;
                acc.push(value);
                Some((acc, next + 1))
            } else if token_is(tokens, next, Token::Comma) {
                let mut acc = acc;
                acc.push(value);
                parse_arguments(tokens, text, next + 1, acc)
            } else {
                None
            }
        },
        None => None,
    }
}

fn parse_calls(tokens: &Vec<Token>, text: &str, i: usize, callee: Expression) -> (r: Option<(Expression, usize)>)
    requires
        within(tokens@, text@.len() as int),
        i <= tokens@.len(),
    ensures
        match r {
            Some((value, next)) => calls(tokens@, text@, i as int, callee@) == Some(
                Parsed { value: value@, next: next as int },
            ) && i <= next <= tokens@.len(),
            None => calls(tokens@, text@, i as int, callee@) is None,
        },
    decreases tokens@.len() - i, 6nat,
{
    if token_is(tokens, i, Token::LeftParen) {
        let acc: Vec<Expression> = Vec::new();
        assert(expression_views(acc@, 0) =~= Seq::empty());
        match parse_arguments(tokens, text, i + 1, acc) {
            Some((arguments, next)) => parse_calls(
                tokens,
                text,
                next,
                Expression::FunctionCall { function: Box::new(callee), arguments },
            ),
            None => None,
        }
    } else {
        Some((callee, i))
    }
}

fn parse_postfix(tokens: &Vec<Token>, text: &str, i: usize) -> (r: Option<(Expression, usize)>)
    requires
        within(tokens@, text@.len() as int),
        i <= tokens@.len(),
    ensures
        match r {
            Some((value, next)) => postfix(tokens@, text@, i as int) == Some(
                Parsed { value: value@, next: next as int },
            ) && i < next <= tokens@.len(),
            None => postfix(tokens@, text@, i as int) is None,
        },
    decreases tokens@.len() - i, 1nat,
{
    match parse_primary(tokens, text, i) {
        Some((value, next)) => parse_calls(tokens, text, next, value),
        None => None,
    }
}

fn parse_unary(tokens: &Vec<Token>, text: &str, i: usize) -> (r: Option<(Expression, usize)>)
    requires
        within(tokens@, text@.len() as int),
        i <= tokens@.len(),
    ensures
        match r {
            Some((value, next)) => unary(tokens@, text@, i as int) == Some(
                Parsed { value: value@, next: next as int },
            ) && i < next <= tokens@.len(),
            None => unary(tokens@, text@, i as int) is None,
        },
    decreases tokens@.len() - i, 2nat,
{
    if token_is(tokens, i, Token::Minus) && number_of(tokens, i + 1).is_none() {
        match parse_unary(tokens, text, i + 1) {
            Some((value, next)) => Some((Expression::UnOp(UnOp::Neg, Box::new(value)), next)),
            None => None,
        }
    } else {
        parse_postfix(tokens, text, i)
    }
}

fn parse_factors(tokens: &Vec<Token>, text: &str, i: usize, left: Expression) -> (r: Option<(Expression, usize)>)
    requires
        within(tokens@, text@.len() as int),
        i <= tokens@.len(),
    ensures
        match r {
            Some((value, next)) => factors(tokens@, text@, i as int, left@) == Some(
                Parsed { value: value@, next: next as int },
            ) && i <= next <= tokens@.len(),
            None => factors(tokens@, text@, i as int, left@) is None,
        },
    decreases tokens@.len() - i, 6nat,
{
    let star = token_is(tokens, i, Token::Star);
    if star || token_is(tokens, i, Token::Slash) {
        let op = if star {
            BinOp::Mul
        } else {
            BinOp::Div
        };
        match parse_unary(tokens, text, i + 1) {
            Some((right, next)) => parse_factors(
                tokens,
                text,
                next,
                Expression::BinOp(op, Box::new(left), Box::new(right)),
            ),
            None => None,
        }
    } else {
        Some((left, i))
    }
}

fn parse_multiplicative(tokens: &Vec<Token>, text: &str, i: usize) -> (r: Option<(Expression, usize)>)
    requires
        within(tokens@, text@.len() as int),
        i <= tokens@.len(),
    ensures
        match r {
            Some((value, next)) => multiplicative(tokens@, text@, i as int) == Some(
                Parsed { value: value@, next: next as int },
            ) && i < next <= tokens@.len(),
            None => multiplicative(tokens@, text@, i as int) is None,
        },
    decreases tokens@.len() - i, 3nat,
{
    match parse_unary(tokens, text, i) {
        Some((value, next)) => parse_factors(tokens, text, next, value),
        None => None,
    }
}

fn parse_terms(tokens: &Vec<Token>, text: &str, i: usize, left: Expression) -> (r: Option<(Expression, usize)>)
    requires
        within(tokens@, text@.len() as int),
        i <= tokens@.len(),
    ensures
        match r {
            Some((value, next)) => terms(tokens@, text@, i as int, left@) == Some(
                Parsed { value: value@, next: next as int },
            ) && i <= next <= tokens@.len(),
            None => terms(tokens@, text@, i as int, left@) is None,
        },
    decreases tokens@.len() - i, 6nat,
{
    let plus = token_is(tokens, i, Token::Plus);
    if plus || token_is(tokens, i, Token::Minus) {
        let op = if plus {
            BinOp::Add
        } else {
            BinOp::Sub
        };
        match parse_multiplicative(tokens, text, i + 1) {
            Some((right, next)) => parse_terms(
                tokens,
                text,
                next,
                Expression::BinOp(op, Box::new(left), Box::new(right)),
            ),
            None => None,
        }
    } else {
        Some((left, i))
    }
}

fn parse_expression(tokens: &Vec<Token>, text: &str, i: usize) -> (r: Option<(Expression, usize)>)
    requires
        within(tokens@, text@.len() as int),
        i <= tokens@.len(),
    ensures
        match r {
            Some((value, next)) => expression(tokens@, text@, i as int) == Some(
                Parsed { value: value@, next: next as int },
            ) && i < next <= tokens@.len(),
            None => expression(tokens@, text@, i as int) is None,
        },
    decreases tokens@.len() - i, 4nat,
{
    match parse_multiplicative(tokens, text, i) {
        Some((value, next)) => parse_terms(tokens, text, next, value),
        None => None,
    }
}

fn parse_statement(tokens: &Vec<Token>, text: &str, i: usize) -> (r: Option<(Statement, usize)>)
    requires
        within(tokens@, text@.len() as int),
        i < tokens@.len(),
    ensures
        match r {
            Some((value, next)) => statement(tokens@, text@, i as int) == Some(
                Parsed { value: value@, next: next as int },
            ) && i < next <= tokens@.len(),
            None => statement(tokens@, text@, i as int) is None,
        },
{
    let n = tokens.len();
    let name = name_of(tokens, text, i);
    if name.is_some() && token_is(tokens, i + 1, Token::Equals) {
        match parse_expression(tokens, text, i + 2) {
            Some((value, next)) => Some((Statement::Assign(name.unwrap(), value), next)),
            None => None,
        }
    } else {
        match parse_expression(tokens, text, i) {
            Some((value, next)) => Some((Statement::ExpressionStatement(value), next)),
            None => None,
        }
    }
}

fn parse_statements(tokens: &Vec<Token>, text: &str) -> (r: Option<Vec<Statement>>)
    requires
        within(tokens@, text@.len() as int),
    ensures
        match r {
            Some(program) => statements(tokens@, text@, 0, Seq::empty()) == Some(statement_views(program@)),
            None => statements(tokens@, text@, 0, Seq::empty()) is None,
        },
{
    let mut program: Vec<Statement> = Vec::new();
    let mut i: usize = 0;
    assert(statement_views(program@) =~= Seq::empty());
    loop
        invariant
            within(tokens@, text@.len() as int),
            i <= tokens@.len(),
            statements(tokens@, text@, 0, Seq::empty()) == statements(
                tokens@,
                text@,
                i as int,
                statement_views(program@),
            ),
        decreases tokens@.len() - i,
    {
        let j = pass_separators(tokens, i);
        if j >= tokens.len() {
            return Some(program);
        }
        match parse_statement(tokens, text, j) {
            Some((value, next)) => {
                if next < tokens.len() && !token_is(tokens, next, Token::Separator) {
                    return None;
                }
                let ghost before = statement_views(program@);
                let ghost view = value@;
                program.push(value);
                assert(statement_views(program@) =~= before.push(view));
                i = next;
            },
            None => {
                return None;
            },
        }
    }
}

/// Reads programs.
pub struct ProgramParser {}

impl ProgramParser {
    pub fn new() -> (r: Self) {
        ProgramParser {  }
    }

    /// Reads a program: statements on lines of their own or with semicolons
    /// between them.
    pub fn parse(&self, text: &str) -> (r: Result<Program, ParseError>)
        ensures
            match r {
                Ok(program) => program_of(text@) == Ok::<_, ParseError>(program@),
                Err(e) => program_of(text@) == Err::<Seq<StatementView>, _>(e),
            },
    {
        let chars = chars_of(text);
        let tokens = match tokenize(&chars) {
            Some(tokens) => tokens,
            None => {
                return Err(ParseError::InvalidToken);
            },
        };
        match parse_statements(&tokens, text) {
            Some(statements) => {
                let program = Program { statements };
                assert(program@ =~= statement_views(program.statements@));
                Ok(program)
            },
            None => Err(ParseError::UnexpectedToken),
        }
    }
}

/// Reads single expressions.
pub struct ExpressionParser {}

impl ExpressionParser {
    pub fn new() -> (r: Self) {
        ExpressionParser {  }
    }

    /// Reads an expression that makes up the whole text.
    pub fn parse(&self, text: &str) -> (r: Result<Expression, ParseError>)
        ensures
            match r {
                Ok(e) => expression_of(text@) == Ok::<_, ParseError>(e@),
                Err(e) => expression_of(text@) == Err::<ExpressionView, _>(e),
            },
    {
        let chars = chars_of(text);
        let tokens = match tokenize(&chars) {
            Some(tokens) => tokens,
            None => {
                return Err(ParseError::InvalidToken);
            },
        };
        match parse_expression(&tokens, text, 0) {
            Some((value, next)) => {
                if next == tokens.len() {
                    Ok(value)
                } else {
                    Err(ParseError::UnexpectedToken)
                }
            },
            None => Err(ParseError::UnexpectedToken),
        }
    }
}

impl ParseError {
    pub fn to_string(&self) -> (r: String)
        ensures
            r@ == match self {
                ParseError::InvalidToken => "invalid token"@,
                ParseError::UnexpectedToken => "unexpected token"@,
            },
    {
        match self {
            ParseError::InvalidToken => String::from_str("invalid token"),
            ParseError::UnexpectedToken => String::from_str("unexpected token"),
        }
    }
}

} // verus!
