use vstd::prelude::*;
use crate::scalar::Decimal;

verus! {

/// A program: statements in the order in which they run.
#[derive(Debug, Default, PartialEq)]
pub struct Program {
    pub statements: Vec<Statement>,
}

#[derive(Debug, PartialEq)]
pub enum Statement {
    /// An expression whose value is shown.
    ExpressionStatement(Expression),
    /// `name = expression`
    Assign(String, Expression),
}

#[derive(Debug, PartialEq)]
pub enum Expression {
    Identifier(String),
    StringLiteral(String),
    FloatLiteral(Decimal),
    VectorLiteral(Vec<Expression>),
    UnOp(UnOp, Box<Expression>),
    BinOp(BinOp, Box<Expression>, Box<Expression>),
    FunctionCall { function: Box<Expression>, arguments: Vec<Expression> },
    System(Vec<SystemItem>),
}

/// One line of a `system { .. }` block: the name of an output and what
/// produces it.
#[derive(Clone, Debug, PartialEq)]
pub struct SystemItem {
    pub output_name: String,
    pub rhs: SystemItemRhs,
}

#[derive(Clone, Debug, PartialEq)]
pub enum SystemItemRhs {
    /// `input1_name - input2_name`
    Difference { input1_name: String, input2_name: String },
    /// `system_name(input_name)`
    System { system_name: String, input_name: String },
}

#[derive(Copy, Clone, Debug, PartialEq, Eq)]
pub enum UnOp {
    Neg,
}

#[derive(Copy, Clone, Debug, PartialEq, Eq)]
pub enum BinOp {
    Add,
    Sub,
    Mul,
    Div,
}

pub enum ExpressionView {
    Identifier(Seq<char>),
    StringLiteral(Seq<char>),
    FloatLiteral(Decimal),
    VectorLiteral(Seq<ExpressionView>),
    UnOp(UnOp, Box<ExpressionView>),
    BinOp(BinOp, Box<ExpressionView>, Box<ExpressionView>),
    FunctionCall { function: Box<ExpressionView>, arguments: Seq<ExpressionView> },
    System(Seq<SystemItemView>),
}

pub struct SystemItemView {
    pub output_name: Seq<char>,
    pub rhs: SystemItemRhsView,
}

pub enum SystemItemRhsView {
    Difference { input1_name: Seq<char>, input2_name: Seq<char> },
    System { system_name: Seq<char>, input_name: Seq<char> },
}

pub enum StatementView {
    ExpressionStatement(ExpressionView),
    Assign(Seq<char>, ExpressionView),
}

impl View for SystemItemRhs {
    type V = SystemItemRhsView;

    open spec fn view(&self) -> SystemItemRhsView {
        match self {
            SystemItemRhs::Difference { input1_name, input2_name } => SystemItemRhsView::Difference {
                input1_name: input1_name@,
                input2_name: input2_name@,
            },
            SystemItemRhs::System { system_name, input_name } => SystemItemRhsView::System {
                system_name: system_name@,
                input_name: input_name@,
            },
        }
    }
}

impl View for SystemItem {
    type V = SystemItemView;

    open spec fn view(&self) -> SystemItemView {
        SystemItemView { output_name: self.output_name@, rhs: self.rhs@ }
    }
}

/// What the lines of a `system` block are.
pub open spec fn system_item_views(items: Seq<SystemItem>) -> Seq<SystemItemView> {
    Seq::new(items.len(), |k: int| items[k]@)
}

/// What a list of expressions from `from` on is.
pub open spec fn expression_views(items: Seq<Expression>, from: int) -> Seq<ExpressionView>
    decreases items, items.len() - from,
{
    if from < 0 || from >= items.len() {
        Seq::empty()
    } else {
        seq![expression_view(items[from])] + expression_views(items, from + 1)
    }
}

/// What an expression is.
pub open spec fn expression_view(e: Expression) -> ExpressionView
    decreases e, 0nat,
{
    match e {
        Expression::Identifier(name) => ExpressionView::Identifier(name@),
        Expression::StringLiteral(text) => ExpressionView::StringLiteral(text@),
        Expression::FloatLiteral(d) => ExpressionView::FloatLiteral(d),
        Expression::VectorLiteral(elements) => ExpressionView::VectorLiteral(expression_views(elements@, 0)),
        Expression::UnOp(op, inner) => ExpressionView::UnOp(op, Box::new(expression_view(*inner))),
        Expression::BinOp(op, e1, e2) => ExpressionView::BinOp(
            op,
            Box::new(expression_view(*e1)),
            Box::new(expression_view(*e2)),
        ),
        Expression::FunctionCall { function, arguments } => ExpressionView::FunctionCall {
            function: Box::new(expression_view(*function)),
            arguments: expression_views(arguments@, 0),
        },
        Expression::System(items) => ExpressionView::System(system_item_views(items@)),
    }
}

impl View for Expression {
    type V = ExpressionView;

    open spec fn view(&self) -> ExpressionView {
        expression_view(*self)
    }
}

impl View for Statement {
    type V = StatementView;

    open spec fn view(&self) -> StatementView {
        match self {
            Statement::ExpressionStatement(e) => StatementView::ExpressionStatement(e@),
            Statement::Assign(name, e) => StatementView::Assign(name@, e@),
        }
    }
}

impl View for Program {
    type V = Seq<StatementView>;

    open spec fn view(&self) -> Seq<StatementView> {
        Seq::new(self.statements@.len(), |i: int| self.statements@[i]@)
    }
}

/// A list of expressions is the list of what each of them is.
pub(crate) proof fn lemma_expression_views(items: Seq<Expression>, from: int)
    requires
        0 <= from <= items.len(),
    ensures
        expression_views(items, from) == Seq::new((items.len() - from) as nat, |i: int| items[from + i]@),
    decreases items.len() - from,
{
    if from < items.len() {
        lemma_expression_views(items, from + 1);
    }
    assert(expression_views(items, from) =~= Seq::new((items.len() - from) as nat, |i: int| items[from + i]@));
}

fn copy_items(items: &Vec<SystemItem>) -> (r: Vec<SystemItem>)
    ensures
        system_item_views(r@) == system_item_views(items@),
{
    let mut out: Vec<SystemItem> = Vec::new();
    let mut i: usize = 0;
    while i < items.len()
        invariant
            i <= items@.len(),
            out@.len() == i,
            forall|k: int| 0 <= k < i ==> (#[trigger] out@[k])@ == items@[k]@,
        decreases items.len() - i,
    {
        let item = &items[i];
        let rhs = match &item.rhs {
            SystemItemRhs::Difference { input1_name, input2_name } => SystemItemRhs::Difference {
                input1_name: input1_name.clone(),
                input2_name: input2_name.clone(),
            },
            SystemItemRhs::System { system_name, input_name } => SystemItemRhs::System {
                system_name: system_name.clone(),
                input_name: input_name.clone(),
            },
        };
        out.push(SystemItem { output_name: item.output_name.clone(), rhs });
        i += 1;
    }
    assert(system_item_views(out@) =~= system_item_views(items@));
    out
}

fn copy_expressions(items: &Vec<Expression>, from: usize) -> (r: Vec<Expression>)
    ensures
        expression_views(r@, 0) == expression_views(items@, from as int),
    decreases items, items.len() - from,
{
    if from >= items.len() {
        let out: Vec<Expression> = Vec::new();
        assert(expression_views(out@, 0) =~= expression_views(items@, from as int));
        return out;
    }
    let head = copy_expression(&items[from]);
    let tail = copy_expressions(items, from + 1);
    let mut out = tail;
    out.insert(0, head);
    proof {
        lemma_expression_views(tail@, 0);
        lemma_expression_views(out@, 0);
        assert(expression_views(out@, 0) =~= seq![expression_view(head)] + expression_views(tail@, 0));
    }
    out
}

fn copy_expression(e: &Expression) -> (r: Expression)
    ensures
        r@ == e@,
    decreases e, 0nat,
{
    match e {
        Expression::Identifier(name) => Expression::Identifier(name.clone()),
        Expression::StringLiteral(text) => Expression::StringLiteral(text.clone()),
        Expression::FloatLiteral(d) => Expression::FloatLiteral(*d),
        Expression::VectorLiteral(elements) => Expression::VectorLiteral(copy_expressions(elements, 0)),
        Expression::UnOp(op, inner) => Expression::UnOp(*op, Box::new(copy_expression(inner))),
        Expression::BinOp(op, e1, e2) => Expression::BinOp(
            *op,
            Box::new(copy_expression(e1)),
            Box::new(copy_expression(e2)),
        ),
        Expression::FunctionCall { function, arguments } => Expression::FunctionCall {
            function: Box::new(copy_expression(function)),
            arguments: copy_expressions(arguments, 0),
        },
        Expression::System(items) => Expression::System(copy_items(items)),
    }
}

impl Clone for Expression {
    fn clone(&self) -> (r: Self)
        ensures
            r@ == self@,
    {
        copy_expression(self)
    }
}

impl Clone for Statement {
    fn clone(&self) -> (r: Self)
        ensures
            r@ == self@,
    {
        match self {
            Statement::ExpressionStatement(e) => Statement::ExpressionStatement(copy_expression(e)),
            Statement::Assign(name, e) => Statement::Assign(name.clone(), copy_expression(e)),
        }
    }
}

impl Clone for Program {
    fn clone(&self) -> (r: Self)
        ensures
            r@ == self@,
    {
        let mut statements: Vec<Statement> = Vec::new();
        let mut i: usize = 0;
        while i < self.statements.len()
            invariant
                i <= self.statements@.len(),
                statements@.len() == i,
                forall|k: int| 0 <= k < i ==> (#[trigger] statements@[k])@ == self.statements@[k]@,
            decreases self.statements.len() - i,
        {
            statements.push(self.statements[i].clone());
            i += 1;
        }
        let copy = Program { statements };
        assert(copy@ =~= self@);
        copy
    }
}

} // verus!
