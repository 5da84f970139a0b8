use vstd::prelude::*;
use vstd::string::StringExecFns;
use std::rc::Rc;
use crate::ast::{
    expression_view, expression_views, lemma_expression_views, system_item_views, BinOp, Expression,
    ExpressionView, Program, Statement, StatementView, SystemItem, SystemItemRhs, SystemItemRhsView,
    SystemItemView, UnOp,
};
use crate::display::{state_space_text, transfer_function_text, vector_text, write_vector};
use crate::grammar::{program_of, ParseError, ProgramParser};
use crate::dynamic_system::{
    definition_views, resolution, share, BlockView, ComponentView, CompoundSystem,
    CompoundSystemComponentDefinition, DefinitionView, SystemBlock,
};
use crate::matrix::{Matrix, MatrixView};
use crate::number::{decimal_of, parse_decimal};
use crate::scalar::Scalar;
use crate::simulation::{gain_output, gain_system, lemma_gain_response, plan_of, Simulation, STEPS};
use crate::state_space::{DiscreteStateSpaceModel, StateSpaceView};
use crate::text::chars_of;
use crate::transfer_function::{construct, DiscreteTransferFunction, TransferFunctionView};

verus! {

/// The error of the standard library's text formatting.
#[verifier::external_type_specification]
#[verifier::external_body]
pub struct ExFormatError(std::fmt::Error);

/// Why a statement could not be evaluated.
#[derive(Debug, PartialEq)]
pub enum Error {
    IO(std::fmt::Error),
    /// A name that nothing is bound to.
    NullDeref(String),
    /// A name in the place of a function that nothing is bound to.
    UnknownFunction(String),
    /// A value of a kind that the operation does not take.
    TypeError,
    /// The number of arguments that the function takes, and the number given.
    IncorrectNumberOfArguments(usize, usize),
    Other(String),
}

pub enum ErrorView {
    IO,
    NullDeref(Seq<char>),
    UnknownFunction(Seq<char>),
    TypeError,
    IncorrectNumberOfArguments(usize, usize),
    Other(Seq<char>),
}

impl View for Error {
    type V = ErrorView;

    open spec fn view(&self) -> ErrorView {
        match self {
            Error::IO(_) => ErrorView::IO,
            Error::NullDeref(name) => ErrorView::NullDeref(name@),
            Error::UnknownFunction(name) => ErrorView::UnknownFunction(name@),
            Error::TypeError => ErrorView::TypeError,
            Error::IncorrectNumberOfArguments(expected, got) => ErrorView::IncorrectNumberOfArguments(
                *expected,
                *got,
            ),
            Error::Other(message) => ErrorView::Other(message@),
        }
    }
}

/// The functions that every program can call.
#[derive(Copy, Clone, Debug, PartialEq, Eq)]
pub enum BuiltInFunction {
    /// `load(file)`: the table in a file, as a matrix.
    Load,
    /// `tf(num, den)`: a transfer function.
    TransferFunction,
    /// `tf2ss(tf)`: the state-space model of a transfer function.
    Tf2Ss,
    /// `step(system)`: the unit step response of a system.
    Step,
}

/// A value at run time.
#[derive(Clone, Debug, PartialEq)]
pub enum Value<S: Scalar> {
    String(String),
    Float(S),
    Vector(Rc<Vec<S>>),
    Matrix(Rc<Matrix<S>>),
    BuiltInFunction(BuiltInFunction),
    TransferFunction(Rc<DiscreteTransferFunction<S>>),
    StateSpaceModel(Rc<DiscreteStateSpaceModel<S>>),
    CompoundSystem(Rc<CompoundSystem<S>>),
}

pub enum ValueView<S> {
    String(Seq<char>),
    Float(S),
    Vector(Seq<S>),
    Matrix(MatrixView<S>),
    BuiltInFunction(BuiltInFunction),
    TransferFunction(TransferFunctionView<S>),
    StateSpaceModel(StateSpaceView<S>),
    CompoundSystem(Seq<ComponentView<S>>),
}

impl<S: Scalar> View for Value<S> {
    type V = ValueView<S>;

    open spec fn view(&self) -> ValueView<S> {
        match self {
            Value::String(s) => ValueView::String(s@),
            Value::Float(f) => ValueView::Float(*f),
            Value::Vector(v) => ValueView::Vector(v@),
            Value::Matrix(m) => ValueView::Matrix(m@),
            Value::BuiltInFunction(f) => ValueView::BuiltInFunction(*f),
            Value::TransferFunction(tf) => ValueView::TransferFunction(tf@),
            Value::StateSpaceModel(ss) => ValueView::StateSpaceModel(ss@),
            Value::CompoundSystem(system) => ValueView::CompoundSystem(system@),
        }
    }
}

/// What evaluating a statement shows.
#[derive(Debug, PartialEq)]
pub enum Output<S: Scalar> {
    Error(Error),
    Text(String),
    Plot(Rc<Matrix<S>>),
    System(Rc<CompoundSystem<S>>),
}

pub enum OutputView<S> {
    Error(ErrorView),
    Text(Seq<char>),
    Plot(MatrixView<S>),
    System(Seq<ComponentView<S>>),
}

impl<S: Scalar> View for Output<S> {
    type V = OutputView<S>;

    open spec fn view(&self) -> OutputView<S> {
        match self {
            Output::Error(e) => OutputView::Error(e@),
            Output::Text(t) => OutputView::Text(t@),
            Output::Plot(m) => OutputView::Plot(m@),
            Output::System(system) => OutputView::System(system@),
        }
    }
}

/// What reading a file gave.
pub open spec fn content_view(content: Option<String>) -> Option<Seq<char>> {
    match content {
        Some(text) => Some(text@),
        None => None,
    }
}

/// The text under a name in a store of files, if there is one.
pub open spec fn file_in(files: Map<Seq<char>, Seq<char>>, name: Seq<char>) -> Option<Seq<char>> {
    if files.contains_key(name) {
        Some(files[name])
    } else {
        None
    }
}

/// Where a program reads its files from: a store of texts under names.
pub trait Env {
    /// The texts of the store by their names.
    spec fn files(&self) -> Map<Seq<char>, Seq<char>>;

    /// The text of the file of that name, if there is one.
    fn read_file(&self, name: &str) -> (r: Option<String>)
        ensures
            content_view(r) == file_in(self.files(), name@),
    ;
}

/// What a value shows where it is the result of a statement.
pub open spec fn output_of<S: Scalar>(value: ValueView<S>) -> OutputView<S> {
    match value {
        ValueView::String(s) => OutputView::Text(s),
        ValueView::Vector(v) => OutputView::Text(vector_text(v)),
        ValueView::Matrix(m) => OutputView::Plot(m),
        ValueView::Float(f) => OutputView::Text(f.spec_to_text()@),
        ValueView::BuiltInFunction(_) => OutputView::Text("<builtin_function>"@),
        ValueView::TransferFunction(tf) => OutputView::Text(transfer_function_text(tf)),
        ValueView::StateSpaceModel(ss) => OutputView::Text(state_space_text(ss)),
        ValueView::CompoundSystem(system) => OutputView::System(system),
    }
}

/// The block that a value can serve as: a transfer function or a state-space
/// model.
pub open spec fn block_of<S: Scalar>(value: ValueView<S>) -> Result<BlockView<S>, ErrorView> {
    match value {
        ValueView::TransferFunction(tf) => Ok(BlockView::TransferFunction(tf)),
        ValueView::StateSpaceModel(ss) => Ok(BlockView::StateSpace(ss)),
        _ => Err(ErrorView::TypeError),
    }
}

/// The names that are bound before the first statement.
pub open spec fn default_values<S: Scalar>() -> Map<Seq<char>, ValueView<S>> {
    Map::empty().insert("load"@, ValueView::BuiltInFunction(BuiltInFunction::Load)).insert(
        "tf"@,
        ValueView::BuiltInFunction(BuiltInFunction::TransferFunction),
    ).insert("tf2ss"@, ValueView::BuiltInFunction(BuiltInFunction::Tf2Ss)).insert(
        "step"@,
        ValueView::BuiltInFunction(BuiltInFunction::Step),
    )
}

/// The rows of a table of text.
pub open spec fn table_view(rows: Seq<Vec<String>>) -> Seq<Seq<Seq<char>>> {
    Seq::new(rows.len(), |j: int| Seq::new(rows[j]@.len(), |i: int| rows[j]@[i]@))
}

pub open spec fn parse_failure() -> ErrorView {
    ErrorView::Other("Error while parsing csv"@)
}

/// Every row of the table is as long as the first.
pub open spec fn rectangular(rows: Seq<Seq<Seq<char>>>) -> bool {
    forall|j: int| 0 <= j < rows.len() ==> (#[trigger] rows[j]).len() == rows[0].len()
}

/// Every cell of the table is a decimal number.
pub open spec fn numeric(rows: Seq<Seq<Seq<char>>>) -> bool {
    forall|j: int, i: int|
        0 <= j < rows.len() && 0 <= i < rows[j].len() ==> decimal_of(#[trigger] rows[j][i]) is Some
}

/// The matrix of a table of numbers, in which every row of the table is a
/// column: a table of `n` rows of `k` cells gives `k` rows of `n` entries.
pub open spec fn table_matrix<S: Scalar>(rows: Seq<Seq<Seq<char>>>) -> Result<MatrixView<S>, ErrorView> {
    if rectangular(rows) && numeric(rows) {
        let height = if rows.len() == 0 {
            0
        } else {
            rows[0].len()
        };
        Ok(
            MatrixView {
                rows: Seq::new(
                    height,
                    |i: int|
                        Seq::new(rows.len(), |j: int| S::spec_from_decimal(decimal_of(rows[j][i]).unwrap())),
                ),
                cols: rows.len(),
            },
        )
    } else {
        Err(parse_failure())
    }
}

/// The records of a text in comma-separated form without a header line, as
/// the `csv` reader yields them with its default settings otherwise, or none
/// where it reports an error.
pub uninterp spec fn csv_records(text: Seq<char>) -> Option<Seq<Seq<Seq<char>>>>;

pub open spec fn missing_file(name: Seq<char>) -> ErrorView {
    ErrorView::Other("file "@ + name + " could not be read"@)
}

/// What `load` gives for a file name and what reading that file gave.
pub open spec fn load_of<S: Scalar>(name: Seq<char>, content: Option<Seq<char>>) -> Result<
    MatrixView<S>,
    ErrorView,
> {
    match content {
        None => Err(missing_file(name)),
        Some(text) => match csv_records(text) {
            None => Err(parse_failure()),
            Some(rows) => table_matrix(rows),
        },
    }
}

/// What `tf` gives for two values.
pub open spec fn tf_of<S: Scalar>(num: Seq<S>, den: Seq<S>) -> Result<ValueView<S>, ErrorView> {
    match construct(num, den) {
        Some(tf) => Ok(ValueView::TransferFunction(tf)),
        None => Err(ErrorView::Other("Could not construct tf"@)),
    }
}

/// What `tf2ss` gives for a value.
pub open spec fn tf2ss_of<S: Scalar>(value: ValueView<S>) -> Result<ValueView<S>, ErrorView> {
    match value {
        ValueView::TransferFunction(tf) => match tf.realization() {
            Some(ss) => Ok(ValueView::StateSpaceModel(ss)),
            None => Err(ErrorView::Other("Could not convert to state space"@)),
        },
        _ => Err(ErrorView::TypeError),
    }
}

/// The system of one block that reads the input `u` and has the empty name.
pub open spec fn single_block<S: Scalar>(block: BlockView<S>) -> Seq<DefinitionView<S>> {
    seq![DefinitionView { block, name: Seq::empty(), reads_input_from: seq!["u"@] }]
}

/// The unit step response of a system as a matrix of one row.
pub open spec fn response_of<S: Scalar>(system: Seq<ComponentView<S>>) -> Result<ValueView<S>, ErrorView> {
    match plan_of(system) {
        Some(plan) => Ok(
            ValueView::Matrix(MatrixView { rows: seq![plan.step_response()], cols: (STEPS + 1) as nat }),
        ),
        None => Err(ErrorView::Other("could not init sim"@)),
    }
}

/// What `step` gives for a value: the response of a system, or of the system
/// that a single transfer function or state-space model makes.
pub open spec fn step_of<S: Scalar>(value: ValueView<S>) -> Result<ValueView<S>, ErrorView> {
    match value {
        ValueView::CompoundSystem(system) => response_of(system),
        _ => match block_of(value) {
            Ok(block) => match resolution(single_block(block)) {
                Ok(system) => response_of(system),
                Err(message) => Err(ErrorView::Other(message)),
            },
            Err(_) => Err(ErrorView::TypeError),
        },
    }
}

/// The definition that a line of a `system` block stands for.
pub open spec fn item_definition<S: Scalar>(item: SystemItemView, env: Map<Seq<char>, ValueView<S>>) -> Result<
    DefinitionView<S>,
    ErrorView,
> {
    match item.rhs {
        SystemItemRhsView::Difference { input1_name, input2_name } => Ok(
            DefinitionView {
                block: BlockView::Difference,
                name: item.output_name,
                reads_input_from: seq![input1_name, input2_name],
            },
        ),
        SystemItemRhsView::System { system_name, input_name } => if env.contains_key(system_name) {
            match block_of(env[system_name]) {
                Ok(block) => Ok(
                    DefinitionView { block, name: item.output_name, reads_input_from: seq![input_name] },
                ),
                Err(e) => Err(e),
            }
        } else {
            Err(ErrorView::NullDeref(system_name))
        },
    }
}

/// The error of the first line from `from` on that stands for no definition.
pub open spec fn first_item_error<S: Scalar>(
    items: Seq<SystemItemView>,
    from: int,
    env: Map<Seq<char>, ValueView<S>>,
) -> Option<ErrorView>
    decreases items.len() - from,
{
    if from < 0 || from >= items.len() {
        None
    } else {
        match item_definition(items[from], env) {
            Err(e) => Some(e),
            Ok(_) => first_item_error(items, from + 1, env),
        }
    }
}

/// What a `system` block gives.
pub open spec fn system_of<S: Scalar>(items: Seq<SystemItemView>, env: Map<Seq<char>, ValueView<S>>) -> Result<
    ValueView<S>,
    ErrorView,
> {
    match first_item_error(items, 0, env) {
        Some(e) => Err(e),
        None => match resolution(Seq::new(items.len(), |i: int| item_definition(items[i], env)->Ok_0)) {
            Ok(system) => Ok(ValueView::CompoundSystem(system)),
            Err(message) => Err(ErrorView::Other(message)),
        },
    }
}

/// What an operator gives for two numbers.
pub open spec fn binary<S: Scalar>(op: BinOp, x: S, y: S) -> S {
    match op {
        BinOp::Add => x.spec_plus(y),
        BinOp::Sub => x.spec_minus(y),
        BinOp::Mul => x.spec_times(y),
        BinOp::Div => x.spec_over(y),
    }
}

/// The value of an expression under the bindings `env` and the files
/// `files`. Parts are evaluated from left to right, and the first error ends
/// the evaluation.
pub open spec fn eval_spec<S: Scalar>(
    expr: ExpressionView,
    env: Map<Seq<char>, ValueView<S>>,
    files: Map<Seq<char>, Seq<char>>,
) -> Result<ValueView<S>, ErrorView>
    decreases expr, 0nat,
{
    match expr {
        ExpressionView::Identifier(id) => if env.contains_key(id) {
            Ok(env[id])
        } else {
            Err(ErrorView::NullDeref(id))
        },
        ExpressionView::StringLiteral(s) => Ok(ValueView::String(s)),
        ExpressionView::FloatLiteral(d) => Ok(ValueView::Float(S::spec_from_decimal(d))),
        ExpressionView::VectorLiteral(elements) => match elements_spec(elements, 0, env, files) {
            Ok(v) => Ok(ValueView::Vector(v)),
            Err(x) => Err(x),
        },
        ExpressionView::UnOp(op, e) => match eval_spec(*e, env, files) {
            Ok(ValueView::Float(f)) => Ok(ValueView::Float(f.spec_negated())),
            Ok(_) => Err(ErrorView::TypeError),
            Err(x) => Err(x),
        },
        ExpressionView::BinOp(op, e1, e2) => match eval_spec(*e1, env, files) {
            Ok(ValueView::Float(x)) => match eval_spec(*e2, env, files) {
                Ok(ValueView::Float(y)) => Ok(ValueView::Float(binary(op, x, y))),
                Ok(_) => Err(ErrorView::TypeError),
                Err(e) => Err(e),
            },
            Ok(_) => Err(ErrorView::TypeError),
            Err(e) => Err(e),
        },
        ExpressionView::FunctionCall { function, arguments } => match eval_spec(*function, env, files) {
            Ok(ValueView::BuiltInFunction(f)) => call_spec(f, arguments, env, files),
            Ok(_) => Err(ErrorView::TypeError),
            Err(ErrorView::NullDeref(id)) => Err(ErrorView::UnknownFunction(id)),
            Err(e) => Err(e),
        },
        ExpressionView::System(items) => system_of(items, env),
    }
}

/// The numbers that the elements of a vector from `from` on evaluate to.
pub open spec fn elements_spec<S: Scalar>(
    elements: Seq<ExpressionView>,
    from: int,
    env: Map<Seq<char>, ValueView<S>>,
    files: Map<Seq<char>, Seq<char>>,
) -> Result<Seq<S>, ErrorView>
    decreases elements, elements.len() - from,
{
    if from < 0 || from >= elements.len() {
        Ok(Seq::empty())
    } else {
        match eval_spec(elements[from], env, files) {
            Ok(ValueView::Float(f)) => match elements_spec(elements, from + 1, env, files) {
                Ok(v) => Ok(seq![f] + v),
                Err(e) => Err(e),
            },
            Ok(_) => Err(ErrorView::TypeError),
            Err(e) => Err(e),
        }
    }
}

/// The number of arguments that a function takes.
pub open spec fn arity(f: BuiltInFunction) -> usize {
    match f {
        BuiltInFunction::TransferFunction => 2,
        _ => 1,
    }
}

/// What a call of a built-in function gives. `load` reads the file whose
/// name its argument is.
pub open spec fn call_spec<S: Scalar>(
    f: BuiltInFunction,
    arguments: Seq<ExpressionView>,
    env: Map<Seq<char>, ValueView<S>>,
    files: Map<Seq<char>, Seq<char>>,
) -> Result<ValueView<S>, ErrorView>
    decreases arguments, 0nat,
{
    if arguments.len() != arity(f) {
        Err(ErrorView::IncorrectNumberOfArguments(arity(f), arguments.len() as usize))
    } else {
        match eval_spec(arguments[0], env, files) {
            Err(e) => Err(e),
            Ok(value) => match f {
                BuiltInFunction::Load => match value {
                    ValueView::String(name) => match load_of(name, file_in(files, name)) {
                        Ok(m) => Ok(ValueView::Matrix(m)),
                        Err(e) => Err(e),
                    },
                    _ => Err(ErrorView::TypeError),
                },
                BuiltInFunction::TransferFunction => match value {
                    ValueView::Vector(num) => match eval_spec(arguments[1], env, files) {
                        Ok(ValueView::Vector(den)) => tf_of(num, den),
                        Ok(_) => Err(ErrorView::TypeError),
                        Err(e) => Err(e),
                    },
                    _ => Err(ErrorView::TypeError),
                },
                BuiltInFunction::Tf2Ss => tf2ss_of(value),
                BuiltInFunction::Step => step_of(value),
            },
        }
    }
}

/// The bindings and the outputs of a running program.
pub struct Progress<S> {
    pub env: Map<Seq<char>, ValueView<S>>,
    pub outputs: Seq<OutputView<S>>,
}

/// The progress of a program after one more statement. An expression shows
/// its value or its error; an assignment binds the value and shows nothing,
/// or shows the error and binds nothing.
pub open spec fn after_statement<S: Scalar>(
    statement: StatementView,
    before: Progress<S>,
    files: Map<Seq<char>, Seq<char>>,
) -> Progress<S> {
    match statement {
        StatementView::ExpressionStatement(expr) => Progress {
            env: before.env,
            outputs: before.outputs.push(
                match eval_spec(expr, before.env, files) {
                    Ok(value) => output_of(value),
                    Err(error) => OutputView::Error(error),
                },
            ),
        },
        StatementView::Assign(id, expr) => match eval_spec(expr, before.env, files) {
            Ok(value) => Progress { env: before.env.insert(id, value), outputs: before.outputs },
            Err(error) => Progress { env: before.env, outputs: before.outputs.push(OutputView::Error(error)) },
        },
    }
}

/// The progress of a program after its first `k` statements.
pub open spec fn after_statements<S: Scalar>(
    statements: Seq<StatementView>,
    k: int,
    files: Map<Seq<char>, Seq<char>>,
) -> Progress<S>
    decreases k,
{
    if k <= 0 {
        Progress { env: default_values(), outputs: Seq::empty() }
    } else {
        after_statement(statements[k - 1], after_statements(statements, k - 1, files), files)
    }
}

/// What a program shows where it reads its files from `files`.
pub open spec fn execute_spec<S: Scalar>(program: Seq<StatementView>, files: Map<Seq<char>, Seq<char>>) -> Seq<
    OutputView<S>,
> {
    after_statements::<S>(program, program.len() as int, files).outputs
}

/// What a text shows when it is run as a program that reads its files from
/// `files`; the error where the text is no program.
pub open spec fn run_spec<S: Scalar>(text: Seq<char>, files: Map<Seq<char>, Seq<char>>) -> Result<
    Seq<OutputView<S>>,
    ParseError,
> {
    match program_of(text) {
        Ok(program) => Ok(execute_spec(program, files)),
        Err(e) => Err(e),
    }
}

/// Reads a text in comma-separated form.
///
/// Calls the `csv` crate: a reader made by `ReaderBuilder` with `has_headers`
/// switched off, over the bytes of the text, and its `records`. Hands back the
/// fields of every record, or none where the reader reports an error. The
/// records are a function of the text, which `csv_records` names; nothing
/// else is claimed of them.
#[verifier::external_body]
fn read_csv(text: &str) -> (r: Option<Vec<Vec<String>>>)
    ensures
        match r {
            Some(rows) => csv_records(text@) == Some(table_view(rows@)),
            None => csv_records(text@) is None,
        },
{
    let mut reader = csv::ReaderBuilder::new().has_headers(false).from_reader(text.as_bytes());
    let mut rows: Vec<Vec<String>> = Vec::new();
    for record in reader.records() {
        match record {
            Ok(fields) => rows.push(fields.iter().map(|field| field.to_string()).collect()),
            Err(_) => return None,
        }
    }
    Some(rows)
}

fn parse_error() -> (r: Error)
    ensures
        r@ == parse_failure(),
{
    Error::Other(String::from_str("Error while parsing csv"))
}

/// The matrix of a table of numbers, in which every row of the table is a
/// column.
pub fn table_to_matrix<S: Scalar>(rows: &Vec<Vec<String>>) -> (r: Result<Matrix<S>, Error>)
    ensures
        match r {
            Ok(m) => table_matrix::<S>(table_view(rows@)) == Ok::<_, ErrorView>(m@) && m@.well_formed(),
            Err(e) => table_matrix::<S>(table_view(rows@)) == Err::<MatrixView<S>, _>(e@),
        },
{
    let ghost table = table_view(rows@);
    let width = rows.len();
    let height = if width == 0 {
        0
    } else {
        rows[0].len()
    };
    let mut numbers: Vec<Vec<S>> = Vec::new();
    let mut j: usize = 0;
    while j < width
        invariant
            j <= width,
            width == rows@.len(),
            table == table_view(rows@),
            width > 0 ==> height == table[0].len(),
            numbers@.len() == j,
            forall|q: int| 0 <= q < j ==> (#[trigger] table[q]).len() == height,
            forall|q: int| 0 <= q < j ==> (#[trigger] numbers@[q])@.len() == height,
            forall|q: int, i: int| 0 <= q < j && 0 <= i < height ==> decimal_of(#[trigger] table[q][i]) is Some,
            forall|q: int, i: int|
                0 <= q < j && 0 <= i < height ==> (#[trigger] numbers@[q]@[i]) == S::spec_from_decimal(
                    decimal_of(table[q][i]).unwrap(),
                ),
        decreases width - j,
    {
        let row = &rows[j];
        assert(table[j as int].len() == row@.len());
        if row.len() != height {
            return Err(parse_error());
        }
        let mut column: Vec<S> = Vec::new();
        let mut i: usize = 0;
        while i < height
            invariant
                i <= height,
                j < width,
                width == rows@.len(),
                table == table_view(rows@),
                *row == rows@[j as int],
                row@.len() == height,
                column@.len() == i,
                forall|p: int| 0 <= p < i ==> decimal_of(#[trigger] table[j as int][p]) is Some,
                forall|p: int|
                    0 <= p < i ==> (#[trigger] column@[p]) == S::spec_from_decimal(
                        decimal_of(table[j as int][p]).unwrap(),
                    ),
            decreases height - i,
        {
            let cell = chars_of(row[i].as_str());
            assert(table[j as int][i as int] == cell@);
            match parse_decimal(&cell) {
                Some(d) => {
                    column.push(S::from_decimal(d));
                },
                None => {
                    return Err(parse_error());
                },
            }
            i += 1;
        }
        numbers.push(column);
        j += 1;
    }
    let mut out: Vec<Vec<S>> = Vec::new();
    let mut i: usize = 0;
    while i < height
        invariant
            i <= height,
            width == numbers@.len(),
            forall|q: int| 0 <= q < width ==> (#[trigger] numbers@[q])@.len() == height,
            out@.len() == i,
            forall|p: int| 0 <= p < i ==> (#[trigger] out@[p])@.len() == width,
            forall|p: int, q: int| 0 <= p < i && 0 <= q < width ==> (#[trigger] out@[p]@[q]) == numbers@[q]@[p],
        decreases height - i,
    {
        let mut line: Vec<S> = Vec::new();
        let mut q: usize = 0;
        while q < width
            invariant
                q <= width,
                i < height,
                width == numbers@.len(),
                forall|q: int| 0 <= q < width ==> (#[trigger] numbers@[q])@.len() == height,
                line@.len() == q,
                forall|t: int| 0 <= t < q ==> (#[trigger] line@[t]) == numbers@[t]@[i as int],
            decreases width - q,
        {
            line.push(numbers[q][i]);
            q += 1;
        }
        out.push(line);
        i += 1;
    }
    let m = Matrix::from_rows(out, width).unwrap();
    proof {
        assert(rectangular(table));
        assert(numeric(table));
        let expected = table_matrix::<S>(table)->Ok_0;
        assert forall|p: int| 0 <= p < height implies #[trigger] m@.rows[p] == expected.rows[p] by {
            assert(m@.rows[p] =~= expected.rows[p]);
        }
        assert(m@.rows =~= expected.rows);
    }
    Ok(m)
}

/// What `load` gives for a file name and what reading that file gave.
pub fn load_matrix<S: Scalar>(name: &String, content: Option<String>) -> (r: Result<Matrix<S>, Error>)
    ensures
        match r {
            Ok(m) => load_of::<S>(name@, content_view(content)) == Ok::<_, ErrorView>(m@) && m@.well_formed(),
            Err(e) => load_of::<S>(name@, content_view(content)) == Err::<MatrixView<S>, _>(e@),
        },
{
    match content {
        None => {
            let mut message = String::from_str("file ");
            message.append(name.as_str());
            message.append(" could not be read");
            Err(Error::Other(message))
        },
        Some(text) => match read_csv(text.as_str()) {
            None => Err(parse_error()),
            Some(rows) => table_to_matrix(&rows),
        },
    }
}

pub open spec fn result_view<S: Scalar>(r: Result<Value<S>, Error>) -> Result<ValueView<S>, ErrorView> {
    match r {
        Ok(value) => Ok(value@),
        Err(error) => Err(error@),
    }
}

pub open spec fn output_views<S: Scalar>(outputs: Seq<Output<S>>) -> Seq<OutputView<S>> {
    Seq::new(outputs.len(), |i: int| outputs[i]@)
}

impl Error {
    /// The error that stands for a failure of text formatting.
    pub fn from(value: std::fmt::Error) -> (r: Self)
        ensures
            r@ == ErrorView::IO,
    {
        Error::IO(value)
    }
}

impl<S: Scalar> Value<S> {
    /// A second handle to the value.
    pub fn duplicate(&self) -> (r: Self)
        ensures
            r@ == self@,
    {
        match self {
            Value::String(s) => Value::String(s.clone()),
            Value::Float(f) => Value::Float(*f),
            Value::Vector(v) => Value::Vector(share(v)),
            Value::Matrix(m) => Value::Matrix(share(m)),
            Value::BuiltInFunction(f) => Value::BuiltInFunction(*f),
            Value::TransferFunction(tf) => Value::TransferFunction(share(tf)),
            Value::StateSpaceModel(ss) => Value::StateSpaceModel(share(ss)),
            Value::CompoundSystem(system) => Value::CompoundSystem(share(system)),
        }
    }

    /// The value as a block of a system.
    pub fn get_system(&self) -> (r: Result<SystemBlock<S>, Error>)
        ensures
            match r {
                Ok(block) => block_of(self@) == Ok::<_, ErrorView>(block@),
                Err(e) => block_of(self@) == Err::<BlockView<S>, _>(e@),
            },
    {
        match self {
            Value::TransferFunction(tf) => Ok(SystemBlock::TransferFunction(share(tf))),
            Value::StateSpaceModel(ss) => Ok(SystemBlock::StateSpace(share(ss))),
            _ => Err(Error::TypeError),
        }
    }
}

impl<S: Scalar> Output<S> {
    /// What a value shows.
    pub fn from(value: &Value<S>) -> (r: Self)
        ensures
            r@ == output_of(value@),
    {
        match value {
            Value::String(s) => Output::Text(s.clone()),
            Value::Vector(data) => Output::Text(write_vector(data)),
            Value::Matrix(data) => Output::Plot(share(data)),
            Value::Float(f) => Output::Text(f.to_text()),
            Value::BuiltInFunction(_) => Output::Text(String::from_str("<builtin_function>")),
            Value::TransferFunction(tf) => Output::Text(tf.to_string()),
            Value::StateSpaceModel(ss) => Output::Text(ss.to_string()),
            Value::CompoundSystem(s) => Output::System(share(s)),
        }
    }
}

/// A name with the value that it is bound to.
#[derive(Debug)]
struct Binding<S: Scalar> {
    name: String,
    value: Value<S>,
}

/// The values that the names of a program are bound to.
#[derive(Debug)]
pub struct Environment<S: Scalar> {
    bindings: Vec<Binding<S>>,
}

spec fn bound<S: Scalar>(bindings: Seq<Binding<S>>) -> Map<Seq<char>, ValueView<S>>
    decreases bindings.len(),
{
    if bindings.len() == 0 {
        Map::empty()
    } else {
        bound(bindings.drop_last()).insert(bindings.last().name@, bindings.last().value@)
    }
}

impl<S: Scalar> View for Environment<S> {
    type V = Map<Seq<char>, ValueView<S>>;

    closed spec fn view(&self) -> Map<Seq<char>, ValueView<S>> {
        bound(self.bindings@)
    }
}

impl<S: Scalar> Environment<S> {
    /// No binding at all.
    pub fn new() -> (r: Self)
        ensures
            r@ == Map::<Seq<char>, ValueView<S>>::empty(),
    {
        Environment { bindings: Vec::new() }
    }

    /// Binds a name to a value, in place of what it was bound to.
    pub fn insert(&mut self, name: String, value: Value<S>)
        ensures
            final(self)@ == old(self)@.insert(name@, value@),
    {
        self.bindings.push(Binding { name, value });
        assert(self.bindings@.drop_last() =~= old(self).bindings@);
    }

    /// The value that a name is bound to.
    pub fn get(&self, name: &String) -> (r: Option<&Value<S>>)
        ensures
            match r {
                Some(value) => self@.contains_key(name@) && self@[name@] == value@,
                None => !self@.contains_key(name@),
            },
    {
        let mut i: usize = self.bindings.len();
        assert(self.bindings@.take(i as int) =~= self.bindings@);
        while i > 0
            invariant
                i <= self.bindings@.len(),
                bound(self.bindings@).contains_key(name@) == bound(self.bindings@.take(i as int)).contains_key(
                    name@,
                ),
                bound(self.bindings@.take(i as int)).contains_key(name@) ==> bound(self.bindings@)[name@] == bound(
                    self.bindings@.take(i as int),
                )[name@],
            decreases i,
        {
            assert(self.bindings@.take(i as int).drop_last() =~= self.bindings@.take(i - 1));
            let binding = &self.bindings[i - 1];
            if binding.name == *name {
                return Some(&binding.value);
            }
            i -= 1;
        }
        None
    }

    /// The bindings that every program starts with: the built-in functions.
    pub fn with_defaults() -> (r: Self)
        ensures
            r@ == default_values::<S>(),
    {
        let mut values = Environment::new();
        values.insert(String::from_str("load"), Value::BuiltInFunction(BuiltInFunction::Load));
        values.insert(String::from_str("tf"), Value::BuiltInFunction(BuiltInFunction::TransferFunction));
        values.insert(String::from_str("tf2ss"), Value::BuiltInFunction(BuiltInFunction::Tf2Ss));
        values.insert(String::from_str("step"), Value::BuiltInFunction(BuiltInFunction::Step));
        values
    }
}

/// What `tf` gives for two lists of coefficients.
pub fn apply_tf<S: Scalar>(num: &Vec<S>, den: &Vec<S>) -> (r: Result<Value<S>, Error>)
    ensures
        result_view(r) == tf_of(num@, den@),
{
    match DiscreteTransferFunction::new(crate::matrix::copy_vector(num), crate::matrix::copy_vector(den)) {
        Some(tf) => Ok(Value::TransferFunction(Rc::new(tf))),
        None => Err(Error::Other(String::from_str("Could not construct tf"))),
    }
}

/// What `tf2ss` gives for a value.
pub fn apply_tf2ss<S: Scalar>(value: &Value<S>) -> (r: Result<Value<S>, Error>)
    ensures
        result_view(r) == tf2ss_of(value@),
{
    match value {
        Value::TransferFunction(tf) => match tf.convert_to_state_space() {
            Some(ss) => Ok(Value::StateSpaceModel(Rc::new(ss))),
            None => Err(Error::Other(String::from_str("Could not convert to state space"))),
        },
        _ => Err(Error::TypeError),
    }
}

/// The unit step response of a system as a matrix of one row.
pub fn step_response<S: Scalar>(system: &CompoundSystem<S>) -> (r: Result<Value<S>, Error>)
    ensures
        result_view(r) == response_of(system@),
{
    match Simulation::new(system) {
        Some(simulation) => {
            let output = simulation.execute();
            let mut rows: Vec<Vec<S>> = Vec::new();
            rows.push(output);
            let m = Matrix::from_rows(rows, STEPS + 1).unwrap();
            assert(m@.rows =~= seq![simulation@.step_response()]);
            Ok(Value::Matrix(Rc::new(m)))
        },
        None => Err(Error::Other(String::from_str("could not init sim"))),
    }
}

/// What `step` gives for a value.
pub fn apply_step<S: Scalar>(value: &Value<S>) -> (r: Result<Value<S>, Error>)
    ensures
        result_view(r) == step_of(value@),
{
    match value {
        Value::CompoundSystem(system) => step_response(system),
        other => {
            let block = match other.get_system() {
                Ok(block) => block,
                Err(_) => {
                    return Err(Error::TypeError);
                },
            };
            let mut reads: Vec<String> = Vec::new();
            reads.push(String::from_str("u"));
            let mut definitions: Vec<CompoundSystemComponentDefinition<S>> = Vec::new();
            definitions.push(
                CompoundSystemComponentDefinition { block, name: String::new(), reads_input_from: reads },
            );
            proof {
                let views = definition_views(definitions@);
                let expected = single_block(block_of(value@)->Ok_0);
                assert(views[0].reads_input_from =~= expected[0].reads_input_from);
                assert(views =~= expected);
            }
            match CompoundSystem::new(definitions) {
                Ok(system) => step_response(&system),
                Err(message) => Err(Error::Other(message)),
            }
        },
    }
}

fn define<S: Scalar>(item: &SystemItem, values: &Environment<S>) -> (r: Result<
    CompoundSystemComponentDefinition<S>,
    Error,
>)
    ensures
        match r {
            Ok(definition) => item_definition(item@, values@) == Ok::<_, ErrorView>(definition@),
            Err(e) => item_definition(item@, values@) == Err::<DefinitionView<S>, _>(e@),
        },
{
    match &item.rhs {
        SystemItemRhs::Difference { input1_name, input2_name } => {
            let mut reads: Vec<String> = Vec::new();
            reads.push(input1_name.clone());
            reads.push(input2_name.clone());
            let definition = CompoundSystemComponentDefinition {
                block: SystemBlock::Difference,
                name: item.output_name.clone(),
                reads_input_from: reads,
            };
            assert(definition@.reads_input_from =~= seq![input1_name@, input2_name@]);
            Ok(definition)
        },
        SystemItemRhs::System { system_name, input_name } => {
            let value = match values.get(system_name) {
                Some(value) => value,
                None => {
                    return Err(Error::NullDeref(system_name.clone()));
                },
            };
            let block = match value.get_system() {
                Ok(block) => block,
                Err(e) => {
                    return Err(e);
                },
            };
            let mut reads: Vec<String> = Vec::new();
            reads.push(input_name.clone());
            let definition = CompoundSystemComponentDefinition {
                block,
                name: item.output_name.clone(),
                reads_input_from: reads,
            };
            assert(definition@.reads_input_from =~= seq![input_name@]);
            Ok(definition)
        },
    }
}

/// What a `system` block gives.
pub fn build_system<S: Scalar>(items: &Vec<SystemItem>, values: &Environment<S>) -> (r: Result<Value<S>, Error>)
    ensures
        result_view(r) == system_of(system_item_views(items@), values@),
{
    let ghost views = system_item_views(items@);
    let mut definitions: Vec<CompoundSystemComponentDefinition<S>> = Vec::new();
    let mut i: usize = 0;
    while i < items.len()
        invariant
            i <= items@.len(),
            views == system_item_views(items@),
            first_item_error(views, 0, values@) == first_item_error(views, i as int, values@),
            definitions@.len() == i,
            forall|k: int|
                0 <= k < i ==> item_definition(views[k], values@) == Ok::<_, ErrorView>(
                    (#[trigger] definitions@[k])@,
                ),
        decreases items.len() - i,
    {
        assert(views[i as int] == items@[i as int]@);
        match define(&items[i], values) {
            Ok(definition) => {
                definitions.push(definition);
            },
            Err(e) => {
                return Err(e);
            },
        }
        i += 1;
    }
    assert(definition_views(definitions@) =~= Seq::new(
        items@.len(),
        |i: int| item_definition(views[i], values@)->Ok_0,
    ));
    match CompoundSystem::new(definitions) {
        Ok(system) => Ok(Value::CompoundSystem(Rc::new(system))),
        Err(message) => Err(Error::Other(message)),
    }
}

pub open spec fn elements_view<S: Scalar>(r: Result<Vec<S>, Error>) -> Result<Seq<S>, ErrorView> {
    match r {
        Ok(v) => Ok(v@),
        Err(e) => Err(e@),
    }
}

/// A file with its name.
#[derive(Clone, Debug, PartialEq)]
struct StoredFile {
    name: String,
    text: String,
}

/// A store of files in memory.
#[derive(Clone, Debug, PartialEq)]
pub struct Files {
    entries: Vec<StoredFile>,
}

spec fn stored(entries: Seq<StoredFile>) -> Map<Seq<char>, Seq<char>>
    decreases entries.len(),
{
    if entries.len() == 0 {
        Map::empty()
    } else {
        stored(entries.drop_last()).insert(entries.last().name@, entries.last().text@)
    }
}

impl View for Files {
    type V = Map<Seq<char>, Seq<char>>;

    closed spec fn view(&self) -> Map<Seq<char>, Seq<char>> {
        stored(self.entries@)
    }
}

impl Files {
    /// The store without a file.
    pub fn new() -> (r: Self)
        ensures
            r@ == Map::<Seq<char>, Seq<char>>::empty(),
    {
        Files { entries: Vec::new() }
    }

    /// Puts a file into the store, in place of the one of that name.
    pub fn insert(&mut self, name: String, text: String)
        ensures
            final(self)@ == old(self)@.insert(name@, text@),
    {
        self.entries.push(StoredFile { name, text });
        assert(self.entries@.drop_last() =~= old(self).entries@);
    }
}

impl Env for Files {
    open spec fn files(&self) -> Map<Seq<char>, Seq<char>> {
        self@
    }

    fn read_file(&self, name: &str) -> (r: Option<String>) {
        let wanted = String::from_str(name);
        let mut i: usize = self.entries.len();
        assert(self.entries@.take(i as int) =~= self.entries@);
        while i > 0
            invariant
                i <= self.entries@.len(),
                wanted@ == name@,
                file_in(stored(self.entries@), name@) == file_in(stored(self.entries@.take(i as int)), name@),
            decreases i,
        {
            assert(self.entries@.take(i as int).drop_last() =~= self.entries@.take(i - 1));
            let entry = &self.entries[i - 1];
            if entry.name == wanted {
                return Some(entry.text.clone());
            }
            i -= 1;
        }
        None
    }
}

fn eval<S: Scalar, E: Env>(expr: &Expression, values: &Environment<S>, exec_env: &E) -> (r: Result<
    Value<S>,
    Error,
>)
    ensures
        result_view(r) == eval_spec(expr@, values@, exec_env.files()),
    decreases expr, 0nat,
{
    match expr {
        Expression::Identifier(id) => match values.get(id) {
            Some(value) => Ok(value.duplicate()),
            None => Err(Error::NullDeref(id.clone())),
        },
        Expression::StringLiteral(s) => Ok(Value::String(s.clone())),
        Expression::FloatLiteral(d) => Ok(Value::Float(S::from_decimal(*d))),
        Expression::VectorLiteral(elements) => match eval_elements(elements, 0, values, exec_env) {
            Ok(v) => Ok(Value::Vector(Rc::new(v))),
            Err(e) => Err(e),
        },
        Expression::UnOp(op, e) => match eval(e, values, exec_env) {
            Ok(Value::Float(f)) => Ok(Value::Float(f.negated())),
            Ok(_) => Err(Error::TypeError),
            Err(x) => Err(x),
        },
        Expression::BinOp(op, e1, e2) => {
            let x = match eval(e1, values, exec_env) {
                Ok(Value::Float(x)) => x,
                Ok(_) => {
                    return Err(Error::TypeError);
                },
                Err(e) => {
                    return Err(e);
                },
            };
            match eval(e2, values, exec_env) {
                Ok(Value::Float(y)) => Ok(
                    Value::Float(
                        match op {
                            BinOp::Add => x.plus(y),
                            BinOp::Sub => x.minus(y),
                            BinOp::Mul => x.times(y),
                            BinOp::Div => x.over(y),
                        },
                    ),
                ),
                Ok(_) => Err(Error::TypeError),
                Err(e) => Err(e),
            }
        },
        Expression::FunctionCall { function, arguments } => {
            let f = match eval(function, values, exec_env) {
                Ok(Value::BuiltInFunction(f)) => f,
                Ok(_) => {
                    return Err(Error::TypeError);
                },
                Err(Error::NullDeref(id)) => {
                    return Err(Error::UnknownFunction(id));
                },
                Err(e) => {
                    return Err(e);
                },
            };
            call(f, arguments, values, exec_env)
        },
        Expression::System(items) => build_system(items, values),
    }
}

fn eval_elements<S: Scalar, E: Env>(
    elements: &Vec<Expression>,
    from: usize,
    values: &Environment<S>,
    exec_env: &E,
) -> (r: Result<Vec<S>, Error>)
    ensures
        elements_view(r) == elements_spec(expression_views(elements@, 0), from as int, values@, exec_env.files()),
    decreases elements, elements.len() - from,
{
    proof {
        lemma_expression_views(elements@, 0);
    }
    if from >= elements.len() {
        let numbers: Vec<S> = Vec::new();
        assert(numbers@ =~= Seq::<S>::empty());
        return Ok(numbers);
    }
    let f = match eval(&elements[from], values, exec_env) {
        Ok(Value::Float(f)) => f,
        Ok(_) => {
            return Err(Error::TypeError);
        },
        Err(e) => {
            return Err(e);
        },
    };
    match eval_elements(elements, from + 1, values, exec_env) {
        Ok(v) => {
            let mut numbers = v;
            numbers.insert(0, f);
            assert(numbers@ =~= seq![f] + v@);
            Ok(numbers)
        },
        Err(e) => Err(e),
    }
}

fn call<S: Scalar, E: Env>(
    f: BuiltInFunction,
    arguments: &Vec<Expression>,
    values: &Environment<S>,
    exec_env: &E,
) -> (r: Result<Value<S>, Error>)
    ensures
        result_view(r) == call_spec(f, expression_views(arguments@, 0), values@, exec_env.files()),
    decreases arguments, 0nat,
{
    proof {
        lemma_expression_views(arguments@, 0);
    }
    let expected: usize = match f {
        BuiltInFunction::TransferFunction => 2,
        _ => 1,
    };
    let num_args = arguments.len();
    if num_args != expected {
        return Err(Error::IncorrectNumberOfArguments(expected, num_args));
    }
    let value = match eval(&arguments[0], values, exec_env) {
        Ok(value) => value,
        Err(e) => {
            return Err(e);
        },
    };
    match f {
        BuiltInFunction::Load => {
            let file_name = match value {
                Value::String(name) => name,
                _ => {
                    return Err(Error::TypeError);
                },
            };
            let content = exec_env.read_file(file_name.as_str());
            match load_matrix(&file_name, content) {
                Ok(m) => Ok(Value::Matrix(Rc::new(m))),
                Err(e) => Err(e),
            }
        },
        BuiltInFunction::TransferFunction => {
            let num = match value {
                Value::Vector(num) => num,
                _ => {
                    return Err(Error::TypeError);
                },
            };
            match eval(&arguments[1], values, exec_env) {
                Ok(Value::Vector(den)) => apply_tf(&num, &den),
                Ok(_) => Err(Error::TypeError),
                Err(e) => Err(e),
            }
        },
        BuiltInFunction::Tf2Ss => apply_tf2ss(&value),
        BuiltInFunction::Step => apply_step(&value),
    }
}

/// Runs a program: evaluates its statements in their order and collects what
/// they show, reading the files from `exec_env`.
pub fn execute<S: Scalar, E: Env>(program: &Program, exec_env: &E) -> (output: Vec<Output<S>>)
    ensures
        output_views(output@) == execute_spec::<S>(program@, exec_env.files()),
{
    let mut output: Vec<Output<S>> = Vec::new();
    let mut values: Environment<S> = Environment::with_defaults();
    let ghost statements = program@;
    let ghost files = exec_env.files();
    assert(output_views(output@) =~= Seq::empty());
    let mut k: usize = 0;
    while k < program.statements.len()
        invariant
            k <= program.statements@.len(),
            statements == program@,
            files == exec_env.files(),
            after_statements::<S>(statements, k as int, files) == (Progress {
                env: values@,
                outputs: output_views(output@),
            }),
        decreases program.statements.len() - k,
    {
        let ghost before = output_views(output@);
        assert(statements[k as int] == program.statements@[k as int]@);
        match &program.statements[k] {
            Statement::ExpressionStatement(expr) => {
                let shown = match eval(expr, &values, exec_env) {
                    Ok(value) => Output::from(&value),
                    Err(e) => Output::Error(e),
                };
                let ghost view = shown@;
                output.push(shown);
                assert(output_views(output@) =~= before.push(view));
            },
            Statement::Assign(id, expr) => {
                match eval(expr, &values, exec_env) {
                    Ok(value) => {
                        values.insert(id.clone(), value);
                        assert(output_views(output@) =~= before);
                    },
                    Err(e) => {
                        let ghost view = OutputView::<S>::Error(e@);
                        output.push(Output::Error(e));
                        assert(output_views(output@) =~= before.push(view));
                    },
                };
            },
        }
        k += 1;
    }
    output
}

/// Whether an expression holds the name `load`.
pub open spec fn names_load(expr: ExpressionView) -> bool
    decreases expr, 0nat,
{
    match expr {
        ExpressionView::Identifier(id) => id == "load"@,
        ExpressionView::StringLiteral(_) => false,
        ExpressionView::FloatLiteral(_) => false,
        ExpressionView::VectorLiteral(elements) => any_names_load(elements, 0),
        ExpressionView::UnOp(_, e) => names_load(*e),
        ExpressionView::BinOp(_, e1, e2) => names_load(*e1) || names_load(*e2),
        ExpressionView::FunctionCall { function, arguments } => names_load(*function) || any_names_load(
            arguments,
            0,
        ),
        ExpressionView::System(_) => false,
    }
}

/// Whether one of the expressions from `from` on holds the name `load`.
pub open spec fn any_names_load(items: Seq<ExpressionView>, from: int) -> bool
    decreases items, items.len() - from,
{
    0 <= from < items.len() && (names_load(items[from]) || any_names_load(items, from + 1))
}

/// Whether the expression of a statement holds the name `load`.
pub open spec fn statement_names_load(statement: StatementView) -> bool {
    match statement {
        StatementView::ExpressionStatement(expr) => names_load(expr),
        StatementView::Assign(_, expr) => names_load(expr),
    }
}

/// No name but `load` is bound to the function that reads files.
pub open spec fn load_by_its_name_only<S: Scalar>(env: Map<Seq<char>, ValueView<S>>) -> bool {
    forall|key: Seq<char>|
        env.contains_key(key) && key != "load"@ ==> #[trigger] env[key] != ValueView::<S>::BuiltInFunction(
            BuiltInFunction::Load,
        )
}

proof fn lemma_eval_without_load<S: Scalar>(
    expr: ExpressionView,
    env: Map<Seq<char>, ValueView<S>>,
    first: Map<Seq<char>, Seq<char>>,
    second: Map<Seq<char>, Seq<char>>,
)
    requires
        !names_load(expr),
        load_by_its_name_only(env),
    ensures
        eval_spec(expr, env, first) == eval_spec(expr, env, second),
        eval_spec(expr, env, first) != Ok::<_, ErrorView>(ValueView::<S>::BuiltInFunction(BuiltInFunction::Load)),
    decreases expr, 0nat,
{
    match expr {
        ExpressionView::VectorLiteral(elements) => {
            lemma_elements_without_load(elements, 0, env, first, second);
        },
        ExpressionView::UnOp(_, e) => {
            lemma_eval_without_load(*e, env, first, second);
        },
        ExpressionView::BinOp(_, e1, e2) => {
            lemma_eval_without_load(*e1, env, first, second);
            lemma_eval_without_load(*e2, env, first, second);
        },
        ExpressionView::FunctionCall { function, arguments } => {
            lemma_eval_without_load(*function, env, first, second);
            match eval_spec(*function, env, first) {
                Ok(ValueView::BuiltInFunction(f)) => {
                    lemma_call_without_load(f, arguments, env, first, second);
                },
                _ => {},
            }
        },
        _ => {},
    }
}

proof fn lemma_elements_without_load<S: Scalar>(
    elements: Seq<ExpressionView>,
    from: int,
    env: Map<Seq<char>, ValueView<S>>,
    first: Map<Seq<char>, Seq<char>>,
    second: Map<Seq<char>, Seq<char>>,
)
    requires
        0 <= from,
        !any_names_load(elements, from),
        load_by_its_name_only(env),
    ensures
        elements_spec(elements, from, env, first) == elements_spec(elements, from, env, second),
    decreases elements, elements.len() - from,
{
    if from < elements.len() {
        lemma_eval_without_load(elements[from], env, first, second);
        lemma_elements_without_load(elements, from + 1, env, first, second);
    }
}

proof fn lemma_call_without_load<S: Scalar>(
    f: BuiltInFunction,
    arguments: Seq<ExpressionView>,
    env: Map<Seq<char>, ValueView<S>>,
    first: Map<Seq<char>, Seq<char>>,
    second: Map<Seq<char>, Seq<char>>,
)
    requires
        f != BuiltInFunction::Load,
        !any_names_load(arguments, 0),
        load_by_its_name_only(env),
    ensures
        call_spec(f, arguments, env, first) == call_spec(f, arguments, env, second),
        call_spec(f, arguments, env, first) != Ok::<_, ErrorView>(
            ValueView::<S>::BuiltInFunction(BuiltInFunction::Load),
        ),
    decreases arguments, 0nat,
{
    if arguments.len() == arity(f) {
        lemma_eval_without_load(arguments[0], env, first, second);
        if arguments.len() == 2 {
            assert(!any_names_load(arguments, 1));
            lemma_eval_without_load(arguments[1], env, first, second);
        }
    }
}

proof fn lemma_statements_without_load<S: Scalar>(
    program: Seq<StatementView>,
    k: int,
    first: Map<Seq<char>, Seq<char>>,
    second: Map<Seq<char>, Seq<char>>,
)
    requires
        0 <= k <= program.len(),
        forall|i: int| 0 <= i < program.len() ==> !statement_names_load(#[trigger] program[i]),
    ensures
        after_statements::<S>(program, k, first) == after_statements::<S>(program, k, second),
        load_by_its_name_only(after_statements::<S>(program, k, first).env),
    decreases k,
{
    if k > 0 {
        lemma_statements_without_load::<S>(program, k - 1, first, second);
        let before = after_statements::<S>(program, k - 1, first);
        assert(!statement_names_load(program[k - 1]));
        match program[k - 1] {
            StatementView::ExpressionStatement(expr) => {
                lemma_eval_without_load(expr, before.env, first, second);
            },
            StatementView::Assign(_, expr) => {
                lemma_eval_without_load(expr, before.env, first, second);
            },
        }
    }
}

/// A program that does not hold the name `load` reads no file: it shows the
/// same whatever the files are.
pub proof fn lemma_without_load_files_do_not_matter<S: Scalar>(
    program: Seq<StatementView>,
    first: Map<Seq<char>, Seq<char>>,
    second: Map<Seq<char>, Seq<char>>,
)
    requires
        forall|i: int| 0 <= i < program.len() ==> !statement_names_load(#[trigger] program[i]),
    ensures
        execute_spec::<S>(program, first) == execute_spec::<S>(program, second),
{
    lemma_statements_without_load::<S>(program, program.len() as int, first, second);
}

impl Clone for Error {
    fn clone(&self) -> (r: Self)
        ensures
            r@ == self@,
    {
        match self {
            Error::IO(e) => Error::IO(*e),
            Error::NullDeref(name) => Error::NullDeref(name.clone()),
            Error::UnknownFunction(name) => Error::UnknownFunction(name.clone()),
            Error::TypeError => Error::TypeError,
            Error::IncorrectNumberOfArguments(expected, got) => Error::IncorrectNumberOfArguments(
                *expected,
                *got,
            ),
            Error::Other(message) => Error::Other(message.clone()),
        }
    }
}

impl<S: Scalar> Clone for Output<S> {
    fn clone(&self) -> (r: Self)
        ensures
            r@ == self@,
    {
        match self {
            Output::Error(e) => Output::Error(e.clone()),
            Output::Text(t) => Output::Text(t.clone()),
            Output::Plot(m) => Output::Plot(share(m)),
            Output::System(system) => Output::System(share(system)),
        }
    }
}

/// Two runs of a program on the same files show the same: what `execute`
/// promises of each fixes both.
pub proof fn lemma_runs_agree<S: Scalar>(
    program: Seq<StatementView>,
    files: Map<Seq<char>, Seq<char>>,
    first: Seq<Output<S>>,
    second: Seq<Output<S>>,
)
    requires
        output_views(first) == execute_spec::<S>(program, files),
        output_views(second) == execute_spec::<S>(program, files),
    ensures
        output_views(first) == output_views(second),
{
}

/// `step` of the transfer function `k / 1` gives a row of `STEPS + 1` times
/// the same number, `gain_output(k)`.
pub proof fn lemma_step_of_a_gain<S: Scalar>(k: S)
    requires
        !S::spec_one().spec_is_zero(),
    ensures
        step_of(ValueView::TransferFunction(TransferFunctionView { num: seq![k], den: seq![S::spec_one()] }))
            == Ok::<_, ErrorView>(
            ValueView::Matrix(
                MatrixView {
                    rows: seq![Seq::new((STEPS + 1) as nat, |i: int| gain_output(k))],
                    cols: (STEPS + 1) as nat,
                },
            ),
        ),
{
    reveal_strlit("u");
    let tf = TransferFunctionView { num: seq![k], den: seq![S::spec_one()] };
    let defs = single_block(BlockView::TransferFunction(tf));
    assert(crate::dynamic_system::fault(defs, 0) is None) by {
        assert(crate::dynamic_system::first_unknown(defs, 0, 1) is None);
    }
    assert(crate::dynamic_system::first_fault(defs, 0) is None) by {
        assert(crate::dynamic_system::first_fault(defs, 1) is None);
    }
    let system = resolution(defs)->Ok_0;
    assert(system[0].reads_input_from =~= gain_system(k)[0].reads_input_from);
    assert(system =~= gain_system(k));
    lemma_gain_response(k);
}

/// Reads a text as a program and runs it, reading the files from `exec_env`.
pub fn run<S: Scalar, E: Env>(text: &str, exec_env: &E) -> (r: Result<Vec<Output<S>>, ParseError>)
    ensures
        match r {
            Ok(output) => run_spec::<S>(text@, exec_env.files()) == Ok::<_, ParseError>(output_views(output@)),
            Err(e) => run_spec::<S>(text@, exec_env.files()) == Err::<Seq<OutputView<S>>, _>(e),
        },
{
    match ProgramParser::new().parse(text) {
        Ok(program) => Ok(execute(&program, exec_env)),
        Err(e) => Err(e),
    }
}

} // verus!
