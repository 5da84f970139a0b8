use vstd::prelude::*;
use std::rc::Rc;
use crate::dynamic_system::{share, BlockView, ComponentView, CompoundSystem, Signal, SystemBlock};
use crate::matrix::{copy_vector, Matrix, MatrixView};
use crate::scalar::Scalar;
use crate::state_space::{DiscreteStateSpaceModel, StateSpaceView};
use crate::transfer_function::TransferFunctionView;

verus! {

/// The number of steps after the first that a step response covers.
pub const STEPS: usize = 35;

/// One entry of the schedule that every time step runs through.
#[derive(Clone, Copy, Debug, PartialEq, Eq)]
pub enum ExecutionStep {
    /// Write the block's output from its state alone.
    CalculateOutput { system_id: usize },
    /// Write the block's output from its state and its input.
    CalculateOutputWithFeedthrough { system_id: usize },
    /// Replace the block's state by its successor.
    UpdateState { system_id: usize },
}

impl ExecutionStep {
    pub open spec fn block(self) -> int {
        match self {
            ExecutionStep::CalculateOutput { system_id } => system_id as int,
            ExecutionStep::CalculateOutputWithFeedthrough { system_id } => system_id as int,
            ExecutionStep::UpdateState { system_id } => system_id as int,
        }
    }
}

/// A block as the simulation runs it: its model, the places in the signal
/// buffer that it reads its input from, and where its state and its output
/// begin in the two buffers.
pub struct BlockPlanView<S> {
    pub model: StateSpaceView<S>,
    pub inputs: Seq<usize>,
    pub state_start: nat,
    pub output_start: nat,
}

/// The plan of a simulation. The signal buffer holds the system's input at
/// place 0 and after it the outputs of the blocks, the state buffer their
/// states, both in the order of the blocks.
pub struct SimulationView<S> {
    pub blocks: Seq<BlockPlanView<S>>,
    pub plan: Seq<ExecutionStep>,
    pub output_signal: nat,
    pub state_size: nat,
    pub signals_size: nat,
}

/// The two buffers of a running simulation.
pub struct Buffers<S> {
    pub signals: Seq<S>,
    pub states: Seq<S>,
}

/// The model of the block that subtracts its second input from its first.
pub open spec fn difference_model<S: Scalar>() -> StateSpaceView<S> {
    StateSpaceView {
        a: MatrixView { rows: Seq::empty(), cols: 0 },
        b: MatrixView { rows: Seq::empty(), cols: 2 },
        c: MatrixView { rows: seq![Seq::empty()], cols: 0 },
        d: MatrixView { rows: seq![seq![S::spec_one(), S::spec_one().spec_negated()]], cols: 2 },
    }
}

/// The state-space model that stands for a block, where it has one.
pub open spec fn executable<S: Scalar>(block: BlockView<S>) -> Option<StateSpaceView<S>> {
    match block {
        BlockView::StateSpace(ss) => Some(ss),
        BlockView::TransferFunction(tf) => tf.realization(),
        BlockView::Difference => Some(difference_model()),
    }
}

/// Every block of the system has a model.
pub open spec fn all_executable<S: Scalar>(sys: Seq<ComponentView<S>>) -> bool {
    forall|k: int| 0 <= k < sys.len() ==> executable((#[trigger] sys[k]).block) is Some
}

/// The models of the blocks of a system.
pub open spec fn models_of<S: Scalar>(sys: Seq<ComponentView<S>>) -> Seq<StateSpaceView<S>> {
    Seq::new(sys.len(), |k: int| executable(sys[k].block).unwrap())
}

/// The number of states of the first `k` models together.
pub open spec fn states_before<S: Scalar>(models: Seq<StateSpaceView<S>>, k: int) -> nat
    decreases k,
{
    if k <= 0 {
        0
    } else {
        states_before(models, k - 1) + models[k - 1].state_size()
    }
}

/// The number of outputs of the first `k` models together.
pub open spec fn outputs_before<S: Scalar>(models: Seq<StateSpaceView<S>>, k: int) -> nat
    decreases k,
{
    if k <= 0 {
        0
    } else {
        outputs_before(models, k - 1) + models[k - 1].output_size()
    }
}

/// Where a signal begins in the signal buffer.
pub open spec fn signal_start<S: Scalar>(models: Seq<StateSpaceView<S>>, signal: Signal) -> nat {
    match signal {
        Signal::SystemInput => 0,
        Signal::ComponentOutput(i) => 1 + outputs_before(models, i as int),
    }
}

/// How many places a signal takes in the signal buffer.
pub open spec fn signal_width<S: Scalar>(models: Seq<StateSpaceView<S>>, signal: Signal) -> nat {
    match signal {
        Signal::SystemInput => 1,
        Signal::ComponentOutput(i) => models[i as int].output_size(),
    }
}

/// A signal that block `k` may read: the system's input, or the output of a
/// block before it.
pub open spec fn readable(signal: Signal, k: int) -> bool {
    match signal {
        Signal::SystemInput => true,
        Signal::ComponentOutput(i) => i < k,
    }
}

/// Block `k` reads one signal that is as wide as its input.
pub open spec fn reads_one<S: Scalar>(models: Seq<StateSpaceView<S>>, reads: Seq<Signal>, k: int) -> bool {
    &&& reads.len() == 1
    &&& readable(reads[0], k)
    &&& signal_width(models, reads[0]) == models[k].input_size()
}

/// Block `k` has two inputs and reads two signals of width one.
pub open spec fn reads_two<S: Scalar>(models: Seq<StateSpaceView<S>>, reads: Seq<Signal>, k: int) -> bool {
    &&& reads.len() == 2
    &&& readable(reads[0], k)
    &&& readable(reads[1], k)
    &&& signal_width(models, reads[0]) == 1
    &&& signal_width(models, reads[1]) == 1
    &&& models[k].input_size() == 2
}

/// The places that block `k` reads its input from, in the order in which the
/// signals are named; none where the block cannot be wired.
pub open spec fn wiring<S: Scalar>(models: Seq<StateSpaceView<S>>, reads: Seq<Signal>, k: int) -> Option<
    Seq<usize>,
> {
    if reads_one(models, reads, k) {
        Some(
            Seq::new(
                signal_width(models, reads[0]),
                |t: int| (signal_start(models, reads[0]) + t) as usize,
            ),
        )
    } else if reads_two(models, reads, k) {
        Some(seq![signal_start(models, reads[0]) as usize, signal_start(models, reads[1]) as usize])
    } else {
        None
    }
}

/// Every block of the system can be wired.
pub open spec fn all_wired<S: Scalar>(sys: Seq<ComponentView<S>>) -> bool {
    forall|k: int| 0 <= k < sys.len() ==> wiring(models_of(sys), (#[trigger] sys[k]).reads_input_from, k) is Some
}

/// The first part of the schedule, for the first `k` blocks: each block that
/// has an output writes it, in the order of the blocks.
pub open spec fn output_steps<S: Scalar>(models: Seq<StateSpaceView<S>>, k: int) -> Seq<ExecutionStep>
    decreases k,
{
    if k <= 0 {
        Seq::empty()
    } else if models[k - 1].has_feedthrough() {
        output_steps(models, k - 1).push(
            ExecutionStep::CalculateOutputWithFeedthrough { system_id: (k - 1) as usize },
        )
    } else if models[k - 1].output_size() > 0 {
        output_steps(models, k - 1).push(ExecutionStep::CalculateOutput { system_id: (k - 1) as usize })
    } else {
        output_steps(models, k - 1)
    }
}

/// The second part of the schedule, for the first `k` blocks: each block that
/// has a state updates it.
pub open spec fn update_steps<S: Scalar>(models: Seq<StateSpaceView<S>>, k: int) -> Seq<ExecutionStep>
    decreases k,
{
    if k <= 0 {
        Seq::empty()
    } else if models[k - 1].state_size() > 0 {
        update_steps(models, k - 1).push(ExecutionStep::UpdateState { system_id: (k - 1) as usize })
    } else {
        update_steps(models, k - 1)
    }
}

/// The plan for a system: none where a block has no model, where a block
/// cannot be wired, or where a buffer would be larger than the machine can
/// address.
pub open spec fn plan_of<S: Scalar>(sys: Seq<ComponentView<S>>) -> Option<SimulationView<S>> {
    let models = models_of(sys);
    let n = sys.len() as int;
    if all_executable(sys) && all_wired(sys) && 1 + outputs_before(models, n) <= usize::MAX
        && states_before(models, n) <= usize::MAX {
        Some(
            SimulationView {
                blocks: Seq::new(
                    sys.len(),
                    |k: int|
                        BlockPlanView {
                            model: models[k],
                            inputs: wiring(models, sys[k].reads_input_from, k).unwrap(),
                            state_start: states_before(models, k),
                            output_start: 1 + outputs_before(models, k),
                        },
                ),
                plan: output_steps(models, n) + update_steps(models, n),
                output_signal: outputs_before(models, n),
                state_size: states_before(models, n),
                signals_size: 1 + outputs_before(models, n),
            },
        )
    } else {
        None
    }
}

/// The entries of `buffer` at the places `inputs`.
pub open spec fn gathered<S>(buffer: Seq<S>, inputs: Seq<usize>) -> Seq<S> {
    Seq::new(inputs.len(), |t: int| buffer[inputs[t] as int])
}

/// `buffer` with `values` written over the entries from `start` on.
pub open spec fn overwritten<S>(buffer: Seq<S>, start: int, values: Seq<S>) -> Seq<S> {
    Seq::new(
        buffer.len(),
        |i: int|
            if start <= i < start + values.len() {
                values[i - start]
            } else {
                buffer[i]
            },
    )
}

/// `n` zeros.
pub open spec fn zeros<S: Scalar>(n: nat) -> Seq<S> {
    Seq::new(n, |i: int| S::spec_zero())
}

impl<S: Scalar> SimulationView<S> {
    /// The plan keeps within its buffers and fits its models.
    pub open spec fn valid(self) -> bool {
        &&& self.output_signal < self.signals_size
        &&& forall|k: int|
            0 <= k < self.blocks.len() ==> {
                let block = #[trigger] self.blocks[k];
                &&& block.model.well_formed()
                &&& block.inputs.len() == block.model.input_size()
                &&& forall|t: int| 0 <= t < block.inputs.len() ==> (#[trigger] block.inputs[t]) < self.signals_size
                &&& block.state_start + block.model.state_size() <= self.state_size
                &&& block.output_start + block.model.output_size() <= self.signals_size
            }
        &&& forall|j: int| 0 <= j < self.plan.len() ==> 0 <= (#[trigger] self.plan[j]).block() < self.blocks.len()
    }

    /// The state of block `k`.
    pub open spec fn block_state(self, k: int, states: Seq<S>) -> Seq<S> {
        states.subrange(
            self.blocks[k].state_start as int,
            (self.blocks[k].state_start + self.blocks[k].model.state_size()) as int,
        )
    }

    /// The input of block `k`.
    pub open spec fn block_input(self, k: int, signals: Seq<S>) -> Seq<S> {
        gathered(signals, self.blocks[k].inputs)
    }

    /// The buffers after one entry of the schedule.
    pub open spec fn after_step(self, step: ExecutionStep, b: Buffers<S>) -> Buffers<S> {
        let k = step.block();
        let block = self.blocks[k];
        match step {
            ExecutionStep::CalculateOutput { .. } => Buffers {
                signals: overwritten(
                    b.signals,
                    block.output_start as int,
                    block.model.output(self.block_state(k, b.states)),
                ),
                states: b.states,
            },
            ExecutionStep::CalculateOutputWithFeedthrough { .. } => Buffers {
                signals: overwritten(
                    b.signals,
                    block.output_start as int,
                    block.model.output_with_feedthrough(
                        self.block_input(k, b.signals),
                        self.block_state(k, b.states),
                    ),
                ),
                states: b.states,
            },
            ExecutionStep::UpdateState { .. } => Buffers {
                signals: b.signals,
                states: overwritten(
                    b.states,
                    block.state_start as int,
                    block.model.next_state(self.block_input(k, b.signals), self.block_state(k, b.states)),
                ),
            },
        }
    }

    /// The buffers after the first `count` entries of the schedule.
    pub open spec fn after_steps(self, count: int, b: Buffers<S>) -> Buffers<S>
        decreases count,
    {
        if count <= 0 {
            b
        } else {
            self.after_step(self.plan[count - 1], self.after_steps(count - 1, b))
        }
    }

    /// The buffers after one time step under the input one.
    pub open spec fn after_cycle(self, b: Buffers<S>) -> Buffers<S> {
        self.after_steps(
            self.plan.len() as int,
            Buffers { signals: b.signals.update(0, S::spec_one()), states: b.states },
        )
    }

    /// The buffers after `count` time steps, starting from zeros.
    pub open spec fn after_cycles(self, count: int) -> Buffers<S>
        decreases count,
    {
        if count <= 0 {
            Buffers { signals: zeros(self.signals_size), states: zeros(self.state_size) }
        } else {
            self.after_cycle(self.after_cycles(count - 1))
        }
    }

    /// The output of the system at time step `k` of its unit step response.
    pub open spec fn sample(self, k: int) -> S {
        self.after_cycles(k + 1).signals[self.output_signal as int]
    }

    /// The unit step response over `STEPS + 1` time steps, starting at rest.
    pub open spec fn step_response(self) -> Seq<S> {
        Seq::new((STEPS + 1) as nat, |k: int| self.sample(k))
    }
}

/// The more blocks, the more outputs and states.
proof fn lemma_sizes_grow<S: Scalar>(models: Seq<StateSpaceView<S>>, i: int, k: int)
    requires
        i <= k,
    ensures
        outputs_before(models, i) <= outputs_before(models, k),
        states_before(models, i) <= states_before(models, k),
    decreases k - i,
{
    if i < k {
        lemma_sizes_grow(models, i, k - 1);
    }
}

/// The entries of the schedule name blocks of the system.
proof fn lemma_steps_in_range<S: Scalar>(models: Seq<StateSpaceView<S>>, k: int)
    requires
        0 <= k <= usize::MAX,
    ensures
        forall|j: int| 0 <= j < output_steps(models, k).len() ==> 0 <= (#[trigger] output_steps(models, k)[j]).block() < k,
        forall|j: int| 0 <= j < update_steps(models, k).len() ==> 0 <= (#[trigger] update_steps(models, k)[j]).block() < k,
    decreases k,
{
    if k > 0 {
        lemma_steps_in_range(models, k - 1);
        let outputs = output_steps(models, k);
        let earlier_outputs = output_steps(models, k - 1);
        assert forall|j: int| 0 <= j < outputs.len() implies 0 <= (#[trigger] outputs[j]).block() < k by {
            if j < earlier_outputs.len() {
                assert(outputs[j] == earlier_outputs[j]);
            }
        }
        let updates = update_steps(models, k);
        let earlier_updates = update_steps(models, k - 1);
        assert forall|j: int| 0 <= j < updates.len() implies 0 <= (#[trigger] updates[j]).block() < k by {
            if j < earlier_updates.len() {
                assert(updates[j] == earlier_updates[j]);
            }
        }
    }
}

/// The places that a wired block reads lie in the signal buffer.
proof fn lemma_wiring_in_range<S: Scalar>(models: Seq<StateSpaceView<S>>, reads: Seq<Signal>, k: int, n: int)
    requires
        0 <= k < n,
        wiring(models, reads, k) is Some,
    ensures
        wiring(models, reads, k).unwrap().len() == models[k].input_size(),
        forall|t: int|
            0 <= t < wiring(models, reads, k).unwrap().len() ==> (#[trigger] wiring(models, reads, k).unwrap()[t]) < 1
                + outputs_before(models, n),
{
    let inputs = wiring(models, reads, k).unwrap();
    assert forall|t: int| 0 <= t < inputs.len() implies (#[trigger] inputs[t]) < 1 + outputs_before(models, n) by {
        let which = if reads_one(models, reads, k) || t == 0 {
            reads[0]
        } else {
            reads[1]
        };
        match which {
            Signal::SystemInput => {},
            Signal::ComponentOutput(i) => {
                lemma_sizes_grow(models, i as int + 1, n);
            },
        }
    }
}

/// A plan made for a system whose models are well formed is valid.
pub proof fn lemma_plan_valid<S: Scalar>(sys: Seq<ComponentView<S>>)
    requires
        plan_of(sys) is Some,
        sys.len() <= usize::MAX,
        forall|k: int| 0 <= k < sys.len() ==> (#[trigger] models_of(sys)[k]).well_formed(),
    ensures
        plan_of(sys).unwrap().valid(),
{
    let models = models_of(sys);
    let n = sys.len() as int;
    let plan = plan_of(sys).unwrap();
    assert forall|k: int| 0 <= k < plan.blocks.len() implies {
        let block = #[trigger] plan.blocks[k];
        &&& block.model.well_formed()
        &&& block.inputs.len() == block.model.input_size()
        &&& forall|t: int| 0 <= t < block.inputs.len() ==> (#[trigger] block.inputs[t]) < plan.signals_size
        &&& block.state_start + block.model.state_size() <= plan.state_size
        &&& block.output_start + block.model.output_size() <= plan.signals_size
    } by {
        assert(models[k].well_formed());
        assert(wiring(models, sys[k].reads_input_from, k) is Some);
        lemma_sizes_grow(models, k + 1, n);
        lemma_wiring_in_range(models, sys[k].reads_input_from, k, n);
    }
    lemma_steps_in_range(models, n);
}

/// A block with its place in the buffers.
#[derive(Debug)]
struct SimulationBlock<S: Scalar> {
    executable: Rc<DiscreteStateSpaceModel<S>>,
    input_signal_mapping: Vec<usize>,
    state_mapping: usize,
    output_signal_mapping: usize,
}

impl<S: Scalar> View for SimulationBlock<S> {
    type V = BlockPlanView<S>;

    closed spec fn view(&self) -> BlockPlanView<S> {
        BlockPlanView {
            model: self.executable@,
            inputs: self.input_signal_mapping@,
            state_start: self.state_mapping as nat,
            output_start: self.output_signal_mapping as nat,
        }
    }
}

/// A system made ready to run: its blocks as state-space models, laid out in
/// two buffers, and the schedule of a time step.
#[derive(Debug)]
pub struct Simulation<S: Scalar> {
    blocks: Vec<SimulationBlock<S>>,
    execution_plan: Vec<ExecutionStep>,
    output_signal_mapping: usize,
    state_size: usize,
    signals_size: usize,
}

impl<S: Scalar> View for Simulation<S> {
    type V = SimulationView<S>;

    closed spec fn view(&self) -> SimulationView<S> {
        SimulationView {
            blocks: Seq::new(self.blocks@.len(), |k: int| self.blocks@[k]@),
            plan: self.execution_plan@,
            output_signal: self.output_signal_mapping as nat,
            state_size: self.state_size as nat,
            signals_size: self.signals_size as nat,
        }
    }
}

impl<S: Scalar> Clone for Simulation<S> {
    fn clone(&self) -> (r: Self)
        ensures
            r@ == self@,
    {
        proof {
            use_type_invariant(self);
        }
        let mut blocks: Vec<SimulationBlock<S>> = Vec::new();
        let mut k: usize = 0;
        while k < self.blocks.len()
            invariant
                k <= self.blocks@.len(),
                blocks@.len() == k,
                forall|i: int| 0 <= i < k ==> (#[trigger] blocks@[i])@ == self.blocks@[i]@,
            decreases self.blocks.len() - k,
        {
            let block = &self.blocks[k];
            blocks.push(
                SimulationBlock {
                    executable: share(&block.executable),
                    input_signal_mapping: copy_vector(&block.input_signal_mapping),
                    state_mapping: block.state_mapping,
                    output_signal_mapping: block.output_signal_mapping,
                },
            );
            k += 1;
        }
        let execution_plan = copy_vector(&self.execution_plan);
        assert(Seq::new(blocks@.len(), |k: int| blocks@[k]@) =~= self@.blocks);
        Simulation {
            blocks,
            execution_plan,
            output_signal_mapping: self.output_signal_mapping,
            state_size: self.state_size,
            signals_size: self.signals_size,
        }
    }
}

fn difference_block<S: Scalar>() -> (r: DiscreteStateSpaceModel<S>)
    ensures
        r@ == difference_model::<S>(),
        r@.well_formed(),
{
    let a = Matrix::from_rows(Vec::new(), 0).unwrap();
    let b = Matrix::from_rows(Vec::new(), 2).unwrap();
    let mut c_rows: Vec<Vec<S>> = Vec::new();
    c_rows.push(Vec::new());
    let c = Matrix::from_rows(c_rows, 0).unwrap();
    let mut d_row: Vec<S> = Vec::new();
    d_row.push(S::one());
    d_row.push(S::one().negated());
    let mut d_rows: Vec<Vec<S>> = Vec::new();
    d_rows.push(d_row);
    let d = Matrix::from_rows(d_rows, 2).unwrap();
    proof {
        let model = difference_model::<S>();
        assert(a@.rows =~= model.a.rows);
        assert(b@.rows =~= model.b.rows);
        assert(c@.rows[0] =~= model.c.rows[0]);
        assert(c@.rows =~= model.c.rows);
        assert(d@.rows[0] =~= model.d.rows[0]);
        assert(d@.rows =~= model.d.rows);
    }
    DiscreteStateSpaceModel::new(a, b, c, d)
}

fn executable_of<S: Scalar>(block: &SystemBlock<S>) -> (r: Option<Rc<DiscreteStateSpaceModel<S>>>)
    ensures
        match r {
            Some(model) => executable(block@) == Some(model@) && model@.well_formed(),
            None => executable(block@) is None,
        },
{
    match block {
        SystemBlock::StateSpace(ss) => {
            let _ = ss.state_size();
            Some(share(ss))
        },
        SystemBlock::TransferFunction(tf) => {
            match tf.convert_to_state_space() {
                Some(ss) => Some(Rc::new(ss)),
                None => None,
            }
        },
        SystemBlock::Difference => Some(Rc::new(difference_block())),
    }
}

/// Where a signal begins and how wide it is, for a signal that block `k` may read.
fn locate<S: Scalar>(
    blocks: &Vec<SimulationBlock<S>>,
    signal: Signal,
    Ghost(models): Ghost<Seq<StateSpaceView<S>>>,
) -> (r: Option<(usize, usize)>)
    requires
        forall|i: int|
            0 <= i < blocks@.len() ==> (#[trigger] blocks@[i])@.model == models[i] && blocks@[i]@.output_start == 1
                + outputs_before(models, i),
    ensures
        r is Some <==> readable(signal, blocks@.len() as int),
        r matches Some(place) ==> place.0 == signal_start(models, signal) && place.1 == signal_width(
            models,
            signal,
        ),
{
    match signal {
        Signal::SystemInput => Some((0, 1)),
        Signal::ComponentOutput(i) => {
            if i < blocks.len() {
                let block = &blocks[i];
                assert(block@.model == models[i as int]);
                Some((block.output_signal_mapping, block.executable.output_size()))
            } else {
                None
            }
        },
    }
}

fn wire<S: Scalar>(
    blocks: &Vec<SimulationBlock<S>>,
    reads: &Vec<Signal>,
    input_size: usize,
    Ghost(models): Ghost<Seq<StateSpaceView<S>>>,
) -> (r: Option<Vec<usize>>)
    requires
        forall|i: int|
            0 <= i < blocks@.len() ==> (#[trigger] blocks@[i])@.model == models[i] && blocks@[i]@.output_start == 1
                + outputs_before(models, i),
        blocks@.len() < models.len(),
        models[blocks@.len() as int].input_size() == input_size,
        1 + outputs_before(models, blocks@.len() as int) <= usize::MAX,
    ensures
        match r {
            Some(inputs) => wiring(models, reads@, blocks@.len() as int) == Some(inputs@),
            None => wiring(models, reads@, blocks@.len() as int) is None,
        },
{
    let ghost k = blocks@.len() as int;
    if reads.len() == 1 {
        match locate(blocks, reads[0], Ghost(models)) {
            Some((start, width)) => {
                if width != input_size {
                    return None;
                }
                proof {
                    match reads@[0] {
                        Signal::SystemInput => {},
                        Signal::ComponentOutput(i) => {
                            lemma_sizes_grow(models, i as int + 1, k);
                        },
                    }
                }
                let mut inputs: Vec<usize> = Vec::new();
                let mut t: usize = 0;
                while t < width
                    invariant
                        t <= width,
                        start + width <= usize::MAX,
                        inputs@.len() == t,
                        forall|q: int| 0 <= q < t ==> #[trigger] inputs@[q] == (start + q) as usize,
                    decreases width - t,
                {
                    inputs.push(start + t);
                    t += 1;
                }
                assert(inputs@ =~= wiring(models, reads@, k).unwrap());
                Some(inputs)
            },
            None => None,
        }
    } else if reads.len() == 2 {
        let first = locate(blocks, reads[0], Ghost(models));
        let second = locate(blocks, reads[1], Ghost(models));
        match (first, second) {
            (Some((start1, width1)), Some((start2, width2))) => {
                if width1 != 1 || width2 != 1 || input_size != 2 {
                    return None;
                }
                let mut inputs: Vec<usize> = Vec::new();
                inputs.push(start1);
                inputs.push(start2);
                assert(inputs@ =~= wiring(models, reads@, k).unwrap());
                Some(inputs)
            },
            _ => None,
        }
    } else {
        None
    }
}

fn zero_vector<S: Scalar>(n: usize) -> (r: Vec<S>)
    ensures
        r@ == zeros::<S>(n as nat),
{
    let mut out: Vec<S> = Vec::new();
    let mut i: usize = 0;
    while i < n
        invariant
            i <= n,
            out@ == zeros::<S>(i as nat),
        decreases n - i,
    {
        out.push(S::zero());
        i += 1;
        assert(out@ =~= zeros::<S>(i as nat));
    }
    out
}

fn gather<S: Scalar>(buffer: &Vec<S>, inputs: &Vec<usize>) -> (r: Vec<S>)
    requires
        forall|t: int| 0 <= t < inputs@.len() ==> (#[trigger] inputs@[t]) < buffer@.len(),
    ensures
        r@ == gathered(buffer@, inputs@),
{
    let mut out: Vec<S> = Vec::new();
    let mut t: usize = 0;
    while t < inputs.len()
        invariant
            t <= inputs@.len(),
            forall|q: int| 0 <= q < inputs@.len() ==> (#[trigger] inputs@[q]) < buffer@.len(),
            out@ == gathered(buffer@, inputs@).take(t as int),
        decreases inputs.len() - t,
    {
        out.push(buffer[inputs[t]]);
        t += 1;
        assert(out@ =~= gathered(buffer@, inputs@).take(t as int));
    }
    assert(gathered(buffer@, inputs@).take(inputs@.len() as int) =~= gathered(buffer@, inputs@));
    out
}

fn take_range<S: Scalar>(buffer: &Vec<S>, start: usize, len: usize) -> (r: Vec<S>)
    requires
        start + len <= buffer@.len(),
    ensures
        r@ == buffer@.subrange(start as int, start + len),
{
    let mut out: Vec<S> = Vec::new();
    let mut t: usize = 0;
    let total = buffer.len();
    while t < len
        invariant
            t <= len,
            buffer@.len() == total,
            start + len <= buffer@.len(),
            out@ == buffer@.subrange(start as int, start + t),
        decreases len - t,
    {
        out.push(buffer[start + t]);
        t += 1;
        assert(out@ =~= buffer@.subrange(start as int, start + t));
    }
    out
}

fn put_range<S: Scalar>(buffer: &mut Vec<S>, start: usize, values: &Vec<S>)
    requires
        start + values@.len() <= old(buffer)@.len(),
    ensures
        final(buffer)@ == overwritten(old(buffer)@, start as int, values@),
        final(buffer)@.len() == old(buffer)@.len(),
{
    let mut t: usize = 0;
    let total = buffer.len();
    assert(buffer@ =~= overwritten(old(buffer)@, start as int, values@.take(0)));
    while t < values.len()
        invariant
            t <= values@.len(),
            buffer@.len() == total,
            buffer@.len() == old(buffer)@.len(),
            start + values@.len() <= buffer@.len(),
            buffer@ == overwritten(old(buffer)@, start as int, values@.take(t as int)),
        decreases values.len() - t,
    {
        buffer.set(start + t, values[t]);
        t += 1;
        assert(buffer@ =~= overwritten(old(buffer)@, start as int, values@.take(t as int)));
    }
    assert(values@.take(values@.len() as int) =~= values@);
}

impl<S: Scalar> Simulation<S> {
    #[verifier::type_invariant]
    spec fn plan_is_valid(self) -> bool {
        self@.valid()
    }

    /// Plans the simulation of a system: turns every block into a state-space
    /// model, lays the signals and states out in two buffers, connects the
    /// inputs and fixes the schedule of a time step.
    pub fn new(system: &CompoundSystem<S>) -> (r: Option<Self>)
        ensures
            match r {
                Some(simulation) => plan_of(system@) == Some(simulation@) && simulation@.valid(),
                None => plan_of(system@) is None,
            },
    {
        let ghost sys = system@;
        let ghost models = models_of(sys);
        let n = system.components.len();
        let mut blocks: Vec<SimulationBlock<S>> = Vec::new();
        let mut signals_size: usize = 1;
        let mut state_size: usize = 0;
        let mut k: usize = 0;
        while k < n
            invariant
                k <= n,
                n == system.components@.len(),
                sys == system@,
                models == models_of(sys),
                blocks@.len() == k,
                signals_size == 1 + outputs_before(models, k as int),
                state_size == states_before(models, k as int),
                forall|i: int| 0 <= i < k ==> executable((#[trigger] sys[i]).block) is Some,
                forall|i: int|
                    0 <= i < k ==> {
                        &&& (#[trigger] blocks@[i])@.model == models[i]
                        &&& blocks@[i]@.model.well_formed()
                        &&& blocks@[i]@.output_start == 1 + outputs_before(models, i)
                        &&& blocks@[i]@.state_start == states_before(models, i)
                        &&& wiring(models, sys[i].reads_input_from, i) == Some(blocks@[i]@.inputs)
                    },
            decreases n - k,
        {
            let component = &system.components[k];
            assert(sys[k as int] == component@);
            let executable = match executable_of(&component.block) {
                Some(model) => model,
                None => {
                    return None;
                },
            };
            assert(models[k as int] == executable@);
            let inputs = match wire(&blocks, &component.reads_input_from, executable.input_size(), Ghost(models)) {
                Some(inputs) => inputs,
                None => {
                    return None;
                },
            };
            let next_signals = signals_size.checked_add(executable.output_size());
            let next_states = state_size.checked_add(executable.state_size());
            proof {
                lemma_sizes_grow(models, k as int + 1, n as int);
            }
            match (next_signals, next_states) {
                (Some(signals), Some(states)) => {
                    blocks.push(
                        SimulationBlock {
                            executable,
                            input_signal_mapping: inputs,
                            state_mapping: state_size,
                            output_signal_mapping: signals_size,
                        },
                    );
                    signals_size = signals;
                    state_size = states;
                },
                _ => {
                    return None;
                },
            }
            k += 1;
        }
        let mut execution_plan: Vec<ExecutionStep> = Vec::new();
        let mut i: usize = 0;
        while i < n
            invariant
                i <= n,
                n == blocks@.len(),
                forall|q: int| 0 <= q < n ==> (#[trigger] blocks@[q])@.model == models[q],
                execution_plan@ == output_steps(models, i as int),
            decreases n - i,
        {
            let block = &blocks[i];
            assert(block@.model == models[i as int]);
            if block.executable.has_feedthrough() {
                execution_plan.push(ExecutionStep::CalculateOutputWithFeedthrough { system_id: i });
            } else if block.executable.output_size() > 0 {
                execution_plan.push(ExecutionStep::CalculateOutput { system_id: i });
            }
            i += 1;
        }
        let ghost first_part = execution_plan@;
        let mut i: usize = 0;
        while i < n
            invariant
                i <= n,
                n == blocks@.len(),
                forall|q: int| 0 <= q < n ==> (#[trigger] blocks@[q])@.model == models[q],
                execution_plan@ == first_part + update_steps(models, i as int),
            decreases n - i,
        {
            let block = &blocks[i];
            assert(block@.model == models[i as int]);
            if block.executable.state_size() > 0 {
                execution_plan.push(ExecutionStep::UpdateState { system_id: i });
                assert(execution_plan@ =~= first_part + update_steps(models, i as int + 1));
            }
            i += 1;
        }
        proof {
            assert(all_executable(sys));
            assert forall|k: int| 0 <= k < sys.len() implies wiring(
                models_of(sys),
                (#[trigger] sys[k]).reads_input_from,
                k,
            ) is Some by {
                assert(blocks@[k]@.model == models[k]);
            }
            assert forall|k: int| 0 <= k < sys.len() implies (#[trigger] models_of(sys)[k]).well_formed() by {
                assert(blocks@[k]@.model == models[k]);
            }
            let plan = plan_of(sys).unwrap();
            assert(plan.blocks =~= Seq::new(blocks@.len(), |k: int| blocks@[k]@));
            lemma_plan_valid(sys);
        }
        Some(
            Simulation {
                blocks,
                execution_plan,
                output_signal_mapping: signals_size - 1,
                state_size,
                signals_size,
            },
        )
    }

    /// Runs the unit step response from rest: in each of `STEPS + 1` time
    /// steps the input is one, the schedule is gone through once, and the
    /// output of the last block is recorded.
    pub fn execute(&self) -> (r: Vec<S>)
        ensures
            r@ == self@.step_response(),
    {
        proof {
            use_type_invariant(self);
        }
        let ghost plan = self@;
        let mut states: Vec<S> = zero_vector(self.state_size);
        let mut signals: Vec<S> = zero_vector(self.signals_size);
        let mut output: Vec<S> = Vec::new();
        let mut i: usize = 0;
        while i < STEPS + 1
            invariant
                i <= STEPS + 1,
                plan == self@,
                plan.valid(),
                signals@.len() == plan.signals_size,
                states@.len() == plan.state_size,
                signals@ == plan.after_cycles(i as int).signals,
                states@ == plan.after_cycles(i as int).states,
                output@.len() == i,
                forall|k: int| 0 <= k < i ==> #[trigger] output@[k] == plan.sample(k),
            decreases STEPS + 1 - i,
        {
            signals.set(0, S::one());
            let ghost start = Buffers { signals: signals@, states: states@ };
            assert(start.signals =~= plan.after_cycles(i as int).signals.update(0, S::spec_one()));
            let mut j: usize = 0;
            while j < self.execution_plan.len()
                invariant
                    j <= self.execution_plan@.len(),
                    plan == self@,
                    plan.valid(),
                    signals@.len() == plan.signals_size,
                    states@.len() == plan.state_size,
                    signals@ == plan.after_steps(j as int, start).signals,
                    states@ == plan.after_steps(j as int, start).states,
                decreases self.execution_plan.len() - j,
            {
                let step = self.execution_plan[j];
                let ghost before = plan.after_steps(j as int, start);
                assert(plan.plan[j as int] == step);
                assert(before.signals == signals@ && before.states == states@);
                match step {
                    ExecutionStep::CalculateOutput { system_id } => {
                        let block = &self.blocks[system_id];
                        assert(plan.blocks[system_id as int] == block@);
                        let state = take_range(&states, block.state_mapping, block.executable.state_size());
                        let mut out = zero_vector(block.executable.output_size());
                        block.executable.calculate_output(&state, &mut out);
                        put_range(&mut signals, block.output_signal_mapping, &out);
                    },
                    ExecutionStep::CalculateOutputWithFeedthrough { system_id } => {
                        let block = &self.blocks[system_id];
                        assert(plan.blocks[system_id as int] == block@);
                        let input = gather(&signals, &block.input_signal_mapping);
                        let state = take_range(&states, block.state_mapping, block.executable.state_size());
                        let mut out = zero_vector(block.executable.output_size());
                        block.executable.calculate_output_with_feedthrough(&input, &state, &mut out);
                        put_range(&mut signals, block.output_signal_mapping, &out);
                    },
                    ExecutionStep::UpdateState { system_id } => {
                        let block = &self.blocks[system_id];
                        assert(plan.blocks[system_id as int] == block@);
                        let input = gather(&signals, &block.input_signal_mapping);
                        let mut state = take_range(&states, block.state_mapping, block.executable.state_size());
                        block.executable.update_state(&input, &mut state);
                        put_range(&mut states, block.state_mapping, &state);
                    },
                }
                j += 1;
                assert(plan.after_steps(j as int, start) == plan.after_step(step, before));
            }
            output.push(signals[self.output_signal_mapping]);
            i += 1;
        }
        assert(output@ =~= plan.step_response());
        output
    }
}

proof fn lemma_output_steps_prefix<S: Scalar>(models: Seq<StateSpaceView<S>>, k: int, n: int)
    requires
        0 <= k <= n,
    ensures
        output_steps(models, k).len() <= output_steps(models, n).len(),
        forall|j: int|
            0 <= j < output_steps(models, k).len() ==> #[trigger] output_steps(models, n)[j] == output_steps(
                models,
                k,
            )[j],
    decreases n - k,
{
    if k < n {
        lemma_output_steps_prefix(models, k, n - 1);
    }
}

/// The places that a wired block reads lie before its own output.
proof fn lemma_wiring_reads_back<S: Scalar>(models: Seq<StateSpaceView<S>>, reads: Seq<Signal>, k: int)
    requires
        0 <= k,
        wiring(models, reads, k) is Some,
    ensures
        forall|t: int|
            0 <= t < wiring(models, reads, k).unwrap().len() ==> (#[trigger] wiring(models, reads, k).unwrap()[t]) < 1
                + outputs_before(models, k),
{
    let inputs = wiring(models, reads, k).unwrap();
    assert forall|t: int| 0 <= t < inputs.len() implies (#[trigger] inputs[t]) < 1 + outputs_before(models, k) by {
        let which = if reads_one(models, reads, k) || t == 0 {
            reads[0]
        } else {
            reads[1]
        };
        match which {
            Signal::SystemInput => {},
            Signal::ComponentOutput(i) => {
                lemma_sizes_grow(models, i as int + 1, k);
            },
        }
    }
}

/// One entry of the first part of the schedule, run on two signal buffers
/// that agree up to the output of its block, leaves them agreeing up to the
/// end of that output.
proof fn lemma_step_agrees<S: Scalar>(
    plan: SimulationView<S>,
    step: ExecutionStep,
    a0: Buffers<S>,
    b0: Buffers<S>,
)
    requires
        !(step is UpdateState),
        0 <= step.block() < plan.blocks.len(),
        plan.blocks[step.block()].model.well_formed(),
        a0.states == b0.states,
        a0.signals.len() == b0.signals.len(),
        plan.blocks[step.block()].output_start + plan.blocks[step.block()].model.output_size()
            <= a0.signals.len(),
        forall|i: int| 0 <= i < plan.blocks[step.block()].output_start ==> a0.signals[i] == b0.signals[i],
        forall|t: int|
            0 <= t < plan.blocks[step.block()].inputs.len() ==> (#[trigger] plan.blocks[step.block()].inputs[t])
                < plan.blocks[step.block()].output_start,
    ensures
        plan.after_step(step, a0).states == a0.states,
        plan.after_step(step, b0).states == a0.states,
        plan.after_step(step, a0).signals.len() == a0.signals.len(),
        plan.after_step(step, b0).signals.len() == a0.signals.len(),
        forall|i: int|
            0 <= i < plan.blocks[step.block()].output_start + plan.blocks[step.block()].model.output_size()
                ==> plan.after_step(step, a0).signals[i] == plan.after_step(step, b0).signals[i],
{
    let k = step.block();
    let block = plan.blocks[k];
    let state = plan.block_state(k, a0.states);
    assert(plan.block_input(k, a0.signals) =~= plan.block_input(k, b0.signals));
    let input = plan.block_input(k, a0.signals);
    let out = match step {
        ExecutionStep::CalculateOutput { .. } => block.model.output(state),
        _ => block.model.output_with_feedthrough(input, state),
    };
    assert(out.len() == block.model.output_size());
    let a1 = plan.after_step(step, a0);
    let b1 = plan.after_step(step, b0);
    assert(a1.signals == overwritten(a0.signals, block.output_start as int, out));
    assert(b1.signals == overwritten(b0.signals, block.output_start as int, out));
    assert forall|i: int| 0 <= i < block.output_start + block.model.output_size() implies a1.signals[i]
        == b1.signals[i] by {
        if i < block.output_start {
            assert(a1.signals[i] == a0.signals[i]);
            assert(b1.signals[i] == b0.signals[i]);
        } else {
            assert(a1.signals[i] == out[i - block.output_start]);
            assert(b1.signals[i] == out[i - block.output_start]);
        }
    }
}

proof fn lemma_outputs_phase<S: Scalar>(
    sys: Seq<ComponentView<S>>,
    first: Seq<S>,
    second: Seq<S>,
    states: Seq<S>,
    k: int,
)
    requires
        plan_of(sys) is Some,
        sys.len() <= usize::MAX,
        forall|i: int| 0 <= i < sys.len() ==> (#[trigger] models_of(sys)[i]).well_formed(),
        0 <= k <= sys.len(),
        first.len() == plan_of(sys).unwrap().signals_size,
        second.len() == first.len(),
        first[0] == second[0],
    ensures
        ({
            let plan = plan_of(sys).unwrap();
            let count = output_steps(models_of(sys), k).len() as int;
            let a = plan.after_steps(count, Buffers { signals: first, states });
            let b = plan.after_steps(count, Buffers { signals: second, states });
            &&& a.states == states
            &&& b.states == states
            &&& a.signals.len() == first.len()
            &&& b.signals.len() == first.len()
            &&& forall|i: int| 0 <= i < 1 + outputs_before(models_of(sys), k) ==> a.signals[i] == b.signals[i]
        }),
    decreases k,
{
    let plan = plan_of(sys).unwrap();
    let models = models_of(sys);
    let n = sys.len() as int;
    if k > 0 {
        lemma_outputs_phase(sys, first, second, states, k - 1);
        lemma_output_steps_prefix(models, k, n);
        lemma_plan_valid(sys);
        let earlier = output_steps(models, k - 1).len() as int;
        let count = output_steps(models, k).len() as int;
        let a0 = plan.after_steps(earlier, Buffers { signals: first, states });
        let b0 = plan.after_steps(earlier, Buffers { signals: second, states });
        let model = models[k - 1];
        assert(model.well_formed());
        assert(plan.blocks[k - 1].model == model);
        assert(plan.blocks[k - 1].output_start == 1 + outputs_before(models, k - 1));
        assert(outputs_before(models, k) == outputs_before(models, k - 1) + model.output_size());
        if count > earlier {
            let step = output_steps(models, k)[earlier];
            assert(plan.plan[earlier] == step);
            assert(step.block() == k - 1 && !(step is UpdateState));
            assert(plan.after_steps(count, Buffers { signals: first, states }) == plan.after_step(step, a0));
            assert(plan.after_steps(count, Buffers { signals: second, states }) == plan.after_step(step, b0));
            assert(wiring(models, sys[k - 1].reads_input_from, k - 1) is Some);
            lemma_wiring_reads_back(models, sys[k - 1].reads_input_from, k - 1);
            lemma_step_agrees(plan, step, a0, b0);
        } else {
            assert(model.output_size() == 0);
        }
    }
}

/// Within a time step, what the blocks put out depends on the input and on
/// the states alone: for a system in which every block reads the input or
/// blocks before it, the first part of the schedule leaves the same signals
/// whatever the signal buffer held before, apart from the input.
pub proof fn lemma_outputs_depend_on_states<S: Scalar>(
    sys: Seq<ComponentView<S>>,
    first: Seq<S>,
    second: Seq<S>,
    states: Seq<S>,
)
    requires
        plan_of(sys) is Some,
        sys.len() <= usize::MAX,
        forall|i: int| 0 <= i < sys.len() ==> (#[trigger] models_of(sys)[i]).well_formed(),
        first.len() == plan_of(sys).unwrap().signals_size,
        second.len() == first.len(),
        first[0] == second[0],
    ensures
        ({
            let plan = plan_of(sys).unwrap();
            let count = output_steps(models_of(sys), sys.len() as int).len() as int;
            plan.after_steps(count, Buffers { signals: first, states }) == plan.after_steps(
                count,
                Buffers { signals: second, states },
            )
        }),
{
    lemma_outputs_phase(sys, first, second, states, sys.len() as int);
    let plan = plan_of(sys).unwrap();
    let count = output_steps(models_of(sys), sys.len() as int).len() as int;
    let a = plan.after_steps(count, Buffers { signals: first, states });
    let b = plan.after_steps(count, Buffers { signals: second, states });
    assert(a.signals =~= b.signals);
}

/// The system of one block with the transfer function `k / 1`, which reads
/// the input.
pub open spec fn gain_system<S: Scalar>(k: S) -> Seq<ComponentView<S>> {
    seq![
        ComponentView {
            block: BlockView::TransferFunction(TransferFunctionView { num: seq![k], den: seq![S::spec_one()] }),
            name: Seq::empty(),
            reads_input_from: seq![Signal::SystemInput],
        },
    ]
}

/// What a block with the gain `k / 1` puts out for the input one: zero where
/// the gain is zero, else the gain times one, added to the zeros that the
/// sums of the output equation start from.
pub open spec fn gain_output<S: Scalar>(k: S) -> S {
    let gain = k.spec_over(S::spec_one());
    if gain.spec_is_zero() {
        S::spec_zero()
    } else {
        S::spec_zero().spec_plus(S::spec_zero().spec_plus(gain.spec_times(S::spec_one())))
    }
}

proof fn lemma_gain_cycles<S: Scalar>(k: S, count: int)
    requires
        !S::spec_one().spec_is_zero(),
        count >= 1,
    ensures
        plan_of(gain_system(k)) is Some,
        plan_of(gain_system(k)).unwrap().after_cycles(count).signals == seq![S::spec_one(), gain_output(k)],
        plan_of(gain_system(k)).unwrap().after_cycles(count).states == Seq::<S>::empty(),
    decreases count,
{
    let sys = gain_system(k);
    let tf = TransferFunctionView { num: seq![k], den: seq![S::spec_one()] };
    let model = tf.canonical_form();
    let models = models_of(sys);
    assert(executable(sys[0].block) == Some(model));
    assert(models[0] == model);
    assert(model.a.rows =~= Seq::<Seq<S>>::empty());
    assert(model.c.rows[0] =~= Seq::<S>::empty());
    assert(model.state_size() == 0 && model.input_size() == 1 && model.output_size() == 1);
    assert(outputs_before(models, 1) == outputs_before(models, 0) + 1);
    assert(states_before(models, 1) == states_before(models, 0) + 0);
    assert(reads_one(models, sys[0].reads_input_from, 0));
    assert(all_executable(sys));
    assert(all_wired(sys));
    let plan = plan_of(sys).unwrap();
    let block = plan.blocks[0];
    assert(block.inputs =~= seq![0usize]);
    assert(update_steps(models, 1) == update_steps(models, 0));
    assert(output_steps(models, 1).len() == 1) by {
        assert(output_steps(models, 0).len() == 0);
    }
    assert(plan.plan =~= output_steps(models, 1));
    let before = if count == 1 {
        Buffers { signals: zeros::<S>(2), states: zeros::<S>(0) }
    } else {
        plan.after_cycles(count - 1)
    };
    if count > 1 {
        lemma_gain_cycles(k, count - 1);
    }
    assert(plan.after_cycles(count - 1) == before);
    assert(before.signals.len() == 2);
    assert(before.states =~= Seq::<S>::empty());
    let start = Buffers { signals: before.signals.update(0, S::spec_one()), states: before.states };
    assert(plan.after_steps(0, start) == start);
    let step = plan.plan[0];
    let after = plan.after_step(step, start);
    assert(plan.after_steps(1, start) == after);
    assert(plan.after_cycles(count) == after);
    let state = plan.block_state(0, start.states);
    assert(state =~= Seq::<S>::empty());
    let input = plan.block_input(0, start.signals);
    assert(input =~= seq![S::spec_one()]);
    let gain = k.spec_over(S::spec_one());
    assert(model.d.rows[0] =~= seq![gain]);
    assert(crate::matrix::dot(model.c.rows[0], state) == S::spec_zero());
    assert(crate::matrix::dot(model.d.rows[0], input) == S::spec_zero().spec_plus(gain.spec_times(S::spec_one())))
        by {
        let row = model.d.rows[0];
        assert(row.len() == 1 && row.last() == gain && input[0] == S::spec_one());
        assert(row.drop_last().len() == 0);
        assert(crate::matrix::dot(row.drop_last(), input) == S::spec_zero());
    }
    if model.has_feedthrough() {
        let (i, j) = choose|i: int, j: int|
            0 <= i < model.d.rows.len() && 0 <= j < model.d.rows[i].len() && !(#[trigger] model.d.rows[i][j]).spec_is_zero();
        assert(model.d.rows[i][j] == gain);
        assert(model.output_with_feedthrough(input, state) =~= seq![gain_output(k)]);
    } else {
        assert(model.d.rows[0][0] == gain);
        assert(gain.spec_is_zero());
        assert(model.output(state) =~= seq![gain_output(k)]);
    }
    assert(after.signals =~= seq![S::spec_one(), gain_output(k)]);
}

/// A block that is a gain alone answers the unit step with the same number
/// at every time: for the transfer function `k / 1`, each of the `STEPS + 1`
/// samples of the step response is `gain_output(k)`.
pub proof fn lemma_gain_response<S: Scalar>(k: S)
    requires
        !S::spec_one().spec_is_zero(),
    ensures
        plan_of(gain_system(k)) is Some,
        plan_of(gain_system(k)).unwrap().step_response() == Seq::new((STEPS + 1) as nat, |i: int| gain_output(k)),
{
    lemma_gain_cycles(k, 1);
    let plan = plan_of(gain_system(k)).unwrap();
    assert(plan.output_signal == 1) by {
        let models = models_of(gain_system(k));
        assert(outputs_before(models, 1) == outputs_before(models, 0) + models[0].output_size());
        let tf = TransferFunctionView { num: seq![k], den: seq![S::spec_one()] };
        assert(models[0] == tf.canonical_form());
    }
    assert forall|i: int| 0 <= i < STEPS + 1 implies plan.sample(i) == gain_output(k) by {
        lemma_gain_cycles(k, i + 1);
    }
    assert(plan.step_response() =~= Seq::new((STEPS + 1) as nat, |i: int| gain_output(k)));
}

/// Where dividing `k` by one, multiplying it by one and adding it to zero each
/// give `k`, and `k` is zero where it compares equal to zero, a block with
/// the gain `k / 1` puts out `k`.
pub proof fn lemma_gain_output_is_the_gain<S: Scalar>(k: S)
    requires
        k.spec_over(S::spec_one()) == k,
        k.spec_times(S::spec_one()) == k,
        S::spec_zero().spec_plus(k) == k,
        k.spec_is_zero() ==> k == S::spec_zero(),
    ensures
        gain_output(k) == k,
{
}

/// Under the same conditions the step response of the gain `k / 1` is the
/// row of `STEPS + 1` times `k`.
pub proof fn lemma_gain_response_is_constant<S: Scalar>(k: S)
    requires
        !S::spec_one().spec_is_zero(),
        k.spec_over(S::spec_one()) == k,
        k.spec_times(S::spec_one()) == k,
        S::spec_zero().spec_plus(k) == k,
        k.spec_is_zero() ==> k == S::spec_zero(),
    ensures
        plan_of(gain_system(k)) is Some,
        plan_of(gain_system(k)).unwrap().step_response() == Seq::new((STEPS + 1) as nat, |i: int| k),
{
    lemma_gain_response(k);
    lemma_gain_output_is_the_gain(k);
    assert(Seq::new((STEPS + 1) as nat, |i: int| gain_output(k)) =~= Seq::new((STEPS + 1) as nat, |i: int| k));
}

/// The state of a model after `k` time steps under the input one, from rest:
/// `x(0) = 0`, `x(k+1) = a * x(k) + b * 1`.
pub open spec fn state_at<S: Scalar>(model: StateSpaceView<S>, k: int) -> Seq<S>
    decreases k,
{
    if k <= 0 {
        zeros(model.state_size())
    } else {
        model.next_state(seq![S::spec_one()], state_at(model, k - 1))
    }
}

/// What a model puts out at time step `k` under the input one, from rest:
/// `c * x(k) + d * 1`, or `c * x(k)` where `d` has no entry that is not zero.
pub open spec fn output_at<S: Scalar>(model: StateSpaceView<S>, k: int) -> Seq<S> {
    if model.has_feedthrough() {
        model.output_with_feedthrough(seq![S::spec_one()], state_at(model, k))
    } else {
        model.output(state_at(model, k))
    }
}

/// A system of one block that reads the input and has the model `model`, of
/// one input and at least one output.
pub open spec fn single_block_of<S: Scalar>(sys: Seq<ComponentView<S>>, model: StateSpaceView<S>) -> bool {
    &&& sys.len() == 1
    &&& executable(sys[0].block) == Some(model)
    &&& sys[0].reads_input_from == seq![Signal::SystemInput]
    &&& model.well_formed()
    &&& model.input_size() == 1
    &&& model.output_size() >= 1
    &&& 1 + model.output_size() <= usize::MAX
    &&& model.state_size() <= usize::MAX
}

proof fn lemma_single_block_plan<S: Scalar>(sys: Seq<ComponentView<S>>, model: StateSpaceView<S>)
    requires
        single_block_of(sys, model),
    ensures
        plan_of(sys) is Some,
        plan_of(sys).unwrap().blocks.len() == 1,
        plan_of(sys).unwrap().blocks[0] == (BlockPlanView {
            model,
            inputs: seq![0usize],
            state_start: 0,
            output_start: 1,
        }),
        plan_of(sys).unwrap().signals_size == 1 + model.output_size(),
        plan_of(sys).unwrap().state_size == model.state_size(),
        plan_of(sys).unwrap().output_signal == model.output_size(),
        plan_of(sys).unwrap().plan == output_steps(seq![model], 1) + update_steps(seq![model], 1),
        output_steps(seq![model], 1) == seq![
            if model.has_feedthrough() {
                ExecutionStep::CalculateOutputWithFeedthrough { system_id: 0 }
            } else {
                ExecutionStep::CalculateOutput { system_id: 0 }
            },
        ],
        update_steps(seq![model], 1) == if model.state_size() > 0 {
            seq![ExecutionStep::UpdateState { system_id: 0 }]
        } else {
            Seq::<ExecutionStep>::empty()
        },
{
    let models = models_of(sys);
    assert(models =~= seq![model]);
    assert(outputs_before(models, 1) == outputs_before(models, 0) + model.output_size());
    assert(states_before(models, 1) == states_before(models, 0) + model.state_size());
    assert(reads_one(models, sys[0].reads_input_from, 0));
    assert(all_executable(sys));
    assert(all_wired(sys));
    let plan = plan_of(sys).unwrap();
    assert(plan.blocks[0].inputs =~= seq![0usize]);
    assert(output_steps(models, 0) =~= Seq::<ExecutionStep>::empty());
    assert(update_steps(models, 0) =~= Seq::<ExecutionStep>::empty());
    assert(output_steps(models, 1) =~= seq![
        if model.has_feedthrough() {
            ExecutionStep::CalculateOutputWithFeedthrough { system_id: 0 }
        } else {
            ExecutionStep::CalculateOutput { system_id: 0 }
        },
    ]);
    if model.state_size() > 0 {
        assert(update_steps(models, 1) =~= seq![ExecutionStep::UpdateState { system_id: 0 }]);
    }
}

proof fn lemma_state_length<S: Scalar>(model: StateSpaceView<S>, k: int)
    requires
        model.well_formed(),
    ensures
        state_at(model, k).len() == model.state_size(),
        output_at(model, k).len() == model.output_size(),
    decreases k,
{
    if k > 0 {
        lemma_state_length(model, k - 1);
    }
}

proof fn lemma_single_block_cycles<S: Scalar>(sys: Seq<ComponentView<S>>, model: StateSpaceView<S>, count: int)
    requires
        single_block_of(sys, model),
        count >= 1,
    ensures
        plan_of(sys) is Some,
        plan_of(sys).unwrap().after_cycles(count).signals == seq![S::spec_one()] + output_at(model, count - 1),
        plan_of(sys).unwrap().after_cycles(count).states == state_at(model, count),
    decreases count,
{
    lemma_single_block_plan(sys, model);
    lemma_state_length(model, count - 1);
    lemma_state_length(model, count);
    let plan = plan_of(sys).unwrap();
    let r = model.output_size();
    let n = model.state_size();
    let one = S::spec_one();
    if count > 1 {
        lemma_single_block_cycles(sys, model, count - 1);
        lemma_state_length(model, count - 2);
    }
    let before = plan.after_cycles(count - 1);
    assert(before.signals.len() == 1 + r);
    assert(before.states =~= state_at(model, count - 1));
    let state = state_at(model, count - 1);
    let start = Buffers { signals: before.signals.update(0, one), states: state };
    assert(plan.after_steps(0, start) == start);
    let first = plan.plan[0];
    let out = output_at(model, count - 1);
    assert(plan.block_state(0, state) =~= state);
    assert(plan.block_input(0, start.signals) =~= seq![one]);
    let middle = plan.after_step(first, start);
    assert(plan.after_steps(1, start) == middle);
    assert(middle.signals =~= seq![one] + out);
    assert(middle.states == state);
    if n > 0 {
        let second = plan.plan[1];
        assert(second == ExecutionStep::UpdateState { system_id: 0 });
        let last = plan.after_step(second, middle);
        assert(plan.after_steps(2, start) == last);
        assert(plan.block_input(0, middle.signals) =~= seq![one]);
        assert(last.states =~= state_at(model, count));
        assert(plan.after_cycles(count) == last);
    } else {
        assert(state_at(model, count) =~= state);
        assert(plan.after_cycles(count) == middle);
    }
}

/// The unit step response of a single block is what its two equations say:
/// sample `k` is the last entry of `c * x(k) + d * 1`, where `x(0)` is zero
/// and `x(k+1) = a * x(k) + b * 1`. It depends on the input and on the state
/// at step `k` alone.
pub proof fn lemma_single_block_response<S: Scalar>(sys: Seq<ComponentView<S>>, model: StateSpaceView<S>)
    requires
        single_block_of(sys, model),
    ensures
        plan_of(sys) is Some,
        forall|k: int|
            0 <= k <= STEPS ==> #[trigger] plan_of(sys).unwrap().sample(k) == output_at(model, k)[model.output_size()
                - 1],
{
    lemma_single_block_plan(sys, model);
    let plan = plan_of(sys).unwrap();
    assert forall|k: int| 0 <= k <= STEPS implies #[trigger] plan.sample(k) == output_at(model, k)[
        model.output_size() - 1
    ] by {
        lemma_single_block_cycles(sys, model, k + 1);
        lemma_state_length(model, k);
    }
}

} // verus!
