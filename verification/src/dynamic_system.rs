use vstd::prelude::*;
use vstd::string::StringExecFns;
use std::rc::Rc;
use crate::scalar::Scalar;
use crate::state_space::{DiscreteStateSpaceModel, StateSpaceView};
use crate::transfer_function::{DiscreteTransferFunction, TransferFunctionView};

verus! {

/// A second handle to a shared value.
///
/// Wraps `Rc::clone` of the standard library, which hands out a new pointer
/// to the same allocation: what it points to is what `rc` points to.
#[verifier::external_body]
pub(crate) fn share<T>(rc: &Rc<T>) -> (r: Rc<T>)
    ensures
        r == rc,
{
    rc.clone()
}

/// What a block of a diagram does.
#[derive(Debug, PartialEq)]
pub enum SystemBlock<S: Scalar> {
    StateSpace(Rc<DiscreteStateSpaceModel<S>>),
    TransferFunction(Rc<DiscreteTransferFunction<S>>),
    /// Two inputs, one output: the first input minus the second.
    Difference,
}

pub enum BlockView<S> {
    StateSpace(StateSpaceView<S>),
    TransferFunction(TransferFunctionView<S>),
    Difference,
}

impl<S: Scalar> View for SystemBlock<S> {
    type V = BlockView<S>;

    open spec fn view(&self) -> BlockView<S> {
        match self {
            SystemBlock::StateSpace(ss) => BlockView::StateSpace(ss@),
            SystemBlock::TransferFunction(tf) => BlockView::TransferFunction(tf@),
            SystemBlock::Difference => BlockView::Difference,
        }
    }
}

impl<S: Scalar> Clone for SystemBlock<S> {
    fn clone(&self) -> (r: Self)
        ensures
            r == *self,
    {
        match self {
            SystemBlock::StateSpace(ss) => SystemBlock::StateSpace(share(ss)),
            SystemBlock::TransferFunction(tf) => SystemBlock::TransferFunction(share(tf)),
            SystemBlock::Difference => SystemBlock::Difference,
        }
    }
}

/// Where a component takes an input from.
#[derive(Copy, Clone, Debug, PartialEq, Eq)]
pub enum Signal {
    /// The input `u` of the whole system.
    SystemInput,
    /// The output of the component at this position.
    ComponentOutput(usize),
}

/// A block wired into a system.
#[derive(Clone, Debug, PartialEq)]
pub struct CompoundSystemComponent<S: Scalar> {
    pub block: SystemBlock<S>,
    /// The name of the signal that the block puts out.
    pub name: String,
    pub reads_input_from: Vec<Signal>,
}

pub struct ComponentView<S> {
    pub block: BlockView<S>,
    pub name: Seq<char>,
    pub reads_input_from: Seq<Signal>,
}

impl<S: Scalar> View for CompoundSystemComponent<S> {
    type V = ComponentView<S>;

    open spec fn view(&self) -> ComponentView<S> {
        ComponentView { block: self.block@, name: self.name@, reads_input_from: self.reads_input_from@ }
    }
}

/// A block with the names of the signals that it reads, before the names are
/// resolved.
#[derive(Clone, Debug, PartialEq)]
pub struct CompoundSystemComponentDefinition<S: Scalar> {
    pub block: SystemBlock<S>,
    pub name: String,
    pub reads_input_from: Vec<String>,
}

pub struct DefinitionView<S> {
    pub block: BlockView<S>,
    pub name: Seq<char>,
    pub reads_input_from: Seq<Seq<char>>,
}

impl<S: Scalar> View for CompoundSystemComponentDefinition<S> {
    type V = DefinitionView<S>;

    open spec fn view(&self) -> DefinitionView<S> {
        DefinitionView {
            block: self.block@,
            name: self.name@,
            reads_input_from: Seq::new(self.reads_input_from@.len(), |i: int| self.reads_input_from@[i]@),
        }
    }
}

/// The views of a list of definitions.
pub open spec fn definition_views<S: Scalar>(defs: Seq<CompoundSystemComponentDefinition<S>>) -> Seq<
    DefinitionView<S>,
> {
    Seq::new(defs.len(), |i: int| defs[i]@)
}

/// A system that consists of several blocks.
#[derive(Clone, Debug, PartialEq)]
pub struct CompoundSystem<S: Scalar> {
    pub components: Vec<CompoundSystemComponent<S>>,
}

impl<S: Scalar> View for CompoundSystem<S> {
    type V = Seq<ComponentView<S>>;

    open spec fn view(&self) -> Seq<ComponentView<S>> {
        Seq::new(self.components@.len(), |i: int| self.components@[i]@)
    }
}

/// The position of the last of the first `k` definitions that is called `name`,
/// or -1 where none is.
pub open spec fn position<S>(defs: Seq<DefinitionView<S>>, k: int, name: Seq<char>) -> int
    decreases k,
{
    if k <= 0 {
        -1
    } else if defs[k - 1].name == name {
        k - 1
    } else {
        position(defs, k - 1, name)
    }
}

/// What `name` stands for where the first `k` definitions are known: the
/// system's input for `u`, else the output of the definition of that name.
pub open spec fn resolve<S>(defs: Seq<DefinitionView<S>>, k: int, name: Seq<char>) -> Option<Signal> {
    if name == "u"@ {
        Some(Signal::SystemInput)
    } else if position(defs, k, name) >= 0 {
        Some(Signal::ComponentOutput(position(defs, k, name) as usize))
    } else {
        None
    }
}

/// The first of the inputs of definition `k`, from input `j` on, that no earlier
/// definition explains.
pub open spec fn first_unknown<S>(defs: Seq<DefinitionView<S>>, k: int, j: int) -> Option<Seq<char>>
    decreases defs[k].reads_input_from.len() - j,
{
    if j < 0 || j >= defs[k].reads_input_from.len() {
        None
    } else if resolve(defs, k, defs[k].reads_input_from[j]) is None {
        Some(defs[k].reads_input_from[j])
    } else {
        first_unknown(defs, k, j + 1)
    }
}

pub open spec fn duplicate_message(name: Seq<char>) -> Seq<char> {
    "duplicate name "@ + name
}

pub open spec fn unknown_message(name: Seq<char>) -> Seq<char> {
    "signal "@ + name + " does not exist"@
}

/// What is wrong with definition `k`, if anything: its name is taken already, by
/// `u` or by an earlier definition, or else it reads a signal that is not
/// defined before it.
pub open spec fn fault<S>(defs: Seq<DefinitionView<S>>, k: int) -> Option<Seq<char>> {
    if resolve(defs, k, defs[k].name) is Some {
        Some(duplicate_message(defs[k].name))
    } else {
        match first_unknown(defs, k, 0) {
            Some(name) => Some(unknown_message(name)),
            None => None,
        }
    }
}

/// The fault of the first faulty definition from `from` on.
pub open spec fn first_fault<S>(defs: Seq<DefinitionView<S>>, from: int) -> Option<Seq<char>>
    decreases defs.len() - from,
{
    if from < 0 || from >= defs.len() {
        None
    } else {
        match fault(defs, from) {
            Some(message) => Some(message),
            None => first_fault(defs, from + 1),
        }
    }
}

/// Definition `k` with its inputs resolved.
pub open spec fn wired<S>(defs: Seq<DefinitionView<S>>, k: int) -> ComponentView<S> {
    ComponentView {
        block: defs[k].block,
        name: defs[k].name,
        reads_input_from: Seq::new(
            defs[k].reads_input_from.len(),
            |j: int| resolve(defs, k, defs[k].reads_input_from[j]).unwrap(),
        ),
    }
}

/// The system of a list of definitions, or the fault of the first faulty one.
pub open spec fn resolution<S>(defs: Seq<DefinitionView<S>>) -> Result<Seq<ComponentView<S>>, Seq<char>> {
    match first_fault(defs, 0) {
        Some(message) => Err(message),
        None => Ok(Seq::new(defs.len(), |k: int| wired(defs, k))),
    }
}

fn find_signal<S: Scalar>(
    defs: &Vec<CompoundSystemComponentDefinition<S>>,
    k: usize,
    name: &String,
    input_name: &String,
) -> (r: Option<Signal>)
    requires
        k <= defs@.len(),
        input_name@ == "u"@,
    ensures
        r == resolve(definition_views(defs@), k as int, name@),
{
    if *name == *input_name {
        return Some(Signal::SystemInput);
    }
    let ghost views = definition_views(defs@);
    let mut i: usize = k;
    while i > 0
        invariant
            i <= k <= defs@.len(),
            views == definition_views(defs@),
            name@ != "u"@,
            position(views, k as int, name@) == position(views, i as int, name@),
        decreases i,
    {
        assert(views[i - 1] == defs@[i - 1]@);
        if defs[i - 1].name == *name {
            return Some(Signal::ComponentOutput(i - 1));
        }
        i -= 1;
    }
    None
}

impl<S: Scalar> CompoundSystem<S> {
    /// Wires the blocks together by the names of their signals, in one pass
    /// from the first definition to the last. `u` names the input of the
    /// system; every other name must be defined, once, before it is read.
    pub fn new(components: Vec<CompoundSystemComponentDefinition<S>>) -> (r: Result<Self, String>)
        ensures
            match r {
                Ok(system) => resolution(definition_views(components@)) == Ok::<_, Seq<char>>(system@),
                Err(message) => resolution(definition_views(components@)) == Err::<Seq<ComponentView<S>>, _>(
                    message@,
                ),
            },
    {
        let input_name = String::from_str("u");
        let ghost views = definition_views(components@);
        let mut wired_components: Vec<CompoundSystemComponent<S>> = Vec::new();
        let mut k: usize = 0;
        while k < components.len()
            invariant
                k <= components@.len(),
                views == definition_views(components@),
                input_name@ == "u"@,
                first_fault(views, 0) == first_fault(views, k as int),
                wired_components@.len() == k,
                forall|i: int| 0 <= i < k ==> (#[trigger] wired_components@[i])@ == wired(views, i),
            decreases components.len() - k,
        {
            let definition = &components[k];
            assert(views[k as int] == definition@);
            if find_signal(&components, k, &definition.name, &input_name).is_some() {
                let mut message = String::from_str("duplicate name ");
                message.append(definition.name.as_str());
                assert(message@ =~= duplicate_message(definition.name@));
                return Err(message);
            }
            let mut inputs: Vec<Signal> = Vec::new();
            let mut j: usize = 0;
            while j < definition.reads_input_from.len()
                invariant
                    k < components@.len(),
                    j <= definition.reads_input_from@.len(),
                    views == definition_views(components@),
                    *definition == components@[k as int],
                    input_name@ == "u"@,
                    views[k as int] == definition@,
                    resolve(views, k as int, views[k as int].name) is None,
                    first_fault(views, 0) == first_fault(views, k as int),
                    first_unknown(views, k as int, 0) == first_unknown(views, k as int, j as int),
                    inputs@.len() == j,
                    forall|i: int|
                        0 <= i < j ==> #[trigger] inputs@[i] == resolve(
                            views,
                            k as int,
                            views[k as int].reads_input_from[i],
                        ).unwrap(),
                decreases definition.reads_input_from.len() - j,
            {
                let name = &definition.reads_input_from[j];
                assert(views[k as int].reads_input_from[j as int] == name@);
                match find_signal(&components, k, name, &input_name) {
                    Some(signal) => {
                        inputs.push(signal);
                    },
                    None => {
                        let mut message = String::from_str("signal ");
                        message.append(name.as_str());
                        message.append(" does not exist");
                        assert(message@ =~= unknown_message(name@));
                        return Err(message);
                    },
                }
                j += 1;
            }
            let component = CompoundSystemComponent {
                block: definition.block.clone(),
                name: definition.name.clone(),
                reads_input_from: inputs,
            };
            assert(component@.reads_input_from =~= wired(views, k as int).reads_input_from);
            wired_components.push(component);
            k += 1;
        }
        let system = CompoundSystem { components: wired_components };
        assert(system@ =~= Seq::new(views.len(), |k: int| wired(views, k)));
        Ok(system)
    }
}

/// None of the first `k` definitions is faulty.
pub open spec fn faultless_before<S>(defs: Seq<DefinitionView<S>>, k: int) -> bool {
    forall|i: int| 0 <= i < k ==> (#[trigger] fault(defs, i)) is None
}

proof fn lemma_first_fault_skips<S>(defs: Seq<DefinitionView<S>>, from: int, k: int)
    requires
        0 <= from <= k <= defs.len(),
        forall|i: int| from <= i < k ==> (#[trigger] fault(defs, i)) is None,
    ensures
        first_fault(defs, from) == first_fault(defs, k),
    decreases k - from,
{
    if from < k {
        assert(fault(defs, from) is None);
        lemma_first_fault_skips(defs, from + 1, k);
    }
}

proof fn lemma_first_fault_found<S>(defs: Seq<DefinitionView<S>>, from: int, k: int)
    requires
        0 <= from <= k < defs.len(),
        fault(defs, k) is Some,
    ensures
        first_fault(defs, from) is Some,
    decreases k - from,
{
    if from < k && fault(defs, from) is None {
        lemma_first_fault_found(defs, from + 1, k);
    }
}

proof fn lemma_position_found<S>(defs: Seq<DefinitionView<S>>, i: int, k: int, name: Seq<char>)
    requires
        0 <= i < k,
        defs[i].name == name,
    ensures
        position(defs, k, name) >= i,
    decreases k - i,
{
    if i < k - 1 && defs[k - 1].name != name {
        lemma_position_found(defs, i, k - 1, name);
    }
}

proof fn lemma_first_unknown_skips<S>(defs: Seq<DefinitionView<S>>, k: int, from: int, j: int)
    requires
        0 <= from <= j < defs[k].reads_input_from.len(),
        forall|i: int| from <= i < j ==> resolve(defs, k, #[trigger] defs[k].reads_input_from[i]) is Some,
        resolve(defs, k, defs[k].reads_input_from[j]) is None,
    ensures
        first_unknown(defs, k, from) == Some(defs[k].reads_input_from[j]),
    decreases j - from,
{
    if from < j {
        assert(resolve(defs, k, defs[k].reads_input_from[from]) is Some);
        lemma_first_unknown_skips(defs, k, from + 1, j);
    }
}

/// A definition whose name is `u` or the name of a definition before it is
/// rejected with the message `duplicate name` and the name, where the
/// definitions before it are in order.
pub proof fn lemma_duplicate_name<S>(defs: Seq<DefinitionView<S>>, k: int)
    requires
        0 <= k < defs.len(),
        faultless_before(defs, k),
        defs[k].name == "u"@ || exists|i: int| 0 <= i < k && defs[i].name == defs[k].name,
    ensures
        resolution(defs) == Err::<Seq<ComponentView<S>>, _>("duplicate name "@ + defs[k].name),
{
    lemma_first_fault_skips(defs, 0, k);
    if defs[k].name != "u"@ {
        let i = choose|i: int| 0 <= i < k && defs[i].name == defs[k].name;
        lemma_position_found(defs, i, k, defs[k].name);
    }
}

/// A list of definitions in which a name occurs twice is rejected.
pub proof fn lemma_repeated_name_rejected<S>(defs: Seq<DefinitionView<S>>, i: int, k: int)
    requires
        0 <= i < k < defs.len(),
        defs[i].name == defs[k].name,
    ensures
        resolution(defs) is Err,
{
    lemma_position_found(defs, i, k, defs[k].name);
    assert(fault(defs, k) is Some);
    lemma_first_fault_found(defs, 0, k);
}

/// A definition that reads a name which is neither `u` nor the name of a
/// definition before it is rejected with the message `signal .. does not
/// exist` for the first such name, where the definitions before it are in
/// order and its own name is new.
pub proof fn lemma_unknown_signal<S>(defs: Seq<DefinitionView<S>>, k: int, j: int)
    requires
        0 <= k < defs.len(),
        faultless_before(defs, k),
        resolve(defs, k, defs[k].name) is None,
        0 <= j < defs[k].reads_input_from.len(),
        forall|i: int| 0 <= i < j ==> resolve(defs, k, #[trigger] defs[k].reads_input_from[i]) is Some,
        resolve(defs, k, defs[k].reads_input_from[j]) is None,
    ensures
        resolution(defs) == Err::<Seq<ComponentView<S>>, _>(
            "signal "@ + defs[k].reads_input_from[j] + " does not exist"@,
        ),
{
    lemma_first_fault_skips(defs, 0, k);
    lemma_first_unknown_skips(defs, k, 0, j);
}

/// In a system that name resolution accepts, every block reads the system's
/// input or the outputs of blocks before it.
pub proof fn lemma_resolution_reads_back<S>(defs: Seq<DefinitionView<S>>, k: int, j: int)
    requires
        resolution(defs) is Ok,
        0 <= k < defs.len(),
        0 <= j < defs[k].reads_input_from.len(),
    ensures
        match resolution(defs)->Ok_0[k].reads_input_from[j] {
            Signal::SystemInput => true,
            Signal::ComponentOutput(i) => i < k,
        },
{
    let name = defs[k].reads_input_from[j];
    lemma_position_bound(defs, k, name);
    if resolve(defs, k, name) is None {
        lemma_first_unknown_skips_to_fault(defs, k, 0, j);
        assert(fault(defs, k) is Some);
        lemma_first_fault_found(defs, 0, k);
    }
}

proof fn lemma_position_bound<S>(defs: Seq<DefinitionView<S>>, k: int, name: Seq<char>)
    ensures
        position(defs, k, name) < k || k <= 0,
    decreases k,
{
    if k > 0 && defs[k - 1].name != name {
        lemma_position_bound(defs, k - 1, name);
    }
}

proof fn lemma_first_unknown_skips_to_fault<S>(defs: Seq<DefinitionView<S>>, k: int, from: int, j: int)
    requires
        0 <= from <= j < defs[k].reads_input_from.len(),
        resolve(defs, k, defs[k].reads_input_from[j]) is None,
    ensures
        first_unknown(defs, k, from) is Some,
    decreases j - from,
{
    if from < j && resolve(defs, k, defs[k].reads_input_from[from]) is Some {
        lemma_first_unknown_skips_to_fault(defs, k, from + 1, j);
    }
}

} // verus!
