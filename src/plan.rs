//! Numbering of a netlist's nodes and branches.
//!
//! Nodes are numbered in the order in which components first use their
//! names (ground, "0" or "GND", is node 0); each voltage source, inductor
//! and digital block owns the next branch id, in component order.

use vstd::prelude::*;
use crate::ast::ComponentType;
use crate::circuit::{resolve_name, find_name, NodeTable};
use crate::circuit::same_text;
use crate::parser::{str_views, ComponentSyntax, ComponentView, ModelSyntax, NetlistSyntax, NetlistView};
use crate::types::{BranchId, NodeId};

verus! {

/// Whether a kind of component owns a branch current.
pub open spec fn owns_branch(t: ComponentType) -> bool {
    t == ComponentType::VoltageSource || t == ComponentType::Inductor || t == ComponentType::Delay
        || t == ComponentType::Reverb
}

/// Number of branch owners among the first `k` components.
pub open spec fn branch_count(comps: Seq<ComponentView>, k: int) -> nat
    decreases k,
{
    if k <= 0 {
        0
    } else {
        branch_count(comps, k - 1) + if owns_branch(comps[k - 1].component_type) {
            1nat
        } else {
            0nat
        }
    }
}

/// Node names of the components, in order.
pub open spec fn flat_nodes(comps: Seq<ComponentView>) -> Seq<Seq<char>>
    decreases comps.len(),
{
    if comps.len() == 0 {
        Seq::empty()
    } else {
        flat_nodes(comps.drop_last()) + comps.last().body.nodes
    }
}

/// A table after `name` is interned: unchanged if the name resolves.
pub open spec fn intern_name(t: Seq<Seq<char>>, name: Seq<char>) -> Seq<Seq<char>> {
    if resolve_name(t, name) is Some {
        t
    } else {
        t.push(name)
    }
}

/// The node table after interning `names` in order.
pub open spec fn table_of(names: Seq<Seq<char>>) -> Seq<Seq<char>>
    decreases names.len(),
{
    if names.len() == 0 {
        seq!["0"@]
    } else {
        intern_name(table_of(names.drop_last()), names.last())
    }
}

/// Node ids of one component and the branch it owns, if any.
#[derive(Debug, Clone, PartialEq)]
pub struct ComponentPlan {
    pub nodes: Vec<NodeId>,
    pub branch: Option<BranchId>,
}

/// The numbering of a netlist: its node table, per component its node ids
/// and branch, the number of branches, and the input and output nodes.
#[derive(Debug)]
pub struct CircuitPlan {
    pub nodes: NodeTable,
    pub components: Vec<ComponentPlan>,
    pub num_branches: usize,
    pub input_node: NodeId,
    pub output_node: NodeId,
}

/// Why a netlist cannot be numbered.
#[derive(Debug, Clone, PartialEq)]
pub enum PlanError {
    /// No `.input` line.
    MissingInput,
    /// No `.output` line.
    MissingOutput,
    /// `.input` or `.output` names a node that no component uses.
    NodeNotFound { node: String },
}

/// Interning keeps every name that already resolves where it was.
proof fn lemma_push_keeps(t: Seq<Seq<char>>, x: Seq<char>, y: Seq<char>, from: int)
    requires
        0 <= from <= t.len(),
        find_name(t, y, from) is Some,
    ensures
        find_name(t.push(x), y, from) == find_name(t, y, from),
    decreases t.len() - from,
{
    if from < t.len() && t[from] != y {
        lemma_push_keeps(t, x, y, from + 1);
    }
}

proof fn lemma_intern_keeps(t: Seq<Seq<char>>, x: Seq<char>, y: Seq<char>)
    requires
        resolve_name(t, y) is Some,
    ensures
        resolve_name(intern_name(t, x), y) == resolve_name(t, y),
{
    if resolve_name(t, x) is None && !crate::circuit::is_ground_name(y) {
        lemma_push_keeps(t, x, y, 0);
    }
}

proof fn lemma_flat_step(comps: Seq<ComponentView>, i: int)
    requires
        0 <= i < comps.len(),
    ensures
        flat_nodes(comps.take(i + 1)) == flat_nodes(comps.take(i)) + comps[i].body.nodes,
{
    assert(comps.take(i + 1).drop_last() =~= comps.take(i));
}

proof fn lemma_flat_len(comps: Seq<ComponentView>, i: int)
    requires
        0 <= i <= comps.len(),
    ensures
        flat_nodes(comps.take(i)).len() <= flat_nodes(comps).len(),
    decreases comps.len() - i,
{
    if i < comps.len() {
        lemma_flat_len(comps, i + 1);
        lemma_flat_step(comps, i);
    } else {
        assert(comps.take(i) =~= comps);
    }
}

proof fn lemma_table_len(names: Seq<Seq<char>>)
    ensures
        table_of(names).len() <= names.len() + 1,
    decreases names.len(),
{
    if names.len() > 0 {
        lemma_table_len(names.drop_last());
    }
}

proof fn lemma_branch_count_mono(comps: Seq<ComponentView>, k1: int, k2: int)
    requires
        0 <= k1 <= k2,
    ensures
        branch_count(comps, k1) <= branch_count(comps, k2),
    decreases k2 - k1,
{
    if k1 < k2 {
        lemma_branch_count_mono(comps, k1, k2 - 1);
    }
}

/// Branch ids are unique: two components that own branches get different
/// ids, each below the number of branches.
pub proof fn lemma_branch_ids_distinct(comps: Seq<ComponentView>, a: int, b: int)
    requires
        0 <= a < b < comps.len(),
        owns_branch(comps[a].component_type),
        owns_branch(comps[b].component_type),
    ensures
        branch_count(comps, a) < branch_count(comps, b),
        branch_count(comps, b) < branch_count(comps, comps.len() as int),
{
    lemma_branch_count_mono(comps, a + 1, b);
    lemma_branch_count_mono(comps, b + 1, comps.len() as int);
}

/// Numbers the nodes and branches of a netlist and resolves its input and
/// output nodes.
pub fn plan_circuit(net: &NetlistSyntax) -> (r: Result<CircuitPlan, PlanError>)
    requires
        flat_nodes(net@.components).len() + 2 < usize::MAX,
        net.components.len() < usize::MAX,
    ensures
        ({
            let comps = net@.components;
            let t = table_of(flat_nodes(comps));
            match (net.input_node, net.output_node) {
                (None, _) => r == Err::<CircuitPlan, PlanError>(PlanError::MissingInput),
                (Some(_), None) => r == Err::<CircuitPlan, PlanError>(PlanError::MissingOutput),
                (Some(i), Some(o)) => if resolve_name(t, i@) is None {
                    r == Err::<CircuitPlan, PlanError>(PlanError::NodeNotFound { node: i })
                } else if resolve_name(t, o@) is None {
                    r == Err::<CircuitPlan, PlanError>(PlanError::NodeNotFound { node: o })
                } else {
                    &&& r is Ok
                    &&& r->Ok_0.nodes.wf()
                    &&& r->Ok_0.nodes.names() == t
                    &&& r->Ok_0.input_node.0 == resolve_name(t, i@)->Some_0
                    &&& r->Ok_0.output_node.0 == resolve_name(t, o@)->Some_0
                    &&& r->Ok_0.num_branches == branch_count(comps, comps.len() as int)
                    &&& r->Ok_0.components.len() == comps.len()
                    &&& forall|k: int|
                        0 <= k < comps.len() ==> {
                            let p = #[trigger] r->Ok_0.components@[k];
                            &&& p.nodes.len() == comps[k].body.nodes.len()
                            &&& forall|j: int|
                                0 <= j < p.nodes.len() ==> resolve_name(t, comps[k].body.nodes[j])
                                    == Some(#[trigger] p.nodes@[j].0 as nat)
                            &&& p.branch == if owns_branch(comps[k].component_type) {
                                Some(BranchId(branch_count(comps, k) as usize))
                            } else {
                                None
                            }
                        }
                },
            }
        }),
{
    let ghost comps = net@.components;
    let mut table = NodeTable::new();
    let mut plans: Vec<ComponentPlan> = Vec::new();
    let mut next_branch: usize = 0;
    proof {
        assert(flat_nodes(comps.take(0)) =~= Seq::<Seq<char>>::empty());
    }
    let mut i: usize = 0;
    while i < net.components.len()
        invariant
            comps == net@.components,
            comps.len() == net.components.len(),
            flat_nodes(comps).len() + 2 < usize::MAX,
            net.components.len() < usize::MAX,
            i <= comps.len(),
            table.wf(),
            table.names() == table_of(flat_nodes(comps.take(i as int))),
            next_branch == branch_count(comps, i as int),
            next_branch <= i,
            plans.len() == i,
            forall|k: int|
                0 <= k < i ==> {
                    let p = #[trigger] plans@[k];
                    &&& p.nodes.len() == comps[k].body.nodes.len()
                    &&& forall|j: int|
                        0 <= j < p.nodes.len() ==> resolve_name(table.names(), comps[k].body.nodes[j])
                            == Some(#[trigger] p.nodes@[j].0 as nat)
                    &&& p.branch == if owns_branch(comps[k].component_type) {
                        Some(BranchId(branch_count(comps, k) as usize))
                    } else {
                        None
                    }
                },
        decreases comps.len() - i,
    {
        let c = &net.components[i];
        assert(c@ == comps[i as int]);
        let ghost before = flat_nodes(comps.take(i as int));
        let mut ids: Vec<NodeId> = Vec::new();
        let mut j: usize = 0;
        proof {
            lemma_flat_len(comps, i as int + 1);
            lemma_flat_step(comps, i as int);
            assert(before + c@.body.nodes.take(0) =~= before);
        }
        while j < c.nodes.len()
            invariant
                comps == net@.components,
                c@ == comps[i as int],
                0 <= i < comps.len(),
                flat_nodes(comps).len() + 2 < usize::MAX,
                flat_nodes(comps.take(i as int + 1)).len() <= flat_nodes(comps).len(),
                flat_nodes(comps.take(i as int + 1)) == before + c@.body.nodes,
                j <= c.nodes.len(),
                c@.body.nodes.len() == c.nodes.len(),
                table.wf(),
                table.names() == table_of(before + c@.body.nodes.take(j as int)),
                ids.len() == j,
                forall|jj: int|
                    0 <= jj < j ==> resolve_name(table.names(), c@.body.nodes[jj]) == Some(
                        #[trigger] ids@[jj].0 as nat,
                    ),
                forall|k: int|
                    0 <= k < i ==> {
                        let p = #[trigger] plans@[k];
                        &&& p.nodes.len() == comps[k].body.nodes.len()
                        &&& forall|jj: int|
                            0 <= jj < p.nodes.len() ==> resolve_name(
                                table.names(),
                                comps[k].body.nodes[jj],
                            ) == Some(#[trigger] p.nodes@[jj].0 as nat)
                        &&& p.branch == if owns_branch(comps[k].component_type) {
                            Some(BranchId(branch_count(comps, k) as usize))
                        } else {
                            None
                        }
                    },
            decreases c.nodes.len() - j,
        {
            let ghost old_names = table.names();
            let ghost prefix = before + c@.body.nodes.take(j as int);
            proof {
                assert(c@.body.nodes[j as int] == c.nodes@[j as int]@);
                assert(prefix.push(c@.body.nodes[j as int]) =~= before + c@.body.nodes.take(
                    j as int + 1,
                ));
                assert((prefix.push(c@.body.nodes[j as int])).drop_last() =~= prefix);
                lemma_table_len(prefix);
                assert(prefix.len() <= (before + c@.body.nodes).len());
            }
            let id = table.intern(c.nodes[j].as_str());
            proof {
                let x = c@.body.nodes[j as int];
                assert(table.names() == intern_name(old_names, x));
                assert forall|jj: int| 0 <= jj < j implies resolve_name(
                    table.names(),
                    c@.body.nodes[jj],
                ) == Some(#[trigger] ids@[jj].0 as nat) by {
                    assert(resolve_name(old_names, c@.body.nodes[jj]) == Some(ids@[jj].0 as nat));
                    lemma_intern_keeps(old_names, x, c@.body.nodes[jj]);
                }
                assert forall|k: int| 0 <= k < i implies (forall|jj: int|
                    0 <= jj < (#[trigger] plans@[k]).nodes.len() ==> resolve_name(
                        table.names(),
                        comps[k].body.nodes[jj],
                    ) == Some(#[trigger] plans@[k].nodes@[jj].0 as nat)) by {
                    let p = plans@[k];
                    assert forall|jj: int| 0 <= jj < p.nodes.len() implies resolve_name(
                        table.names(),
                        comps[k].body.nodes[jj],
                    ) == Some(#[trigger] p.nodes@[jj].0 as nat) by {
                        assert(resolve_name(old_names, comps[k].body.nodes[jj]) == Some(
                            p.nodes@[jj].0 as nat,
                        ));
                        lemma_intern_keeps(old_names, x, comps[k].body.nodes[jj]);
                    }
                }
                if resolve_name(old_names, x) is None {
                    crate::circuit::lemma_resolve_pushed(old_names, x);
                } else if !crate::circuit::is_ground_name(x) {
                    crate::circuit::lemma_find_name(old_names, x, 0);
                }
            }
            let ghost old_ids = ids@;
            ids.push(id);
            proof {
                let x = c@.body.nodes[j as int];
                assert(resolve_name(table.names(), x) == Some(id.0 as nat));
                assert forall|jj: int| 0 <= jj < j + 1 implies resolve_name(
                    table.names(),
                    c@.body.nodes[jj],
                ) == Some(#[trigger] ids@[jj].0 as nat) by {
                    if jj < j {
                        assert(ids@[jj] == old_ids[jj]);
                    }
                }
            }
            j = j + 1;
        }
        proof {
            assert(c@.body.nodes.take(j as int) =~= c@.body.nodes);
        }
        let branch = if c.component_type == ComponentType::VoltageSource || c.component_type
            == ComponentType::Inductor || c.component_type == ComponentType::Delay
            || c.component_type == ComponentType::Reverb {
            let b = BranchId(next_branch);
            next_branch = next_branch + 1;
            Some(b)
        } else {
            None
        };
        plans.push(ComponentPlan { nodes: ids, branch });
        i = i + 1;
    }
    proof {
        assert(comps.take(comps.len() as int) =~= comps);
    }
    let input_name = match &net.input_node {
        Some(n) => n,
        None => {
            return Err(PlanError::MissingInput);
        },
    };
    let output_name = match &net.output_node {
        Some(n) => n,
        None => {
            return Err(PlanError::MissingOutput);
        },
    };
    let input_node = match table.find_node(input_name.as_str()) {
        Some(n) => n,
        None => {
            return Err(PlanError::NodeNotFound { node: input_name.clone() });
        },
    };
    let output_node = match table.find_node(output_name.as_str()) {
        Some(n) => n,
        None => {
            return Err(PlanError::NodeNotFound { node: output_name.clone() });
        },
    };
    let plan = CircuitPlan {
        nodes: table,
        components: plans,
        num_branches: next_branch,
        input_node,
        output_node,
    };
    proof {
        if !crate::circuit::is_ground_name(input_name@) {
            crate::circuit::lemma_find_name(plan.nodes.names(), input_name@, 0);
        }
        if !crate::circuit::is_ground_name(output_name@) {
            crate::circuit::lemma_find_name(plan.nodes.names(), output_name@, 0);
        }
        assert(plan.nodes.names() == table_of(flat_nodes(comps)));
    }
    Ok(plan)
}

/// Why a numbered circuit cannot be simulated.
#[derive(Debug, Clone, Copy, PartialEq, Eq, Structural)]
pub enum TopologyError {
    /// The input node is ground.
    InputIsGround,
    /// The output node is ground.
    OutputIsGround,
    /// No electrical component besides digital blocks and oscillators.
    NoComponents,
}

/// Checks that the input and output are not ground and that the circuit has
/// at least one electrical component, in that order.
pub fn validate_topology(input_node: NodeId, output_node: NodeId, num_components: usize) -> (r: Result<
    (),
    TopologyError,
>)
    ensures
        input_node.0 == 0 ==> r == Err::<(), TopologyError>(TopologyError::InputIsGround),
        input_node.0 != 0 && output_node.0 == 0 ==> r == Err::<(), TopologyError>(
            TopologyError::OutputIsGround,
        ),
        input_node.0 != 0 && output_node.0 != 0 && num_components == 0 ==> r == Err::<
            (),
            TopologyError,
        >(TopologyError::NoComponents),
        input_node.0 != 0 && output_node.0 != 0 && num_components > 0 ==> r is Ok,
{
    if input_node.is_ground() {
        return Err(TopologyError::InputIsGround);
    }
    if output_node.is_ground() {
        return Err(TopologyError::OutputIsGround);
    }
    if num_components == 0 {
        return Err(TopologyError::NoComponents);
    }
    Ok(())
}

/// A name that a netlist uses twice, or a model it refers to but lacks.
#[derive(Debug, Clone, PartialEq)]
pub enum ReferenceError {
    /// A component whose name an earlier component already has.
    DuplicateComponent { name: String },
    /// A diode, transistor or op-amp whose model reference names no model.
    UndefinedModel { model: String, component: String },
}

/// Whether a kind of component takes its parameters from a named model.
pub open spec fn uses_model(t: ComponentType) -> bool {
    t == ComponentType::Diode || t == ComponentType::Bjt || t == ComponentType::OpAmp
}

/// Whether some model of `models` has the name `name`.
pub open spec fn has_model_named(models: Seq<ModelSyntax>, name: Seq<char>) -> bool {
    exists|i: int| 0 <= i < models.len() && (#[trigger] models[i]).name@ == name
}

/// The error that component `k` raises, if any: its name repeats an
/// earlier component's, or it uses a model that `models` lacks.
pub open spec fn component_issue(
    comps: Seq<ComponentSyntax>,
    models: Seq<ModelSyntax>,
    k: int,
) -> Option<ReferenceError> {
    let c = comps[k];
    if exists|j: int| 0 <= j < k && (#[trigger] comps[j]).name@ == c.name@ {
        Some(ReferenceError::DuplicateComponent { name: c.name })
    } else if uses_model(c.component_type) && c.model_ref is Some && !has_model_named(
        models,
        c.model_ref->Some_0@,
    ) {
        Some(ReferenceError::UndefinedModel { model: c.model_ref->Some_0, component: c.name })
    } else {
        None
    }
}

/// Checks component names and model references, component by component:
/// the first component with an issue decides the error; with none, `Ok`.
pub fn check_references(net: &NetlistSyntax) -> (r: Result<(), ReferenceError>)
    ensures
        ({
            let comps = net.components@;
            let models = net.models@;
            match r {
                Ok(_) => forall|k: int| 0 <= k < comps.len() ==> component_issue(comps, models, k) is None,
                Err(e) => exists|k: int|
                    0 <= k < comps.len() && component_issue(comps, models, k) == Some(e) && forall|
                        j: int,
                    |
                        0 <= j < k ==> component_issue(comps, models, j) is None,
            }
        }),
{
    let ghost comps = net.components@;
    let ghost models = net.models@;
    let mut k: usize = 0;
    while k < net.components.len()
        invariant
            comps == net.components@,
            models == net.models@,
            k <= comps.len(),
            forall|j: int| 0 <= j < k ==> component_issue(comps, models, j) is None,
        decreases comps.len() - k,
    {
        let c = &net.components[k];
        let mut j: usize = 0;
        while j < k
            invariant
                comps == net.components@,
                models == net.models@,
                *c == comps[k as int],
                j <= k < comps.len(),
                forall|i: int| 0 <= i < j ==> (#[trigger] comps[i]).name@ != c.name@,
                forall|i: int| 0 <= i < k ==> component_issue(comps, models, i) is None,
            decreases k - j,
        {
            if same_text(net.components[j].name.as_str(), c.name.as_str()) {
                let e = ReferenceError::DuplicateComponent { name: c.name.clone() };
                proof {
                    assert(comps[j as int].name@ == c.name@);
                    assert(component_issue(comps, models, k as int) == Some(e));
                }
                return Err(e);
            }
            j = j + 1;
        }
        if c.component_type == ComponentType::Diode || c.component_type == ComponentType::Bjt
            || c.component_type == ComponentType::OpAmp {
            if let Some(m) = &c.model_ref {
                let mut i: usize = 0;
                let mut found = false;
                while i < net.models.len()
                    invariant
                        models == net.models@,
                        comps == net.components@,
                        *c == comps[k as int],
                        k < comps.len(),
                        c.model_ref == Some(*m),
                        forall|x: int| 0 <= x < k ==> component_issue(comps, models, x) is None,
                        forall|x: int| 0 <= x < k ==> (#[trigger] comps[x]).name@ != c.name@,
                        i <= models.len(),
                        found ==> has_model_named(models, m@),
                        !found ==> forall|x: int| 0 <= x < i ==> (#[trigger] models[x]).name@ != m@,
                    decreases models.len() - i,
                {
                    if !found && same_text(net.models[i].name.as_str(), m.as_str()) {
                        found = true;
                    }
                    i = i + 1;
                }
                if !found {
                    let e = ReferenceError::UndefinedModel { model: m.clone(), component: c.name.clone() };
                    proof {
                        assert(!has_model_named(models, m@));
                        assert(component_issue(comps, models, k as int) == Some(e));
                    }
                    return Err(e);
                }
            }
        }
        k = k + 1;
    }
    Ok(())
}

} // verus!
