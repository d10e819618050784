//! The execution graph the engine runs, as the engine reads it: nodes with
//! their kind, opcode, flags and registers, edges with their kind, and the
//! entry points; and what running a node does to the engine's registers,
//! queue, rule priorities and execution path.
use vstd::prelude::*;
use crate::rule_engine::types::{Comparator, RuleEngineError, RulePriority, ValueV};
use crate::text::decimal;

verus! {

broadcast use vstd::seq_lib::group_to_multiset_ensures;

/// The kinds of node.
#[derive(Debug, Clone, Copy, PartialEq, Eq, Structural)]
pub enum GraphNodeType {
    Op,
    Rule,
    Control,
    Graph,
    Io,
}

/// The kinds of edge the engine tells apart; every other kind is `Other`.
#[derive(Debug, Clone, Copy, PartialEq, Eq, Structural)]
pub enum EdgeType {
    Data,
    Control,
    Other,
}

/// A node: its id, kind, opcode, flags (the comparison of a compare
/// operation) and the registers it reads and writes.
#[derive(Debug, Clone)]
pub struct GraphNode {
    pub id: u32,
    pub node_type: GraphNodeType,
    pub opcode: u8,
    pub flags: u8,
    pub input_regs: Vec<u16>,
    pub output_regs: Vec<u16>,
}

#[derive(Debug, Clone, Copy)]
pub struct GraphEdge {
    pub from_node: u32,
    pub to_node: u32,
    pub edge_type: EdgeType,
}

/// The graph: its nodes, edges, and the ids of the nodes to start at.
#[derive(Debug, Clone)]
pub struct ExecutionGraph {
    pub nodes: Vec<GraphNode>,
    pub edges: Vec<GraphEdge>,
    pub entry_points: Vec<u32>,
}

pub const OP_LOAD_SYM: u8 = 0x10;
pub const OP_LOAD_NUM: u8 = 0x11;
pub const OP_MOVE: u8 = 0x12;
pub const OP_COMPARE: u8 = 0x13;
pub const CTRL_JMP: u8 = 0x01;
pub const CTRL_JMP_IF: u8 = 0x02;
pub const CTRL_HALT: u8 = 0x03;

/// The registers each operation reads and writes are there: a load writes
/// one, a move reads and writes one, a comparison reads two and writes one,
/// a conditional jump reads one.
pub open spec fn node_regs_ok(n: GraphNode) -> bool {
    &&& (n.node_type == GraphNodeType::Op && (n.opcode == OP_LOAD_SYM || n.opcode == OP_LOAD_NUM || n.opcode == OP_MOVE || n.opcode == OP_COMPARE))
        ==> n.output_regs@.len() >= 1
    &&& (n.node_type == GraphNodeType::Op && n.opcode == OP_MOVE) ==> n.input_regs@.len() >= 1
    &&& (n.node_type == GraphNodeType::Op && n.opcode == OP_COMPARE) ==> n.input_regs@.len() >= 2
    &&& (n.node_type == GraphNodeType::Control && n.opcode == CTRL_JMP_IF) ==> n.input_regs@.len() >= 1
}

impl ExecutionGraph {
    /// Every node has the registers its operation reads and writes.
    pub open spec fn regs_ok(&self) -> bool {
        forall|i: int| 0 <= i < self.nodes@.len() ==> node_regs_ok(#[trigger] self.nodes@[i])
    }
}

/// The index of the first node from `i` on with id `id`.
pub open spec fn node_index_from(nodes: Seq<GraphNode>, id: u32, i: int) -> Option<int>
    decreases nodes.len() - i,
{
    if i < 0 || i >= nodes.len() {
        None
    } else if nodes[i].id == id {
        Some(i)
    } else {
        node_index_from(nodes, id, i + 1)
    }
}

/// The index of the first node with id `id`.
pub open spec fn node_index(nodes: Seq<GraphNode>, id: u32) -> Option<int> {
    node_index_from(nodes, id, 0)
}

pub proof fn lemma_node_index_from(nodes: Seq<GraphNode>, id: u32, i: int)
    requires
        0 <= i,
    ensures
        node_index_from(nodes, id, i) matches Some(k) ==> i <= k < nodes.len() && nodes[k].id == id
            && forall|j: int| i <= j < k ==> nodes[j].id != id,
        node_index_from(nodes, id, i) is None ==> forall|j: int| i <= j < nodes.len() ==> nodes[j].id != id,
    decreases nodes.len() - i,
{
    if i < nodes.len() && nodes[i].id != id {
        lemma_node_index_from(nodes, id, i + 1);
    }
}

/// The targets of the edges leaving `from`, in edge order.
pub open spec fn successors(edges: Seq<GraphEdge>, from: u32) -> Seq<u32>
    decreases edges.len(),
{
    if edges.len() == 0 {
        Seq::empty()
    } else {
        let rest = successors(edges.drop_last(), from);
        if edges.last().from_node == from {
            rest.push(edges.last().to_node)
        } else {
            rest
        }
    }
}

/// The targets of the edges of kind `t` leaving `from`, in edge order.
pub open spec fn successors_of_kind(edges: Seq<GraphEdge>, from: u32, t: EdgeType) -> Seq<u32>
    decreases edges.len(),
{
    if edges.len() == 0 {
        Seq::empty()
    } else {
        let rest = successors_of_kind(edges.drop_last(), from, t);
        if edges.last().from_node == from && edges.last().edge_type == t {
            rest.push(edges.last().to_node)
        } else {
            rest
        }
    }
}

/// The queue with `x` at its end, unless it holds `x` already.
pub open spec fn enqueue(q: Seq<u32>, x: u32) -> Seq<u32> {
    if q.contains(x) {
        q
    } else {
        q.push(x)
    }
}

/// The queue with each of `xs` enqueued in turn.
pub open spec fn enqueue_all(q: Seq<u32>, xs: Seq<u32>) -> Seq<u32>
    decreases xs.len(),
{
    if xs.len() == 0 {
        q
    } else {
        enqueue(enqueue_all(q, xs.drop_last()), xs.last())
    }
}

/// What the engine's node runs touch: the registers, the queue, the rule
/// priorities and the execution path.
pub struct EngV {
    pub regs: Seq<Option<ValueV>>,
    pub queue: Seq<u32>,
    pub prios: Map<u32, RulePriority>,
    pub path: Seq<u32>,
}

/// What an error says.
pub enum EngErr {
    InvalidNodeType,
    MissingRegisterValue(u16),
    InvalidComparison(Comparator, ValueV, ValueV),
    InvalidPredicate(Seq<char>),
    ExecutionLimitExceeded,
}

pub open spec fn eng_err(e: RuleEngineError) -> EngErr {
    match e {
        RuleEngineError::InvalidNodeType => EngErr::InvalidNodeType,
        RuleEngineError::MissingRegisterValue(r) => EngErr::MissingRegisterValue(r),
        RuleEngineError::InvalidComparison(c, a, b) => EngErr::InvalidComparison(c, a@, b@),
        RuleEngineError::InvalidPredicate(s) => EngErr::InvalidPredicate(s@),
        RuleEngineError::ExecutionLimitExceeded => EngErr::ExecutionLimitExceeded,
    }
}

pub open spec fn res_v(r: Result<(), RuleEngineError>) -> Result<(), EngErr> {
    match r {
        Ok(_) => Ok(()),
        Err(e) => Err(eng_err(e)),
    }
}

/// The register `r` holds, or nothing past the last register.
pub open spec fn reg_at(regs: Seq<Option<ValueV>>, r: int) -> Option<ValueV> {
    if 0 <= r < regs.len() {
        regs[r]
    } else {
        None
    }
}

/// The registers with `v` in register `r`, unchanged when there is no such register.
pub open spec fn put_reg(regs: Seq<Option<ValueV>>, r: int, v: ValueV) -> Seq<Option<ValueV>> {
    if 0 <= r < regs.len() {
        regs.update(r, Some(v))
    } else {
        regs
    }
}

pub open spec fn with_regs(s: EngV, regs: Seq<Option<ValueV>>) -> EngV {
    EngV { regs, queue: s.queue, prios: s.prios, path: s.path }
}

pub open spec fn with_queue(s: EngV, queue: Seq<u32>) -> EngV {
    EngV { regs: s.regs, queue, prios: s.prios, path: s.path }
}

/// The outcome of comparing two values, where the comparison applies.
pub open spec fn compared(a: ValueV, b: ValueV, op: Comparator) -> Option<bool> {
    match (a, b) {
        (ValueV::Num(x), ValueV::Num(y)) => Some(
            match op {
                Comparator::Equal => x == y,
                Comparator::NotEqual => x != y,
                Comparator::Greater => x > y,
                Comparator::Less => x < y,
                Comparator::GreaterEqual => x >= y,
                Comparator::LessEqual => x <= y,
            },
        ),
        (ValueV::Sym(x), ValueV::Sym(y)) => match op {
            Comparator::Equal => Some(x == y),
            Comparator::NotEqual => Some(x != y),
            _ => None,
        },
        (ValueV::Bool(x), ValueV::Bool(y)) => match op {
            Comparator::Equal => Some(x == y),
            Comparator::NotEqual => Some(x != y),
            _ => None,
        },
        _ => None,
    }
}

/// The comparison a compare operation's flags select.
pub open spec fn comparator_of(flags: u8) -> Option<Comparator> {
    if flags == 0 {
        Some(Comparator::Equal)
    } else if flags == 1 {
        Some(Comparator::NotEqual)
    } else if flags == 2 {
        Some(Comparator::Greater)
    } else if flags == 3 {
        Some(Comparator::Less)
    } else if flags == 4 {
        Some(Comparator::GreaterEqual)
    } else if flags == 5 {
        Some(Comparator::LessEqual)
    } else {
        None
    }
}

/// The symbol a symbol load writes: `symbol_<id>`.
pub open spec fn symbol_text(id: u32) -> Seq<char> {
    "symbol_"@ + decimal(id as nat)
}

pub open spec fn sp_load_sym(s: EngV, n: GraphNode) -> EngV {
    with_regs(s, put_reg(s.regs, n.output_regs@[0] as int, ValueV::Sym(symbol_text(n.id))))
}

pub open spec fn sp_load_num(s: EngV, n: GraphNode) -> EngV {
    with_regs(s, put_reg(s.regs, n.output_regs@[0] as int, ValueV::Num(n.id as i64)))
}

/// A move: the value of the input register copied to the output register.
pub open spec fn sp_move(s: EngV, n: GraphNode) -> (Result<(), EngErr>, EngV) {
    let src = n.input_regs@[0] as int;
    let dest = n.output_regs@[0] as int;
    if src >= s.regs.len() || dest >= s.regs.len() {
        (Err(EngErr::MissingRegisterValue(n.input_regs@[0])), s)
    } else {
        match s.regs[src] {
            Some(v) => (Ok(()), with_regs(s, s.regs.update(dest, Some(v)))),
            None => (Err(EngErr::MissingRegisterValue(n.input_regs@[0])), s),
        }
    }
}

/// A comparison of the two input registers, its outcome written to the
/// output register; `false` for flags that select no comparison.
pub open spec fn sp_compare(s: EngV, n: GraphNode) -> (Result<(), EngErr>, EngV) {
    let a = n.input_regs@[0] as int;
    let b = n.input_regs@[1] as int;
    if a >= s.regs.len() || b >= s.regs.len() {
        (Err(EngErr::MissingRegisterValue(n.input_regs@[0])), s)
    } else {
        match (s.regs[a], s.regs[b]) {
            (Some(va), Some(vb)) => {
                let outcome: Result<bool, EngErr> = match comparator_of(n.flags) {
                    Some(op) => match compared(va, vb, op) {
                        Some(x) => Ok(x),
                        None => Err(EngErr::InvalidComparison(op, va, vb)),
                    },
                    None => Ok(false),
                };
                match outcome {
                    Ok(x) => (Ok(()), with_regs(s, put_reg(s.regs, n.output_regs@[0] as int, ValueV::Bool(x)))),
                    Err(e) => (Err(e), s),
                }
            },
            _ => (Err(EngErr::MissingRegisterValue(n.input_regs@[0])), s),
        }
    }
}

/// An operation node: loads, moves and comparisons; other opcodes do nothing.
pub open spec fn sp_op(s: EngV, n: GraphNode) -> (Result<(), EngErr>, EngV) {
    if n.opcode == OP_LOAD_SYM {
        (Ok(()), sp_load_sym(s, n))
    } else if n.opcode == OP_LOAD_NUM {
        (Ok(()), sp_load_num(s, n))
    } else if n.opcode == OP_MOVE {
        sp_move(s, n)
    } else if n.opcode == OP_COMPARE {
        sp_compare(s, n)
    } else {
        (Ok(()), s)
    }
}

/// The nodes a control node hands on to: for a conditional jump, its
/// successors when its condition register holds a truth value, none
/// otherwise; for any other control node, its successors.
pub open spec fn control_followers(s: EngV, n: GraphNode, edges: Seq<GraphEdge>) -> Seq<u32> {
    if n.opcode == CTRL_JMP_IF {
        match reg_at(s.regs, n.input_regs@[0] as int) {
            Some(ValueV::Bool(_)) => successors(edges, n.id),
            _ => Seq::empty(),
        }
    } else {
        successors(edges, n.id)
    }
}

/// A control node: a jump queues the node its register names, a conditional
/// jump does so when its condition holds, a halt empties the queue; then the
/// followers are queued (twice over for an unknown opcode, to no further effect).
pub open spec fn sp_control(s: EngV, n: GraphNode, edges: Seq<GraphEdge>) -> EngV {
    let q1 = if n.opcode == CTRL_JMP {
        if n.input_regs@.len() > 0 {
            match reg_at(s.regs, n.input_regs@[0] as int) {
                Some(ValueV::Num(t)) => enqueue(s.queue, t as u32),
                _ => s.queue,
            }
        } else {
            s.queue
        }
    } else if n.opcode == CTRL_JMP_IF {
        if n.input_regs@.len() >= 2 {
            match (reg_at(s.regs, n.input_regs@[0] as int), reg_at(s.regs, n.input_regs@[1] as int)) {
                (Some(ValueV::Bool(c)), Some(ValueV::Num(t))) => if c { enqueue(s.queue, t as u32) } else { s.queue },
                _ => s.queue,
            }
        } else {
            s.queue
        }
    } else if n.opcode == CTRL_HALT {
        Seq::empty()
    } else if n.opcode == 0 {
        s.queue
    } else {
        enqueue_all(s.queue, control_followers(s, n, edges))
    };
    with_queue(s, enqueue_all(q1, control_followers(s, n, edges)))
}

/// A loop node: its counter register starts at 0; while the counter is
/// below the limit the control successors are queued and the counter goes
/// up by one, once it reaches the limit they are queued alone.
pub open spec fn sp_loop(s: EngV, n: GraphNode, edges: Seq<GraphEdge>) -> EngV {
    let c = n.input_regs@[0] as int;
    let l = n.input_regs@[1] as int;
    let regs1 = if c < s.regs.len() && s.regs[c] is None { s.regs.update(c, Some(ValueV::Num(0))) } else { s.regs };
    if c < s.regs.len() && l < s.regs.len() {
        match (regs1[c], regs1[l]) {
            (Some(ValueV::Num(counter)), Some(ValueV::Num(limit))) => {
                let q = enqueue_all(s.queue, successors_of_kind(edges, n.id, EdgeType::Control));
                if counter < limit {
                    EngV { regs: regs1.update(c, Some(ValueV::Num((counter + 1) as i64))), queue: q, prios: s.prios, path: s.path }
                } else {
                    EngV { regs: regs1, queue: q, prios: s.prios, path: s.path }
                }
            },
            _ => with_regs(s, regs1),
        }
    } else {
        with_regs(s, regs1)
    }
}

/// The frames a path leaves for rules of the graph: for each node, how many
/// more frames of its id the depth allows.
pub open spec fn room(nodes: Seq<GraphNode>, path: Seq<u32>, d: u32) -> nat
    decreases nodes.len(),
{
    if nodes.len() == 0 {
        0
    } else {
        let c = path.to_multiset().count(nodes.last().id);
        room(nodes.drop_last(), path, d) + (if c < d { (d - c) as nat } else { 0 })
    }
}

/// Another frame never adds room, and a frame of a node's id that the depth
/// allows takes some.
pub proof fn lemma_room_push(nodes: Seq<GraphNode>, path: Seq<u32>, d: u32, x: u32)
    ensures
        room(nodes, path.push(x), d) <= room(nodes, path, d),
        (exists|k: int| 0 <= k < nodes.len() && nodes[k].id == x) && path.to_multiset().count(x) < d
            ==> room(nodes, path.push(x), d) < room(nodes, path, d),
    decreases nodes.len(),
{
    if nodes.len() > 0 {
        lemma_room_push(nodes.drop_last(), path, d, x);
        assert(path.push(x).to_multiset() == path.to_multiset().insert(x));
        if (exists|k: int| 0 <= k < nodes.len() && nodes[k].id == x) && path.to_multiset().count(x) < d {
            let k = choose|k: int| 0 <= k < nodes.len() && nodes[k].id == x;
            if k < nodes.len() - 1 {
                assert(nodes.drop_last()[k] == nodes[k]);
            }
        }
    }
}

/// The path without its last frame of `x`.
pub open spec fn drop_last_of(p: Seq<u32>, x: u32) -> Seq<u32>
    decreases p.len(),
{
    if p.len() == 0 {
        p
    } else if p.last() == x {
        p.drop_last()
    } else {
        drop_last_of(p.drop_last(), x).push(p.last())
    }
}

pub proof fn lemma_drop_last_of(p: Seq<u32>, x: u32, k: int)
    requires
        0 <= k < p.len(),
        p[k] == x,
        forall|q: int| k < q < p.len() ==> p[q] != x,
    ensures
        drop_last_of(p, x) == p.remove(k),
    decreases p.len(),
{
    if k < p.len() - 1 {
        lemma_drop_last_of(p.drop_last(), x, k);
        assert(p.remove(k) =~= p.drop_last().remove(k).push(p.last()));
    } else {
        assert(p.remove(k) =~= p.drop_last());
    }
}

/// The priorities with one more activation of `id`, where it has a record
/// whose count can grow.
pub open spec fn bumped(prios: Map<u32, RulePriority>, id: u32) -> Map<u32, RulePriority> {
    if prios.contains_key(id) && prios[id].activation_count < u32::MAX {
        prios.insert(id, RulePriority { activation_count: (prios[id].activation_count + 1) as u32, ..prios[id] })
    } else {
        prios
    }
}

/// Whether a node is a comparison operation.
pub open spec fn is_comparison(n: GraphNode) -> bool {
    n.node_type == GraphNodeType::Op && n.opcode == OP_COMPARE
}

/// A rule's condition: its data successors that are comparisons, taken in
/// edge order from edge `i` on, each run in turn until one writes `true`.
pub open spec fn sp_condition(s: EngV, g: ExecutionGraph, id: u32, i: int) -> (Result<bool, EngErr>, EngV)
    decreases g.edges@.len() - i,
{
    if i < 0 || i >= g.edges@.len() {
        (Ok(false), s)
    } else {
        let e = g.edges@[i];
        if e.from_node == id && e.edge_type == EdgeType::Data {
            match node_index(g.nodes@, e.to_node) {
                Some(j) if is_comparison(g.nodes@[j]) => {
                    let n = g.nodes@[j];
                    let r = sp_compare(s, n);
                    match r.0 {
                        Err(err) => (Err(err), r.1),
                        Ok(_) => if reg_at(r.1.regs, n.output_regs@[0] as int) == Some(ValueV::Bool(true)) {
                            (Ok(true), r.1)
                        } else {
                            sp_condition(r.1, g, id, i + 1)
                        },
                    }
                },
                _ => sp_condition(s, g, id, i + 1),
            }
        } else {
            sp_condition(s, g, id, i + 1)
        }
    }
}

/// Running node `n` of the graph, with recursion depth `d`.
pub open spec fn sp_node(s: EngV, g: ExecutionGraph, n: GraphNode, d: u32) -> (Result<(), EngErr>, EngV)
    decreases room(g.nodes@, s.path, d), 1int, 0int,
{
    if !g.nodes@.contains(n) {
        (Ok(()), s)
    } else {
        match n.node_type {
            GraphNodeType::Op => sp_op(s, n),
            GraphNodeType::Rule => sp_rule(s, g, n, d),
            GraphNodeType::Control => (Ok(()), sp_control(s, n, g.edges@)),
            GraphNodeType::Graph => (Ok(()), s),
            GraphNodeType::Io => (Ok(()), s),
        }
    }
}

/// Running rule node `n`: refused past the recursion depth; otherwise a frame
/// goes on the path, the activation is counted, the condition is evaluated
/// and, when it holds, the actions run; then the successors are queued and
/// the frame leaves the path.
pub open spec fn sp_rule(s: EngV, g: ExecutionGraph, n: GraphNode, d: u32) -> (Result<(), EngErr>, EngV)
    decreases room(g.nodes@, s.path, d), 0int, 0int,
{
    if !g.nodes@.contains(n) {
        (Ok(()), s)
    } else {
        let id = n.id;
        if s.path.to_multiset().count(id) >= d {
            (Err(EngErr::ExecutionLimitExceeded), s)
        } else {
            let s1 = EngV { regs: s.regs, queue: s.queue, prios: bumped(s.prios, id), path: s.path.push(id) };
            let c = sp_condition(s1, g, id, 0);
            match c.0 {
                Err(e) => (Err(e), c.1),
                Ok(holds) => {
                    proof {
                        lemma_room_push(g.nodes@, s.path, d, id);
                    }
                    let a = if holds && c.1.path == s1.path { sp_actions(c.1, g, id, d, 0) } else { (Ok(()), c.1) };
                    match a.0 {
                        Err(e) => (Err(e), a.1),
                        Ok(_) => (Ok(()), EngV {
                            regs: a.1.regs,
                            queue: enqueue_all(a.1.queue, successors(g.edges@, id)),
                            prios: a.1.prios,
                            path: drop_last_of(a.1.path, id),
                        }),
                    }
                },
            }
        }
    }
}

/// A rule's actions: its data successors that are not comparisons, taken in
/// edge order from edge `i` on, each run in turn until one fails.
pub open spec fn sp_actions(s: EngV, g: ExecutionGraph, id: u32, d: u32, i: int) -> (Result<(), EngErr>, EngV)
    decreases room(g.nodes@, s.path, d), 2int, g.edges@.len() - i,
{
    if i < 0 || i >= g.edges@.len() {
        (Ok(()), s)
    } else {
        let e = g.edges@[i];
        if e.from_node == id && e.edge_type == EdgeType::Data {
            match node_index(g.nodes@, e.to_node) {
                Some(j) if !is_comparison(g.nodes@[j]) => {
                    let r = sp_node(s, g, g.nodes@[j], d);
                    match r.0 {
                        Err(err) => (Err(err), r.1),
                        Ok(_) => if r.1.path == s.path {
                            sp_actions(r.1, g, id, d, i + 1)
                        } else {
                            (Ok(()), r.1)
                        },
                    }
                },
                _ => sp_actions(s, g, id, d, i + 1),
            }
        } else {
            sp_actions(s, g, id, d, i + 1)
        }
    }
}

/// The indices of a rule's actions, from edge `i` on: the first nodes named
/// by its data edges, comparisons left out.
pub open spec fn action_indices(g: ExecutionGraph, id: u32, i: int) -> Seq<int>
    decreases g.edges@.len() - i,
{
    if i < 0 || i >= g.edges@.len() {
        Seq::empty()
    } else {
        let e = g.edges@[i];
        let rest = action_indices(g, id, i + 1);
        if e.from_node == id && e.edge_type == EdgeType::Data {
            match node_index(g.nodes@, e.to_node) {
                Some(j) => if !is_comparison(g.nodes@[j]) { seq![j] + rest } else { rest },
                None => rest,
            }
        } else {
            rest
        }
    }
}

/// Whether one of a rule's actions is a move.
pub open spec fn has_move(g: ExecutionGraph, id: u32) -> bool {
    exists|k: int| 0 <= k < action_indices(g, id, 0).len() && #[trigger] g.nodes@[action_indices(g, id, 0)[k]].opcode == OP_MOVE
}

/// The ids of the rule nodes, in order.
pub open spec fn rule_ids(nodes: Seq<GraphNode>) -> Seq<u32>
    decreases nodes.len(),
{
    if nodes.len() == 0 {
        Seq::empty()
    } else if nodes.last().node_type == GraphNodeType::Rule {
        rule_ids(nodes.drop_last()).push(nodes.last().id)
    } else {
        rule_ids(nodes.drop_last())
    }
}

/// The conflicting pairs of rule `rs[i]` with the rules from `rs[j]` on.
pub open spec fn conflict_row(g: ExecutionGraph, rs: Seq<u32>, i: int, j: int) -> Seq<(u32, u32)>
    decreases rs.len() - j,
{
    if j < 0 || j >= rs.len() {
        Seq::empty()
    } else if has_move(g, rs[i]) && has_move(g, rs[j]) {
        seq![(rs[i], rs[j])] + conflict_row(g, rs, i, j + 1)
    } else {
        conflict_row(g, rs, i, j + 1)
    }
}

/// The conflicting pairs among the rules from `rs[i]` on, each rule with
/// those after it.
pub open spec fn conflict_rows(g: ExecutionGraph, rs: Seq<u32>, i: int) -> Seq<(u32, u32)>
    decreases rs.len() - i,
{
    if i < 0 || i >= rs.len() {
        Seq::empty()
    } else {
        conflict_row(g, rs, i, i + 1) + conflict_rows(g, rs, i + 1)
    }
}

/// The pairs of rules of the graph whose actions conflict: both have a move.
pub open spec fn conflict_pairs(g: ExecutionGraph) -> Seq<(u32, u32)> {
    conflict_rows(g, rule_ids(g.nodes@), 0)
}

pub open spec fn conflict_text(a: u32, b: u32) -> Seq<char> {
    "Rules "@ + decimal(a as nat) + " and "@ + decimal(b as nat) + " have conflicting actions"@
}

/// The value a node stands for: for an operation, the value of its first
/// nonzero output register that holds one, else `op_<opcode>_<id>`; for the
/// other kinds, `rule_<id>`, `control_<id>`, `graph_<id>` or `io_<id>`.
pub open spec fn node_value(regs: Seq<Option<ValueV>>, n: GraphNode) -> ValueV {
    match n.node_type {
        GraphNodeType::Op => match first_output(regs, n.output_regs@, 0) {
            Some(v) => v,
            None => ValueV::Sym("op_"@ + decimal(n.opcode as nat) + "_"@ + decimal(n.id as nat)),
        },
        GraphNodeType::Rule => ValueV::Sym("rule_"@ + decimal(n.id as nat)),
        GraphNodeType::Control => ValueV::Sym("control_"@ + decimal(n.id as nat)),
        GraphNodeType::Graph => ValueV::Sym("graph_"@ + decimal(n.id as nat)),
        GraphNodeType::Io => ValueV::Sym("io_"@ + decimal(n.id as nat)),
    }
}

/// The value of the first register from `outs[i]` on that is not register 0
/// and holds one.
pub open spec fn first_output(regs: Seq<Option<ValueV>>, outs: Seq<u16>, i: int) -> Option<ValueV>
    decreases outs.len() - i,
{
    if i < 0 || i >= outs.len() {
        None
    } else if outs[i] != 0 && reg_at(regs, outs[i] as int) is Some {
        reg_at(regs, outs[i] as int)
    } else {
        first_output(regs, outs, i + 1)
    }
}

/// Every input register a node names (register 0 names none) holds a value.
pub open spec fn inputs_available(regs: Seq<Option<ValueV>>, n: GraphNode) -> bool {
    forall|k: int| 0 <= k < n.input_regs@.len() ==> #[trigger] n.input_regs@[k] == 0
        || (n.input_regs@[k] < regs.len() && regs[n.input_regs@[k] as int] is Some)
}

/// Whether some node has id `id` and is a rule.
pub open spec fn is_rule_node(g: ExecutionGraph, id: u32) -> bool {
    exists|k: int| 0 <= k < g.nodes@.len() && g.nodes@[k].id == id && g.nodes@[k].node_type == GraphNodeType::Rule
}

} // verus!
