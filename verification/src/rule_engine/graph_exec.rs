//! Running an execution graph: node operations, rules with their conditions
//! and actions, control nodes, and the scheduling loop.
use vstd::prelude::*;
use crate::rule_engine::engine::RuleEngine;
use crate::rule_engine::graph::{
    CTRL_HALT, CTRL_JMP, CTRL_JMP_IF, EdgeType, EngErr, EngV, ExecutionGraph, GraphEdge, GraphNode, GraphNodeType,
    OP_COMPARE, OP_LOAD_NUM, OP_LOAD_SYM, OP_MOVE, compared, control_followers, enqueue, enqueue_all, eng_err,
    node_index, node_index_from, lemma_node_index_from, node_regs_ok, res_v, sp_compare, sp_control, sp_load_num,
    sp_load_sym, sp_loop, sp_move, sp_op, successors, successors_of_kind, symbol_text, with_queue, with_regs,
    room, sp_condition, sp_actions, sp_rule, sp_node, action_indices, has_move, rule_ids, conflict_row, conflict_rows,
    conflict_pairs, conflict_text, node_value, first_output, inputs_available, is_rule_node,
};
use crate::rule_engine::engine::{ConflictType, RuleConflict, last_conflict_code, rank_order};
use crate::rule_engine::types::{Pattern, PatternMatch, PriorityStrategy, RulePriority, RuleExecutionInfo, binding_view};
use crate::sorting::in_rank_order;
use crate::rule_engine::value_match::{Bindings, match_value};
use crate::rule_engine::graph::reg_at;
use crate::text::decimal;
use crate::rule_engine::types::{Comparator, RuleEngineError, Value, ValueV, register_view};
use crate::text::{join2, join3, str_eq, u64_to_decimal};

verus! {

broadcast use vstd::seq_lib::group_to_multiset_ensures;

/// The index of the first node with id `id`.
pub fn find_node(graph: &ExecutionGraph, id: u32) -> (r: Option<usize>)
    ensures
        match r {
            Some(k) => node_index(graph.nodes@, id) == Some(k as int) && k < graph.nodes@.len() && graph.nodes@[k as int].id == id,
            None => node_index(graph.nodes@, id) is None,
        },
{
    proof {
        lemma_node_index_from(graph.nodes@, id, 0);
    }
    let mut i: usize = 0;
    while i < graph.nodes.len()
        invariant
            i <= graph.nodes@.len(),
            node_index(graph.nodes@, id) == node_index_from(graph.nodes@, id, i as int),
        decreases graph.nodes@.len() - i,
    {
        if graph.nodes[i].id == id {
            return Some(i);
        }
        i += 1;
    }
    None
}

/// The targets of the edges leaving `from`, of kind `kind` or of any kind.
pub open spec fn chosen(es: Seq<GraphEdge>, from: u32, kind: Option<EdgeType>) -> Seq<u32> {
    match kind {
        Some(t) => successors_of_kind(es, from, t),
        None => successors(es, from),
    }
}

impl RuleEngine {
    /// What node runs touch.
    pub open spec fn ev(&self) -> EngV {
        EngV {
            regs: self.context.registers@.map_values(|r: Option<Value>| register_view(r)),
            queue: self.priority_queue@,
            prios: self.rule_priorities@,
            path: self.execution_path@,
        }
    }

    /// Everything node runs leave alone is the same in `o`.
    pub open spec fn frame_kept(&self, o: &Self) -> bool {
        &&& o.context.variables == self.context.variables
        &&& o.context.facts == self.context.facts
        &&& o.context.rule_results == self.context.rule_results
        &&& o.context.current_node_id == self.context.current_node_id
        &&& o.priority_strategy == self.priority_strategy
        &&& o.max_recursion_depth == self.max_recursion_depth
        &&& o.step_count == self.step_count
        &&& o.max_steps == self.max_steps
        &&& o.activation_records == self.activation_records
    }

    fn put_register(&mut self, r: usize, v: Value)
        requires
            old(self).wf(),
            r < old(self).context.registers@.len(),
        ensures
            final(self).wf(),
            old(self).frame_kept(final(self)),
            final(self).ev() == with_regs(old(self).ev(), old(self).ev().regs.update(r as int, Some(v@))),
            final(self).rule_execution_counts == old(self).rule_execution_counts,
    {
        let ghost vv = v@;
        self.context.registers.set(r, Some(v));
        assert(self.ev().regs =~= old(self).ev().regs.update(r as int, Some(vv)));
    }

    /// Queues a node unless it is queued.
    fn enqueue_node(&mut self, x: u32)
        requires
            old(self).wf(),
        ensures
            final(self).wf(),
            old(self).frame_kept(final(self)),
            final(self).ev() == with_queue(old(self).ev(), enqueue(old(self).priority_queue@, x)),
            final(self).rule_execution_counts == old(self).rule_execution_counts,
    {
        let mut i: usize = 0;
        while i < self.priority_queue.len()
            invariant
                *self == *old(self),
                self.wf(),
                i <= self.priority_queue@.len(),
                forall|j: int| 0 <= j < i ==> self.priority_queue@[j] != x,
            decreases self.priority_queue@.len() - i,
        {
            if self.priority_queue[i] == x {
                assert(self.priority_queue@.contains(x));
                return;
            }
            i += 1;
        }
        self.priority_queue.push(x);
    }

    /// Queues the targets of the edges leaving `from`, of kind `kind` or of
    /// any kind.
    fn enqueue_successors(&mut self, edges: &Vec<GraphEdge>, from: u32, kind: Option<EdgeType>)
        requires
            old(self).wf(),
        ensures
            final(self).wf(),
            old(self).frame_kept(final(self)),
            final(self).rule_execution_counts == old(self).rule_execution_counts,
            final(self).ev() == with_queue(old(self).ev(), enqueue_all(old(self).priority_queue@, chosen(edges@, from, kind))),
    {
        let ghost q0 = self.priority_queue@;
        let mut i: usize = 0;
        assert(edges@.subrange(0, 0) =~= Seq::<GraphEdge>::empty());
        while i < edges.len()
            invariant
                i <= edges@.len(),
                self.wf(),
                old(self).frame_kept(self),
                self.rule_execution_counts == old(self).rule_execution_counts,
                self.ev() == with_queue(old(self).ev(), enqueue_all(q0, chosen(edges@.subrange(0, i as int), from, kind))),
                q0 == old(self).priority_queue@,
            decreases edges@.len() - i,
        {
            let e = edges[i];
            let ghost pre = edges@.subrange(0, i as int);
            assert(edges@.subrange(0, i + 1).drop_last() =~= pre);
            let wanted = match kind {
                Some(t) => e.from_node == from && e.edge_type == t,
                None => e.from_node == from,
            };
            let ghost xs = chosen(pre, from, kind);
            if wanted {
                assert(xs.push(e.to_node).drop_last() =~= xs);
                assert(chosen(edges@.subrange(0, i + 1), from, kind) == xs.push(e.to_node));
                self.enqueue_node(e.to_node);
            } else {
                assert(chosen(edges@.subrange(0, i + 1), from, kind) == xs);
            }
            i += 1;
        }
        assert(edges@.subrange(0, edges@.len() as int) =~= edges@);
    }

    /// Compares two values: numbers in every way, symbols and truth values
    /// for equality only.
    fn compare_values(&self, val_a: &Value, val_b: &Value, op: &Comparator) -> (r: Result<bool, RuleEngineError>)
        ensures
            match r {
                Ok(x) => compared(val_a@, val_b@, *op) == Some(x),
                Err(e) => compared(val_a@, val_b@, *op) is None && eng_err(e) == EngErr::InvalidComparison(*op, val_a@, val_b@),
            },
    {
        match (val_a, val_b) {
            (Value::Num(a), Value::Num(b)) => Ok(
                match op {
                    Comparator::Equal => *a == *b,
                    Comparator::NotEqual => *a != *b,
                    Comparator::Greater => *a > *b,
                    Comparator::Less => *a < *b,
                    Comparator::GreaterEqual => *a >= *b,
                    Comparator::LessEqual => *a <= *b,
                },
            ),
            (Value::Sym(a), Value::Sym(b)) => match op {
                Comparator::Equal => Ok(str_eq(a.as_str(), b.as_str())),
                Comparator::NotEqual => Ok(!str_eq(a.as_str(), b.as_str())),
                _ => Err(RuleEngineError::InvalidComparison(*op, val_a.clone(), val_b.clone())),
            },
            (Value::Bool(a), Value::Bool(b)) => match op {
                Comparator::Equal => Ok(*a == *b),
                Comparator::NotEqual => Ok(*a != *b),
                _ => Err(RuleEngineError::InvalidComparison(*op, val_a.clone(), val_b.clone())),
            },
            _ => Err(RuleEngineError::InvalidComparison(*op, val_a.clone(), val_b.clone())),
        }
    }

    fn execute_load_sym(&mut self, node: &GraphNode) -> (r: Result<(), RuleEngineError>)
        requires
            old(self).wf(),
            node.output_regs@.len() >= 1,
        ensures
            final(self).wf(),
            old(self).frame_kept(final(self)),
            final(self).rule_execution_counts == old(self).rule_execution_counts,
            r is Ok,
            final(self).ev() == sp_load_sym(old(self).ev(), *node),
    {
        let dest_reg = node.output_regs[0] as usize;
        if dest_reg < self.context.registers.len() {
            let d = u64_to_decimal(node.id as u64);
            let text = join2("symbol_", d.as_str());
            assert(text@ == symbol_text(node.id));
            self.put_register(dest_reg, Value::Sym(text));
        }
        Ok(())
    }

    fn execute_load_num(&mut self, node: &GraphNode) -> (r: Result<(), RuleEngineError>)
        requires
            old(self).wf(),
            node.output_regs@.len() >= 1,
        ensures
            final(self).wf(),
            old(self).frame_kept(final(self)),
            final(self).rule_execution_counts == old(self).rule_execution_counts,
            r is Ok,
            final(self).ev() == sp_load_num(old(self).ev(), *node),
    {
        let dest_reg = node.output_regs[0] as usize;
        if dest_reg < self.context.registers.len() {
            self.put_register(dest_reg, Value::Num(node.id as i64));
        }
        Ok(())
    }

    fn execute_move(&mut self, node: &GraphNode) -> (r: Result<(), RuleEngineError>)
        requires
            old(self).wf(),
            node.input_regs@.len() >= 1,
            node.output_regs@.len() >= 1,
        ensures
            final(self).wf(),
            old(self).frame_kept(final(self)),
            final(self).rule_execution_counts == old(self).rule_execution_counts,
            res_v(r) == sp_move(old(self).ev(), *node).0,
            final(self).ev() == sp_move(old(self).ev(), *node).1,
    {
        let src_reg = node.input_regs[0] as usize;
        let dest_reg = node.output_regs[0] as usize;
        if src_reg >= self.context.registers.len() || dest_reg >= self.context.registers.len() {
            return Err(RuleEngineError::MissingRegisterValue(node.input_regs[0]));
        }
        let value = match &self.context.registers[src_reg] {
            Some(v) => v.clone(),
            None => return Err(RuleEngineError::MissingRegisterValue(node.input_regs[0])),
        };
        self.put_register(dest_reg, value);
        Ok(())
    }

    fn execute_compare(&mut self, node: &GraphNode) -> (r: Result<(), RuleEngineError>)
        requires
            old(self).wf(),
            node.input_regs@.len() >= 2,
            node.output_regs@.len() >= 1,
        ensures
            final(self).wf(),
            old(self).frame_kept(final(self)),
            final(self).rule_execution_counts == old(self).rule_execution_counts,
            res_v(r) == sp_compare(old(self).ev(), *node).0,
            final(self).ev() == sp_compare(old(self).ev(), *node).1,
    {
        let reg_a = node.input_regs[0] as usize;
        let reg_b = node.input_regs[1] as usize;
        if reg_a >= self.context.registers.len() || reg_b >= self.context.registers.len() {
            return Err(RuleEngineError::MissingRegisterValue(node.input_regs[0]));
        }
        let result = match (&self.context.registers[reg_a], &self.context.registers[reg_b]) {
            (Some(val_a), Some(val_b)) => {
                let outcome = if node.flags == 0 {
                    self.compare_values(val_a, val_b, &Comparator::Equal)
                } else if node.flags == 1 {
                    self.compare_values(val_a, val_b, &Comparator::NotEqual)
                } else if node.flags == 2 {
                    self.compare_values(val_a, val_b, &Comparator::Greater)
                } else if node.flags == 3 {
                    self.compare_values(val_a, val_b, &Comparator::Less)
                } else if node.flags == 4 {
                    self.compare_values(val_a, val_b, &Comparator::GreaterEqual)
                } else if node.flags == 5 {
                    self.compare_values(val_a, val_b, &Comparator::LessEqual)
                } else {
                    Ok(false)
                };
                match outcome {
                    Ok(x) => x,
                    Err(e) => return Err(e),
                }
            },
            _ => return Err(RuleEngineError::MissingRegisterValue(node.input_regs[0])),
        };
        let result_reg = node.output_regs[0] as usize;
        if result_reg < self.context.registers.len() {
            self.put_register(result_reg, Value::Bool(result));
        }
        Ok(())
    }

    fn execute_op_node(&mut self, node: &GraphNode) -> (r: Result<(), RuleEngineError>)
        requires
            old(self).wf(),
            node.node_type == GraphNodeType::Op,
            node_regs_ok(*node),
        ensures
            final(self).wf(),
            old(self).frame_kept(final(self)),
            final(self).rule_execution_counts == old(self).rule_execution_counts,
            res_v(r) == sp_op(old(self).ev(), *node).0,
            final(self).ev() == sp_op(old(self).ev(), *node).1,
    {
        if node.opcode == OP_LOAD_SYM {
            self.execute_load_sym(node)
        } else if node.opcode == OP_LOAD_NUM {
            self.execute_load_num(node)
        } else if node.opcode == OP_MOVE {
            self.execute_move(node)
        } else if node.opcode == OP_COMPARE {
            self.execute_compare(node)
        } else {
            Ok(())
        }
    }

    /// Queues the nodes a control node hands on to.
    fn add_connected_control_nodes(&mut self, node: &GraphNode, graph: &ExecutionGraph) -> (r: Result<(), RuleEngineError>)
        requires
            old(self).wf(),
            node.opcode == CTRL_JMP_IF ==> node.input_regs@.len() >= 1,
        ensures
            final(self).wf(),
            old(self).frame_kept(final(self)),
            final(self).rule_execution_counts == old(self).rule_execution_counts,
            r is Ok,
            final(self).ev() == with_queue(old(self).ev(), enqueue_all(old(self).priority_queue@, control_followers(old(self).ev(), *node, graph.edges@))),
    {
        if node.opcode == CTRL_JMP_IF {
            let condition_reg = node.input_regs[0] as usize;
            if condition_reg < self.context.registers.len() {
                let holds = match &self.context.registers[condition_reg] {
                    Some(Value::Bool(_)) => true,
                    _ => false,
                };
                if holds {
                    self.enqueue_successors(&graph.edges, node.id, None);
                }
            }
        } else {
            self.enqueue_successors(&graph.edges, node.id, None);
        }
        Ok(())
    }

    fn execute_control_node(&mut self, node: &GraphNode, graph: &ExecutionGraph) -> (r: Result<(), RuleEngineError>)
        requires
            old(self).wf(),
            node.opcode == CTRL_JMP_IF ==> node.input_regs@.len() >= 1,
        ensures
            final(self).wf(),
            old(self).frame_kept(final(self)),
            final(self).rule_execution_counts == old(self).rule_execution_counts,
            r is Ok,
            final(self).ev() == sp_control(old(self).ev(), *node, graph.edges@),
    {
        if node.opcode == CTRL_JMP {
            if node.input_regs.len() > 0 {
                let target_reg = node.input_regs[0] as usize;
                if target_reg < self.context.registers.len() {
                    let target = match &self.context.registers[target_reg] {
                        Some(Value::Num(target_id)) => Some(*target_id as u32),
                        _ => None,
                    };
                    match target {
                        Some(t) => self.enqueue_node(t),
                        None => {},
                    }
                }
            }
        } else if node.opcode == CTRL_JMP_IF {
            if node.input_regs.len() >= 2 {
                let condition_reg = node.input_regs[0] as usize;
                let target_reg = node.input_regs[1] as usize;
                if condition_reg < self.context.registers.len() && target_reg < self.context.registers.len() {
                    let target = match (&self.context.registers[condition_reg], &self.context.registers[target_reg]) {
                        (Some(Value::Bool(condition)), Some(Value::Num(target_id))) => if *condition {
                            Some(*target_id as u32)
                        } else {
                            None
                        },
                        _ => None,
                    };
                    match target {
                        Some(t) => self.enqueue_node(t),
                        None => {},
                    }
                }
            }
        } else if node.opcode == CTRL_HALT {
            self.priority_queue.clear();
        } else if node.opcode != 0 {
            self.add_connected_control_nodes(node, graph);
        }
        let ghost mid = self.ev();
        assert(mid.regs == old(self).ev().regs);
        self.add_connected_control_nodes(node, graph);
        Ok(())
    }

    /// A loop node: see `sp_loop`.
    fn execute_loop_node(&mut self, node: &GraphNode, graph: &ExecutionGraph) -> (r: Result<(), RuleEngineError>)
        requires
            old(self).wf(),
            node.input_regs@.len() >= 2,
        ensures
            final(self).wf(),
            old(self).frame_kept(final(self)),
            final(self).rule_execution_counts == old(self).rule_execution_counts,
            r is Ok,
            final(self).ev() == sp_loop(old(self).ev(), *node, graph.edges@),
    {
        let counter_reg = node.input_regs[0] as usize;
        let limit_reg = node.input_regs[1] as usize;
        if counter_reg < self.context.registers.len() {
            if self.context.registers[counter_reg].is_none() {
                self.put_register(counter_reg, Value::Num(0));
            }
        }
        if counter_reg < self.context.registers.len() && limit_reg < self.context.registers.len() {
            let state = match (&self.context.registers[counter_reg], &self.context.registers[limit_reg]) {
                (Some(Value::Num(counter)), Some(Value::Num(limit))) => Some((*counter, *limit)),
                _ => None,
            };
            match state {
                Some((counter, limit)) => {
                    self.enqueue_successors(&graph.edges, node.id, Some(EdgeType::Control));
                    if counter < limit {
                        self.put_register(counter_reg, Value::Num(counter + 1));
                    }
                },
                None => {},
            }
        }
        Ok(())
    }

    fn execute_graph_node(&mut self, _node: &GraphNode) -> (r: Result<(), RuleEngineError>)
        ensures
            r is Ok,
            *final(self) == *old(self),
    {
        Ok(())
    }

    fn execute_io_node(&mut self, _node: &GraphNode) -> (r: Result<(), RuleEngineError>)
        ensures
            r is Ok,
            *final(self) == *old(self),
    {
        Ok(())
    }
}

/// What a boolean outcome says.
pub open spec fn res_bool_v(r: Result<bool, RuleEngineError>) -> Result<bool, EngErr> {
    match r {
        Ok(b) => Ok(b),
        Err(e) => Err(eng_err(e)),
    }
}

impl RuleEngine {
    /// Evaluates a rule's condition: see `sp_condition`.
    fn evaluate_rule_condition(&mut self, rule_node: &GraphNode, graph: &ExecutionGraph) -> (r: Result<bool, RuleEngineError>)
        requires
            old(self).wf(),
            graph.regs_ok(),
        ensures
            final(self).wf(),
            old(self).frame_kept(final(self)),
            final(self).rule_execution_counts == old(self).rule_execution_counts,
            res_bool_v(r) == sp_condition(old(self).ev(), *graph, rule_node.id, 0).0,
            final(self).ev() == sp_condition(old(self).ev(), *graph, rule_node.id, 0).1,
            final(self).execution_path@ == old(self).execution_path@,
            final(self).priority_queue@ == old(self).priority_queue@,
            final(self).rule_priorities@ == old(self).rule_priorities@,
    {
        let id = rule_node.id;
        let mut i: usize = 0;
        while i < graph.edges.len()
            invariant
                graph.regs_ok(),
                i <= graph.edges@.len(),
                self.wf(),
                old(self).frame_kept(self),
                self.rule_execution_counts == old(self).rule_execution_counts,
                id == rule_node.id,
                sp_condition(old(self).ev(), *graph, id, 0) == sp_condition(self.ev(), *graph, id, i as int),
                self.execution_path@ == old(self).execution_path@,
                self.priority_queue@ == old(self).priority_queue@,
                self.rule_priorities@ == old(self).rule_priorities@,
            decreases graph.edges@.len() - i,
        {
            let ghost before = self.ev();
            let e = graph.edges[i];
            if e.from_node == id && e.edge_type == EdgeType::Data {
                match find_node(graph, e.to_node) {
                    Some(j) => {
                        let n = &graph.nodes[j];
                        if n.node_type == GraphNodeType::Op && n.opcode == OP_COMPARE {
                            assert(node_regs_ok(graph.nodes@[j as int]));
                            match self.execute_compare(n) {
                                Err(err) => {
                                    let ghost rr: Result<bool, RuleEngineError> = Err(err);
                                    assert(sp_condition(before, *graph, id, i as int).0 == res_bool_v(rr));
                                    assert(sp_condition(before, *graph, id, i as int).1 == self.ev());
                                    return Err(err);
                                },
                                Ok(()) => {},
                            }
                            let result_reg = n.output_regs[0] as usize;
                            if result_reg < self.context.registers.len() {
                                let holds = match &self.context.registers[result_reg] {
                                    Some(Value::Bool(b)) => *b,
                                    _ => false,
                                };
                                if holds {
                                    return Ok(true);
                                }
                            }
                        }
                    },
                    None => {},
                }
            }
            i += 1;
        }
        Ok(false)
    }

    /// Runs a rule's actions: see `sp_actions`.
    fn execute_rule_actions(&mut self, rule_node: &GraphNode, graph: &ExecutionGraph) -> (r: Result<(), RuleEngineError>)
        requires
            old(self).wf(),
            graph.regs_ok(),
        ensures
            final(self).wf(),
            old(self).frame_kept(final(self)),
            res_v(r) == sp_actions(old(self).ev(), *graph, rule_node.id, old(self).max_recursion_depth, 0).0,
            final(self).ev() == sp_actions(old(self).ev(), *graph, rule_node.id, old(self).max_recursion_depth, 0).1,
            r is Ok ==> final(self).execution_path@ == old(self).execution_path@,
        decreases room(graph.nodes@, old(self).execution_path@, old(self).max_recursion_depth), 2int, graph.edges@.len(),
    {
        let id = rule_node.id;
        let ghost d = self.max_recursion_depth;
        let mut i: usize = 0;
        while i < graph.edges.len()
            invariant
                graph.regs_ok(),
                i <= graph.edges@.len(),
                self.wf(),
                old(self).frame_kept(self),
                self.execution_path@ == old(self).execution_path@,
                d == old(self).max_recursion_depth,
                id == rule_node.id,
                sp_actions(old(self).ev(), *graph, id, d, 0) == sp_actions(self.ev(), *graph, id, d, i as int),
            decreases graph.edges@.len() - i,
        {
            let ghost before = self.ev();
            let e = graph.edges[i];
            if e.from_node == id && e.edge_type == EdgeType::Data {
                match find_node(graph, e.to_node) {
                    Some(j) => {
                        let n = &graph.nodes[j];
                        if !(n.node_type == GraphNodeType::Op && n.opcode == OP_COMPARE) {
                            assert(graph.nodes@.contains(graph.nodes@[j as int]));
                            match self.execute_node(n, graph) {
                                Err(err) => {
                                    let ghost rr: Result<(), RuleEngineError> = Err(err);
                                    assert(sp_actions(before, *graph, id, d, i as int).0 == res_v(rr));
                                    assert(sp_actions(before, *graph, id, d, i as int).1 == self.ev());
                                    return Err(err);
                                },
                                Ok(()) => {},
                            }
                        }
                    },
                    None => {},
                }
            }
            i += 1;
        }
        Ok(())
    }

    /// Runs a rule node: see `sp_rule`.
    fn execute_rule_node(&mut self, node: &GraphNode, graph: &ExecutionGraph) -> (r: Result<(), RuleEngineError>)
        requires
            old(self).wf(),
            graph.regs_ok(),
            graph.nodes@.contains(*node),
        ensures
            final(self).wf(),
            old(self).frame_kept(final(self)),
            res_v(r) == sp_rule(old(self).ev(), *graph, *node, old(self).max_recursion_depth).0,
            final(self).ev() == sp_rule(old(self).ev(), *graph, *node, old(self).max_recursion_depth).1,
            r is Ok ==> final(self).execution_path@ == old(self).execution_path@,
        decreases room(graph.nodes@, old(self).execution_path@, old(self).max_recursion_depth), 0int, 0int,
    {
        let id = node.id;
        let ghost s0 = self.ev();
        let ghost d = self.max_recursion_depth;
        match self.start_rule_execution(id) {
            Err(e) => {
                assert(s0.path.to_multiset().count(id) >= d);
                assert(self.ev() == s0);
                return Err(e);
            },
            Ok(()) => {},
        }
        let grows = match self.rule_priorities.get(id) {
            Some(rp) => rp.activation_count < u32::MAX,
            None => true,
        };
        if grows {
            self.increment_rule_activation(id);
        }
        let ghost s1 = self.ev();
        assert(s1.prios =~= crate::rule_engine::graph::bumped(s0.prios, id));
        let holds = match self.evaluate_rule_condition(node, graph) {
            Err(e) => return Err(e),
            Ok(b) => b,
        };
        let ghost p1 = self.execution_path@;
        if holds {
            proof {
                crate::rule_engine::graph::lemma_room_push(graph.nodes@, s0.path, d, id);
                let k = choose|k: int| 0 <= k < graph.nodes@.len() && graph.nodes@[k] == *node;
                assert(graph.nodes@[k].id == id);
            }
            match self.execute_rule_actions(node, graph) {
                Err(e) => return Err(e),
                Ok(()) => {},
            }
        }
        self.add_connected_nodes(node, graph);
        let ghost p2 = self.execution_path@;
        assert(p2 == s0.path.push(id));
        self.end_rule_execution(id);
        proof {
            assert(p2[p2.len() - 1] == id);
            let p = choose|p: int| 0 <= p < p2.len() && p2[p] == id
                && (forall|q: int| p < q < p2.len() ==> p2[q] != id) && self.execution_path@ == p2.remove(p);
            assert(p == p2.len() - 1);
            crate::rule_engine::graph::lemma_drop_last_of(p2, id, p);
            assert(p2.remove(p) =~= s0.path);
        }
        Ok(())
    }

    /// Runs a node of the graph: see `sp_node`.
    fn execute_node(&mut self, node: &GraphNode, graph: &ExecutionGraph) -> (r: Result<(), RuleEngineError>)
        requires
            old(self).wf(),
            graph.regs_ok(),
            graph.nodes@.contains(*node),
        ensures
            final(self).wf(),
            old(self).frame_kept(final(self)),
            res_v(r) == sp_node(old(self).ev(), *graph, *node, old(self).max_recursion_depth).0,
            final(self).ev() == sp_node(old(self).ev(), *graph, *node, old(self).max_recursion_depth).1,
            r is Ok ==> final(self).execution_path@ == old(self).execution_path@,
        decreases room(graph.nodes@, old(self).execution_path@, old(self).max_recursion_depth), 1int, 0int,
    {
        proof {
            let k = choose|k: int| 0 <= k < graph.nodes@.len() && graph.nodes@[k] == *node;
            assert(node_regs_ok(graph.nodes@[k]));
        }
        match node.node_type {
            GraphNodeType::Op => self.execute_op_node(node),
            GraphNodeType::Rule => self.execute_rule_node(node, graph),
            GraphNodeType::Control => self.execute_control_node(node, graph),
            GraphNodeType::Graph => self.execute_graph_node(node),
            GraphNodeType::Io => self.execute_io_node(node),
        }
    }
}

/// What a list of conflicts names: the two rules of each.
pub open spec fn conflict_ids(cs: Seq<RuleConflict>) -> Seq<(u32, u32)> {
    cs.map_values(|c: RuleConflict| (c.rule1_id, c.rule2_id))
}

/// Each conflict of the list is an action conflict with its description.
pub open spec fn action_conflicts(cs: Seq<RuleConflict>) -> bool {
    forall|k: int| 0 <= k < cs.len() ==> (#[trigger] cs[k]).conflict_type == ConflictType::ActionConflict
        && cs[k].description@ == conflict_text(cs[k].rule1_id, cs[k].rule2_id)
}

/// The ids of the nodes at the given indices.
pub open spec fn ids_at(nodes: Seq<GraphNode>, ks: Seq<usize>) -> Seq<u32> {
    ks.map_values(|k: usize| nodes[k as int].id)
}

/// In a list of action conflicts, the last one naming `r` has the action
/// conflict's code, and there is one exactly when some conflict names `r`.
pub proof fn lemma_last_action_conflict(cs: Seq<RuleConflict>, r: u32)
    requires
        action_conflicts(cs),
    ensures
        last_conflict_code(cs, r) is Some <==> exists|k: int| 0 <= k < cs.len() && (cs[k].rule1_id == r || cs[k].rule2_id == r),
        last_conflict_code(cs, r) matches Some(c) ==> c == ConflictType::ActionConflict.spec_code(),
    decreases cs.len(),
{
    if cs.len() > 0 {
        let init = cs.drop_last();
        assert forall|k: int| 0 <= k < init.len() implies (#[trigger] init[k]).conflict_type == ConflictType::ActionConflict
            && init[k].description@ == conflict_text(init[k].rule1_id, init[k].rule2_id) by {
            assert(init[k] == cs[k]);
        }
        lemma_last_action_conflict(init, r);
        if exists|k: int| 0 <= k < cs.len() && (cs[k].rule1_id == r || cs[k].rule2_id == r) {
            let k = choose|k: int| 0 <= k < cs.len() && (cs[k].rule1_id == r || cs[k].rule2_id == r);
            if k < cs.len() - 1 {
                assert(init[k] == cs[k]);
            }
        }
        if exists|k: int| 0 <= k < init.len() && (init[k].rule1_id == r || init[k].rule2_id == r) {
            let k = choose|k: int| 0 <= k < init.len() && (init[k].rule1_id == r || init[k].rule2_id == r);
            assert(cs[k] == init[k]);
        }
    }
}

impl RuleEngine {
    /// Queues the targets of the edges leaving a node.
    fn add_connected_nodes(&mut self, node: &GraphNode, graph: &ExecutionGraph)
        requires
            old(self).wf(),
        ensures
            final(self).wf(),
            old(self).frame_kept(final(self)),
            final(self).rule_execution_counts == old(self).rule_execution_counts,
            final(self).ev() == with_queue(old(self).ev(), enqueue_all(old(self).priority_queue@, successors(graph.edges@, node.id))),
    {
        self.enqueue_successors(&graph.edges, node.id, None);
    }

    /// Queues the nodes that depend on a node's outputs: the targets of its edges.
    fn propagate_outputs(&mut self, node: &GraphNode, graph: &ExecutionGraph) -> (r: Result<(), RuleEngineError>)
        requires
            old(self).wf(),
        ensures
            final(self).wf(),
            old(self).frame_kept(final(self)),
            final(self).rule_execution_counts == old(self).rule_execution_counts,
            r is Ok,
            final(self).ev() == with_queue(old(self).ev(), enqueue_all(old(self).priority_queue@, successors(graph.edges@, node.id))),
    {
        self.enqueue_successors(&graph.edges, node.id, None);
        Ok(())
    }

    /// Whether every input register the node names holds a value.
    fn are_inputs_available(&self, node: &GraphNode) -> (b: bool)
        requires
            self.wf(),
        ensures
            b == inputs_available(self.ev().regs, *node),
    {
        let mut i: usize = 0;
        while i < node.input_regs.len()
            invariant
                self.wf(),
                i <= node.input_regs@.len(),
                forall|k: int| 0 <= k < i ==> #[trigger] node.input_regs@[k] == 0
                    || (node.input_regs@[k] < self.ev().regs.len() && self.ev().regs[node.input_regs@[k] as int] is Some),
            decreases node.input_regs@.len() - i,
        {
            let input_reg = node.input_regs[i];
            if input_reg != 0 {
                let reg_idx = input_reg as usize;
                if reg_idx < self.context.registers.len() {
                    if self.context.registers[reg_idx].is_none() {
                        return false;
                    }
                } else {
                    return false;
                }
            }
            i += 1;
        }
        true
    }

    /// The dependencies of a node: its inputs are read when it runs, so
    /// there is nothing to prepare.
    fn process_node_dependencies(&mut self, _node: &GraphNode, _graph: &ExecutionGraph) -> (r: Result<(), RuleEngineError>)
        ensures
            r is Ok,
            *final(self) == *old(self),
    {
        Ok(())
    }

    /// The indices of a rule's actions.
    fn get_rule_actions(&self, rule_node: &GraphNode, graph: &ExecutionGraph) -> (r: Vec<usize>)
        ensures
            r@.map_values(|k: usize| k as int) == action_indices(*graph, rule_node.id, 0),
            forall|k: int| 0 <= k < r@.len() ==> r@[k] < graph.nodes@.len(),
    {
        let mut actions: Vec<usize> = Vec::new();
        let mut i: usize = 0;
        while i < graph.edges.len()
            invariant
                i <= graph.edges@.len(),
                actions@.map_values(|k: usize| k as int) + action_indices(*graph, rule_node.id, i as int)
                    == action_indices(*graph, rule_node.id, 0),
                forall|k: int| 0 <= k < actions@.len() ==> actions@[k] < graph.nodes@.len(),
            decreases graph.edges@.len() - i,
        {
            let e = graph.edges[i];
            let ghost before = actions@.map_values(|k: usize| k as int);
            if e.from_node == rule_node.id && e.edge_type == EdgeType::Data {
                match find_node(graph, e.to_node) {
                    Some(j) => {
                        let n = &graph.nodes[j];
                        if !(n.node_type == GraphNodeType::Op && n.opcode == OP_COMPARE) {
                            actions.push(j);
                            assert(actions@.map_values(|k: usize| k as int) =~= before.push(j as int));
                            assert(before.push(j as int) + action_indices(*graph, rule_node.id, i + 1)
                                =~= before + (seq![j as int] + action_indices(*graph, rule_node.id, i + 1)));
                        }
                    },
                    None => {},
                }
            }
            i += 1;
        }
        assert(action_indices(*graph, rule_node.id, i as int) =~= Seq::<int>::empty());
        assert(actions@.map_values(|k: usize| k as int) + Seq::<int>::empty() =~= actions@.map_values(|k: usize| k as int));
        actions
    }

    /// Whether two actions conflict: both are moves.
    fn actions_conflict(&self, action1: &GraphNode, action2: &GraphNode) -> (b: bool)
        ensures
            b == (action1.opcode == OP_MOVE && action2.opcode == OP_MOVE),
    {
        action1.opcode == OP_MOVE && action2.opcode == OP_MOVE
    }

    /// The conflict between two rules, when an action of each is a move.
    fn check_rule_conflict(&self, rule1: &GraphNode, rule2: &GraphNode, graph: &ExecutionGraph) -> (r: Option<RuleConflict>)
        ensures
            r is Some <==> has_move(*graph, rule1.id) && has_move(*graph, rule2.id),
            r matches Some(c) ==> c.rule1_id == rule1.id && c.rule2_id == rule2.id
                && c.conflict_type == ConflictType::ActionConflict && c.description@ == conflict_text(rule1.id, rule2.id),
    {
        let rule1_actions = self.get_rule_actions(rule1, graph);
        let rule2_actions = self.get_rule_actions(rule2, graph);
        let ghost a1 = action_indices(*graph, rule1.id, 0);
        let ghost a2 = action_indices(*graph, rule2.id, 0);
        let mut i: usize = 0;
        while i < rule1_actions.len()
            invariant
                i <= rule1_actions@.len(),
                a1 == rule1_actions@.map_values(|k: usize| k as int),
                a2 == rule2_actions@.map_values(|k: usize| k as int),
                a1 == action_indices(*graph, rule1.id, 0),
                a2 == action_indices(*graph, rule2.id, 0),
                forall|k: int| 0 <= k < rule1_actions@.len() ==> rule1_actions@[k] < graph.nodes@.len(),
                forall|k: int| 0 <= k < rule2_actions@.len() ==> rule2_actions@[k] < graph.nodes@.len(),
                forall|x: int, y: int| 0 <= x < i && 0 <= y < a2.len() ==> !(graph.nodes@[a1[x]].opcode == OP_MOVE
                    && graph.nodes@[a2[y]].opcode == OP_MOVE),
            decreases rule1_actions@.len() - i,
        {
            let mut j: usize = 0;
            while j < rule2_actions.len()
                invariant
                    i < rule1_actions@.len(),
                    j <= rule2_actions@.len(),
                    a1 == rule1_actions@.map_values(|k: usize| k as int),
                    a2 == rule2_actions@.map_values(|k: usize| k as int),
                    a1 == action_indices(*graph, rule1.id, 0),
                    a2 == action_indices(*graph, rule2.id, 0),
                    forall|k: int| 0 <= k < rule1_actions@.len() ==> rule1_actions@[k] < graph.nodes@.len(),
                    forall|k: int| 0 <= k < rule2_actions@.len() ==> rule2_actions@[k] < graph.nodes@.len(),
                    forall|x: int, y: int| 0 <= x < i && 0 <= y < a2.len() ==> !(graph.nodes@[a1[x]].opcode == OP_MOVE
                        && graph.nodes@[a2[y]].opcode == OP_MOVE),
                    forall|y: int| 0 <= y < j ==> !(graph.nodes@[a1[i as int]].opcode == OP_MOVE
                        && graph.nodes@[a2[y]].opcode == OP_MOVE),
                decreases rule2_actions@.len() - j,
            {
                if self.actions_conflict(&graph.nodes[rule1_actions[i]], &graph.nodes[rule2_actions[j]]) {
                    assert(graph.nodes@[a1[i as int]].opcode == OP_MOVE);
                    assert(graph.nodes@[a2[j as int]].opcode == OP_MOVE);
                    assert(graph.nodes@[action_indices(*graph, rule1.id, 0)[i as int]].opcode == OP_MOVE);
                    assert(graph.nodes@[action_indices(*graph, rule2.id, 0)[j as int]].opcode == OP_MOVE);
                    let d1 = u64_to_decimal(rule1.id as u64);
                    let d2 = u64_to_decimal(rule2.id as u64);
                    let head = join3("Rules ", d1.as_str(), " and ");
                    let description = join3(head.as_str(), d2.as_str(), " have conflicting actions");
                    return Some(RuleConflict {
                        rule1_id: rule1.id,
                        rule2_id: rule2.id,
                        conflict_type: ConflictType::ActionConflict,
                        description,
                    });
                }
                j += 1;
            }
            i += 1;
        }
        proof {
            if has_move(*graph, rule1.id) && has_move(*graph, rule2.id) {
                let x = choose|x: int| 0 <= x < a1.len() && #[trigger] graph.nodes@[a1[x]].opcode == OP_MOVE;
                let y = choose|y: int| 0 <= y < a2.len() && #[trigger] graph.nodes@[a2[y]].opcode == OP_MOVE;
                assert(!(graph.nodes@[a1[x]].opcode == OP_MOVE && graph.nodes@[a2[y]].opcode == OP_MOVE));
            }
        }
        None
    }

    /// The conflicts among the graph's rules, each pair once, in node order.
    pub fn detect_rule_conflicts(&self, graph: &ExecutionGraph) -> (r: Vec<RuleConflict>)
        ensures
            conflict_ids(r@) == conflict_pairs(*graph),
            action_conflicts(r@),
    {
        let mut rule_nodes: Vec<usize> = Vec::new();
        let mut k: usize = 0;
        while k < graph.nodes.len()
            invariant
                k <= graph.nodes@.len(),
                ids_at(graph.nodes@, rule_nodes@) == rule_ids(graph.nodes@.subrange(0, k as int)),
                forall|m: int| 0 <= m < rule_nodes@.len() ==> rule_nodes@[m] < graph.nodes@.len(),
            decreases graph.nodes@.len() - k,
        {
            assert(graph.nodes@.subrange(0, k + 1).drop_last() =~= graph.nodes@.subrange(0, k as int));
            if graph.nodes[k].node_type == GraphNodeType::Rule {
                let ghost before = ids_at(graph.nodes@, rule_nodes@);
                rule_nodes.push(k);
                assert(ids_at(graph.nodes@, rule_nodes@) =~= before.push(graph.nodes@[k as int].id));
            }
            k += 1;
        }
        assert(graph.nodes@.subrange(0, k as int) =~= graph.nodes@);
        let ghost rs = ids_at(graph.nodes@, rule_nodes@);
        let mut conflicts: Vec<RuleConflict> = Vec::new();
        let mut i: usize = 0;
        while i < rule_nodes.len()
            invariant
                i <= rule_nodes@.len(),
                rs == ids_at(graph.nodes@, rule_nodes@),
                rs == rule_ids(graph.nodes@),
                forall|m: int| 0 <= m < rule_nodes@.len() ==> rule_nodes@[m] < graph.nodes@.len(),
                conflict_ids(conflicts@) + conflict_rows(*graph, rs, i as int) == conflict_rows(*graph, rs, 0),
                action_conflicts(conflicts@),
            decreases rule_nodes@.len() - i,
        {
            let mut j: usize = i + 1;
            while j < rule_nodes.len()
                invariant
                    i < rule_nodes@.len(),
                    i + 1 <= j <= rule_nodes@.len(),
                    rs == ids_at(graph.nodes@, rule_nodes@),
                    rs == rule_ids(graph.nodes@),
                    forall|m: int| 0 <= m < rule_nodes@.len() ==> rule_nodes@[m] < graph.nodes@.len(),
                    conflict_ids(conflicts@) + conflict_row(*graph, rs, i as int, j as int) + conflict_rows(*graph, rs, i + 1)
                        == conflict_rows(*graph, rs, 0),
                    action_conflicts(conflicts@),
                decreases rule_nodes@.len() - j,
            {
                let ghost before = conflict_ids(conflicts@);
                match self.check_rule_conflict(&graph.nodes[rule_nodes[i]], &graph.nodes[rule_nodes[j]], graph) {
                    Some(conflict) => {
                        conflicts.push(conflict);
                        assert(conflict_ids(conflicts@) =~= before.push((rs[i as int], rs[j as int])));
                        assert(before.push((rs[i as int], rs[j as int])) + conflict_row(*graph, rs, i as int, j + 1)
                            =~= before + conflict_row(*graph, rs, i as int, j as int));
                        assert(action_conflicts(conflicts@)) by {
                            assert forall|m: int| 0 <= m < conflicts@.len() implies (#[trigger] conflicts@[m]).conflict_type
                                == ConflictType::ActionConflict && conflicts@[m].description@ == conflict_text(conflicts@[m].rule1_id, conflicts@[m].rule2_id) by {
                                if m < conflicts@.len() - 1 {
                                    assert(conflicts@[m] == conflicts@.drop_last()[m]);
                                }
                            }
                        }
                    },
                    None => {},
                }
                j += 1;
            }
            assert(conflict_row(*graph, rs, i as int, j as int) =~= Seq::<(u32, u32)>::empty());
            assert(conflict_ids(conflicts@) + Seq::<(u32, u32)>::empty() + conflict_rows(*graph, rs, i + 1)
                =~= conflict_ids(conflicts@) + conflict_rows(*graph, rs, i + 1));
            i += 1;
        }
        assert(conflict_rows(*graph, rs, i as int) =~= Seq::<(u32, u32)>::empty());
        assert(conflict_ids(conflicts@) + Seq::<(u32, u32)>::empty() =~= conflict_ids(conflicts@));
        conflicts
    }

    /// Whether the graph has a rule node with this id.
    fn is_rule_eligible(&self, rule_id: u32, graph: &ExecutionGraph) -> (b: bool)
        ensures
            b == is_rule_node(*graph, rule_id),
    {
        let mut i: usize = 0;
        while i < graph.nodes.len()
            invariant
                i <= graph.nodes@.len(),
                forall|k: int| 0 <= k < i ==> !(graph.nodes@[k].id == rule_id && graph.nodes@[k].node_type == GraphNodeType::Rule),
            decreases graph.nodes@.len() - i,
        {
            if graph.nodes[i].id == rule_id && graph.nodes[i].node_type == GraphNodeType::Rule {
                return true;
            }
            i += 1;
        }
        false
    }

    /// Queues a rule when the graph has a rule node with its id.
    pub fn schedule_rule(&mut self, rule_id: u32, graph: &ExecutionGraph) -> (b: bool)
        requires
            old(self).wf(),
        ensures
            final(self).wf(),
            b == is_rule_node(*graph, rule_id),
            !b ==> *final(self) == *old(self),
            b && old(self).priority_queue@.contains(rule_id) ==> final(self).priority_queue@ == old(self).priority_queue@,
            b && !old(self).priority_queue@.contains(rule_id) ==> final(self).priority_queue@.to_multiset()
                == old(self).priority_queue@.push(rule_id).to_multiset(),
            b && !old(self).priority_queue@.contains(rule_id) ==> forall|i: int, j: int| 0 <= i < j < final(self).priority_queue@.len()
                ==> final(self).rank_of(#[trigger] final(self).priority_queue@[i]) >= final(self).rank_of(#[trigger] final(self).priority_queue@[j]),
            final(self).rule_priorities == old(self).rule_priorities,
            final(self).priority_strategy == old(self).priority_strategy,
            final(self).context == old(self).context,
            final(self).execution_path == old(self).execution_path,
    {
        if self.is_rule_eligible(rule_id, graph) {
            self.add_to_priority_queue_with_strategy(rule_id);
            true
        } else {
            false
        }
    }

    /// When the graph's rules conflict: the conflicts are resolved and the
    /// queue is reordered by rank under the new strategy.
    pub fn conflict_aware_schedule(&mut self, graph: &ExecutionGraph)
        requires
            old(self).wf(),
        ensures
            final(self).wf(),
            conflict_pairs(*graph).len() == 0 ==> *final(self) == *old(self),
            conflict_pairs(*graph).len() > 0 ==> {
                &&& final(self).priority_strategy == PriorityStrategy::ConflictResolution
                &&& final(self).priority_queue@.to_multiset() == old(self).priority_queue@.to_multiset()
                &&& final(self).priority_queue@.len() == old(self).priority_queue@.len()
                &&& forall|i: int, j: int| 0 <= i < j < final(self).priority_queue@.len()
                    ==> final(self).rank_of(#[trigger] final(self).priority_queue@[i]) >= final(self).rank_of(#[trigger] final(self).priority_queue@[j])
                &&& final(self).rule_priorities@.dom() == old(self).rule_priorities@.dom()
                &&& forall|r: u32| #[trigger] final(self).rule_priorities@.contains_key(r) ==> {
                    let old_rp = old(self).rule_priorities@[r];
                    let new_rp = final(self).rule_priorities@[r];
                    &&& new_rp.priority == old_rp.priority
                    &&& new_rp.specificity == old_rp.specificity
                    &&& new_rp.recency == old_rp.recency
                    &&& new_rp.activation_count == old_rp.activation_count
                    &&& new_rp.conflict_score == if exists|k: int| 0 <= k < conflict_pairs(*graph).len()
                        && (conflict_pairs(*graph)[k].0 == r || conflict_pairs(*graph)[k].1 == r) {
                        ConflictType::ActionConflict.spec_code()
                    } else {
                        old_rp.conflict_score
                    }
                }
            },
            conflict_pairs(*graph).len() > 0 ==> final(self).rule_priorities@ == scored(old(self).rule_priorities@, *graph),
            conflict_pairs(*graph).len() > 0 ==> final(self).priority_queue@
                == rank_order(old(self).priority_queue@, scored(old(self).rule_priorities@, *graph), PriorityStrategy::ConflictResolution),
            final(self).context == old(self).context,
            final(self).execution_path == old(self).execution_path,
            final(self).rule_execution_counts == old(self).rule_execution_counts,
            final(self).max_recursion_depth == old(self).max_recursion_depth,
            final(self).step_count == old(self).step_count,
            final(self).max_steps == old(self).max_steps,
            final(self).activation_records == old(self).activation_records,
    {
        let conflicts = self.detect_rule_conflicts(graph);
        if conflicts.len() > 0 {
            self.resolve_conflicts(conflicts.as_slice());
            proof {
                assert forall|r: u32| #[trigger] self.rule_priorities@.contains_key(r) implies
                    self.rule_priorities@[r].conflict_score == if exists|k: int| 0 <= k < conflict_pairs(*graph).len()
                        && (conflict_pairs(*graph)[k].0 == r || conflict_pairs(*graph)[k].1 == r) {
                        ConflictType::ActionConflict.spec_code()
                    } else {
                        old(self).rule_priorities@[r].conflict_score
                    } by {
                    lemma_last_action_conflict(conflicts@, r);
                    if exists|k: int| 0 <= k < conflict_pairs(*graph).len() && (conflict_pairs(*graph)[k].0 == r || conflict_pairs(*graph)[k].1 == r) {
                        let k = choose|k: int| 0 <= k < conflict_pairs(*graph).len() && (conflict_pairs(*graph)[k].0 == r || conflict_pairs(*graph)[k].1 == r);
                        assert(conflict_ids(conflicts@)[k] == (conflicts@[k].rule1_id, conflicts@[k].rule2_id));
                    }
                    if exists|k: int| 0 <= k < conflicts@.len() && (conflicts@[k].rule1_id == r || conflicts@[k].rule2_id == r) {
                        let k = choose|k: int| 0 <= k < conflicts@.len() && (conflicts@[k].rule1_id == r || conflicts@[k].rule2_id == r);
                        assert(conflict_ids(conflicts@)[k] == (conflicts@[k].rule1_id, conflicts@[k].rule2_id));
                    }
                }
            }
            proof {
                assert(self.rule_priorities@ =~= scored(old(self).rule_priorities@, *graph));
            }
            let mut queue: Vec<u32> = Vec::new();
            std::mem::swap(&mut queue, &mut self.priority_queue);
            let sorted = self.sorted_queue(queue);
            self.priority_queue = sorted;
        }
    }
}

/// The rule priorities once the conflicts of the graph are resolved: each rule
/// in a conflicting pair gets the conflict score of an action conflict.
pub open spec fn scored(prios: Map<u32, RulePriority>, graph: ExecutionGraph) -> Map<u32, RulePriority> {
    Map::new(
        |r: u32| prios.contains_key(r),
        |r: u32| RulePriority {
            conflict_score: if exists|k: int| 0 <= k < conflict_pairs(graph).len()
                && (conflict_pairs(graph)[k].0 == r || conflict_pairs(graph)[k].1 == r) {
                ConflictType::ActionConflict.spec_code()
            } else {
                prios[r].conflict_score
            },
            ..prios[r]
        },
    )
}

/// Whether `x` is in `v`.
fn holds_id(v: &Vec<u32>, x: u32) -> (b: bool)
    ensures
        b == v@.contains(x),
{
    let mut i: usize = 0;
    while i < v.len()
        invariant
            i <= v@.len(),
            forall|j: int| 0 <= j < i ==> v@[j] != x,
        decreases v@.len() - i,
    {
        if v[i] == x {
            return true;
        }
        i += 1;
    }
    false
}

/// `r` is the set of nodes reachable from `flow` by edges, `flow` left out,
/// in an order of discovery: each is the target of an edge from `flow` or
/// from one found before it, and no edge leads out of `r` and `flow`.
pub open spec fn found_from(g: ExecutionGraph, flow: u32, r: Seq<u32>) -> bool {
    &&& r.no_duplicates()
    &&& !r.contains(flow)
    &&& forall|k: int| 0 <= k < r.len() ==> #[trigger] discovered(g, flow, r, k)
    &&& forall|e: int| 0 <= e < g.edges@.len() && (g.edges@[e].from_node == flow || r.contains(g.edges@[e].from_node))
        ==> (#[trigger] g.edges@[e]).to_node == flow || r.contains(g.edges@[e].to_node)
}

/// Scanning the edges from index `i` on: each edge from `current` to a node
/// that is neither the flow node nor found yet adds its target.
pub open spec fn scan_edges(g: ExecutionGraph, flow: u32, current: u32, found: Seq<u32>, i: int) -> Seq<u32>
    decreases g.edges@.len() - i,
{
    if i < 0 || i >= g.edges@.len() {
        found
    } else {
        let e = g.edges@[i];
        scan_edges(g, flow, current, if e.from_node == current && e.to_node != flow && !found.contains(e.to_node) {
            found.push(e.to_node)
        } else {
            found
        }, i + 1)
    }
}

/// The search from a stack of nodes to expand: the last leaves the stack, and
/// the targets its edges add are found and pushed, in edge order; `fuel` bounds
/// the steps.
pub open spec fn flow_walk(g: ExecutionGraph, flow: u32, found: Seq<u32>, stack: Seq<u32>, fuel: nat) -> Seq<u32>
    decreases fuel,
{
    if stack.len() == 0 || fuel == 0 {
        found
    } else {
        let found2 = scan_edges(g, flow, stack.last(), found, 0);
        flow_walk(g, flow, found2, stack.drop_last() + found2.subrange(found.len() as int, found2.len() as int), (fuel - 1) as nat)
    }
}

/// The nodes reachable from a flow node, in the order its depth-first search finds them.
pub open spec fn flow_order(g: ExecutionGraph, flow: u32) -> Seq<u32> {
    flow_walk(g, flow, seq![], seq![flow], (g.edges@.len() + 1) as nat)
}

/// `r[k]` is the target of an edge from `flow` or from a node found before it.
pub open spec fn discovered(g: ExecutionGraph, flow: u32, r: Seq<u32>, k: int) -> bool {
    exists|e: int| 0 <= e < g.edges@.len() && g.edges@[e].to_node == r[k]
        && (g.edges@[e].from_node == flow || exists|m: int| 0 <= m < k && r[m] == g.edges@[e].from_node)
}

/// Whether some edge leads to `x`.
pub open spec fn is_target(edges: Seq<GraphEdge>, x: u32) -> bool {
    exists|e: int| 0 <= e < edges.len() && edges[e].to_node == x
}

/// A list of distinct edge targets is no longer than the edge list.
proof fn lemma_targets_bound(edges: Seq<GraphEdge>, r: Seq<u32>)
    requires
        r.no_duplicates(),
        forall|k: int| 0 <= k < r.len() ==> #[trigger] is_target(edges, r[k]),
    ensures
        r.len() <= edges.len(),
{
    let tos = edges.map_values(|e: GraphEdge| e.to_node);
    r.unique_seq_to_set();
    tos.lemma_cardinality_of_set();
    vstd::seq_lib::seq_to_set_is_finite(tos);
    assert forall|x: u32| r.to_set().contains(x) implies tos.to_set().contains(x) by {
        let k = choose|k: int| 0 <= k < r.len() && r[k] == x;
        assert(is_target(edges, r[k]));
        let e = choose|e: int| 0 <= e < edges.len() && edges[e].to_node == r[k];
        assert(tos[e] == x);
    }
    vstd::set_lib::lemma_len_subset(r.to_set(), tos.to_set());
}

/// What the engine's variables say.
pub struct LazyV {
    pub eng: EngV,
    pub vars: Map<Seq<char>, ValueV>,
}

/// The variable that caches a node's lazily computed value.
pub open spec fn lazy_key(id: u32) -> Seq<char> {
    "lazy_result_"@ + decimal(id as nat)
}

/// The value a node gives once run: its first output register's value, or
/// `node_<id>_result`.
pub open spec fn lazy_value(regs: Seq<Option<ValueV>>, n: GraphNode) -> ValueV {
    if n.output_regs@.len() > 0 && n.output_regs@[0] != 0 && reg_at(regs, n.output_regs@[0] as int) is Some {
        reg_at(regs, n.output_regs@[0] as int).unwrap()
    } else {
        ValueV::Sym("node_"@ + decimal(n.id as nat) + "_result"@)
    }
}

/// Evaluating node `id` lazily: the cached value, or the node run and its
/// value cached.
pub open spec fn sp_lazy(st: LazyV, g: ExecutionGraph, id: u32, d: u32) -> (Result<ValueV, EngErr>, LazyV) {
    let key = lazy_key(id);
    if st.vars.contains_key(key) {
        (Ok(st.vars[key]), st)
    } else {
        match node_index(g.nodes@, id) {
            None => (Err(EngErr::InvalidNodeType), st),
            Some(k) => {
                let n = g.nodes@[k];
                let r = sp_node(st.eng, g, n, d);
                match r.0 {
                    Err(e) => (Err(e), LazyV { eng: r.1, vars: st.vars }),
                    Ok(_) => {
                        let v = lazy_value(r.1.regs, n);
                        (Ok(v), LazyV { eng: r.1, vars: st.vars.insert(key, v) })
                    },
                }
            },
        }
    }
}

/// The sources of node `id`'s incoming data edges from edge `i` on, each
/// evaluated lazily in turn, then `id` itself.
pub open spec fn sp_lazy_deps(st: LazyV, g: ExecutionGraph, id: u32, d: u32, i: int) -> (Result<ValueV, EngErr>, LazyV)
    decreases g.edges@.len() - i,
{
    if i < 0 || i >= g.edges@.len() {
        sp_lazy(st, g, id, d)
    } else {
        let e = g.edges@[i];
        if e.to_node == id && e.edge_type == EdgeType::Data {
            let r = sp_lazy(st, g, e.from_node, d);
            match r.0 {
                Err(x) => (Err(x), r.1),
                Ok(_) => sp_lazy_deps(r.1, g, id, d, i + 1),
            }
        } else {
            sp_lazy_deps(st, g, id, d, i + 1)
        }
    }
}

pub open spec fn res_value_v(r: Result<Value, RuleEngineError>) -> Result<ValueV, EngErr> {
    match r {
        Ok(v) => Ok(v@),
        Err(e) => Err(eng_err(e)),
    }
}

/// A node run on demand: only when its inputs are there, its successors
/// queued after it.
pub open spec fn sp_demand(s: EngV, g: ExecutionGraph, n: GraphNode, d: u32) -> (Result<(), EngErr>, EngV) {
    if !inputs_available(s.regs, n) {
        (Ok(()), s)
    } else {
        let r = sp_node(s, g, n, d);
        match r.0 {
            Err(e) => (Err(e), r.1),
            Ok(_) => (Ok(()), with_queue(r.1, enqueue_all(r.1.queue, successors(g.edges@, n.id)))),
        }
    }
}

/// The nodes `ids[i..]` of a flow run on demand in turn.
pub open spec fn sp_flow_nodes(s: EngV, g: ExecutionGraph, ids: Seq<u32>, d: u32, i: int) -> (Result<(), EngErr>, EngV)
    decreases ids.len() - i,
{
    if i < 0 || i >= ids.len() {
        (Ok(()), s)
    } else {
        match node_index(g.nodes@, ids[i]) {
            Some(k) => {
                let r = sp_demand(s, g, g.nodes@[k], d);
                match r.0 {
                    Err(e) => (Err(e), r.1),
                    Ok(_) => sp_flow_nodes(r.1, g, ids, d, i + 1),
                }
            },
            None => sp_flow_nodes(s, g, ids, d, i + 1),
        }
    }
}

/// The matches of a pattern against the values the nodes from `i` on stand for.
pub open spec fn graph_matches(p: Pattern, regs: Seq<Option<ValueV>>, nodes: Seq<GraphNode>, i: int) -> Seq<(Bindings, u32)>
    decreases nodes.len() - i,
{
    if i < 0 || i >= nodes.len() {
        Seq::empty()
    } else {
        let rest = graph_matches(p, regs, nodes, i + 1);
        match match_value(p, node_value(regs, nodes[i]), Map::empty(), false) {
            Some(b) => seq![(b, nodes[i].id)] + rest,
            None => rest,
        }
    }
}

impl RuleEngine {
    /// What the engine's node runs and variables say.
    pub open spec fn lv(&self) -> LazyV {
        LazyV { eng: self.ev(), vars: binding_view(self.context.variables@) }
    }

    /// Everything but the variables is kept as `frame_kept` keeps it.
    pub open spec fn frame_kept_but_vars(&self, o: &Self) -> bool {
        &&& o.context.facts == self.context.facts
        &&& o.context.rule_results == self.context.rule_results
        &&& o.context.current_node_id == self.context.current_node_id
        &&& o.priority_strategy == self.priority_strategy
        &&& o.max_recursion_depth == self.max_recursion_depth
        &&& o.step_count == self.step_count
        &&& o.max_steps == self.max_steps
        &&& o.activation_records == self.activation_records
    }

    /// The value a node stands for: see `node_value`.
    fn get_node_value(&self, node: &GraphNode) -> (v: Value)
        requires
            self.wf(),
        ensures
            v@ == node_value(self.ev().regs, *node),
    {
        match node.node_type {
            GraphNodeType::Op => {
                let mut i: usize = 0;
                while i < node.output_regs.len()
                    invariant
                        self.wf(),
                        node.node_type == GraphNodeType::Op,
                        i <= node.output_regs@.len(),
                        first_output(self.ev().regs, node.output_regs@, 0) == first_output(self.ev().regs, node.output_regs@, i as int),
                    decreases node.output_regs@.len() - i,
                {
                    let reg_idx = node.output_regs[i];
                    if reg_idx != 0 && (reg_idx as usize) < self.context.registers.len() {
                        assert(self.ev().regs[reg_idx as int] == register_view(self.context.registers@[reg_idx as int]));
                        match &self.context.registers[reg_idx as usize] {
                            Some(value) => {
                                assert(reg_at(self.ev().regs, node.output_regs@[i as int] as int) == Some(value@));
                                assert(first_output(self.ev().regs, node.output_regs@, i as int) == Some(value@));
                                return value.clone();
                            },
                            None => {},
                        }
                    }
                    i += 1;
                }
                let op = u64_to_decimal(node.opcode as u64);
                let id = u64_to_decimal(node.id as u64);
                let head = join3("op_", op.as_str(), "_");
                Value::Sym(join2(head.as_str(), id.as_str()))
            },
            GraphNodeType::Rule => Value::Sym(join2("rule_", u64_to_decimal(node.id as u64).as_str())),
            GraphNodeType::Control => Value::Sym(join2("control_", u64_to_decimal(node.id as u64).as_str())),
            GraphNodeType::Graph => Value::Sym(join2("graph_", u64_to_decimal(node.id as u64).as_str())),
            GraphNodeType::Io => Value::Sym(join2("io_", u64_to_decimal(node.id as u64).as_str())),
        }
    }

    /// The matches of a pattern against the values the graph's nodes stand for, in node order.
    pub fn match_graph_pattern(&mut self, pattern: &Pattern, graph: &ExecutionGraph) -> (r: Vec<PatternMatch>)
        requires
            old(self).wf(),
        ensures
            *final(self) == *old(self),
            r@.len() == graph_matches(*pattern, old(self).ev().regs, graph.nodes@, 0).len(),
            forall|k: int| 0 <= k < r@.len() ==> (#[trigger] r@[k]).bindings.wf()
                && (binding_view(r@[k].bindings@), r@[k].matched_node) == graph_matches(*pattern, old(self).ev().regs, graph.nodes@, 0)[k],
    {
        let ghost regs = self.ev().regs;
        let ghost all = graph_matches(*pattern, regs, graph.nodes@, 0);
        let mut matches: Vec<PatternMatch> = Vec::new();
        let mut i: usize = 0;
        while i < graph.nodes.len()
            invariant
                self.wf(),
                *self == *old(self),
                regs == self.ev().regs,
                i <= graph.nodes@.len(),
                all == graph_matches(*pattern, regs, graph.nodes@, 0),
                forall|k: int| 0 <= k < matches@.len() ==> (#[trigger] matches@[k]).bindings.wf(),
                matches@.map_values(|m: PatternMatch| (binding_view(m.bindings@), m.matched_node)) + graph_matches(*pattern, regs, graph.nodes@, i as int) == all,
            decreases graph.nodes@.len() - i,
        {
            let node_value = self.get_node_value(&graph.nodes[i]);
            let ghost before = matches@.map_values(|m: PatternMatch| (binding_view(m.bindings@), m.matched_node));
            match self.match_pattern(pattern, &node_value) {
                Some(bindings) => {
                    let ghost b = binding_view(bindings@);
                    matches.push(PatternMatch { bindings, matched_node: graph.nodes[i].id });
                    assert(matches@.map_values(|m: PatternMatch| (binding_view(m.bindings@), m.matched_node)) =~= before.push((b, graph.nodes@[i as int].id)));
                    assert(before.push((b, graph.nodes@[i as int].id)) + graph_matches(*pattern, regs, graph.nodes@, i + 1)
                        =~= before + graph_matches(*pattern, regs, graph.nodes@, i as int));
                },
                None => {},
            }
            i += 1;
        }
        proof {
            assert(graph_matches(*pattern, regs, graph.nodes@, i as int) =~= Seq::<(Bindings, u32)>::empty());
            let mv = matches@.map_values(|m: PatternMatch| (binding_view(m.bindings@), m.matched_node));
            assert(mv + Seq::<(Bindings, u32)>::empty() =~= mv);
            assert forall|k: int| 0 <= k < matches@.len() implies (binding_view(matches@[k].bindings@), matches@[k].matched_node) == all[k] by {
                assert(mv[k] == (binding_view(matches@[k].bindings@), matches@[k].matched_node));
            }
        }
        matches
    }
}

impl RuleEngine {
    /// The value of node `node_id`, computed once: see `sp_lazy`.
    pub fn evaluate_lazy(&mut self, node_id: u32, graph: &ExecutionGraph) -> (r: Result<Value, RuleEngineError>)
        requires
            old(self).wf(),
            graph.regs_ok(),
        ensures
            final(self).wf(),
            old(self).frame_kept_but_vars(final(self)),
            res_value_v(r) == sp_lazy(old(self).lv(), *graph, node_id, old(self).max_recursion_depth).0,
            final(self).lv() == sp_lazy(old(self).lv(), *graph, node_id, old(self).max_recursion_depth).1,
            r is Ok ==> final(self).execution_path@ == old(self).execution_path@,
    {
        let d = u64_to_decimal(node_id as u64);
        let cache_key = join2("lazy_result_", d.as_str());
        assert(cache_key@ == lazy_key(node_id));
        match self.context.variables.get(cache_key.as_str()) {
            Some(cached) => {
                return Ok(cached.clone());
            },
            None => {},
        }
        let k = match find_node(graph, node_id) {
            Some(k) => k,
            None => return Err(RuleEngineError::InvalidNodeType),
        };
        let node = &graph.nodes[k];
        assert(graph.nodes@.contains(graph.nodes@[k as int]));
        let ghost vars0 = self.lv().vars;
        match self.execute_node(node, graph) {
            Err(e) => return Err(e),
            Ok(()) => {},
        }
        let result = if node.output_regs.len() > 0 && node.output_regs[0] != 0 && (node.output_regs[0] as usize) < self.context.registers.len() {
            let reg_idx = node.output_regs[0] as usize;
            assert(self.ev().regs[reg_idx as int] == register_view(self.context.registers@[reg_idx as int]));
            match &self.context.registers[reg_idx] {
                Some(value) => value.clone(),
                None => Value::Sym(join3("node_", u64_to_decimal(node_id as u64).as_str(), "_result")),
            }
        } else {
            Value::Sym(join3("node_", u64_to_decimal(node_id as u64).as_str(), "_result"))
        };
        let ghost rv = result@;
        let stored = result.clone();
        self.context.variables.insert(cache_key, stored);
        assert(self.lv().vars =~= vars0.insert(lazy_key(node_id), rv));
        Ok(result)
    }

    /// Evaluates lazily the sources of the node's incoming data edges, then the node.
    pub fn evaluate_lazy_with_dependencies(&mut self, node_id: u32, graph: &ExecutionGraph) -> (r: Result<Value, RuleEngineError>)
        requires
            old(self).wf(),
            graph.regs_ok(),
        ensures
            final(self).wf(),
            old(self).frame_kept_but_vars(final(self)),
            res_value_v(r) == sp_lazy_deps(old(self).lv(), *graph, node_id, old(self).max_recursion_depth, 0).0,
            final(self).lv() == sp_lazy_deps(old(self).lv(), *graph, node_id, old(self).max_recursion_depth, 0).1,
    {
        let ghost d = self.max_recursion_depth;
        let mut i: usize = 0;
        while i < graph.edges.len()
            invariant
                graph.regs_ok(),
                i <= graph.edges@.len(),
                self.wf(),
                old(self).frame_kept_but_vars(self),
                d == old(self).max_recursion_depth,
                sp_lazy_deps(old(self).lv(), *graph, node_id, d, 0) == sp_lazy_deps(self.lv(), *graph, node_id, d, i as int),
            decreases graph.edges@.len() - i,
        {
            let e = graph.edges[i];
            let ghost before = self.lv();
            if e.to_node == node_id && e.edge_type == EdgeType::Data {
                match self.evaluate_lazy(e.from_node, graph) {
                    Err(err) => {
                        let ghost rr: Result<Value, RuleEngineError> = Err(err);
                        assert(sp_lazy_deps(before, *graph, node_id, d, i as int).0 == res_value_v(rr));
                        assert(sp_lazy_deps(before, *graph, node_id, d, i as int).1 == self.lv());
                        return Err(err);
                    },
                    Ok(_) => {},
                }
            }
            i += 1;
        }
        self.evaluate_lazy(node_id, graph)
    }

    /// Runs a node when its inputs are there, then queues its successors.
    fn execute_node_demand_driven(&mut self, node: &GraphNode, graph: &ExecutionGraph) -> (r: Result<(), RuleEngineError>)
        requires
            old(self).wf(),
            graph.regs_ok(),
            graph.nodes@.contains(*node),
        ensures
            final(self).wf(),
            old(self).frame_kept(final(self)),
            res_v(r) == sp_demand(old(self).ev(), *graph, *node, old(self).max_recursion_depth).0,
            final(self).ev() == sp_demand(old(self).ev(), *graph, *node, old(self).max_recursion_depth).1,
            r is Ok ==> final(self).execution_path@ == old(self).execution_path@,
    {
        if !self.are_inputs_available(node) {
            return Ok(());
        }
        match self.execute_node(node, graph) {
            Err(e) => return Err(e),
            Ok(()) => {},
        }
        self.propagate_outputs(node, graph)
    }

    /// The nodes reachable from a flow node by edges, the flow node left out,
    /// in the order a depth-first search finds them.
    fn get_connected_nodes_for_flow(&self, flow_node_id: u32, graph: &ExecutionGraph) -> (r: Vec<u32>)
        ensures
            found_from(*graph, flow_node_id, r@),
            r@ == flow_order(*graph, flow_node_id),
    {
        let mut connected: Vec<u32> = Vec::new();
        let mut queue: Vec<u32> = Vec::new();
        queue.push(flow_node_id);
        assert(queue@[0] == flow_node_id);
        while queue.len() > 0
            invariant
                connected@.no_duplicates(),
                !connected@.contains(flow_node_id),
                forall|k: int| 0 <= k < connected@.len() ==> #[trigger] discovered(*graph, flow_node_id, connected@, k),
                queue@.no_duplicates(),
                forall|k: int| 0 <= k < queue@.len() ==> queue@[k] == flow_node_id || connected@.contains(#[trigger] queue@[k]),
                forall|e: int| 0 <= e < graph.edges@.len() && (graph.edges@[e].from_node == flow_node_id || connected@.contains(graph.edges@[e].from_node))
                    && !queue@.contains(graph.edges@[e].from_node)
                    ==> (#[trigger] graph.edges@[e]).to_node == flow_node_id || connected@.contains(graph.edges@[e].to_node),
                connected@.len() <= graph.edges@.len(),
                forall|k: int| 0 <= k < connected@.len() ==> #[trigger] is_target(graph.edges@, connected@[k]),
                flow_walk(*graph, flow_node_id, connected@, queue@, (graph.edges@.len() - connected@.len() + queue@.len()) as nat)
                    == flow_order(*graph, flow_node_id),
            decreases graph.edges@.len() - connected@.len(), queue@.len(),
        {
            let ghost qfull = queue@;
            let current = queue.pop().unwrap();
            let ghost c0 = connected@;
            let ghost q0 = queue@;
            proof {
                assert(qfull =~= q0.push(current));
                assert(qfull[qfull.len() - 1] == current);
                assert(!q0.contains(current)) by {
                    if q0.contains(current) {
                        let k = choose|k: int| 0 <= k < q0.len() && q0[k] == current;
                        assert(qfull[k] == qfull[qfull.len() - 1]);
                    }
                }
                assert forall|e: int| 0 <= e < graph.edges@.len() && (graph.edges@[e].from_node == flow_node_id || c0.contains(graph.edges@[e].from_node))
                    && !q0.contains(graph.edges@[e].from_node) && graph.edges@[e].from_node != current
                    implies (#[trigger] graph.edges@[e]).to_node == flow_node_id || c0.contains(graph.edges@[e].to_node) by {
                    let f = graph.edges@[e].from_node;
                    if qfull.contains(f) {
                        let k = choose|k: int| 0 <= k < qfull.len() && qfull[k] == f;
                        if k < q0.len() {
                            assert(q0[k] == qfull[k]);
                        }
                    }
                }
                assert(q0 + connected@.subrange(c0.len() as int, connected@.len() as int) =~= q0);
                assert(connected@.subrange(0, c0.len() as int) =~= c0);
            }
            let mut i: usize = 0;
            while i < graph.edges.len()
                invariant
                    i <= graph.edges@.len(),
                    c0.len() <= connected@.len(),
                    connected@.subrange(0, c0.len() as int) == c0,
                    current == flow_node_id || c0.contains(current),
                    !q0.contains(current),
                    connected@.no_duplicates(),
                    !connected@.contains(flow_node_id),
                    forall|k: int| 0 <= k < connected@.len() ==> #[trigger] discovered(*graph, flow_node_id, connected@, k),
                    queue@.no_duplicates(),
                    !queue@.contains(current),
                    queue@ == q0 + connected@.subrange(c0.len() as int, connected@.len() as int),
                    forall|k: int| 0 <= k < queue@.len() ==> queue@[k] == flow_node_id || connected@.contains(#[trigger] queue@[k]),
                    forall|e: int| 0 <= e < graph.edges@.len() && (graph.edges@[e].from_node == flow_node_id || c0.contains(graph.edges@[e].from_node))
                        && !q0.contains(graph.edges@[e].from_node) && graph.edges@[e].from_node != current
                        ==> (#[trigger] graph.edges@[e]).to_node == flow_node_id || c0.contains(graph.edges@[e].to_node),
                    forall|e: int| 0 <= e < i && graph.edges@[e].from_node == current
                        ==> (#[trigger] graph.edges@[e]).to_node == flow_node_id || connected@.contains(graph.edges@[e].to_node),
                    forall|k: int| 0 <= k < connected@.len() ==> #[trigger] is_target(graph.edges@, connected@[k]),
                    scan_edges(*graph, flow_node_id, current, connected@, i as int) == scan_edges(*graph, flow_node_id, current, c0, 0),
                decreases graph.edges@.len() - i,
            {
                let edge = graph.edges[i];
                if edge.from_node == current && edge.to_node != flow_node_id && !holds_id(&connected, edge.to_node) {
                    let ghost cb = connected@;
                    let ghost qb = queue@;
                    connected.push(edge.to_node);
                    queue.push(edge.to_node);
                    proof {
                        assert(connected@.subrange(0, c0.len() as int) =~= cb.subrange(0, c0.len() as int));
                        assert(connected@.subrange(c0.len() as int, connected@.len() as int)
                            =~= cb.subrange(c0.len() as int, cb.len() as int).push(edge.to_node));
                        assert(queue@ =~= q0 + connected@.subrange(c0.len() as int, connected@.len() as int));
                        assert forall|k: int| 0 <= k < connected@.len() implies #[trigger] discovered(*graph, flow_node_id, connected@, k) by {
                            if k < cb.len() {
                                assert(discovered(*graph, flow_node_id, cb, k));
                                let e = choose|e: int| 0 <= e < graph.edges@.len() && graph.edges@[e].to_node == cb[k]
                                    && (graph.edges@[e].from_node == flow_node_id || exists|m: int| 0 <= m < k && cb[m] == graph.edges@[e].from_node);
                                if graph.edges@[e].from_node != flow_node_id {
                                    let m = choose|m: int| 0 <= m < k && cb[m] == graph.edges@[e].from_node;
                                    assert(connected@[m] == cb[m]);
                                }
                                assert(connected@[k] == cb[k]);
                            } else {
                                if current != flow_node_id {
                                    let m = choose|m: int| 0 <= m < c0.len() && c0[m] == current;
                                    assert(cb[m] == c0[m]);
                                    assert(connected@[m] == current);
                                }
                                assert(graph.edges@[i as int].to_node == connected@[k]);
                            }
                        }
                        assert forall|k: int| 0 <= k < connected@.len() implies #[trigger] is_target(graph.edges@, connected@[k]) by {
                            if k < cb.len() {
                                assert(is_target(graph.edges@, cb[k]));
                                assert(connected@[k] == cb[k]);
                            } else {
                                assert(graph.edges@[i as int].to_node == connected@[k]);
                            }
                        }
                        assert forall|k: int| 0 <= k < queue@.len() implies queue@[k] == flow_node_id || connected@.contains(#[trigger] queue@[k]) by {
                            if k < qb.len() {
                                assert(queue@[k] == qb[k]);
                                if qb[k] != flow_node_id {
                                    let m = choose|m: int| 0 <= m < cb.len() && cb[m] == qb[k];
                                    assert(connected@[m] == cb[m]);
                                }
                            } else {
                                assert(queue@[k] == edge.to_node);
                                assert(connected@[connected@.len() - 1] == edge.to_node);
                            }
                        }
                        assert forall|x: u32| c0.contains(x) implies connected@.contains(x) by {
                            let m = choose|m: int| 0 <= m < c0.len() && c0[m] == x;
                            assert(connected@.subrange(0, c0.len() as int)[m] == connected@[m]);
                        }
                        assert forall|x: u32| cb.contains(x) implies connected@.contains(x) by {
                            let m = choose|m: int| 0 <= m < cb.len() && cb[m] == x;
                            assert(connected@[m] == cb[m]);
                        }
                        assert(connected@[connected@.len() - 1] == edge.to_node);
                        assert(!queue@.contains(current)) by {
                            if queue@.contains(current) {
                                let k = choose|k: int| 0 <= k < queue@.len() && queue@[k] == current;
                                if k < qb.len() {
                                    assert(qb[k] == current);
                                }
                            }
                        }
                        assert(queue@.no_duplicates()) by {
                            assert forall|a: int, b: int| 0 <= a < b < queue@.len() implies queue@[a] != queue@[b] by {
                                if b == queue@.len() - 1 && a < qb.len() {
                                    assert(queue@[a] == qb[a]);
                                    if qb[a] == edge.to_node {
                                        assert(qb[a] == flow_node_id || cb.contains(qb[a]));
                                    }
                                } else if b < qb.len() {
                                    assert(queue@[a] == qb[a] && queue@[b] == qb[b]);
                                }
                            }
                        }
                    }
                }
                i += 1;
            }
            proof {
                assert forall|x: u32| c0.contains(x) implies connected@.contains(x) by {
                    let m = choose|m: int| 0 <= m < c0.len() && c0[m] == x;
                    assert(connected@.subrange(0, c0.len() as int)[m] == connected@[m]);
                }
                lemma_targets_bound(graph.edges@, connected@);
                assert forall|e: int| 0 <= e < graph.edges@.len() && (graph.edges@[e].from_node == flow_node_id || connected@.contains(graph.edges@[e].from_node))
                    && !queue@.contains(graph.edges@[e].from_node)
                    implies (#[trigger] graph.edges@[e]).to_node == flow_node_id || connected@.contains(graph.edges@[e].to_node) by {
                    let f = graph.edges@[e].from_node;
                    if f != current && f != flow_node_id && !c0.contains(f) {
                        let m = choose|m: int| 0 <= m < connected@.len() && connected@[m] == f;
                        assert(m >= c0.len()) by {
                            if m < c0.len() {
                                assert(connected@.subrange(0, c0.len() as int)[m] == connected@[m]);
                            }
                        }
                        assert(queue@[q0.len() + m - c0.len()] == connected@.subrange(c0.len() as int, connected@.len() as int)[m - c0.len()]);
                    }
                    if f != current && (f == flow_node_id || c0.contains(f)) {
                        if q0.contains(f) {
                            let k = choose|k: int| 0 <= k < q0.len() && q0[k] == f;
                            assert(queue@[k] == q0[k]);
                        }
                        let t = graph.edges@[e].to_node;
                        if c0.contains(t) {
                            let m = choose|m: int| 0 <= m < c0.len() && c0[m] == t;
                            assert(connected@.subrange(0, c0.len() as int)[m] == connected@[m]);
                        }
                    }
                }
                if connected@.len() == c0.len() {
                    assert(queue@ =~= q0);
                }
                assert(qfull.drop_last() =~= q0);
                assert(scan_edges(*graph, flow_node_id, current, connected@, graph.edges@.len() as int) == connected@);
            }
        }
        connected
    }
}

impl RuleEngine {
    /// Runs a flow: the nodes reachable from the flow node, each on demand,
    /// in the order `get_connected_nodes_for_flow` finds them.
    pub fn execute_flow_pipeline(&mut self, graph: &ExecutionGraph, flow_node_id: u32) -> (r: Result<(), RuleEngineError>)
        requires
            old(self).wf(),
            graph.regs_ok(),
        ensures
            final(self).wf(),
            old(self).frame_kept(final(self)),
            node_index(graph.nodes@, flow_node_id) is None ==> (r matches Err(RuleEngineError::InvalidNodeType))
                && *final(self) == *old(self),
            node_index(graph.nodes@, flow_node_id) is Some ==> found_from(*graph, flow_node_id, flow_order(*graph, flow_node_id))
                && res_v(r) == sp_flow_nodes(old(self).ev(), *graph, flow_order(*graph, flow_node_id), old(self).max_recursion_depth, 0).0
                && final(self).ev() == sp_flow_nodes(old(self).ev(), *graph, flow_order(*graph, flow_node_id), old(self).max_recursion_depth, 0).1,
            r is Ok ==> final(self).execution_path@ == old(self).execution_path@,
    {
        match find_node(graph, flow_node_id) {
            None => return Err(RuleEngineError::InvalidNodeType),
            Some(_) => {},
        }
        let connected_nodes = self.get_connected_nodes_for_flow(flow_node_id, graph);
        let ghost ids = connected_nodes@;
        let ghost d = self.max_recursion_depth;
        let mut i: usize = 0;
        while i < connected_nodes.len()
            invariant
                graph.regs_ok(),
                ids == connected_nodes@,
                i <= ids.len(),
                self.wf(),
                old(self).frame_kept(self),
                d == old(self).max_recursion_depth,
                self.execution_path@ == old(self).execution_path@,
                node_index(graph.nodes@, flow_node_id) is Some,
                found_from(*graph, flow_node_id, ids),
                ids == flow_order(*graph, flow_node_id),
                sp_flow_nodes(old(self).ev(), *graph, ids, d, 0) == sp_flow_nodes(self.ev(), *graph, ids, d, i as int),
            decreases ids.len() - i,
        {
            let ghost before = self.ev();
            match find_node(graph, connected_nodes[i]) {
                Some(k) => {
                    assert(graph.nodes@.contains(graph.nodes@[k as int]));
                    match self.execute_node_demand_driven(&graph.nodes[k], graph) {
                        Err(e) => {
                            let ghost rr: Result<(), RuleEngineError> = Err(e);
                            assert(sp_flow_nodes(before, *graph, ids, d, i as int).0 == res_v(rr));
                            assert(sp_flow_nodes(before, *graph, ids, d, i as int).1 == self.ev());
                            return Err(e);
                        },
                        Ok(()) => {},
                    }
                },
                None => {},
            }
            i += 1;
        }
        Ok(())
    }

    /// Runs a flow in a copy of the context, then puts the context back.
    pub fn pass_context_to_subflow(&mut self, subflow_node_id: u32, graph: &ExecutionGraph) -> (r: Result<(), RuleEngineError>)
        requires
            old(self).wf(),
            graph.regs_ok(),
        ensures
            final(self).wf(),
            final(self).context == old(self).context,
            final(self).priority_strategy == old(self).priority_strategy,
            final(self).max_recursion_depth == old(self).max_recursion_depth,
            final(self).step_count == old(self).step_count,
            final(self).max_steps == old(self).max_steps,
            final(self).activation_records == old(self).activation_records,
            node_index(graph.nodes@, subflow_node_id) is None ==> (r matches Err(RuleEngineError::InvalidNodeType))
                && *final(self) == *old(self),
            node_index(graph.nodes@, subflow_node_id) is Some ==> ({
                let ids = flow_order(*graph, subflow_node_id);
                &&& found_from(*graph, subflow_node_id, ids)
                &&& res_v(r) == sp_flow_nodes(old(self).ev(), *graph, ids, old(self).max_recursion_depth, 0).0
                &&& final(self).priority_queue@ == sp_flow_nodes(old(self).ev(), *graph, ids, old(self).max_recursion_depth, 0).1.queue
                &&& final(self).rule_priorities@ == sp_flow_nodes(old(self).ev(), *graph, ids, old(self).max_recursion_depth, 0).1.prios
                &&& final(self).execution_path@ == sp_flow_nodes(old(self).ev(), *graph, ids, old(self).max_recursion_depth, 0).1.path
            }),
    {
        let mut sub_context = self.clone_context();
        sub_context.current_node_id = Some(subflow_node_id);
        std::mem::swap(&mut self.context, &mut sub_context);
        assert(self.ev().regs =~= old(self).ev().regs) by {
            assert forall|i: int| 0 <= i < self.context.registers@.len() implies
                register_view(#[trigger] self.context.registers@[i]) == register_view(old(self).context.registers@[i]) by {
            }
        }
        let result = self.execute_flow_pipeline(graph, subflow_node_id);
        self.context = sub_context;
        result
    }

    /// Runs the graph: the entry points are queued, then, while the queue
    /// holds a node and fewer than `max_steps` steps were taken, the node of
    /// highest rank leaves the queue, becomes the current node and, when the
    /// graph has it, runs after conflict-aware scheduling; a step is counted
    /// for each node taken. Reaching the step limit is an error. See `run_graph`.
    pub fn execute_graph(&mut self, graph: &ExecutionGraph) -> (r: Result<(), RuleEngineError>)
        requires
            old(self).wf(),
            graph.regs_ok(),
        ensures
            final(self).wf(),
            final(self).max_steps == old(self).max_steps,
            final(self).max_recursion_depth == old(self).max_recursion_depth,
            old(self).step_count <= final(self).step_count,
            r is Ok ==> final(self).priority_queue@.len() == 0 && final(self).step_count < final(self).max_steps,
            final(self).step_count >= final(self).max_steps ==> r matches Err(RuleEngineError::ExecutionLimitExceeded),
            r is Ok ==> final(self).execution_path@ == old(self).execution_path@,
            ({
                let q0 = queue_entries(old(self).priority_queue@, graph.entry_points@, old(self).rule_priorities@, old(self).priority_strategy);
                let start = RunV {
                    v: with_queue(old(self).ev(), q0),
                    strategy: old(self).priority_strategy,
                    current: old(self).context.current_node_id,
                    steps: old(self).step_count,
                };
                let end = run_graph(*graph, start, old(self).max_steps, old(self).max_recursion_depth);
                &&& res_v(r) == end.0
                &&& final(self).ev() == end.1.v
                &&& final(self).priority_strategy == end.1.strategy
                &&& final(self).context.current_node_id == end.1.current
                &&& final(self).step_count == end.1.steps
            }),
            final(self).context.variables == old(self).context.variables,
            final(self).context.facts == old(self).context.facts,
            final(self).context.rule_results == old(self).context.rule_results,
            final(self).activation_records == old(self).activation_records,
    {
        let ghost q_start = self.priority_queue@;
        let ghost entries = graph.entry_points@;
        let mut e: usize = 0;
        assert(entries.subrange(0, 0) =~= Seq::<u32>::empty());
        while e < graph.entry_points.len()
            invariant
                self.wf(),
                e <= graph.entry_points@.len(),
                entries == graph.entry_points@,
                self.max_steps == old(self).max_steps,
                self.max_recursion_depth == old(self).max_recursion_depth,
                self.step_count == old(self).step_count,
                self.execution_path == old(self).execution_path,
                self.rule_priorities == old(self).rule_priorities,
                self.priority_strategy == old(self).priority_strategy,
                self.context == old(self).context,
                self.activation_records == old(self).activation_records,
                self.priority_queue@ == queue_entries(q_start, entries.subrange(0, e as int), old(self).rule_priorities@, old(self).priority_strategy),
            decreases graph.entry_points@.len() - e,
        {
            self.add_to_priority_queue_with_strategy(graph.entry_points[e]);
            assert(entries.subrange(0, e + 1).drop_last() =~= entries.subrange(0, e as int));
            e += 1;
        }
        assert(entries.subrange(0, entries.len() as int) =~= entries);
        let ghost start = RunV {
            v: self.ev(),
            strategy: self.priority_strategy,
            current: self.context.current_node_id,
            steps: self.step_count,
        };
        let ghost end = run_graph(*graph, start, old(self).max_steps, old(self).max_recursion_depth);
        assert(self.ev() == with_queue(old(self).ev(), queue_entries(q_start, entries, old(self).rule_priorities@, old(self).priority_strategy))) by {
            assert(self.ev().regs =~= old(self).ev().regs);
        }
        while self.priority_queue.len() > 0 && self.step_count < self.max_steps
            invariant
                graph.regs_ok(),
                self.wf(),
                self.max_steps == old(self).max_steps,
                self.max_recursion_depth == old(self).max_recursion_depth,
                old(self).step_count <= self.step_count,
                self.execution_path@ == old(self).execution_path@,
                run_graph(*graph, RunV {
                    v: self.ev(),
                    strategy: self.priority_strategy,
                    current: self.context.current_node_id,
                    steps: self.step_count,
                }, self.max_steps, self.max_recursion_depth) == end,
                end == run_graph(*graph, RunV {
                    v: with_queue(old(self).ev(), queue_entries(old(self).priority_queue@, graph.entry_points@, old(self).rule_priorities@, old(self).priority_strategy)),
                    strategy: old(self).priority_strategy,
                    current: old(self).context.current_node_id,
                    steps: old(self).step_count,
                }, old(self).max_steps, old(self).max_recursion_depth),
                self.context.variables == old(self).context.variables,
                self.context.facts == old(self).context.facts,
                self.context.rule_results == old(self).context.rule_results,
                self.activation_records == old(self).activation_records,
            ensures
                graph.regs_ok(),
                self.wf(),
                self.max_steps == old(self).max_steps,
                self.max_recursion_depth == old(self).max_recursion_depth,
                old(self).step_count <= self.step_count,
                self.execution_path@ == old(self).execution_path@,
                self.priority_queue@.len() == 0 || self.step_count >= self.max_steps,
                run_graph(*graph, RunV {
                    v: self.ev(),
                    strategy: self.priority_strategy,
                    current: self.context.current_node_id,
                    steps: self.step_count,
                }, self.max_steps, self.max_recursion_depth) == end,
                self.context.variables == old(self).context.variables,
                self.context.facts == old(self).context.facts,
                self.context.rule_results == old(self).context.rule_results,
                self.activation_records == old(self).activation_records,
            decreases self.max_steps - self.step_count,
        {
            let ghost s0 = self.ev();
            let ghost st0 = self.priority_strategy;
            let ghost it = RunV { v: self.ev(), strategy: self.priority_strategy, current: self.context.current_node_id, steps: self.step_count };
            let ghost srt = rank_order(s0.queue, s0.prios, st0);
            match self.select_next_node() {
                Some(node_id) => {
                    self.context.current_node_id = Some(node_id);
                    let ghost v1 = with_queue(s0, srt.subrange(1, srt.len() as int));
                    assert(self.ev() == v1) by {
                        assert(self.ev().regs =~= v1.regs);
                    }
                    match find_node(graph, node_id) {
                        Some(k) => {
                            self.conflict_aware_schedule(graph);
                            assert(self.ev() == schedule_v(*graph, v1, st0).0) by {
                                assert(self.ev().regs =~= v1.regs);
                            }
                            assert(graph.nodes@.contains(graph.nodes@[k as int]));
                            let ghost v2 = self.ev();
                            let ghost strategy2 = self.priority_strategy;
                            match self.execute_node(&graph.nodes[k], graph) {
                                Err(err) => {
                                    proof {
                                        let (res, v3) = sp_node(v2, *graph, graph.nodes@[k as int], self.max_recursion_depth);
                                        assert(res is Err);
                                        assert(run_graph(*graph, it, self.max_steps, self.max_recursion_depth)
                                            == (res, RunV { v: v3, strategy: strategy2, current: Some(node_id), steps: it.steps }));
                                    }
                                    return Err(err);
                                },
                                Ok(()) => {},
                            }
                        },
                        None => {},
                    }
                },
                None => {
                    break;
                },
            }
            self.step_count = self.step_count + 1;
        }
        if self.step_count >= self.max_steps {
            return Err(RuleEngineError::ExecutionLimitExceeded);
        }
        Ok(())
    }
}

/// The queue once each entry point is put in it in turn: a node already queued
/// stays where it is, a new one is queued and the queue ordered by rank.
pub open spec fn queue_entries(q: Seq<u32>, entries: Seq<u32>, prios: Map<u32, RulePriority>, strategy: PriorityStrategy) -> Seq<u32>
    decreases entries.len(),
{
    if entries.len() == 0 {
        q
    } else {
        let q1 = queue_entries(q, entries.drop_last(), prios, strategy);
        if q1.contains(entries.last()) {
            q1
        } else {
            rank_order(q1.push(entries.last()), prios, strategy)
        }
    }
}

/// The state of a run of the graph: what node runs touch, the ranking
/// strategy, the current node and the steps taken.
pub struct RunV {
    pub v: EngV,
    pub strategy: PriorityStrategy,
    pub current: Option<u32>,
    pub steps: u32,
}

/// Conflict-aware scheduling: when the graph's rules conflict, their
/// conflict scores are set, the strategy becomes conflict resolution and the
/// queue is ordered by rank under it.
pub open spec fn schedule_v(g: ExecutionGraph, v: EngV, strategy: PriorityStrategy) -> (EngV, PriorityStrategy) {
    if conflict_pairs(g).len() == 0 {
        (v, strategy)
    } else {
        let p = scored(v.prios, g);
        (EngV { regs: v.regs, queue: rank_order(v.queue, p, PriorityStrategy::ConflictResolution), prios: p, path: v.path },
            PriorityStrategy::ConflictResolution)
    }
}

/// A run of the graph from a state: while a node is queued and fewer than
/// `max_steps` steps were taken, the node of highest rank (the first in the
/// queue among equals) leaves the queue and becomes current; when the graph
/// has a node of that id, the first such runs after conflict-aware scheduling
/// (see `sp_node`), and an error ends the run; each node taken counts a step.
/// A run that reaches the step limit ends in an error.
pub open spec fn run_graph(g: ExecutionGraph, st: RunV, max_steps: u32, depth: u32) -> (Result<(), EngErr>, RunV)
    decreases max_steps - st.steps,
{
    if st.v.queue.len() == 0 || st.steps >= max_steps {
        (if st.steps >= max_steps { Err(EngErr::ExecutionLimitExceeded) } else { Ok(()) }, st)
    } else {
        let s = rank_order(st.v.queue, st.v.prios, st.strategy);
        let n = s[0];
        let v1 = with_queue(st.v, s.subrange(1, s.len() as int));
        match node_index(g.nodes@, n) {
            Some(k) => {
                let (v2, strategy2) = schedule_v(g, v1, st.strategy);
                let (res, v3) = sp_node(v2, g, g.nodes@[k], depth);
                match res {
                    Err(e) => (Err(e), RunV { v: v3, strategy: strategy2, current: Some(n), steps: st.steps }),
                    Ok(()) => run_graph(g, RunV { v: v3, strategy: strategy2, current: Some(n), steps: (st.steps + 1) as u32 }, max_steps, depth),
                }
            },
            None => run_graph(g, RunV { v: v1, strategy: st.strategy, current: Some(n), steps: (st.steps + 1) as u32 }, max_steps, depth),
        }
    }
}


impl RuleEngine {
    /// The record the engine keeps for a rule node: its rank under the
    /// current strategy cut to 16 bits, its executions now in progress, a
    /// recursion limit of 10, and no condition, action or dependencies.
    pub open spec fn rule_record_ok(&self, info: RuleExecutionInfo) -> bool {
        &&& info.priority == self.rank_of(info.rule_id) as u16
        &&& info.execution_count == self.active_count(info.rule_id)
        &&& info.condition_graph_id is None
        &&& info.action_graph_id is None
        &&& info.dependencies@.len() == 0
        &&& info.recursion_limit == 10
    }

    /// The rule nodes of the graph as rule records, highest priority first,
    /// then by id.
    pub fn evaluate_rules(&mut self, graph: &ExecutionGraph) -> (r: Result<Vec<RuleExecutionInfo>, String>)
        requires
            old(self).wf(),
        ensures
            *final(self) == *old(self),
            r is Ok,
            r matches Ok(v) ==> {
                &&& v@.map_values(|i: RuleExecutionInfo| i.rule_id).to_multiset() == rule_ids(graph.nodes@).to_multiset()
                &&& v@.len() == rule_ids(graph.nodes@).len()
                &&& forall|k: int| 0 <= k < v@.len() ==> old(self).rule_record_ok(#[trigger] v@[k])
                &&& in_rank_order(v@)
            },
    {
        let mut matched: Vec<RuleExecutionInfo> = Vec::new();
        let mut i: usize = 0;
        while i < graph.nodes.len()
            invariant
                self.wf(),
                *self == *old(self),
                i <= graph.nodes@.len(),
                matched@.map_values(|x: RuleExecutionInfo| x.rule_id) == rule_ids(graph.nodes@.subrange(0, i as int)),
                forall|k: int| 0 <= k < matched@.len() ==> self.rule_record_ok(#[trigger] matched@[k]),
            decreases graph.nodes@.len() - i,
        {
            assert(graph.nodes@.subrange(0, i + 1).drop_last() =~= graph.nodes@.subrange(0, i as int));
            if graph.nodes[i].node_type == GraphNodeType::Rule {
                let rule_id = graph.nodes[i].id;
                let count = match self.rule_execution_counts.get(rule_id) {
                    Some(c) => *c,
                    None => 0,
                };
                let rank = self.get_rule_priority(rule_id);
                let info = RuleExecutionInfo {
                    rule_id,
                    priority: #[verifier::truncate] (rank as u16),
                    condition_graph_id: None,
                    action_graph_id: None,
                    dependencies: Vec::new(),
                    recursion_limit: 10,
                    execution_count: count,
                };
                let ghost before = matched@.map_values(|x: RuleExecutionInfo| x.rule_id);
                matched.push(info);
                assert(matched@.map_values(|x: RuleExecutionInfo| x.rule_id) =~= before.push(rule_id));
            }
            i += 1;
        }
        assert(graph.nodes@.subrange(0, i as int) =~= graph.nodes@);
        let ghost unsorted = matched@;
        crate::sorting::sort_ranked_in_place(&mut matched);
        proof {
            crate::sorting::lemma_map_same_elements(matched@, unsorted, |x: RuleExecutionInfo| x.rule_id);
            assert forall|k: int| 0 <= k < matched@.len() implies self.rule_record_ok(#[trigger] matched@[k]) by {
                assert(matched@.to_multiset().count(matched@[k]) > 0);
                assert(unsorted.to_multiset().count(matched@[k]) > 0);
                assert(unsorted.contains(matched@[k]));
                let j = choose|j: int| 0 <= j < unsorted.len() && unsorted[j] == matched@[k];
                assert(self.rule_record_ok(unsorted[j]));
            }
            assert(unsorted.map_values(|x: RuleExecutionInfo| x.rule_id).len() == rule_ids(graph.nodes@).len());
        }
        Ok(matched)
    }
}

/// A value computed lazily is kept: evaluating the same node again gives
/// the same value and changes nothing.
pub proof fn law_lazy_value_is_cached(st: LazyV, g: ExecutionGraph, id: u32, d: u32)
    requires
        sp_lazy(st, g, id, d).0 is Ok,
    ensures
        sp_lazy(sp_lazy(st, g, id, d).1, g, id, d) == sp_lazy(st, g, id, d),
{
    let first = sp_lazy(st, g, id, d);
    assert(first.1.vars.contains_key(lazy_key(id)));
}

} // verus!
