//! Compiles boolean operations, conditions and comparisons.
use vstd::prelude::*;

use crate::ast::{BoolOp, CmpOp, Expr, ExprBoolOp, ExprCompare, UnaryOp};
use crate::bytecode::{BlockIdx, ComparisonOperator, Instruction, TestOperator};
use crate::compiler::Compiler;
use crate::expr_code::{comparison_code, conditional_jump, group_halted_parts};
use crate::state::{group_halted_steps, located, outcome, Halt, State};
use crate::validity::{group_layout, kept};

verus! {

broadcast use {group_halted_steps, group_halted_parts, group_layout};

impl<'a> Compiler<'a> {
    pub(crate) fn compile_comparison_op(&mut self, op: &CmpOp)
        requires
            old(self).wf(),
        ensures
            final(self).wf(),
            kept(old(self)@, final(self)@),
            final(self)@ == old(self)@.emit(comparison_code(*op)),
    {
        let instr = match op {
            CmpOp::Eq => Instruction::CompareOperation { op: ComparisonOperator::Equal },
            CmpOp::NotEq => Instruction::CompareOperation { op: ComparisonOperator::NotEqual },
            CmpOp::Lt => Instruction::CompareOperation { op: ComparisonOperator::Less },
            CmpOp::LtE => Instruction::CompareOperation { op: ComparisonOperator::LessOrEqual },
            CmpOp::Gt => Instruction::CompareOperation { op: ComparisonOperator::Greater },
            CmpOp::GtE => Instruction::CompareOperation { op: ComparisonOperator::GreaterOrEqual },
            CmpOp::In => Instruction::TestOperation { op: TestOperator::In },
            CmpOp::NotIn => Instruction::TestOperation { op: TestOperator::NotIn },
            CmpOp::Is => Instruction::TestOperation { op: TestOperator::Is },
            CmpOp::IsNot => Instruction::TestOperation { op: TestOperator::IsNot },
        };
        self.emit(instr)
    }

    /// Compile a boolean operation as an expression.
    /// This means, that the last value remains on the stack.
    #[verifier::spinoff_prover]
    pub(crate) fn compile_bool_op(&mut self, x: &ExprBoolOp) -> (r: Result<(), Halt>)
        requires
            old(self).wf(),
        ensures
            located(r, old(self)@),
            final(self)@.path == old(self)@.path,
            final(self).wf(),
            r is Ok ==> kept(old(self)@, final(self)@),
            outcome(final(self)@, r) == old(self)@.bool_op(*x),
        decreases x, 0nat, 0nat,
    {
        reveal(State::bool_op);
        reveal(State::bool_values);
        reveal(State::expr);
        let after_block = self.new_block()?;
        let n: usize = x.values.len();
        if n == 0 {
            return Err(Halt::Panic);
        }
        self.compile_bool_values(&x.values, x.op, after_block)?;
        // If all values did not qualify, take the value of the last value:
        self.compile_expression(&x.values[n - 1])?;
        self.switch_to_block(after_block);
        Ok(())
    }

    #[verifier::spinoff_prover]
    pub(crate) fn compile_bool_values(
        &mut self,
        s: &Vec<Expr>,
        op: BoolOp,
        after_block: BlockIdx,
    ) -> (r: Result<(), Halt>)
        requires
            old(self).wf(),
            after_block.0 < old(self)@.top().blocks.len(),
            s@.len() > 0,
        ensures
            located(r, old(self)@),
            final(self)@.path == old(self)@.path,
            final(self).wf(),
            r is Ok ==> kept(old(self)@, final(self)@),
            outcome(final(self)@, r) == old(self)@.bool_values(s@, 0, op, after_block),
        decreases s@, 0nat, s@.len() + 1,
    {
        let n: usize = s.len();
        let mut i: usize = 0;
        while i < n - 1
            invariant
                self.wf(),
                kept(old(self)@, self@),
                after_block.0 < old(self)@.top().blocks.len(),
                i <= n - 1,
                n == s@.len(),
                n > 0,
                old(self)@.bool_values(s@, 0, op, after_block) == self@.bool_values(
                    s@,
                    i as nat,
                    op,
                    after_block,
                ),
            decreases n - i,
        {
            reveal(State::bool_values);
            reveal(State::expr);
            self.compile_expression(&s[i])?;
            match op {
                BoolOp::And => self.emit(Instruction::JumpIfFalseOrPop { target: after_block }),
                BoolOp::Or => self.emit(Instruction::JumpIfTrueOrPop { target: after_block }),
            }
            i += 1;
        }
        reveal(State::bool_values);
        reveal(State::expr);
        Ok(())
    }

    /// Implement boolean short circuit evaluation logic.
    /// https://en.wikipedia.org/wiki/Short-circuit_evaluation
    ///
    /// This means, in a boolean statement 'x and y' the variable y will
    /// not be evaluated when x is false.
    ///
    /// The idea is to jump to a label if the expression is either true or false
    /// (indicated by the condition parameter).
    #[verifier::spinoff_prover]
    pub fn compile_jump_if(&mut self, expression: &Expr, condition: bool, target_block: BlockIdx)
        -> (r: Result<(), Halt>)
        requires
            old(self).wf(),
            target_block.0 < old(self)@.top().blocks.len(),
        ensures
            located(r, old(self)@),
            final(self)@.path == old(self)@.path,
            final(self).wf(),
            r is Ok ==> kept(old(self)@, final(self)@),
            outcome(final(self)@, r) == old(self)@.jump_if(*expression, condition, target_block),
        decreases expression, 4nat, 0nat,
    {
        reveal(State::jump_if);
        reveal(State::jump_ifs);
        reveal(State::expr);
        match expression {
            Expr::BoolOp(x) => {
                let n: usize = x.values.len();
                if (x.op == BoolOp::And) == condition {
                    // The truth is the condition only if that of all the values is: any other
                    // value can short-circuit.
                    let end_block = self.new_block()?;
                    if n == 0 {
                        return Err(Halt::Panic);
                    }
                    self.compile_jump_ifs(&x.values, n - 1, !condition, end_block)?;
                    // It depends upon the last value now.
                    self.compile_jump_if(&x.values[n - 1], condition, target_block)?;
                    self.switch_to_block(end_block);
                    Ok(())
                } else {
                    // Any value whose truth is the condition decides.
                    self.compile_jump_ifs(&x.values, n, condition, target_block)
                }
            },
            Expr::UnaryOp(x) => {
                if x.op == UnaryOp::Not {
                    return self.compile_jump_if(&x.operand, !condition, target_block);
                }
                self.compile_expression(expression)?;
                self.emit_conditional_jump(condition, target_block);
                Ok(())
            },
            _ => {
                // Fall back case which always will work!
                self.compile_expression(expression)?;
                self.emit_conditional_jump(condition, target_block);
                Ok(())
            },
        }
    }

    pub(crate) fn emit_conditional_jump(&mut self, condition: bool, target: BlockIdx)
        requires
            old(self).wf(),
            target.0 < old(self)@.top().blocks.len(),
        ensures
            final(self).wf(),
            kept(old(self)@, final(self)@),
            final(self)@ == old(self)@.emit(conditional_jump(condition, target)),
    {
        if condition {
            self.emit(Instruction::JumpIfTrue { target });
        } else {
            self.emit(Instruction::JumpIfFalse { target });
        }
    }

    #[verifier::spinoff_prover]
    pub(crate) fn compile_jump_ifs(
        &mut self,
        s: &Vec<Expr>,
        n: usize,
        condition: bool,
        target_block: BlockIdx,
    ) -> (r: Result<(), Halt>)
        requires
            old(self).wf(),
            target_block.0 < old(self)@.top().blocks.len(),
            n <= s@.len(),
        ensures
            located(r, old(self)@),
            final(self)@.path == old(self)@.path,
            final(self).wf(),
            r is Ok ==> kept(old(self)@, final(self)@),
            outcome(final(self)@, r) == old(self)@.jump_ifs(
                s@,
                0,
                n as nat,
                condition,
                target_block,
            ),
        decreases s@, 0nat, s@.len() + 1,
    {
        let mut i: usize = 0;
        while i < n
            invariant
                self.wf(),
                kept(old(self)@, self@),
                target_block.0 < old(self)@.top().blocks.len(),
                i <= n,
                n <= s@.len(),
                old(self)@.jump_ifs(s@, 0, n as nat, condition, target_block) == self@.jump_ifs(
                    s@,
                    i as nat,
                    n as nat,
                    condition,
                    target_block,
                ),
            decreases n - i,
        {
            reveal(State::jump_ifs);
            reveal(State::jump_if);
            self.compile_jump_if(&s[i], condition, target_block)?;
            i += 1;
        }
        reveal(State::jump_ifs);
        reveal(State::jump_if);
        Ok(())
    }

    #[verifier::spinoff_prover]
    pub(crate) fn compile_chained_comparison(&mut self, x: &ExprCompare) -> (r: Result<(), Halt>)
        requires
            old(self).wf(),
        ensures
            located(r, old(self)@),
            final(self)@.path == old(self)@.path,
            final(self).wf(),
            r is Ok ==> kept(old(self)@, final(self)@),
            outcome(final(self)@, r) == old(self)@.compare(*x),
        decreases x, 0nat, 0nat,
    {
        reveal(State::compare);
        reveal(State::expr);
        reveal(State::compare_middle);
        let n: usize = x.ops.len();
        if n == 0 || x.comparators.len() != n {
            return Err(Halt::Panic);
        }
        // a == b == c == d
        // compile into (pseudo code):
        // result = a == b
        // if result:
        //   result = b == c
        //   if result:
        //     result = c == d
        self.compile_expression(&x.left)?;
        if n == 1 {
            self.compile_expression(&x.comparators[0])?;
            self.compile_comparison_op(&x.ops[0]);
            return Ok(());
        }
        let break_block = self.new_block()?;
        let after_block = self.new_block()?;
        self.compile_middle_comparisons(&x.ops, &x.comparators, break_block)?;
        // handle the last comparison
        self.compile_expression(&x.comparators[n - 1])?;
        self.compile_comparison_op(&x.ops[n - 1]);
        self.emit(Instruction::Jump { target: after_block });
        // early exit left us with stack: `rhs, comparison_result`. We need to clean up rhs.
        self.switch_to_block(break_block);
        self.emit(Instruction::Rotate2);
        self.emit(Instruction::Pop);
        self.switch_to_block(after_block);
        Ok(())
    }

    /// All comparisons except the last (as the last one doesn't need a conditional jump).
    #[verifier::spinoff_prover]
    pub(crate) fn compile_middle_comparisons(
        &mut self,
        ops: &Vec<CmpOp>,
        s: &Vec<Expr>,
        break_block: BlockIdx,
    ) -> (r: Result<(), Halt>)
        requires
            old(self).wf(),
            break_block.0 < old(self)@.top().blocks.len(),
            ops@.len() == s@.len(),
            s@.len() > 0,
        ensures
            located(r, old(self)@),
            final(self)@.path == old(self)@.path,
            final(self).wf(),
            r is Ok ==> kept(old(self)@, final(self)@),
            outcome(final(self)@, r) == old(self)@.compare_middle(ops@, s@, 0, break_block),
        decreases s@, 0nat, s@.len() + 1,
    {
        let n: usize = s.len();
        let mut i: usize = 0;
        while i < n - 1
            invariant
                self.wf(),
                kept(old(self)@, self@),
                break_block.0 < old(self)@.top().blocks.len(),
                i <= n - 1,
                n == s@.len(),
                n == ops@.len(),
                n > 0,
                old(self)@.compare_middle(ops@, s@, 0, break_block) == self@.compare_middle(
                    ops@,
                    s@,
                    i as nat,
                    break_block,
                ),
            decreases n - i,
        {
            reveal(State::compare_middle);
            reveal(State::expr);
            self.compile_expression(&s[i])?;
            // store rhs for the next comparison in chain
            self.emit(Instruction::Duplicate);
            self.emit(Instruction::Rotate3);
            self.compile_comparison_op(&ops[i]);
            // if comparison result is false, we break with this value; if true, try the next one.
            self.emit(Instruction::JumpIfFalseOrPop { target: break_block });
            i += 1;
        }
        reveal(State::compare_middle);
        reveal(State::expr);
        Ok(())
    }
}

} // verus!
