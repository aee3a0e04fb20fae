//! Compiles expressions.
use vstd::prelude::*;

use crate::ast::{
    BoolOp, DictItem, Expr, ExprAttribute, ExprAwait, ExprBinOp, ExprDict, ExprIf, ExprNamed,
    ExprSlice, ExprSubscript, ExprUnaryOp, ExprYield, ExprYieldFrom, Number, Operator, TextRange,
    UnaryOp,
};
use crate::bytecode::{BinaryOperator, ConstantData, Instruction, UnaryOperator};
use crate::compiler::{to_u32, Compiler};
use crate::error::CodegenErrorType;
use crate::expr_code::{group_halted_parts, joined_bytes, operator_code, Display};
use crate::integer::ruff_int_to_bigint;
use crate::state::{group_halted_steps, located, outcome, FunctionContext, Halt, State};
use crate::validity::{group_layout, kept};

verus! {

broadcast use {group_halted_steps, group_halted_parts, group_layout};

/// The bytes of a concatenated literal.
pub(crate) fn concatenated(parts: &Vec<Vec<u8>>) -> (r: Vec<u8>)
    ensures
        r@ == joined_bytes(parts@, 0),
{
    let mut r: Vec<u8> = Vec::new();
    let n: usize = parts.len();
    let mut i: usize = 0;
    assert(Seq::<u8>::empty() + joined_bytes(parts@, 0) =~= joined_bytes(parts@, 0));
    while i < n
        invariant
            i <= n,
            n == parts@.len(),
            r@ + joined_bytes(parts@, i as nat) == joined_bytes(parts@, 0),
        decreases n - i,
    {
        let part = &parts[i];
        let k: usize = part.len();
        let mut j: usize = 0;
        let ghost start = r@;
        assert(start + part@.take(0) =~= start);
        while j < k
            invariant
                j <= k,
                k == part@.len(),
                r@ == start + part@.take(j as int),
            decreases k - j,
        {
            r.push(part[j]);
            assert(start + part@.take(j + 1) =~= (start + part@.take(j as int)).push(part@[j as int]));
            j += 1;
        }
        assert(part@.take(k as int) =~= part@);
        assert((start + part@) + joined_bytes(parts@, (i + 1) as nat) =~= start + (part@
            + joined_bytes(parts@, (i + 1) as nat)));
        i += 1;
    }
    assert(r@ + Seq::<u8>::empty() =~= r@);
    r
}

impl<'a> Compiler<'a> {
    pub fn set_source_range(&mut self, range: TextRange)
        requires
            old(self).wf(),
        ensures
            final(self).wf(),
            kept(old(self)@, final(self)@),
            final(self)@ == old(self)@.set_range(range),
    {
        self.current_source_range = range;
    }

    pub fn compile_op(&mut self, op: &Operator, inplace: bool)
        requires
            old(self).wf(),
        ensures
            final(self).wf(),
            kept(old(self)@, final(self)@),
            final(self)@ == old(self)@.emit(operator_code(*op, inplace)),
    {
        let op = match op {
            Operator::Add => BinaryOperator::Add,
            Operator::Sub => BinaryOperator::Subtract,
            Operator::Mult => BinaryOperator::Multiply,
            Operator::MatMult => BinaryOperator::MatrixMultiply,
            Operator::Div => BinaryOperator::Divide,
            Operator::FloorDiv => BinaryOperator::FloorDivide,
            Operator::Mod => BinaryOperator::Modulo,
            Operator::Pow => BinaryOperator::Power,
            Operator::LShift => BinaryOperator::Lshift,
            Operator::RShift => BinaryOperator::Rshift,
            Operator::BitOr => BinaryOperator::Or,
            Operator::BitXor => BinaryOperator::Xor,
            Operator::BitAnd => BinaryOperator::And,
        };
        if inplace {
            self.emit(Instruction::BinaryOperationInplace { op })
        } else {
            self.emit(Instruction::BinaryOperation { op })
        }
    }

    #[verifier::spinoff_prover]
    pub(crate) fn compile_literal(&mut self, e: &Expr) -> (r: Result<(), Halt>)
        requires
            old(self).wf(),
        ensures
            located(r, old(self)@),
            final(self)@.path == old(self)@.path,
            final(self).wf(),
            r is Ok ==> kept(old(self)@, final(self)@),
            outcome(final(self)@, r) == old(self)@.literal(*e),
    {
        reveal(State::literal);
        match e {
            Expr::StringLiteral(x) => self.emit_load_const(
                ConstantData::Str { value: x.value.clone() },
            ),
            Expr::BytesLiteral(x) => self.emit_load_const(
                ConstantData::Bytes { value: concatenated(&x.value) },
            ),
            Expr::NumberLiteral(x) => match &x.value {
                Number::Int(i) => match ruff_int_to_bigint(i) {
                    Ok(value) => self.emit_load_const(ConstantData::Integer { value }),
                    Err(e) => Err(Halt::Error(self.error(e))),
                },
                Number::Float(bits) => self.emit_load_const(ConstantData::Float { value: *bits }),
                Number::Complex { re, im } => self.emit_load_const(
                    ConstantData::Complex { re: *re, im: *im },
                ),
            },
            Expr::BooleanLiteral(x) => self.emit_load_const(
                ConstantData::Boolean { value: x.value },
            ),
            Expr::NoneLiteral(_) => self.emit_load_const(ConstantData::NoneValue),
            Expr::EllipsisLiteral(_) => self.emit_load_const(ConstantData::Ellipsis),
            _ => Err(Halt::Panic),
        }
    }

    #[verifier::spinoff_prover]
    pub(crate) fn compile_bin_op(&mut self, x: &ExprBinOp) -> (r: Result<(), Halt>)
        requires
            old(self).wf(),
        ensures
            located(r, old(self)@),
            final(self)@.path == old(self)@.path,
            final(self).wf(),
            r is Ok ==> kept(old(self)@, final(self)@),
            outcome(final(self)@, r) == old(self)@.bin_op(*x),
        decreases x, 0nat, 0nat,
    {
        reveal(State::bin_op);
        reveal(State::expr);
        self.compile_expression(&x.left)?;
        self.compile_expression(&x.right)?;
        // Perform operation:
        self.compile_op(&x.op, false);
        Ok(())
    }

    #[verifier::spinoff_prover]
    pub(crate) fn compile_subscript(&mut self, x: &ExprSubscript) -> (r: Result<(), Halt>)
        requires
            old(self).wf(),
        ensures
            located(r, old(self)@),
            final(self)@.path == old(self)@.path,
            final(self).wf(),
            r is Ok ==> kept(old(self)@, final(self)@),
            outcome(final(self)@, r) == old(self)@.subscript(*x),
        decreases x, 0nat, 0nat,
    {
        reveal(State::subscript);
        reveal(State::expr);
        self.compile_expression(&x.value)?;
        self.compile_expression(&x.slice)?;
        self.emit(Instruction::Subscript);
        Ok(())
    }

    #[verifier::spinoff_prover]
    pub(crate) fn compile_unary_op(&mut self, x: &ExprUnaryOp) -> (r: Result<(), Halt>)
        requires
            old(self).wf(),
        ensures
            located(r, old(self)@),
            final(self)@.path == old(self)@.path,
            final(self).wf(),
            r is Ok ==> kept(old(self)@, final(self)@),
            outcome(final(self)@, r) == old(self)@.unary_op(*x),
        decreases x, 0nat, 0nat,
    {
        reveal(State::unary_op);
        reveal(State::expr);
        self.compile_expression(&x.operand)?;
        // Perform operation:
        let op = match x.op {
            UnaryOp::UAdd => UnaryOperator::Plus,
            UnaryOp::USub => UnaryOperator::Minus,
            UnaryOp::Not => UnaryOperator::Not,
            UnaryOp::Invert => UnaryOperator::Invert,
        };
        self.emit(Instruction::UnaryOperation { op });
        Ok(())
    }

    #[verifier::spinoff_prover]
    pub(crate) fn compile_attribute(&mut self, x: &ExprAttribute) -> (r: Result<(), Halt>)
        requires
            old(self).wf(),
        ensures
            located(r, old(self)@),
            final(self)@.path == old(self)@.path,
            final(self).wf(),
            r is Ok ==> kept(old(self)@, final(self)@),
            outcome(final(self)@, r) == old(self)@.attribute(*x),
        decreases x, 0nat, 0nat,
    {
        reveal(State::attribute);
        reveal(State::expr);
        self.compile_expression(&x.value)?;
        let idx: u32 = self.name(x.attr.as_str())?;
        self.emit(Instruction::LoadAttr { idx });
        Ok(())
    }

    #[verifier::spinoff_prover]
    pub(crate) fn compile_display(&mut self, elts: &Vec<Expr>, ty: Display) -> (r: Result<(), Halt>)
        requires
            old(self).wf(),
        ensures
            located(r, old(self)@),
            final(self)@.path == old(self)@.path,
            final(self).wf(),
            r is Ok ==> kept(old(self)@, final(self)@),
            outcome(final(self)@, r) == old(self)@.display(elts@, ty),
        decreases elts@, 2nat, 0nat,
    {
        reveal(State::display);
        reveal(State::gather);
        let (size, unpack) = self.gather_elements(0, elts)?;
        let instr = match ty {
            Display::List => if unpack {
                Instruction::BuildListUnpack { size }
            } else {
                Instruction::BuildList { size }
            },
            Display::Tuple => if unpack {
                Instruction::BuildTupleUnpack { size }
            } else {
                Instruction::BuildTuple { size }
            },
            Display::SetDisplay => if unpack {
                Instruction::BuildSetUnpack { size }
            } else {
                Instruction::BuildSet { size }
            },
        };
        self.emit(instr);
        Ok(())
    }

    #[verifier::spinoff_prover]
    pub(crate) fn compile_yield(&mut self, x: &ExprYield) -> (r: Result<(), Halt>)
        requires
            old(self).wf(),
        ensures
            located(r, old(self)@),
            final(self)@.path == old(self)@.path,
            final(self).wf(),
            r is Ok ==> kept(old(self)@, final(self)@),
            outcome(final(self)@, r) == old(self)@.yield_value(*x),
        decreases x, 0nat, 0nat,
    {
        reveal(State::yield_value);
        reveal(State::bound);
        if !self.ctx.in_func() {
            return Err(Halt::Error(self.error(CodegenErrorType::InvalidYield)));
        }
        self.mark_generator();
        self.compile_bound(&x.value)?;
        self.emit(Instruction::YieldValue);
        Ok(())
    }

    #[verifier::spinoff_prover]
    pub(crate) fn compile_await(&mut self, x: &ExprAwait) -> (r: Result<(), Halt>)
        requires
            old(self).wf(),
        ensures
            located(r, old(self)@),
            final(self)@.path == old(self)@.path,
            final(self).wf(),
            r is Ok ==> kept(old(self)@, final(self)@),
            outcome(final(self)@, r) == old(self)@.await_value(*x),
        decreases x, 0nat, 0nat,
    {
        reveal(State::await_value);
        reveal(State::expr);
        if self.ctx.func != FunctionContext::AsyncFunction {
            return Err(Halt::Error(self.error(CodegenErrorType::InvalidAwait)));
        }
        self.compile_expression(&x.value)?;
        self.emit(Instruction::GetAwaitable);
        self.emit_load_const(ConstantData::NoneValue)?;
        self.emit(Instruction::YieldFrom);
        Ok(())
    }

    #[verifier::spinoff_prover]
    pub(crate) fn compile_yield_from(&mut self, x: &ExprYieldFrom) -> (r: Result<(), Halt>)
        requires
            old(self).wf(),
        ensures
            located(r, old(self)@),
            final(self)@.path == old(self)@.path,
            final(self).wf(),
            r is Ok ==> kept(old(self)@, final(self)@),
            outcome(final(self)@, r) == old(self)@.yield_from(*x),
        decreases x, 0nat, 0nat,
    {
        reveal(State::yield_from);
        reveal(State::expr);
        match self.ctx.func {
            FunctionContext::NoFunction => {
                return Err(Halt::Error(self.error(CodegenErrorType::InvalidYieldFrom)));
            },
            FunctionContext::AsyncFunction => {
                return Err(Halt::Error(self.error(CodegenErrorType::AsyncYieldFrom)));
            },
            FunctionContext::Function => {},
        }
        self.mark_generator();
        self.compile_expression(&x.value)?;
        self.emit(Instruction::GetIter);
        self.emit_load_const(ConstantData::NoneValue)?;
        self.emit(Instruction::YieldFrom);
        Ok(())
    }

    #[verifier::spinoff_prover]
    pub(crate) fn compile_named(&mut self, x: &ExprNamed) -> (r: Result<(), Halt>)
        requires
            old(self).wf(),
        ensures
            located(r, old(self)@),
            final(self)@.path == old(self)@.path,
            final(self).wf(),
            r is Ok ==> kept(old(self)@, final(self)@),
            outcome(final(self)@, r) == old(self)@.named(*x),
        decreases x, 0nat, 0nat,
    {
        reveal(State::named);
        reveal(State::expr);
        reveal(State::store);
        self.compile_expression(&x.value)?;
        self.emit(Instruction::Duplicate);
        self.compile_store(&x.target)
    }

    #[verifier::spinoff_prover]
    pub fn compile_expression(&mut self, expression: &Expr) -> (r: Result<(), Halt>)
        requires
            old(self).wf(),
        ensures
            located(r, old(self)@),
            final(self)@.path == old(self)@.path,
            final(self).wf(),
            r is Ok ==> kept(old(self)@, final(self)@),
            outcome(final(self)@, r) == old(self)@.expr(*expression),
        decreases expression, 3nat, 0nat,
    {
        reveal(State::expr);
        reveal(State::call);
        reveal(State::bool_op);
        reveal(State::bin_op);
        reveal(State::subscript);
        reveal(State::unary_op);
        reveal(State::attribute);
        reveal(State::compare);
        reveal(State::display);
        reveal(State::dict);
        reveal(State::slice);
        reveal(State::yield_value);
        reveal(State::await_value);
        reveal(State::yield_from);
        reveal(State::lambda);
        reveal(State::comprehension);
        reveal(State::conditional);
        reveal(State::named);
        reveal(State::fstring);
        let range = expression.range();
        self.set_source_range(range);
        match expression {
            Expr::Call(x) => self.compile_call(x),
            Expr::BoolOp(x) => self.compile_bool_op(x),
            Expr::BinOp(x) => self.compile_bin_op(x),
            Expr::Subscript(x) => self.compile_subscript(x),
            Expr::UnaryOp(x) => self.compile_unary_op(x),
            Expr::Attribute(x) => self.compile_attribute(x),
            Expr::Compare(x) => self.compile_chained_comparison(x),
            Expr::List(x) => self.compile_display(&x.elts, Display::List),
            Expr::Tuple(x) => self.compile_display(&x.elts, Display::Tuple),
            Expr::SetDisplay(x) => self.compile_display(&x.elts, Display::SetDisplay),
            Expr::Dict(x) => self.compile_dict(x),
            Expr::Slice(x) => self.compile_slice(x),
            Expr::Yield(x) => self.compile_yield(x),
            Expr::Await(x) => self.compile_await(x),
            Expr::YieldFrom(x) => self.compile_yield_from(x),
            Expr::Name(x) => self.load_name(x.id.as_str()),
            Expr::Lambda(x) => self.compile_lambda(x),
            Expr::ListComp(_) | Expr::SetComp(_) | Expr::DictComp(_) | Expr::Generator(
                _,
            ) => self.compile_comprehension(expression),
            Expr::Starred(_) => Err(Halt::Error(self.error(CodegenErrorType::InvalidStarExpr))),
            Expr::If(x) => self.compile_conditional(x),
            Expr::Named(x) => self.compile_named(x),
            Expr::FString(x) => self.compile_expr_fstring(&x.value),
            Expr::IpyEscapeCommand(_) => Err(Halt::Panic),
            _ => self.compile_literal(expression),
        }
    }

    #[verifier::spinoff_prover]
    pub(crate) fn compile_expressions(&mut self, s: &Vec<Expr>) -> (r: Result<(), Halt>)
        requires
            old(self).wf(),
        ensures
            located(r, old(self)@),
            final(self)@.path == old(self)@.path,
            final(self).wf(),
            r is Ok ==> kept(old(self)@, final(self)@),
            outcome(final(self)@, r) == old(self)@.exprs(s@, 0),
        decreases s@, 0nat, s@.len() + 1,
    {
        let n: usize = s.len();
        let mut i: usize = 0;
        let ghost start = self@;
        while i < n
            invariant
                self.wf(),
                kept(old(self)@, self@),
                i <= n,
                n == s@.len(),
                start == old(self)@,
                start.exprs(s@, 0) == self@.exprs(s@, i as nat),
            decreases n - i,
        {
            reveal(State::exprs);
            reveal(State::expr);
            self.compile_expression(&s[i])?;
            i += 1;
        }
        reveal(State::exprs);
        reveal(State::expr);
        Ok(())
    }

    #[verifier::spinoff_prover]
    pub(crate) fn compile_bound(&mut self, bound: &Option<Box<Expr>>) -> (r: Result<(), Halt>)
        requires
            old(self).wf(),
        ensures
            located(r, old(self)@),
            final(self)@.path == old(self)@.path,
            final(self).wf(),
            r is Ok ==> kept(old(self)@, final(self)@),
            outcome(final(self)@, r) == old(self)@.bound(*bound),
        decreases bound, 0nat, 0nat,
    {
        reveal(State::bound);
        reveal(State::expr);
        match bound {
            Some(e) => self.compile_expression(e),
            None => self.emit_load_const(ConstantData::NoneValue),
        }
    }

    #[verifier::spinoff_prover]
    pub(crate) fn compile_slice(&mut self, x: &ExprSlice) -> (r: Result<(), Halt>)
        requires
            old(self).wf(),
        ensures
            located(r, old(self)@),
            final(self)@.path == old(self)@.path,
            final(self).wf(),
            r is Ok ==> kept(old(self)@, final(self)@),
            outcome(final(self)@, r) == old(self)@.slice(*x),
        decreases x, 0nat, 0nat,
    {
        reveal(State::slice);
        reveal(State::bound);
        reveal(State::expr);
        self.compile_bound(&x.lower)?;
        self.compile_bound(&x.upper)?;
        if let Some(step) = &x.step {
            self.compile_expression(step)?;
        }
        self.emit(Instruction::BuildSlice { step: x.step.is_some() });
        Ok(())
    }

    #[verifier::spinoff_prover]
    pub(crate) fn compile_conditional(&mut self, x: &ExprIf) -> (r: Result<(), Halt>)
        requires
            old(self).wf(),
        ensures
            located(r, old(self)@),
            final(self)@.path == old(self)@.path,
            final(self).wf(),
            r is Ok ==> kept(old(self)@, final(self)@),
            outcome(final(self)@, r) == old(self)@.conditional(*x),
        decreases x, 0nat, 0nat,
    {
        reveal(State::conditional);
        reveal(State::jump_if);
        reveal(State::expr);
        let else_block = self.new_block()?;
        let after_block = self.new_block()?;
        self.compile_jump_if(&x.test, false, else_block)?;
        // True case
        self.compile_expression(&x.body)?;
        self.emit(Instruction::Jump { target: after_block });
        // False case
        self.switch_to_block(else_block);
        self.compile_expression(&x.orelse)?;
        // End
        self.switch_to_block(after_block);
        Ok(())
    }

    #[verifier::spinoff_prover]
    pub(crate) fn compile_dict(&mut self, x: &ExprDict) -> (r: Result<(), Halt>)
        requires
            old(self).wf(),
        ensures
            located(r, old(self)@),
            final(self)@.path == old(self)@.path,
            final(self).wf(),
            r is Ok ==> kept(old(self)@, final(self)@),
            outcome(final(self)@, r) == old(self)@.dict(*x),
        decreases x, 0nat, 0nat,
    {
        reveal(State::dict);
        reveal(State::dict_items);
        self.compile_dict_items(&x.items)
    }

    /// Builds a dict from its items, in the order of the source.
    #[verifier::spinoff_prover]
    pub(crate) fn compile_dict_items(&mut self, s: &Vec<DictItem>) -> (r: Result<(), Halt>)
        requires
            old(self).wf(),
        ensures
            located(r, old(self)@),
            final(self)@.path == old(self)@.path,
            final(self).wf(),
            r is Ok ==> kept(old(self)@, final(self)@),
            outcome(final(self)@, r) == old(self)@.dict_items(s@, 0, 0, false),
        decreases s@, 0nat, s@.len() + 1,
    {
        let n: usize = s.len();
        let mut i: usize = 0;
        let mut run: usize = 0;
        let mut made: bool = false;
        while i < n
            invariant
                self.wf(),
                kept(old(self)@, self@),
                i <= n,
                n == s@.len(),
                run <= i,
                old(self)@.dict_items(s@, 0, 0, false) == self@.dict_items(
                    s@,
                    i as nat,
                    run as nat,
                    made,
                ),
            decreases n - i,
        {
            reveal(State::dict_items);
            reveal(State::expr);
            match &s[i].key {
                Some(key) => {
                    self.compile_expression(key)?;
                    self.compile_expression(&s[i].value)?;
                    run += 1;
                },
                None => {
                    self.close_dict_run(run, made)?;
                    self.compile_expression(&s[i].value)?;
                    self.emit(Instruction::DictUpdate);
                    run = 0;
                    made = true;
                },
            }
            i += 1;
        }
        reveal(State::dict_items);
        reveal(State::expr);
        self.close_dict_run(run, made)
    }

    /// Makes the dict of the first run of items, or updates it with those of a later run.
    #[verifier::spinoff_prover]
    fn close_dict_run(&mut self, run: usize, made: bool) -> (r: Result<(), Halt>)
        requires
            old(self).wf(),
        ensures
            located(r, old(self)@),
            final(self)@.path == old(self)@.path,
            final(self).wf(),
            r is Ok ==> kept(old(self)@, final(self)@),
            outcome(final(self)@, r) == old(self)@.dict_run(run as nat, made),
    {
        if !made || run > 0 {
            let size: u32 = to_u32(run)?;
            self.emit(Instruction::BuildMap { size });
            if made {
                self.emit(Instruction::DictUpdate);
            }
        }
        Ok(())
    }
}

} // verus!
