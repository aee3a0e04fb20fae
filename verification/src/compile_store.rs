//! Compiles assignment targets.
use vstd::prelude::*;

use crate::ast::{Expr, TextRange};
use crate::bytecode::{Instruction, UnpackExArgs};
use crate::compiler::{to_u32, Compiler};
use crate::error::CodegenErrorType;
use crate::expr_code::{first_star, group_halted_parts};
use crate::state::{group_halted_steps, located, outcome, Halt, NameUsage, State};
use crate::validity::{group_layout, kept};

verus! {

broadcast use {group_halted_steps, group_halted_parts, group_layout};

/// The place of the first starred expression from `from` on.
pub(crate) fn find_star(s: &Vec<Expr>, from: usize) -> (r: Option<usize>)
    requires
        from <= s@.len(),
    ensures
        r is Some == first_star(s@, from as nat) is Some,
        r is Some ==> r->0 == first_star(s@, from as nat)->0,
        r is Some ==> from <= r->0 < s@.len(),
{
    let n: usize = s.len();
    let mut i: usize = from;
    while i < n
        invariant
            from <= i <= n,
            n == s@.len(),
            first_star(s@, from as nat) == first_star(s@, i as nat),
        decreases n - i,
    {
        if let Expr::Starred(_) = &s[i] {
            return Some(i);
        }
        i += 1;
    }
    None
}

impl<'a> Compiler<'a> {
    #[verifier::spinoff_prover]
    pub fn compile_store(&mut self, target: &Expr) -> (r: Result<(), Halt>)
        requires
            old(self).wf(),
        ensures
            located(r, old(self)@),
            final(self)@.path == old(self)@.path,
            final(self).wf(),
            r is Ok ==> kept(old(self)@, final(self)@),
            outcome(final(self)@, r) == old(self)@.store(*target),
        decreases target, 2nat, 0nat,
    {
        reveal(State::store);
        reveal(State::expr);
        reveal(State::store_elements);
        match target {
            Expr::Name(x) => self.store_name(x.id.as_str()),
            Expr::Subscript(x) => {
                self.compile_expression(&x.value)?;
                self.compile_expression(&x.slice)?;
                self.emit(Instruction::StoreSubscript);
                Ok(())
            },
            Expr::Attribute(x) => {
                self.check_forbidden_name(x.attr.as_str(), NameUsage::Store)?;
                self.compile_expression(&x.value)?;
                let idx: u32 = self.name(x.attr.as_str())?;
                self.emit(Instruction::StoreAttr { idx });
                Ok(())
            },
            Expr::List(x) => {
                self.compile_unpack(&x.elts, x.range)?;
                self.compile_store_elements(&x.elts)
            },
            Expr::Tuple(x) => {
                self.compile_unpack(&x.elts, x.range)?;
                self.compile_store_elements(&x.elts)
            },
            Expr::Starred(_) => Err(
                Halt::Error(
                    self.error(
                        CodegenErrorType::SyntaxError(
                            "starred assignment target must be in a list or tuple".to_owned(),
                        ),
                    ),
                ),
            ),
            _ => Err(Halt::Error(self.error(CodegenErrorType::Assign(target.python_name())))),
        }
    }

    /// Unpacks the value on the stack for targets at `range`.
    #[verifier::spinoff_prover]
    pub(crate) fn compile_unpack(
        &mut self,
        elts: &Vec<Expr>,
        range: TextRange,
    ) -> (r: Result<(), Halt>)
        requires
            old(self).wf(),
        ensures
            located(r, old(self)@),
            final(self)@.path == old(self)@.path,
            final(self).wf(),
            r is Ok ==> kept(old(self)@, final(self)@),
            outcome(final(self)@, r) == old(self)@.unpack(elts@, range),
    {
        reveal(State::unpack);
        let n: usize = elts.len();
        match find_star(elts, 0) {
            None => {
                let size: u32 = to_u32(n)?;
                self.emit(Instruction::UnpackSequence { size });
                Ok(())
            },
            Some(i) => {
                let before: usize = i;
                let after: usize = n - i - 1;
                if before > u8::MAX as usize || after > u8::MAX as usize {
                    return Err(
                        Halt::Error(
                            self.error_ranged(CodegenErrorType::TooManyStarUnpack, range),
                        ),
                    );
                }
                let args = UnpackExArgs { before: before as u8, after: after as u8 };
                self.emit(Instruction::UnpackEx { args });
                if find_star(elts, i + 1).is_some() {
                    return Err(Halt::Error(self.error(CodegenErrorType::MultipleStarArgs)));
                }
                Ok(())
            },
        }
    }

    #[verifier::spinoff_prover]
    pub(crate) fn compile_store_elements(&mut self, s: &Vec<Expr>) -> (r: Result<(), Halt>)
        requires
            old(self).wf(),
        ensures
            located(r, old(self)@),
            final(self)@.path == old(self)@.path,
            final(self).wf(),
            r is Ok ==> kept(old(self)@, final(self)@),
            outcome(final(self)@, r) == old(self)@.store_elements(s@, 0),
        decreases s@, 0nat, s@.len() + 1,
    {
        let n: usize = s.len();
        let mut i: usize = 0;
        while i < n
            invariant
                self.wf(),
                kept(old(self)@, self@),
                i <= n,
                n == s@.len(),
                old(self)@.store_elements(s@, 0) == self@.store_elements(s@, i as nat),
            decreases n - i,
        {
            reveal(State::store_elements);
            reveal(State::store);
            match &s[i] {
                Expr::Starred(x) => self.compile_store(&x.value)?,
                element => self.compile_store(element)?,
            }
            i += 1;
        }
        reveal(State::store_elements);
        reveal(State::store);
        Ok(())
    }
}

} // verus!
