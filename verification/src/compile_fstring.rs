//! Compiles f-strings.
use vstd::prelude::*;

use crate::ast::{
    ConversionFlag, DebugText, FStringElement, FStringExpressionElement, FStringPart, FStringValue,
};
use crate::bytecode::{ConstantData, Instruction};
use crate::compiler::{to_u32, Compiler};
use crate::expr_code::group_halted_parts;
use crate::state::{group_halted_steps, located, outcome, Halt, State};
use crate::validity::{group_layout, kept};

verus! {

broadcast use {group_halted_steps, group_halted_parts, group_layout};

impl<'a> Compiler<'a> {
    #[verifier::spinoff_prover]
    pub(crate) fn compile_expr_fstring(&mut self, fstring: &FStringValue) -> (r: Result<(), Halt>)
        requires
            old(self).wf(),
        ensures
            located(r, old(self)@),
            final(self)@.path == old(self)@.path,
            final(self).wf(),
            r is Ok ==> kept(old(self)@, final(self)@),
            outcome(final(self)@, r) == old(self)@.fstring(*fstring),
        decreases fstring, 0nat, 0nat,
    {
        reveal(State::fstring);
        reveal(State::fstring_parts);
        self.compile_fstring_parts(&fstring.parts)?;
        let part_count: u32 = to_u32(fstring.parts.len())?;
        if part_count > 1 {
            self.emit(Instruction::BuildString { size: part_count });
        }
        Ok(())
    }

    #[verifier::spinoff_prover]
    pub(crate) fn compile_fstring_parts(&mut self, s: &Vec<FStringPart>) -> (r: Result<(), Halt>)
        requires
            old(self).wf(),
        ensures
            located(r, old(self)@),
            final(self)@.path == old(self)@.path,
            final(self).wf(),
            r is Ok ==> kept(old(self)@, final(self)@),
            outcome(final(self)@, r) == old(self)@.fstring_parts(s@, 0),
        decreases s@, 0nat, s@.len() + 1,
    {
        let n: usize = s.len();
        let mut i: usize = 0;
        while i < n
            invariant
                self.wf(),
                kept(old(self)@, self@),
                i <= n,
                n == s@.len(),
                old(self)@.fstring_parts(s@, 0) == self@.fstring_parts(s@, i as nat),
            decreases n - i,
        {
            reveal(State::fstring_parts);
            reveal(State::fstring_elements);
            match &s[i] {
                FStringPart::Literal(text) => self.emit_load_const(
                    ConstantData::Str { value: text.clone() },
                )?,
                FStringPart::FString(f) => self.compile_fstring_elements(&f.elements)?,
            }
            i += 1;
        }
        reveal(State::fstring_parts);
        reveal(State::fstring_elements);
        Ok(())
    }

    #[verifier::spinoff_prover]
    pub(crate) fn compile_fstring_elements(
        &mut self,
        s: &Vec<FStringElement>,
    ) -> (r: Result<(), Halt>)
        requires
            old(self).wf(),
        ensures
            located(r, old(self)@),
            final(self)@.path == old(self)@.path,
            final(self).wf(),
            r is Ok ==> kept(old(self)@, final(self)@),
            outcome(final(self)@, r) == old(self)@.fstring_elements(s@),
        decreases s@, 1nat, 0nat,
    {
        reveal(State::fstring_elements);
        reveal(State::fstring_element_values);
        self.compile_fstring_element_values(s)?;
        let element_count: u32 = to_u32(s.len())?;
        if element_count == 0 {
            // ensure to put an empty string on the stack if there aren't any fstring elements
            self.emit_load_const(ConstantData::Str { value: "".to_owned() })?;
        } else if element_count > 1 {
            self.emit(Instruction::BuildString { size: element_count });
        }
        Ok(())
    }

    #[verifier::spinoff_prover]
    pub(crate) fn compile_fstring_element_values(
        &mut self,
        s: &Vec<FStringElement>,
    ) -> (r: Result<(), Halt>)
        requires
            old(self).wf(),
        ensures
            located(r, old(self)@),
            final(self)@.path == old(self)@.path,
            final(self).wf(),
            r is Ok ==> kept(old(self)@, final(self)@),
            outcome(final(self)@, r) == old(self)@.fstring_element_values(s@, 0),
        decreases s@, 0nat, s@.len() + 1,
    {
        let n: usize = s.len();
        let mut i: usize = 0;
        while i < n
            invariant
                self.wf(),
                kept(old(self)@, self@),
                i <= n,
                n == s@.len(),
                old(self)@.fstring_element_values(s@, 0) == self@.fstring_element_values(
                    s@,
                    i as nat,
                ),
            decreases n - i,
        {
            reveal(State::fstring_element_values);
            reveal(State::fstring_expression);
            match &s[i] {
                FStringElement::Literal(text) => self.emit_load_const(
                    ConstantData::Str { value: text.clone() },
                )?,
                FStringElement::Expression(x) => self.compile_fstring_expression(x)?,
            }
            i += 1;
        }
        reveal(State::fstring_element_values);
        reveal(State::fstring_expression);
        Ok(())
    }

    #[verifier::spinoff_prover]
    pub(crate) fn compile_debug_text(&mut self, text: &Option<DebugText>) -> (r: Result<(), Halt>)
        requires
            old(self).wf(),
        ensures
            located(r, old(self)@),
            final(self)@.path == old(self)@.path,
            final(self).wf(),
            r is Ok ==> kept(old(self)@, final(self)@),
            outcome(final(self)@, r) == old(self)@.debug_text(*text),
    {
        reveal(State::debug_text);
        if let Some(text) = text {
            self.emit_load_const(ConstantData::Str { value: text.leading.clone() })?;
            self.emit_load_const(ConstantData::Str { value: text.source.clone() })?;
            self.emit_load_const(ConstantData::Str { value: text.trailing.clone() })?;
        }
        Ok(())
    }

    #[verifier::spinoff_prover]
    pub(crate) fn compile_fstring_expression(
        &mut self,
        x: &FStringExpressionElement,
    ) -> (r: Result<(), Halt>)
        requires
            old(self).wf(),
        ensures
            located(r, old(self)@),
            final(self)@.path == old(self)@.path,
            final(self).wf(),
            r is Ok ==> kept(old(self)@, final(self)@),
            outcome(final(self)@, r) == old(self)@.fstring_expression(*x),
        decreases x, 0nat, 0nat,
    {
        reveal(State::fstring_expression);
        reveal(State::fstring_elements);
        reveal(State::expr);
        let mut conversion = x.conversion;
        let debug = x.debug_text.is_some();
        self.compile_debug_text(&x.debug_text)?;
        match &x.format_spec {
            None => {
                self.emit_load_const(ConstantData::Str { value: "".to_owned() })?;
                // Match CPython behavior: If debug text is present, apply repr conversion.
                if conversion == ConversionFlag::Plain && debug {
                    conversion = ConversionFlag::Repr;
                }
            },
            Some(spec) => {
                self.compile_fstring_elements(&spec.elements)?;
            },
        }
        self.compile_expression(&x.expression)?;
        self.emit(Instruction::FormatValue { conversion });
        // concatenate formatted string and debug text (if present)
        if debug {
            self.emit(Instruction::BuildString { size: 4 });
        }
        Ok(())
    }
}

} // verus!
