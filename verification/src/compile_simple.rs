//! Compiles statements that hold no other statement.
use vstd::prelude::*;

use crate::ast::{
    Alias, Annotation, Expr, Stmt, StmtAnnAssign, StmtAssert, StmtAssign, StmtAugAssign,
    StmtImportFrom, StmtRaise, StmtReturn, StmtTypeAlias,
};
use crate::bigint::{bigint_from_u64, bigint_zero};
use crate::bytecode::{constant_models, ConstantData, ConstantModel, Instruction, RaiseKind};
use crate::compiler::Compiler;
use crate::error::CodegenErrorType;
use crate::expr_code::group_halted_parts;
use crate::state::{
    group_halted_steps, located, outcome, DoneWithFuture, FunctionContext, Halt, NameUsage, State,
};
use crate::stmt_code::{from_list, group_halted_statements, import_star, settled_feature};
use crate::text::{split, str_eq, texts};
use crate::validity::{constant_ok, group_layout, kept};

verus! {

broadcast use {group_halted_steps, group_halted_parts, group_halted_statements, group_layout};

/// Whether one of the names is `*`.
fn has_import_star(s: &Vec<Alias>) -> (r: bool)
    ensures
        r == import_star(s@, 0),
{
    let n: usize = s.len();
    let mut i: usize = 0;
    while i < n
        invariant
            i <= n,
            n == s@.len(),
            import_star(s@, 0) == import_star(s@, i as nat),
        decreases n - i,
    {
        if str_eq(s[i].name.as_str(), "*") {
            return true;
        }
        i += 1;
    }
    false
}

/// The names of an import, as a tuple.
fn from_list_constant(s: &Vec<Alias>) -> (r: ConstantData)
    ensures
        r@ == ConstantModel::Tuple(from_list(s@)),
        constant_ok(r@),
{
    let mut elements: Vec<ConstantData> = Vec::new();
    if has_import_star(s) {
        elements.push(ConstantData::Str { value: "*".to_owned() });
    } else {
        let n: usize = s.len();
        let mut i: usize = 0;
        while i < n
            invariant
                i <= n,
                n == s@.len(),
                elements@.len() == i,
                !import_star(s@, 0),
                forall|j: int| 0 <= j < i ==> (#[trigger] elements@[j])@ == from_list(s@)[j],
            decreases n - i,
        {
            elements.push(ConstantData::Str { value: s[i].name.clone() });
            i += 1;
        }
    }
    assert(constant_models(elements@) =~= from_list(s@));
    assert forall|j: int| 0 <= j < from_list(s@).len() implies constant_ok(
        #[trigger] from_list(s@)[j],
    ) by {}
    ConstantData::Tuple { elements }
}

/// Whether a feature of `from __future__` is there without being asked for.
fn is_settled_feature(name: &str) -> (r: bool)
    ensures
        r == settled_feature(name@),
{
    str_eq(name, "nested_scopes") || str_eq(name, "generators") || str_eq(name, "division")
        || str_eq(name, "absolute_import") || str_eq(name, "with_statement") || str_eq(
        name,
        "print_function",
    ) || str_eq(name, "unicode_literals") || str_eq(name, "generator_stop")
}

impl<'a> Compiler<'a> {
    #[verifier::spinoff_prover]
    fn take_features(&mut self, s: &Vec<Alias>) -> (r: Result<(), Halt>)
        requires
            old(self).wf(),
        ensures
            located(r, old(self)@),
            final(self)@.path == old(self)@.path,
            final(self).wf(),
            r is Ok ==> kept(old(self)@, final(self)@),
            outcome(final(self)@, r) == old(self)@.features(s@, 0),
    {
        let n: usize = s.len();
        let mut i: usize = 0;
        while i < n
            invariant
                self.wf(),
                kept(old(self)@, self@),
                i <= n,
                n == s@.len(),
                old(self)@.features(s@, 0) == self@.features(s@, i as nat),
            decreases n - i,
        {
            reveal(State::features);
            let name = s[i].name.as_str();
            if !is_settled_feature(name) {
                if str_eq(name, "annotations") {
                    self.future_annotations = true;
                } else {
                    return Err(
                        Halt::Error(
                            self.error(CodegenErrorType::InvalidFutureFeature(name.to_owned())),
                        ),
                    );
                }
            }
            i += 1;
        }
        reveal(State::features);
        Ok(())
    }

    #[verifier::spinoff_prover]
    fn compile_future_features(&mut self, features: &Vec<Alias>) -> (r: Result<(), Halt>)
        requires
            old(self).wf(),
        ensures
            located(r, old(self)@),
            final(self)@.path == old(self)@.path,
            final(self).wf(),
            r is Ok ==> kept(old(self)@, final(self)@),
            outcome(final(self)@, r) == old(self)@.future_features(features@),
    {
        reveal(State::future_features);
        if self.done_with_future_stmts == DoneWithFuture::Yes {
            return Err(Halt::Error(self.error(CodegenErrorType::InvalidFuturePlacement)));
        }
        self.done_with_future_stmts = DoneWithFuture::DoneWithDoc;
        self.take_features(features)
    }

    /// Takes note of what a statement means for the future imports that may come.
    #[verifier::spinoff_prover]
    pub(crate) fn note_future(&mut self, statement: &Stmt) -> (r: Result<(), Halt>)
        requires
            old(self).wf(),
        ensures
            located(r, old(self)@),
            final(self)@.path == old(self)@.path,
            final(self).wf(),
            r is Ok ==> kept(old(self)@, final(self)@),
            outcome(final(self)@, r) == old(self)@.note_future(*statement),
    {
        reveal(State::note_future);
        match statement {
            // we do this here because `from __future__` still executes that `from` statement at
            // runtime, we still need to compile the ImportFrom later
            Stmt::ImportFrom(x) => {
                if let Some(module) = &x.module {
                    if str_eq(module.as_str(), "__future__") {
                        return self.compile_future_features(&x.names);
                    }
                }
                self.done_with_future_stmts = DoneWithFuture::Yes;
            },
            // ignore module-level doc comments
            Stmt::Expr(x) => {
                let is_doc = match &*x.value {
                    Expr::StringLiteral(_) => true,
                    _ => false,
                };
                if is_doc && self.done_with_future_stmts == DoneWithFuture::No {
                    self.done_with_future_stmts = DoneWithFuture::DoneWithDoc;
                } else {
                    self.done_with_future_stmts = DoneWithFuture::Yes;
                }
            },
            // if we find any other statement, stop accepting future statements
            _ => {
                self.done_with_future_stmts = DoneWithFuture::Yes;
            },
        }
        Ok(())
    }

    /// Loads attribute after attribute, from part `1` on.
    #[verifier::spinoff_prover]
    fn load_attributes(&mut self, parts: &Vec<String>) -> (r: Result<(), Halt>)
        requires
            old(self).wf(),
            parts@.len() > 0,
        ensures
            located(r, old(self)@),
            final(self)@.path == old(self)@.path,
            final(self).wf(),
            r is Ok ==> kept(old(self)@, final(self)@),
            outcome(final(self)@, r) == old(self)@.attributes(texts(parts@), 1),
    {
        let n: usize = parts.len();
        let mut i: usize = 1;
        let ghost all = texts(parts@);
        while i < n
            invariant
                self.wf(),
                kept(old(self)@, self@),
                1 <= i <= n,
                n == parts@.len(),
                all == texts(parts@),
                old(self)@.attributes(all, 1) == self@.attributes(all, i as nat),
            decreases n - i,
        {
            reveal(State::attributes);
            assert(all[i as int] == parts@[i as int]@);
            let idx: u32 = self.name(parts[i].as_str())?;
            self.emit(Instruction::LoadAttr { idx });
            i += 1;
        }
        reveal(State::attributes);
        Ok(())
    }

    #[verifier::spinoff_prover]
    fn import_module(&mut self, alias: &Alias) -> (r: Result<(), Halt>)
        requires
            old(self).wf(),
        ensures
            located(r, old(self)@),
            final(self)@.path == old(self)@.path,
            final(self).wf(),
            r is Ok ==> kept(old(self)@, final(self)@),
            outcome(final(self)@, r) == old(self)@.import_module(*alias),
    {
        reveal(State::import_module);
        self.emit_load_const(ConstantData::Integer { value: bigint_zero() })?;
        self.emit_load_const(ConstantData::NoneValue)?;
        let idx: u32 = self.name(alias.name.as_str())?;
        self.emit(Instruction::ImportName { idx });
        let parts = split(alias.name.as_str(), '.');
        assert(texts(parts@)[0] == parts@[0]@);
        match &alias.asname {
            Some(asname) => {
                self.load_attributes(&parts)?;
                self.store_name(asname.as_str())
            },
            None => self.store_name(parts[0].as_str()),
        }
    }

    /// import a, b, c as d
    #[verifier::spinoff_prover]
    fn compile_imports(&mut self, s: &Vec<Alias>) -> (r: Result<(), Halt>)
        requires
            old(self).wf(),
        ensures
            located(r, old(self)@),
            final(self)@.path == old(self)@.path,
            final(self).wf(),
            r is Ok ==> kept(old(self)@, final(self)@),
            outcome(final(self)@, r) == old(self)@.imports(s@, 0),
    {
        let n: usize = s.len();
        let mut i: usize = 0;
        while i < n
            invariant
                self.wf(),
                kept(old(self)@, self@),
                i <= n,
                n == s@.len(),
                old(self)@.imports(s@, 0) == self@.imports(s@, i as nat),
            decreases n - i,
        {
            reveal(State::imports);
            self.import_module(&s[i])?;
            i += 1;
        }
        reveal(State::imports);
        Ok(())
    }

    /// from mod import a, b as c
    #[verifier::spinoff_prover]
    fn import_names(&mut self, s: &Vec<Alias>) -> (r: Result<(), Halt>)
        requires
            old(self).wf(),
        ensures
            located(r, old(self)@),
            final(self)@.path == old(self)@.path,
            final(self).wf(),
            r is Ok ==> kept(old(self)@, final(self)@),
            outcome(final(self)@, r) == old(self)@.import_names(s@, 0),
    {
        let n: usize = s.len();
        let mut i: usize = 0;
        while i < n
            invariant
                self.wf(),
                kept(old(self)@, self@),
                i <= n,
                n == s@.len(),
                old(self)@.import_names(s@, 0) == self@.import_names(s@, i as nat),
            decreases n - i,
        {
            reveal(State::import_names);
            let idx: u32 = self.name(s[i].name.as_str())?;
            // import symbol from module:
            self.emit(Instruction::ImportFrom { idx });
            // Store module under proper name:
            match &s[i].asname {
                Some(alias) => self.store_name(alias.as_str())?,
                None => self.store_name(s[i].name.as_str())?,
            }
            i += 1;
        }
        reveal(State::import_names);
        Ok(())
    }

    #[verifier::spinoff_prover]
    fn import_source(&mut self, x: &StmtImportFrom) -> (r: Result<(), Halt>)
        requires
            old(self).wf(),
        ensures
            located(r, old(self)@),
            final(self)@.path == old(self)@.path,
            final(self).wf(),
            r is Ok ==> kept(old(self)@, final(self)@),
            outcome(final(self)@, r) == old(self)@.import_source(*x),
    {
        reveal(State::import_source);
        let module_idx: Option<u32> = match &x.module {
            Some(module) => Some(self.name(module.as_str())?),
            None => None,
        };
        // from .... import (*fromlist)
        self.emit_load_const(ConstantData::Integer { value: bigint_from_u64(x.level as u64) })?;
        self.emit_load_const(from_list_constant(&x.names))?;
        match module_idx {
            Some(idx) => self.emit(Instruction::ImportName { idx }),
            None => self.emit(Instruction::ImportNameless),
        }
        Ok(())
    }

    #[verifier::spinoff_prover]
    fn compile_import_from(&mut self, x: &StmtImportFrom) -> (r: Result<(), Halt>)
        requires
            old(self).wf(),
        ensures
            located(r, old(self)@),
            final(self)@.path == old(self)@.path,
            final(self).wf(),
            r is Ok ==> kept(old(self)@, final(self)@),
            outcome(final(self)@, r) == old(self)@.import_from(*x),
    {
        reveal(State::import_from);
        if has_import_star(&x.names) {
            if self.ctx.in_func() {
                return Err(
                    Halt::Error(self.error_ranged(CodegenErrorType::FunctionImportStar, x.range)),
                );
            }
            // from .... import *
            self.import_source(x)?;
            self.emit(Instruction::ImportStar);
        } else {
            self.import_source(x)?;
            self.import_names(&x.names)?;
            // Pop module from stack:
            self.emit(Instruction::Pop);
        }
        Ok(())
    }

    #[verifier::spinoff_prover]
    fn compile_raise(&mut self, x: &StmtRaise) -> (r: Result<(), Halt>)
        requires
            old(self).wf(),
        ensures
            located(r, old(self)@),
            final(self)@.path == old(self)@.path,
            final(self).wf(),
            r is Ok ==> kept(old(self)@, final(self)@),
            outcome(final(self)@, r) == old(self)@.raise(*x),
    {
        reveal(State::raise);
        let kind = match &x.exc {
            Some(value) => {
                self.compile_expression(value)?;
                match &x.cause {
                    Some(cause) => {
                        self.compile_expression(cause)?;
                        RaiseKind::RaiseCause
                    },
                    None => RaiseKind::Raise,
                }
            },
            None => RaiseKind::Reraise,
        };
        self.emit(Instruction::Raise { kind });
        Ok(())
    }

    #[verifier::spinoff_prover]
    fn compile_assert(&mut self, x: &StmtAssert) -> (r: Result<(), Halt>)
        requires
            old(self).wf(),
        ensures
            located(r, old(self)@),
            final(self)@.path == old(self)@.path,
            final(self).wf(),
            r is Ok ==> kept(old(self)@, final(self)@),
            outcome(final(self)@, r) == old(self)@.assertion(*x),
    {
        reveal(State::assertion);
        // if some flag, ignore all assert statements!
        if self.opts.optimize > 0 {
            return Ok(());
        }
        let after_block = self.new_block()?;
        self.compile_jump_if(&x.test, true, after_block)?;
        let assertion_error: u32 = self.name("AssertionError")?;
        self.emit(Instruction::LoadGlobal(assertion_error));
        match &x.msg {
            Some(e) => {
                self.compile_expression(e)?;
                self.emit(Instruction::CallFunctionPositional { nargs: 1 });
            },
            None => {
                self.emit(Instruction::CallFunctionPositional { nargs: 0 });
            },
        }
        self.emit(Instruction::Raise { kind: RaiseKind::Raise });
        self.switch_to_block(after_block);
        Ok(())
    }

    #[verifier::spinoff_prover]
    fn compile_return(&mut self, x: &StmtReturn) -> (r: Result<(), Halt>)
        requires
            old(self).wf(),
        ensures
            located(r, old(self)@),
            final(self)@.path == old(self)@.path,
            final(self).wf(),
            r is Ok ==> kept(old(self)@, final(self)@),
            outcome(final(self)@, r) == old(self)@.return_statement(*x),
    {
        reveal(State::return_statement);
        if !self.ctx.in_func() {
            return Err(Halt::Error(self.error_ranged(CodegenErrorType::InvalidReturn, x.range)));
        }
        match &x.value {
            Some(v) => {
                if self.ctx.func == FunctionContext::AsyncFunction
                    && self.current_flags().is_generator {
                    return Err(
                        Halt::Error(self.error_ranged(CodegenErrorType::AsyncReturnValue, x.range)),
                    );
                }
                self.compile_expression(v)?;
                self.emit_return_value();
                Ok(())
            },
            None => self.emit_return_const(ConstantData::NoneValue),
        }
    }

    #[verifier::spinoff_prover]
    fn assign_targets(&mut self, s: &Vec<Expr>) -> (r: Result<(), Halt>)
        requires
            old(self).wf(),
        ensures
            located(r, old(self)@),
            final(self)@.path == old(self)@.path,
            final(self).wf(),
            r is Ok ==> kept(old(self)@, final(self)@),
            outcome(final(self)@, r) == old(self)@.assign_targets(s@, 0),
    {
        let n: usize = s.len();
        let mut i: usize = 0;
        while i < n
            invariant
                self.wf(),
                kept(old(self)@, self@),
                i <= n,
                n == s@.len(),
                old(self)@.assign_targets(s@, 0) == self@.assign_targets(s@, i as nat),
            decreases n - i,
        {
            reveal(State::assign_targets);
            if i + 1 != n {
                self.emit(Instruction::Duplicate);
            }
            self.compile_store(&s[i])?;
            i += 1;
        }
        reveal(State::assign_targets);
        Ok(())
    }

    #[verifier::spinoff_prover]
    fn compile_assign(&mut self, x: &StmtAssign) -> (r: Result<(), Halt>)
        requires
            old(self).wf(),
        ensures
            located(r, old(self)@),
            final(self)@.path == old(self)@.path,
            final(self).wf(),
            r is Ok ==> kept(old(self)@, final(self)@),
            outcome(final(self)@, r) == old(self)@.assign(*x),
    {
        reveal(State::assign);
        self.compile_expression(&x.value)?;
        self.assign_targets(&x.targets)
    }

    #[verifier::spinoff_prover]
    fn compile_augassign(&mut self, x: &StmtAugAssign) -> (r: Result<(), Halt>)
        requires
            old(self).wf(),
        ensures
            located(r, old(self)@),
            final(self)@.path == old(self)@.path,
            final(self).wf(),
            r is Ok ==> kept(old(self)@, final(self)@),
            outcome(final(self)@, r) == old(self)@.augmented(*x),
    {
        reveal(State::augmented);
        match &*x.target {
            Expr::Name(t) => {
                self.compile_name(t.id.as_str(), NameUsage::Load)?;
                self.compile_expression(&x.value)?;
                self.compile_op(&x.op, true);
                // stack: RESULT
                self.compile_name(t.id.as_str(), NameUsage::Store)
            },
            Expr::Subscript(t) => {
                self.compile_expression(&t.value)?;
                self.compile_expression(&t.slice)?;
                self.emit(Instruction::Duplicate2);
                self.emit(Instruction::Subscript);
                self.compile_expression(&x.value)?;
                self.compile_op(&x.op, true);
                // stack: CONTAINER SLICE RESULT
                self.emit(Instruction::Rotate3);
                self.emit(Instruction::StoreSubscript);
                Ok(())
            },
            Expr::Attribute(t) => {
                self.check_forbidden_name(t.attr.as_str(), NameUsage::Store)?;
                self.compile_expression(&t.value)?;
                self.emit(Instruction::Duplicate);
                let idx: u32 = self.name(t.attr.as_str())?;
                self.emit(Instruction::LoadAttr { idx });
                self.compile_expression(&x.value)?;
                self.compile_op(&x.op, true);
                // stack: CONTAINER RESULT
                self.emit(Instruction::Rotate2);
                self.emit(Instruction::StoreAttr { idx });
                Ok(())
            },
            target => Err(Halt::Error(self.error(CodegenErrorType::Assign(target.python_name())))),
        }
    }

    #[verifier::spinoff_prover]
    pub(crate) fn compile_annotation(&mut self, annotation: &Annotation) -> (r: Result<(), Halt>)
        requires
            old(self).wf(),
        ensures
            located(r, old(self)@),
            final(self)@.path == old(self)@.path,
            final(self).wf(),
            r is Ok ==> kept(old(self)@, final(self)@),
            outcome(final(self)@, r) == old(self)@.annotation(*annotation),
    {
        reveal(State::annotation);
        if self.future_annotations {
            self.emit_load_const(ConstantData::Str { value: annotation.source.clone() })
        } else {
            self.compile_expression(&annotation.expr)
        }
    }

    #[verifier::spinoff_prover]
    fn compile_annotated_assign(&mut self, x: &StmtAnnAssign) -> (r: Result<(), Halt>)
        requires
            old(self).wf(),
        ensures
            located(r, old(self)@),
            final(self)@.path == old(self)@.path,
            final(self).wf(),
            r is Ok ==> kept(old(self)@, final(self)@),
            outcome(final(self)@, r) == old(self)@.annotated(*x),
    {
        reveal(State::annotated);
        if let Some(value) = &x.value {
            self.compile_expression(value)?;
            self.compile_store(&x.target)?;
        }
        // Annotations are only evaluated in a module or class.
        if self.ctx.in_func() {
            return Ok(());
        }
        // Compile annotation:
        self.compile_annotation(&x.annotation)?;
        match &*x.target {
            Expr::Name(name) => {
                // Store as dict entry in __annotations__ dict:
                let value = self.mangle(name.id.as_str());
                let annotations: u32 = self.name("__annotations__")?;
                self.emit(Instruction::LoadNameAny(annotations));
                self.emit_load_const(ConstantData::Str { value })?;
                self.emit(Instruction::StoreSubscript);
            },
            _ => {
                // Drop annotation if not assigned to simple identifier.
                self.emit(Instruction::Pop);
            },
        }
        Ok(())
    }

    #[verifier::spinoff_prover]
    fn compile_delete(&mut self, expression: &Expr) -> (r: Result<(), Halt>)
        requires
            old(self).wf(),
        ensures
            located(r, old(self)@),
            final(self)@.path == old(self)@.path,
            final(self).wf(),
            r is Ok ==> kept(old(self)@, final(self)@),
            outcome(final(self)@, r) == old(self)@.delete(*expression),
        decreases expression, 0nat, 0nat,
    {
        reveal(State::delete);
        reveal(State::deletes);
        match expression {
            Expr::Name(x) => self.compile_name(x.id.as_str(), NameUsage::Delete),
            Expr::Attribute(x) => {
                self.check_forbidden_name(x.attr.as_str(), NameUsage::Delete)?;
                self.compile_expression(&x.value)?;
                let idx: u32 = self.name(x.attr.as_str())?;
                self.emit(Instruction::DeleteAttr { idx });
                Ok(())
            },
            Expr::Subscript(x) => {
                self.compile_expression(&x.value)?;
                self.compile_expression(&x.slice)?;
                self.emit(Instruction::DeleteSubscript);
                Ok(())
            },
            Expr::Tuple(x) => self.compile_deletes(&x.elts),
            Expr::List(x) => self.compile_deletes(&x.elts),
            Expr::BinOp(_) | Expr::UnaryOp(_) => Err(
                Halt::Error(self.error(CodegenErrorType::Delete("expression"))),
            ),
            _ => Err(Halt::Error(self.error(CodegenErrorType::Delete(expression.python_name())))),
        }
    }

    #[verifier::spinoff_prover]
    fn compile_deletes(&mut self, s: &Vec<Expr>) -> (r: Result<(), Halt>)
        requires
            old(self).wf(),
        ensures
            located(r, old(self)@),
            final(self)@.path == old(self)@.path,
            final(self).wf(),
            r is Ok ==> kept(old(self)@, final(self)@),
            outcome(final(self)@, r) == old(self)@.deletes(s@, 0),
        decreases s@, 0nat, s@.len() + 1,
    {
        let n: usize = s.len();
        let mut i: usize = 0;
        while i < n
            invariant
                self.wf(),
                kept(old(self)@, self@),
                i <= n,
                n == s@.len(),
                old(self)@.deletes(s@, 0) == self@.deletes(s@, i as nat),
            decreases n - i,
        {
            reveal(State::deletes);
            reveal(State::delete);
            self.compile_delete(&s[i])?;
            i += 1;
        }
        reveal(State::deletes);
        reveal(State::delete);
        Ok(())
    }

    #[verifier::spinoff_prover]
    fn compile_type_alias(&mut self, x: &StmtTypeAlias) -> (r: Result<(), Halt>)
        requires
            old(self).wf(),
        ensures
            located(r, old(self)@),
            final(self)@.path == old(self)@.path,
            final(self).wf(),
            r is Ok ==> kept(old(self)@, final(self)@),
            outcome(final(self)@, r) == old(self)@.type_alias(*x),
    {
        reveal(State::type_alias);
        let name = match &*x.name {
            Expr::Name(name) => name,
            _ => {
                return Err(
                    Halt::Error(
                        self.error(
                            CodegenErrorType::SyntaxError("type alias expect name".to_owned()),
                        ),
                    ),
                );
            },
        };
        self.enter_type_params(&x.type_params)?;
        self.compile_expression(&x.value)?;
        self.compile_type_params(&x.type_params)?;
        self.leave_type_params(&x.type_params)?;
        self.emit_load_const(ConstantData::Str { value: name.id.clone() })?;
        self.emit(Instruction::TypeAlias);
        self.store_name(name.id.as_str())
    }

    /// Compiles a statement that holds no other one.
    #[verifier::spinoff_prover]
    pub(crate) fn compile_simple(&mut self, statement: &Stmt) -> (r: Result<(), Halt>)
        requires
            old(self).wf(),
            old(self)@.loop_ok(),
        ensures
            located(r, old(self)@),
            final(self)@.path == old(self)@.path,
            final(self).wf(),
            r is Ok ==> kept(old(self)@, final(self)@),
            outcome(final(self)@, r) == old(self)@.simple(*statement),
    {
        reveal(State::simple);
        match statement {
            Stmt::Import(x) => self.compile_imports(&x.names),
            Stmt::ImportFrom(x) => self.compile_import_from(x),
            Stmt::Expr(x) => {
                self.compile_expression(&x.value)?;
                // Pop result of stack, since we not use it:
                self.emit(Instruction::Pop);
                Ok(())
            },
            // Handled during symbol table construction, or no code at all.
            Stmt::Global(_) | Stmt::Nonlocal(_) | Stmt::Pass(_) => Ok(()),
            Stmt::Raise(x) => self.compile_raise(x),
            Stmt::Assert(x) => self.compile_assert(x),
            Stmt::Break(range) => match self.ctx.loop_data {
                Some((_, end)) => {
                    self.emit(Instruction::Break { target: end });
                    Ok(())
                },
                None => Err(Halt::Error(self.error_ranged(CodegenErrorType::InvalidBreak, *range))),
            },
            Stmt::Continue(range) => match self.ctx.loop_data {
                Some((start, _)) => {
                    self.emit(Instruction::Continue { target: start });
                    Ok(())
                },
                None => Err(
                    Halt::Error(self.error_ranged(CodegenErrorType::InvalidContinue, *range)),
                ),
            },
            Stmt::Return(x) => self.compile_return(x),
            Stmt::Assign(x) => self.compile_assign(x),
            Stmt::AugAssign(x) => self.compile_augassign(x),
            Stmt::AnnAssign(x) => self.compile_annotated_assign(x),
            Stmt::Delete(x) => self.compile_deletes(&x.targets),
            Stmt::TypeAlias(x) => self.compile_type_alias(x),
            _ => Err(Halt::Panic),
        }
    }
}

} // verus!
