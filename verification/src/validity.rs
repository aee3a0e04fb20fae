//! What holds of all code that the compiler makes: every argument of an instruction refers to
//! something that is there.
use vstd::prelude::*;

use crate::bytecode::{
    BlockIdx, BlockModel, CodeModel, ConstantModel, Instruction, InstructionInfo, NULL,
};
use crate::pool::{constant_position, constant_slot, item_slot, with_constant, with_item};
use crate::state::{pool_of, FrameModel, Pool, State};
use crate::text::lemma_position;

verus! {

/// Whether the argument of an instruction refers to something in a code unit: a block, a
/// constant, a name, a local variable, or a cell or free variable.
pub open spec fn instr_fits(i: Instruction, c: CodeModel) -> bool {
    match i {
        Instruction::LoadConst { idx } => idx < c.constants.len(),
        Instruction::ReturnConst { idx } => idx < c.constants.len(),
        Instruction::ImportName { idx } => idx < c.names.len(),
        Instruction::ImportFrom { idx } => idx < c.names.len(),
        Instruction::LoadNameAny(idx) => idx < c.names.len(),
        Instruction::LoadGlobal(idx) => idx < c.names.len(),
        Instruction::StoreLocal(idx) => idx < c.names.len(),
        Instruction::StoreGlobal(idx) => idx < c.names.len(),
        Instruction::DeleteLocal(idx) => idx < c.names.len(),
        Instruction::DeleteGlobal(idx) => idx < c.names.len(),
        Instruction::StoreAttr { idx } => idx < c.names.len(),
        Instruction::DeleteAttr { idx } => idx < c.names.len(),
        Instruction::LoadAttr { idx } => idx < c.names.len(),
        Instruction::LoadMethod { idx } => idx < c.names.len(),
        Instruction::LoadFast(idx) => idx < c.varnames.len(),
        Instruction::StoreFast(idx) => idx < c.varnames.len(),
        Instruction::DeleteFast(idx) => idx < c.varnames.len(),
        Instruction::LoadDeref(idx) => idx < c.cellvars.len() + c.freevars.len(),
        Instruction::LoadClassDeref(idx) => idx < c.cellvars.len() + c.freevars.len(),
        Instruction::StoreDeref(idx) => idx < c.cellvars.len() + c.freevars.len(),
        Instruction::DeleteDeref(idx) => idx < c.cellvars.len() + c.freevars.len(),
        Instruction::LoadClosure(idx) => idx < c.cellvars.len() + c.freevars.len(),
        Instruction::Continue { target } => target.0 < c.blocks.len(),
        Instruction::Break { target } => target.0 < c.blocks.len(),
        Instruction::Jump { target } => target.0 < c.blocks.len(),
        Instruction::JumpIfTrue { target } => target.0 < c.blocks.len(),
        Instruction::JumpIfFalse { target } => target.0 < c.blocks.len(),
        Instruction::JumpIfTrueOrPop { target } => target.0 < c.blocks.len(),
        Instruction::JumpIfFalseOrPop { target } => target.0 < c.blocks.len(),
        Instruction::ForIter { target } => target.0 < c.blocks.len(),
        Instruction::SetupFinally { handler } => handler.0 < c.blocks.len(),
        Instruction::SetupExcept { handler } => handler.0 < c.blocks.len(),
        Instruction::SetupWith { end } => end.0 < c.blocks.len(),
        Instruction::SetupAsyncWith { end } => end.0 < c.blocks.len(),
        _ => true,
    }
}

/// Whether a code unit is valid: its current block is one of its blocks, every block falls
/// through to one of its blocks or nowhere, the argument of every instruction refers to something
/// in it, and so it is with every code unit among its constants.
#[verifier::opaque]
pub open spec fn code_ok(c: CodeModel) -> bool
    decreases c,
{
    &&& c.current_block.0 < c.blocks.len()
    &&& c.blocks[c.current_block.0 as int].next == BlockIdx(NULL)
    &&& forall|b: int, i: int|
        #![trigger c.blocks[b].instructions[i]]
        0 <= b < c.blocks.len() && 0 <= i < c.blocks[b].instructions.len() ==> instr_fits(
            c.blocks[b].instructions[i].instr,
            c,
        )
    &&& forall|b: int|
        0 <= b < c.blocks.len() ==> (#[trigger] c.blocks[b]).next == BlockIdx(NULL)
            || c.blocks[b].next.0 < c.blocks.len()
    &&& forall|k: int| 0 <= k < c.constants.len() ==> constant_ok(#[trigger] c.constants[k])
}

/// Whether the code units in a constant are valid and complete.
pub open spec fn constant_ok(k: ConstantModel) -> bool
    decreases k,
{
    match k {
        ConstantModel::Code(c, _) => code_ok(c) && complete(c),
        ConstantModel::Tuple(s) => forall|j: int| 0 <= j < s.len() ==> constant_ok(#[trigger] s[j]),
        _ => true,
    }
}

/// Whether `d` has all that `c` had in its pools and among its blocks, and is the code of the
/// same thing.
pub open spec fn grown(c: CodeModel, d: CodeModel) -> bool {
    &&& c.blocks.len() <= d.blocks.len()
    &&& c.constants.len() <= d.constants.len()
    &&& c.names.len() <= d.names.len()
    &&& c.varnames.len() <= d.varnames.len()
    &&& c.cellvars.len() <= d.cellvars.len()
    &&& c.freevars.len() <= d.freevars.len()
    &&& c.obj_name == d.obj_name
    &&& c.source_path == d.source_path
    &&& c.first_line_number == d.first_line_number
    &&& c.posonlyarg_count == d.posonlyarg_count
    &&& c.arg_count == d.arg_count
    &&& c.kwonlyarg_count == d.kwonlyarg_count
}

/// The number of blocks that fall through to no other.
#[verifier::opaque]
pub open spec fn loose_ends(blocks: Seq<BlockModel>) -> nat
    decreases blocks.len(),
{
    if blocks.len() == 0 {
        0
    } else if blocks.last().next == BlockIdx(NULL) {
        loose_ends(blocks.drop_last()) + 1
    } else {
        loose_ends(blocks.drop_last())
    }
}

/// Whether a code unit is complete: one block falls through to no other, and that is the last.
/// (The number of blocks is not one that would make a block number mean that there is none.)
pub open spec fn complete(c: CodeModel) -> bool {
    c.blocks.len() <= u32::MAX ==> loose_ends(c.blocks) == 1
}

/// Whether `d` has as many more loose ends than `c` as `more` says: each block that was allocated
/// and has not been gone on in is one.
pub open spec fn more_ends(c: CodeModel, d: CodeModel, more: int) -> bool {
    d.blocks.len() <= u32::MAX ==> loose_ends(d.blocks) == loose_ends(c.blocks) + more
}

/// Whether `t` starts with all of `s`.
pub open spec fn starts_with<T>(t: Seq<T>, s: Seq<T>) -> bool {
    &&& s.len() <= t.len()
    &&& forall|i: int| 0 <= i < s.len() ==> #[trigger] t[i] == s[i]
}

/// Whether all that the pools of `c` held is at the same place in those of `d`.
#[verifier::opaque]
pub open spec fn pools_kept(c: CodeModel, d: CodeModel) -> bool {
    &&& starts_with(d.constants, c.constants)
    &&& starts_with(d.names, c.names)
    &&& starts_with(d.varnames, c.varnames)
    &&& starts_with(d.cellvars, c.cellvars)
    &&& starts_with(d.freevars, c.freevars)
}

/// Whether all the instructions of `s` are at the same place in `t`, but for a load of a constant
/// that became a return of it.
pub open spec fn carried_on(t: Seq<InstructionInfo>, s: Seq<InstructionInfo>) -> bool {
    &&& s.len() <= t.len()
    &&& forall|i: int| 0 <= i < s.len() ==> #[trigger] t[i] == s[i] || returned(t[i], s[i])
}

/// Whether `t` returns the constant that `s` loads.
pub open spec fn returned(t: InstructionInfo, s: InstructionInfo) -> bool {
    &&& s.instr is LoadConst
    &&& t.instr == Instruction::ReturnConst { idx: s.instr->LoadConst_idx }
    &&& t.location == s.location
}

/// Whether the code went on from `c` to `d` in the current block, in blocks that `c` did not
/// have yet, and in `own` ones: the current block has its instructions still, and every other
/// block is as it was. A block that was left falls through to another, and goes on doing so.
#[verifier::opaque]
pub open spec fn laid_out(c: CodeModel, d: CodeModel, own: Set<int>) -> bool {
    &&& c.blocks.len() <= d.blocks.len()
    &&& c.current_block.0 < c.blocks.len() && !own.contains(c.current_block.0 as int)
        ==> carried_on(
        d.blocks[c.current_block.0 as int].instructions,
        c.blocks[c.current_block.0 as int].instructions,
    )
    &&& d.current_block == c.current_block || d.current_block.0 >= c.blocks.len() || own.contains(
        d.current_block.0 as int,
    )
    &&& forall|b: int|
        0 <= b < c.blocks.len() && b != c.current_block.0 && !own.contains(b)
            ==> #[trigger] d.blocks[b] == c.blocks[b]
    &&& d.blocks.len() <= u32::MAX ==> forall|b: int|
        0 <= b < c.blocks.len() && left(c, b) ==> #[trigger] left(d, b)
}

/// Whether code has gone on in a block, and has left it or is in it still.
pub open spec fn left(c: CodeModel, b: int) -> bool {
    c.blocks[b].next != BlockIdx(NULL) || c.current_block.0 == b
}

/// Whether a block was allocated and code has not gone on in it yet.
pub open spec fn pending(c: CodeModel, block: BlockIdx) -> bool {
    &&& block.0 < c.blocks.len()
    &&& block != c.current_block
    &&& c.blocks[block.0 as int].next == BlockIdx(NULL)
}

/// No blocks of one's own among those that are there.
pub open spec fn no_blocks() -> Set<int> {
    Set::empty()
}

/// One block of one's own.
pub open spec fn one_block(block: BlockIdx) -> Set<int> {
    Set::empty().insert(block.0 as int)
}

/// Two blocks of one's own.
pub open spec fn two_blocks(first: BlockIdx, second: BlockIdx) -> Set<int> {
    one_block(first).insert(second.0 as int)
}

/// The blocks from `base` on, `n` of them.
pub open spec fn block_range(base: nat, n: nat) -> Set<int> {
    Set::new(|b: int| base <= b < base + n)
}

/// Whether a compilation that went from `s` to `t` is in the same place again: in the same code
/// unit, within the same others, at the same depth of tables, and with the same context, class
/// and path. The current code unit may have grown, and more of the tables within the current one
/// may have been taken. Blocks of the code unit that wait for their code still do, and no others
/// do.
pub open spec fn kept(s: State, t: State) -> bool {
    moved(s, t, no_blocks()) && more_ends(s.codes.last(), t.codes.last(), 0)
}

/// As [`kept`], but the code may have gone on in `own` blocks.
pub open spec fn moved(s: State, t: State, own: Set<int>) -> bool {
    &&& same_codes_but(s.codes, t.codes, own)
    &&& same_tables(s.tables, t.tables)
    &&& t.path == s.path
    &&& t.qualified == s.qualified
    &&& t.ctx == s.ctx
    &&& t.class_name == s.class_name
    &&& t.optimize == s.optimize
}

/// Whether the open code units are the same, but for how much the last has grown.
pub open spec fn same_codes(s: Seq<CodeModel>, t: Seq<CodeModel>) -> bool {
    same_codes_but(s, t, no_blocks()) && more_ends(s.last(), t.last(), 0)
}

/// As [`same_codes`], but the code may have gone on in `own` blocks.
pub open spec fn same_codes_but(s: Seq<CodeModel>, t: Seq<CodeModel>, own: Set<int>) -> bool {
    &&& t.len() == s.len()
    &&& t.drop_last() == s.drop_last()
    &&& grown(s.last(), t.last())
    &&& pools_kept(s.last(), t.last())
    &&& laid_out(s.last(), t.last(), own)
}

/// Pools stay as they are.
pub broadcast proof fn pools_kept_same(c: CodeModel)
    ensures
        #[trigger] pools_kept(c, c),
{
    reveal(pools_kept);
}

/// What is kept twice is kept.
pub broadcast proof fn pools_kept_twice(c: CodeModel, d: CodeModel, e: CodeModel)
    requires
        #[trigger] pools_kept(c, d),
        #[trigger] pools_kept(d, e),
    ensures
        pools_kept(c, e),
{
    reveal(pools_kept);
}

/// Code that has not gone on is laid out.
pub broadcast proof fn laid_out_same(c: CodeModel, own: Set<int>)
    ensures
        #[trigger] laid_out(c, c, own),
{
    reveal(laid_out);
}

/// What goes on twice has gone on.
pub broadcast proof fn laid_out_twice(c: CodeModel, d: CodeModel, e: CodeModel)
    requires
        #[trigger] laid_out(c, d, no_blocks()),
        #[trigger] laid_out(d, e, no_blocks()),
    ensures
        laid_out(c, e, no_blocks()),
{
    lemma_laid_out(c, d, e, no_blocks(), no_blocks(), no_blocks());
}

/// To go on in a block that was not there at first is to go on.
pub broadcast proof fn laid_out_later(c: CodeModel, d: CodeModel, e: CodeModel, block: BlockIdx)
    requires
        #[trigger] laid_out(c, d, no_blocks()),
        #[trigger] laid_out(d, e, one_block(block)),
        block.0 >= c.blocks.len(),
    ensures
        laid_out(c, e, no_blocks()),
{
    lemma_laid_out(c, d, e, no_blocks(), one_block(block), no_blocks());
}

/// A block that waits for its code still does when the code has gone on elsewhere.
pub broadcast proof fn pending_after(c: CodeModel, d: CodeModel, own: Set<int>, block: BlockIdx)
    requires
        #[trigger] laid_out(c, d, own),
        #[trigger] pending(c, block),
        !own.contains(block.0 as int),
    ensures
        pending(d, block),
{
    reveal(laid_out);
}

pub broadcast group group_layout {
    pools_kept_same,
    pools_kept_twice,
    laid_out_same,
    laid_out_twice,
    laid_out_later,
    pending_after,
}

/// Code with own blocks that goes on has gone on in its own blocks.
pub broadcast proof fn laid_out_own_first(c: CodeModel, d: CodeModel, e: CodeModel, own: Set<int>)
    requires
        #[trigger] laid_out(c, d, own),
        #[trigger] laid_out(d, e, no_blocks()),
    ensures
        laid_out(c, e, own),
{
    lemma_laid_out(c, d, e, own, no_blocks(), own);
}

/// Code that goes on in own blocks has gone on in its own blocks.
pub broadcast proof fn laid_out_own_last(c: CodeModel, d: CodeModel, e: CodeModel, own: Set<int>)
    requires
        #[trigger] laid_out(c, d, no_blocks()),
        #[trigger] laid_out(d, e, own),
    ensures
        laid_out(c, e, own),
{
    lemma_laid_out(c, d, e, no_blocks(), own, own);
}

pub broadcast group group_own_layout {
    laid_out_own_first,
    laid_out_own_last,
}

/// Whether all blocks from `low` on and below `high` wait for their code.
#[verifier::opaque]
pub open spec fn all_pending(c: CodeModel, low: int, high: int) -> bool {
    forall|b: u32| low <= b < high ==> #[trigger] pending(c, BlockIdx(b))
}

/// Blocks that wait for their code still do when the code has gone on elsewhere.
pub proof fn lemma_all_pending(
    c: CodeModel,
    d: CodeModel,
    own: Set<int>,
    low: int,
    next: int,
    high: int,
)
    requires
        laid_out(c, d, own),
        all_pending(c, low, high),
        low <= next,
        forall|b: int| next <= b < high ==> !own.contains(b),
    ensures
        all_pending(d, next, high),
{
    reveal(all_pending);
    assert forall|b: u32| next <= b < high implies #[trigger] pending(d, BlockIdx(b)) by {
        assert(pending(c, BlockIdx(b)));
        pending_after(c, d, own, BlockIdx(b));
    }
}

/// Whether code has gone on in all blocks from `low` on and below `high`.
#[verifier::opaque]
pub open spec fn all_left(c: CodeModel, low: int, high: int) -> bool {
    c.blocks.len() <= u32::MAX ==> forall|b: int| low <= b < high ==> #[trigger] left(c, b)
}

/// Code has gone on in no fewer blocks when it has gone on.
pub proof fn lemma_all_left(c: CodeModel, d: CodeModel, own: Set<int>, low: int, high: int)
    requires
        laid_out(c, d, own),
        all_left(c, low, high),
        0 <= low,
        high <= c.blocks.len(),
    ensures
        all_left(d, low, high),
{
    reveal(all_left);
    reveal(laid_out);
}

/// Whether code has gone on in every block of `d` that it had gone on in in `c`.
#[verifier::opaque]
pub open spec fn lefts_kept(c: CodeModel, d: CodeModel) -> bool {
    d.blocks.len() <= u32::MAX ==> forall|b: int|
        0 <= b < c.blocks.len() && left(c, b) ==> #[trigger] left(d, b)
}

pub broadcast proof fn lefts_kept_same(c: CodeModel)
    ensures
        #[trigger] lefts_kept(c, c),
{
    reveal(lefts_kept);
}

pub broadcast proof fn lefts_kept_twice(c: CodeModel, d: CodeModel, e: CodeModel)
    requires
        #[trigger] lefts_kept(c, d),
        #[trigger] lefts_kept(d, e),
        c.blocks.len() <= d.blocks.len() <= e.blocks.len(),
    ensures
        lefts_kept(c, e),
{
    reveal(lefts_kept);
}

pub broadcast group group_lefts {
    lefts_kept_same,
    lefts_kept_twice,
}

/// Two stretches of code make one, whose own blocks are those of both that were there at first.
pub proof fn lemma_laid_out(
    c: CodeModel,
    d: CodeModel,
    e: CodeModel,
    first: Set<int>,
    second: Set<int>,
    own: Set<int>,
)
    requires
        laid_out(c, d, first),
        laid_out(d, e, second),
        forall|b: int|
            0 <= b < c.blocks.len() && (first.contains(b) || second.contains(b)) ==> own.contains(b),
    ensures
        laid_out(c, e, own),
{
    reveal(laid_out);
}

/// Whether the tables in use are the same, but for how many within the last have been taken.
pub open spec fn same_tables(s: Seq<FrameModel>, t: Seq<FrameModel>) -> bool {
    &&& t.len() == s.len()
    &&& t.drop_last() == s.drop_last()
    &&& t.last().table == s.last().table
    &&& t.last().next >= s.last().next
}

/// Whether the tables in use went from `s` to `t` by entering one more, if `more` says so.
pub open spec fn scoped(s: Seq<FrameModel>, t: Seq<FrameModel>, more: bool) -> bool {
    if more {
        t.len() == s.len() + 1 && same_tables(s, t.drop_last())
    } else {
        t == s
    }
}

/// The tables in use before the last one was entered, and one more before it if `more` says so.
pub open spec fn outer_tables(s: Seq<FrameModel>, more: bool) -> Seq<FrameModel> {
    if more {
        s.drop_last().drop_last()
    } else {
        s.drop_last()
    }
}

/// Whether a compilation that went from `s` to `t` has opened one code unit that is still open,
/// in a scope of type parameters if `more` says so.
pub open spec fn opened_within(s: State, t: State, more: bool) -> bool {
    &&& t.codes.len() == s.codes.len() + 1
    &&& same_codes(s.codes, t.codes.drop_last())
    &&& complete(t.codes.last())
    &&& t.tables.len() == s.tables.len() + if more {
        2int
    } else {
        1
    }
    &&& same_tables(s.tables, outer_tables(t.tables, more))
    &&& t.path == s.path
    &&& t.optimize == s.optimize
}

/// Whether a compilation that went from `s` to `t` has closed its code unit, and the scope of
/// type parameters around it if `more` says so.
pub open spec fn closed_within(s: State, t: State, more: bool) -> bool {
    &&& same_codes(s.codes.drop_last(), t.codes)
    &&& same_tables(outer_tables(s.tables, more), t.tables)
    &&& t.path == s.path
    &&& t.optimize == s.optimize
}

/// Whether a compilation that went from `s` to `t` has opened one code unit that is still open.
pub open spec fn opened(s: State, t: State) -> bool {
    &&& t.codes.len() == s.codes.len() + 1
    &&& same_codes(s.codes, t.codes.drop_last())
    &&& complete(t.codes.last())
    &&& t.tables.len() == s.tables.len() + 1
    &&& same_tables(s.tables, t.tables.drop_last())
    &&& t.path == s.path
    &&& t.optimize == s.optimize
}

impl State {
    /// `break` and `continue` go to blocks that are there.
    pub open spec fn loop_ok(self) -> bool {
        match self.ctx.loop_data {
            Some((start, end)) => start.0 < self.top().blocks.len() && end.0
                < self.top().blocks.len(),
            None => true,
        }
    }
}

/// The number of loose ends depends only on which blocks have one.
pub proof fn lemma_same_ends(a: Seq<BlockModel>, b: Seq<BlockModel>)
    requires
        a.len() == b.len(),
        forall|i: int|
            0 <= i < a.len() ==> ((#[trigger] a[i]).next == BlockIdx(NULL) <==> b[i].next
                == BlockIdx(NULL)),
    ensures
        loose_ends(a) == loose_ends(b),
    decreases a.len(),
{
    reveal(loose_ends);
    if a.len() > 0 {
        assert(a[a.len() - 1].next == BlockIdx(NULL) <==> b[a.len() - 1].next == BlockIdx(NULL));
        assert forall|i: int| 0 <= i < a.len() - 1 implies ((#[trigger] a.drop_last()[i]).next
            == BlockIdx(NULL) <==> b.drop_last()[i].next == BlockIdx(NULL)) by {
            assert(a[i] == a.drop_last()[i]);
        }
        lemma_same_ends(a.drop_last(), b.drop_last());
    }
}

/// A block that gets a successor is no loose end any more.
pub proof fn lemma_end_tied(a: Seq<BlockModel>, i: int, b: BlockModel)
    requires
        0 <= i < a.len(),
        a[i].next == BlockIdx(NULL),
        b.next != BlockIdx(NULL),
    ensures
        loose_ends(a.update(i, b)) == loose_ends(a) - 1,
    decreases a.len(),
{
    reveal(loose_ends);
    let t = a.update(i, b);
    if i == a.len() - 1 {
        assert(t.drop_last() =~= a.drop_last());
    } else {
        assert(t.drop_last() =~= a.drop_last().update(i, b));
        lemma_end_tied(a.drop_last(), i, b);
    }
}

/// Where there is one loose end, every other block falls through to one.
pub proof fn lemma_one_end(a: Seq<BlockModel>, i: int, j: int)
    requires
        loose_ends(a) == 1,
        0 <= i < a.len(),
        0 <= j < a.len(),
        i != j,
        a[i].next == BlockIdx(NULL),
    ensures
        a[j].next != BlockIdx(NULL),
    decreases a.len(),
{
    reveal(loose_ends);
    let last = a.len() - 1;
    if i == last || j == last {
        let k = if i == last {
            j
        } else {
            i
        };
        if a[k].next == BlockIdx(NULL) {
            lemma_some_end(a.drop_last(), k);
        }
    } else if a[last].next == BlockIdx(NULL) {
        lemma_some_end(a.drop_last(), i);
    } else {
        lemma_one_end(a.drop_last(), i, j);
    }
}

/// Where a block falls through to no other, there is a loose end.
proof fn lemma_some_end(a: Seq<BlockModel>, i: int)
    requires
        0 <= i < a.len(),
        a[i].next == BlockIdx(NULL),
    ensures
        loose_ends(a) >= 1,
    decreases a.len(),
{
    reveal(loose_ends);
    if i < a.len() - 1 {
        lemma_some_end(a.drop_last(), i);
    }
}

/// An argument that refers to something still does when the code unit has grown.
pub proof fn lemma_fits_grown(i: Instruction, c: CodeModel, d: CodeModel)
    requires
        instr_fits(i, c),
        grown(c, d),
    ensures
        instr_fits(i, d),
{
}

/// A code unit stays valid when its pools grow by valid constants and its flags change.
pub proof fn lemma_code_pools(c: CodeModel, d: CodeModel)
    requires
        code_ok(c),
        grown(c, d),
        d.blocks == c.blocks,
        d.current_block == c.current_block,
        forall|k: int| 0 <= k < d.constants.len() ==> constant_ok(#[trigger] d.constants[k]),
    ensures
        code_ok(d),
{
    reveal(code_ok);
    assert forall|b: int, i: int|
        #![trigger d.blocks[b].instructions[i]]
        0 <= b < d.blocks.len() && 0 <= i < d.blocks[b].instructions.len() implies instr_fits(
        d.blocks[b].instructions[i].instr,
        d,
    ) by {
        lemma_fits_grown(c.blocks[b].instructions[i].instr, c, d);
    }
}

/// A code unit stays valid when the instructions of one block are replaced by ones that fit.
pub proof fn lemma_code_instructions(c: CodeModel, at: int, s: Seq<InstructionInfo>)
    requires
        code_ok(c),
        0 <= at < c.blocks.len(),
        forall|i: int| 0 <= i < s.len() ==> instr_fits((#[trigger] s[i]).instr, c),
    ensures
        code_ok(
            CodeModel {
                blocks: c.blocks.update(at, BlockModel { instructions: s, ..c.blocks[at] }),
                ..c
            },
        ),
{
    reveal(code_ok);
    let d = CodeModel {
        blocks: c.blocks.update(at, BlockModel { instructions: s, ..c.blocks[at] }),
        ..c
    };
    assert forall|b: int, i: int|
        #![trigger d.blocks[b].instructions[i]]
        0 <= b < d.blocks.len() && 0 <= i < d.blocks[b].instructions.len() implies instr_fits(
        d.blocks[b].instructions[i].instr,
        d,
    ) by {
        if b == at {
            lemma_fits_grown(s[i].instr, c, d);
        } else {
            lemma_fits_grown(c.blocks[b].instructions[i].instr, c, d);
        }
    }
}

/// A code unit stays valid when it gets blocks without instructions, and when blocks fall through
/// to others that are there.
pub proof fn lemma_code_blocks(c: CodeModel, blocks: Seq<BlockModel>, current: BlockIdx)
    requires
        code_ok(c),
        c.blocks.len() <= blocks.len(),
        current.0 < blocks.len(),
        blocks[current.0 as int].next == BlockIdx(NULL),
        forall|b: int|
            0 <= b < c.blocks.len() ==> (#[trigger] blocks[b]).instructions
                == c.blocks[b].instructions,
        forall|b: int|
            c.blocks.len() <= b < blocks.len() ==> (#[trigger] blocks[b]).instructions.len() == 0,
        forall|b: int|
            0 <= b < blocks.len() ==> (#[trigger] blocks[b]).next == BlockIdx(NULL)
                || blocks[b].next.0 < blocks.len(),
    ensures
        code_ok(CodeModel { blocks, current_block: current, ..c }),
{
    reveal(code_ok);
    let d = CodeModel { blocks, current_block: current, ..c };
    assert forall|b: int, i: int|
        #![trigger d.blocks[b].instructions[i]]
        0 <= b < d.blocks.len() && 0 <= i < d.blocks[b].instructions.len() implies instr_fits(
        d.blocks[b].instructions[i].instr,
        d,
    ) by {
        assert(d.blocks[b] == blocks[b]);
        lemma_fits_grown(c.blocks[b].instructions[i].instr, c, d);
    }
}

/// What a pool holds after an item came in: the item at its slot, and all it held before.
pub proof fn lemma_item_slot<T>(pool: Seq<T>, x: T)
    ensures
        item_slot(pool, x) < with_item(pool, x).len(),
        with_item(pool, x)[item_slot(pool, x) as int] == x,
        pool.len() <= with_item(pool, x).len(),
        with_item(pool, x).take(pool.len() as int) == pool,
{
    lemma_position(pool, x);
    assert(pool.take(pool.len() as int) =~= pool);
    assert(pool.push(x).take(pool.len() as int) =~= pool);
}

/// The slot of a constant is a place in the pool that it came into.
pub proof fn lemma_constant_slot(pool: Seq<ConstantModel>, c: ConstantModel)
    ensures
        constant_slot(pool, c) < with_constant(pool, c).len(),
        pool.len() <= with_constant(pool, c).len(),
    decreases pool.len(),
{
    lemma_constant_position(pool, c);
}

proof fn lemma_constant_position(pool: Seq<ConstantModel>, c: ConstantModel)
    ensures
        constant_position(pool, c) matches Some(i) ==> i < pool.len(),
    decreases pool.len(),
{
    if pool.len() > 0 {
        lemma_constant_position(pool.drop_last(), c);
    }
}

/// A compilation is in the same place after a valid code unit that has grown out of the current
/// one took its place.
pub proof fn lemma_with_top(s: State, c: CodeModel, own: Set<int>)
    requires
        s.wf(),
        code_ok(c),
        grown(s.top(), c),
        pools_kept(s.top(), c),
        laid_out(s.top(), c, own),
    ensures
        s.with_top(c).wf(),
        s.with_top(c).top() == c,
        moved(s, s.with_top(c), own),
{
    let t = s.with_top(c);
    assert(t.codes.drop_last() =~= s.codes.drop_last());
    assert forall|i: int| 0 <= i < t.codes.len() implies code_ok(#[trigger] t.codes[i]) by {
        assert(code_ok(s.codes[i]));
    }
}

/// The current code unit is valid.
pub proof fn lemma_top_ok(s: State)
    requires
        s.wf(),
    ensures
        code_ok(s.top()),
        s.top().current_block.0 < s.top().blocks.len(),
{
    reveal(code_ok);
    assert(code_ok(s.codes[s.codes.len() - 1]));
}

pub proof fn lemma_emit(s: State, i: Instruction)
    requires
        s.wf(),
        s.running(),
        instr_fits(i, s.top()),
    ensures
        s.emit(i).wf(),
        kept(s, s.emit(i)),
{
    reveal(pools_kept);
    reveal(laid_out);
    reveal(State::emit);
    reveal(code_ok);
    lemma_top_ok(s);
    let c = s.top();
    let at = c.current_block.0 as int;
    let before = c.blocks[at].instructions;
    let info = InstructionInfo { instr: i, location: s.range.start };
    lemma_code_instructions(c, at, before.push(info));
    lemma_same_ends(s.emit(i).top().blocks, c.blocks);
    lemma_with_top(s, s.emit(i).top(), no_blocks());
}

pub proof fn lemma_new_block(s: State)
    requires
        s.wf(),
        s.running(),
        s.new_block().running(),
    ensures
        s.new_block().wf(),
        moved(s, s.new_block(), no_blocks()),
        more_ends(s.top(), s.new_block().top(), 1),
        s.new_block().top().blocks.len() == s.top().blocks.len() + 1,
        s.fresh().0 < s.new_block().top().blocks.len(),
        pending(s.new_block().top(), s.fresh()),
{
    reveal(pools_kept);
    reveal(laid_out);
    reveal(State::new_block);
    reveal(code_ok);
    lemma_top_ok(s);
    let c = s.top();
    lemma_code_blocks(c, s.new_block().top().blocks, c.current_block);
    reveal(loose_ends);
    assert(s.new_block().top().blocks.drop_last() =~= c.blocks);
    lemma_with_top(s, s.new_block().top(), no_blocks());
}

pub proof fn lemma_switch_to(s: State, block: BlockIdx)
    requires
        s.wf(),
        s.running(),
        pending(s.top(), block),
    ensures
        s.can_switch(block),
        s.switch_to(block).wf(),
        moved(s, s.switch_to(block), one_block(block)),
        more_ends(s.top(), s.switch_to(block).top(), -1),
{
    reveal(pools_kept);
    reveal(laid_out);
    reveal(State::switch_to);
    reveal(code_ok);
    lemma_top_ok(s);
    lemma_code_blocks(s.top(), s.switch_to(block).top().blocks, block);
    let c = s.top();
    let at = c.current_block.0 as int;
    if c.blocks.len() <= u32::MAX {
        lemma_end_tied(c.blocks, at, BlockModel { next: block, ..c.blocks[at] });
    }
    lemma_with_top(s, s.switch_to(block).top(), one_block(block));
}

pub proof fn lemma_insert_const(s: State, k: ConstantModel)
    requires
        s.wf(),
        s.running(),
        constant_ok(k),
    ensures
        s.insert_const(k).wf(),
        kept(s, s.insert_const(k)),
        constant_slot(s.top().constants, k) < s.insert_const(k).top().constants.len(),
{
    reveal(pools_kept);
    reveal(laid_out);
    reveal(State::insert_const);
    reveal(code_ok);
    lemma_top_ok(s);
    lemma_constant_slot(s.top().constants, k);
    lemma_code_pools(s.top(), s.insert_const(k).top());
    lemma_with_top(s, s.insert_const(k).top(), no_blocks());
}

pub proof fn lemma_return_value(s: State)
    requires
        s.wf(),
        s.running(),
    ensures
        s.return_value().wf(),
        kept(s, s.return_value()),
{
    reveal(pools_kept);
    reveal(laid_out);
    reveal(State::return_value);
    reveal(code_ok);
    lemma_top_ok(s);
    let c = s.top();
    let at = c.current_block.0 as int;
    let before = c.blocks[at].instructions;
    if before.len() > 0 && before.last().instr is LoadConst {
        let t = s.return_value();
        lemma_code_instructions(c, at, t.top().blocks[at].instructions);
        lemma_same_ends(t.top().blocks, c.blocks);
        lemma_with_top(s, t.top(), no_blocks());
    } else {
        lemma_emit(s, Instruction::ReturnValue);
    }
}

pub proof fn lemma_insert_text(s: State, p: Pool, text: Seq<char>)
    requires
        s.wf(),
        s.running(),
    ensures
        s.insert_text(p, text).wf(),
        kept(s, s.insert_text(p, text)),
        s.text_slot(p, text) < pool_of(s.insert_text(p, text).top(), p).len(),
{
    reveal(pools_kept);
    reveal(laid_out);
    reveal(State::insert_text);
    reveal(code_ok);
    lemma_top_ok(s);
    lemma_item_slot(pool_of(s.top(), p), text);
    lemma_code_pools(s.top(), s.insert_text(p, text).top());
    lemma_with_top(s, s.insert_text(p, text).top(), no_blocks());
}

pub proof fn lemma_instructions(s: State, infos: Seq<InstructionInfo>)
    requires
        s.wf(),
        s.running(),
        forall|i: int| 0 <= i < infos.len() ==> instr_fits((#[trigger] infos[i]).instr, s.top()),
    ensures
        s.with_instructions(infos).wf(),
        moved(s, s.with_instructions(infos), one_block(s.top().current_block)),
        more_ends(s.top(), s.with_instructions(infos).top(), 0),
        carried_on(infos, s.instructions()) ==> kept(s, s.with_instructions(infos)),
{
    reveal(pools_kept);
    reveal(laid_out);
    lemma_top_ok(s);
    let c = s.top();
    lemma_same_ends(s.with_instructions(infos).top().blocks, c.blocks);
    lemma_code_instructions(c, c.current_block.0 as int, infos);
    lemma_with_top(s, s.with_instructions(infos).top(), one_block(c.current_block));
    if carried_on(infos, s.instructions()) {
        lemma_with_top(s, s.with_instructions(infos).top(), no_blocks());
    }
}

/// The instructions of the current block fit.
pub proof fn lemma_current_fit(s: State)
    requires
        s.wf(),
    ensures
        forall|i: int|
            0 <= i < s.instructions().len() ==> instr_fits(
                (#[trigger] s.instructions()[i]).instr,
                s.top(),
            ),
{
    lemma_top_ok(s);
    reveal(code_ok);
}

pub proof fn lemma_relink(s: State, base: nat, n: nat)
    requires
        s.wf(),
        s.running(),
        base + n < s.top().blocks.len(),
        base + n <= u32::MAX,
        !(base <= s.top().current_block.0 < base + n),
        all_left(s.top(), base as int, (base + n) as int),
    ensures
        s.relink(base, n).wf(),
        moved(s, s.relink(base, n), block_range(base, n)),
        more_ends(s.top(), s.relink(base, n).top(), 0),
{
    reveal(pools_kept);
    reveal(laid_out);
    reveal(State::relink);
    reveal(code_ok);
    lemma_top_ok(s);
    let c = s.top();
    lemma_code_blocks(c, s.relink(base, n).top().blocks, c.current_block);
    if c.blocks.len() <= u32::MAX {
        let d = s.relink(base, n).top();
        assert forall|i: int| 0 <= i < d.blocks.len() implies ((#[trigger] d.blocks[i]).next
            == BlockIdx(NULL) <==> c.blocks[i].next == BlockIdx(NULL)) by {
            if base <= i < base + n {
                reveal(all_left);
                assert(left(c, i));
            }
        }
        lemma_same_ends(d.blocks, c.blocks);
    }
    lemma_with_top(s, s.relink(base, n).top(), block_range(base, n));
}

pub proof fn lemma_set_flags(s: State, flags: crate::bytecode::CodeFlags)
    requires
        s.wf(),
        s.running(),
    ensures
        s.set_flags(flags).wf(),
        kept(s, s.set_flags(flags)),
{
    reveal(pools_kept);
    reveal(laid_out);
    reveal(State::set_flags);
    reveal(code_ok);
    lemma_top_ok(s);
    lemma_code_pools(s.top(), s.set_flags(flags).top());
    lemma_with_top(s, s.set_flags(flags).top(), no_blocks());
}

} // verus!
