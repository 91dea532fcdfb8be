//! An abstract view of the module under construction: what lowering reads
//! and changes, as mathematical sequences.
use vstd::prelude::*;
use crate::ir::{IrType, Value};

verus! {

/// A function as lowering sees it: its name and signature.
pub struct FnModel {
    pub name: Seq<char>,
    pub ret: IrType,
    pub params: Seq<IrType>,
}

/// An instruction, with indices as integers.
pub enum Inst {
    Call { callee: int, ret: IrType, params: Seq<IrType>, args: Seq<Value> },
    Br { dest: int },
    CondBr { cond: Value, then_dest: int, else_dest: int },
    RetVoid,
}

/// A block of the entry function: its name and its instructions.
pub struct BlockModel {
    pub name: Seq<char>,
    pub insts: Seq<Inst>,
}

/// The functions of the module, the blocks of the entry function, the
/// globals (name and bytes), and the block at the insertion point.
pub struct IrModel {
    pub functions: Seq<FnModel>,
    pub blocks: Seq<BlockModel>,
    pub globals: Seq<(Seq<char>, Seq<u8>)>,
    pub cur: int,
}

impl IrModel {
    /// Appends `i` to the current block.
    pub open spec fn push_inst(self, i: Inst) -> IrModel {
        IrModel {
            functions: self.functions,
            blocks: self.blocks.update(
                self.cur,
                BlockModel { name: self.blocks[self.cur].name, insts: self.blocks[self.cur].insts.push(i) },
            ),
            globals: self.globals,
            cur: self.cur,
        }
    }

    /// Appends an empty block named `name`.
    pub open spec fn push_block(self, name: Seq<char>) -> IrModel {
        IrModel {
            functions: self.functions,
            blocks: self.blocks.push(BlockModel { name, insts: Seq::empty() }),
            globals: self.globals,
            cur: self.cur,
        }
    }

    /// Adds a global.
    pub open spec fn push_global(self, name: Seq<char>, bytes: Seq<u8>) -> IrModel {
        IrModel {
            functions: self.functions,
            blocks: self.blocks,
            globals: self.globals.push((name, bytes)),
            cur: self.cur,
        }
    }

    /// Declares an external function returning a 32-bit integer.
    pub open spec fn push_decl(self, name: Seq<char>, params: Seq<IrType>) -> IrModel {
        IrModel {
            functions: self.functions.push(FnModel { name, ret: IrType::I32, params }),
            blocks: self.blocks,
            globals: self.globals,
            cur: self.cur,
        }
    }

    /// Moves the insertion point to block `b`.
    pub open spec fn at(self, b: int) -> IrModel {
        IrModel { functions: self.functions, blocks: self.blocks, globals: self.globals, cur: b }
    }

    /// The index of the function named `name`, if there is one.
    pub open spec fn function_index(self, name: Seq<char>) -> Option<int> {
        if exists|f: int| 0 <= f < self.functions.len() && (#[trigger] self.functions[f]).name == name {
            Some(choose|f: int| 0 <= f < self.functions.len() && (#[trigger] self.functions[f]).name == name)
        } else {
            None
        }
    }

    /// Resolves the external function `name` for a call whose arguments have
    /// types `params`: the function already declared under that name, else a
    /// new declaration with those parameter types.
    pub open spec fn resolve(self, name: Seq<char>, params: Seq<IrType>) -> (IrModel, int) {
        match self.function_index(name) {
            Some(c) => (self, c),
            None => (self.push_decl(name, params), self.functions.len() as int),
        }
    }
}

} // verus!
