//! The context that owns the module under construction, its entry function
//! and the single insertion point where new instructions go.
use vstd::prelude::*;
use vstd::string::{StrSliceExecFns, StringSliceAdditionalSpecFns};
use crate::ir::{BasicBlock, Function, FunctionType, Global, Instruction, IrType, Module, Value, same_name};
use crate::model::{BlockModel, FnModel, Inst, IrModel};

verus! {

/// The block of a function at whose end the next instruction is appended.
#[derive(Debug, Clone, Copy, PartialEq, Eq, Structural)]
pub struct InsertionPoint {
    pub function: usize,
    pub block: usize,
}

/// The module under construction, its entry function, and the insertion
/// point, which always lies in the entry function.
pub struct LLVMContext {
    pub module: Module,
    pub builder: InsertionPoint,
    pub root_function_prototype: FunctionType,
    pub root_function: usize,
    pub entry_block: usize,
}

/// The model of an instruction.
pub open spec fn inst_model(i: Instruction) -> Inst {
    match i {
        Instruction::Call { callee, function_type, args } => Inst::Call {
            callee: callee as int,
            ret: function_type.ret,
            params: function_type.params@,
            args: args@,
        },
        Instruction::Br { dest } => Inst::Br { dest: dest as int },
        Instruction::CondBr { cond, then_dest, else_dest } => Inst::CondBr {
            cond,
            then_dest: then_dest as int,
            else_dest: else_dest as int,
        },
        Instruction::RetVoid => Inst::RetVoid,
    }
}

pub open spec fn fn_model(f: Function) -> FnModel {
    FnModel { name: f.name@, ret: f.function_type.ret, params: f.function_type.params@ }
}

pub open spec fn block_model(b: BasicBlock) -> BlockModel {
    BlockModel { name: b.name@, insts: b.instructions@.map_values(|i: Instruction| inst_model(i)) }
}

impl LLVMContext {
    /// What lowering reads and changes: the functions, the blocks of the
    /// entry function, the globals and the insertion point.
    pub open spec fn model(self) -> IrModel {
        IrModel {
            functions: self.functions().map_values(|f: Function| fn_model(f)),
            blocks: self.blocks().map_values(|b: BasicBlock| block_model(b)),
            globals: self.module.globals@.map_values(|g: Global| (g.name@, g.bytes@)),
            cur: self.current(),
        }
    }

    /// The functions of the module.
    pub open spec fn functions(self) -> Seq<Function> {
        self.module.functions@
    }

    /// The blocks of the entry function.
    pub open spec fn blocks(self) -> Seq<BasicBlock> {
        self.module.functions@[self.root_function as int].blocks@
    }

    /// The instructions of block `b` of the entry function.
    pub open spec fn instrs(self, b: int) -> Seq<Instruction> {
        self.blocks()[b].instructions@
    }

    /// The block at the insertion point.
    pub open spec fn current(self) -> int {
        self.builder.block as int
    }

    /// The structure that every operation keeps: the entry function comes
    /// first, takes nothing and returns nothing, and holds the insertion point;
    /// every other function is a declaration returning a 32-bit integer; no
    /// two functions share a name; a terminator is only ever the last
    /// instruction of a block; no branch, call or operand dangles.
    pub open spec fn shaped(self) -> bool {
        let fs = self.module.functions@;
        &&& self.root_function == 0
        &&& fs.len() > 0
        &&& self.builder.function == self.root_function
        &&& self.builder.block < self.blocks().len()
        &&& self.entry_block == 0
        &&& self.root_function_prototype.ret == IrType::Void
        &&& self.root_function_prototype.params@.len() == 0
        &&& fs[0].function_type.ret == IrType::Void
        &&& fs[0].function_type.params@.len() == 0
        &&& forall|f: int|
            1 <= f < fs.len() ==> (#[trigger] fs[f]).blocks@.len() == 0
                && fs[f].function_type.ret == IrType::I32
        &&& forall|f: int, g: int|
            0 <= f < fs.len() && 0 <= g < fs.len() && f != g ==> (#[trigger] fs[f]).name@
                != (#[trigger] fs[g]).name@
        &&& forall|b: int| 0 <= b < self.blocks().len() ==> (#[trigger] self.blocks()[b]).terminators_last()
        &&& self.no_dangling()
        &&& self.operands_exist()
    }

    /// `v` names something that exists: a global of the module, or a call
    /// of the entry function.
    pub open spec fn value_within(self, v: Value) -> bool {
        match v {
            Value::GlobalString { index } => index < self.module.globals@.len(),
            Value::CallResult { block, index } => block < self.blocks().len() && index < self.instrs(
                block as int,
            ).len() && self.instrs(block as int)[index as int] is Call,
            _ => true,
        }
    }

    /// Every operand of `ins` names something that exists.
    pub open spec fn operands_within(self, ins: Instruction) -> bool {
        match ins {
            Instruction::Call { args, .. } => forall|j: int| 0 <= j < args@.len() ==> self.value_within(#[trigger] args@[j]),
            Instruction::CondBr { cond, .. } => self.value_within(cond),
            _ => true,
        }
    }

    /// Every operand in the entry function names something that exists.
    pub open spec fn operands_exist(self) -> bool {
        forall|b: int, i: int|
            0 <= b < self.blocks().len() && 0 <= i < self.instrs(b).len() ==> self.operands_within(#[trigger] self.instrs(b)[i])
    }

    /// `self` holds all the globals, blocks and instructions of `old`, at the
    /// same places.
    pub open spec fn keeps(self, old: Self) -> bool {
        &&& self.module.globals@.len() >= old.module.globals@.len()
        &&& self.blocks().len() >= old.blocks().len()
        &&& forall|b: int, i: int|
            0 <= b < old.blocks().len() && 0 <= i < old.instrs(b).len() ==> self.instrs(b).len() >= old.instrs(b).len()
                && #[trigger] self.instrs(b)[i] == old.instrs(b)[i]
    }

    /// Every branch of the entry function goes to one of its blocks, and
    /// every call to a function of the module.
    pub open spec fn no_dangling(self) -> bool {
        forall|b: int, i: int|
            0 <= b < self.blocks().len() && 0 <= i < self.instrs(b).len() ==> (#[trigger] self.instrs(b)[i]).targets_within(
                self.blocks().len(),
                self.functions().len(),
            )
    }

    /// Every block of the entry function but the current one and those of
    /// `pending` ends with a terminator, and the current one does not.
    pub open spec fn settled(self, pending: Set<int>) -> bool {
        &&& !self.blocks()[self.current()].terminated()
        &&& forall|b: int|
            0 <= b < self.blocks().len() && b != self.current() && !pending.contains(b)
                ==> (#[trigger] self.blocks()[b]).terminated()
    }

    /// Block `b` of the entry function ends with a branch that may go to `c`.
    pub open spec fn edge(self, b: int, c: int) -> bool {
        &&& self.instrs(b).len() > 0
        &&& match self.instrs(b).last() {
            Instruction::Br { dest } => dest == c,
            Instruction::CondBr { then_dest, else_dest, .. } => then_dest == c || else_dest == c,
            _ => false,
        }
    }

    /// `p` is a path of the entry function's control-flow graph that starts
    /// at the entry block.
    pub open spec fn is_path(self, p: Seq<int>) -> bool {
        &&& p.len() > 0
        &&& p[0] == 0
        &&& forall|k: int| 0 <= k < p.len() ==> 0 <= #[trigger] p[k] < self.blocks().len()
        &&& forall|k: int| 0 <= k < p.len() - 1 ==> self.edge(#[trigger] p[k], p[k + 1])
    }

    /// The insertion point can be reached from the entry block.
    pub open spec fn ip_reachable(self) -> bool {
        exists|p: Seq<int>| #[trigger] self.is_path(p) && p.last() == self.current()
    }

    /// A path to the open current block survives any change that keeps the
    /// other blocks as they were: every block it leaves is terminated.
    pub proof fn lemma_path_kept(self, old: Self, p: Seq<int>)
        requires
            old.is_path(p),
            !old.blocks()[old.current()].terminated(),
            self.blocks().len() >= old.blocks().len(),
            forall|b: int| 0 <= b < old.blocks().len() && b != old.current() ==> self.blocks()[b] == old.blocks()[b],
        ensures
            self.is_path(p),
    {
        assert forall|k: int| 0 <= k < p.len() - 1 implies self.edge(#[trigger] p[k], p[k + 1]) by {
            assert(old.edge(p[k], p[k + 1]));
            assert(0 <= p[k] < old.blocks().len());
            if p[k] == old.current() {
                assert(old.blocks()[p[k]].terminated());
            }
            assert(self.blocks()[p[k]] == old.blocks()[p[k]]);
        }
        assert forall|k: int| 0 <= k < p.len() implies 0 <= #[trigger] p[k] < self.blocks().len() by {}
    }

    /// The context invariant: shaped, and every block but the current one is
    /// terminated while the current one is open.
    pub open spec fn wf(self) -> bool {
        self.shaped() && self.settled(Set::empty())
    }

    /// `self` equals `old` but for the instructions of block `b` of the entry
    /// function.
    pub open spec fn same_but_block(self, old: Self, b: int) -> bool {
        &&& self.module.name == old.module.name
        &&& self.module.globals == old.module.globals
        &&& self.builder == old.builder
        &&& self.root_function == old.root_function
        &&& self.entry_block == old.entry_block
        &&& self.root_function_prototype == old.root_function_prototype
        &&& self.functions().len() == old.functions().len()
        &&& forall|f: int| 1 <= f < self.functions().len() ==> self.functions()[f] == old.functions()[f]
        &&& self.functions()[0].name == old.functions()[0].name
        &&& self.functions()[0].function_type == old.functions()[0].function_type
        &&& self.blocks().len() == old.blocks().len()
        &&& forall|c: int| 0 <= c < self.blocks().len() && c != b ==> self.blocks()[c] == old.blocks()[c]
        &&& self.blocks()[b].name == old.blocks()[b].name
    }

    /// `self` equals `old` in the entry function and the insertion point; the
    /// declarations and the globals may differ.
    pub open spec fn same_code(self, old: Self) -> bool {
        &&& self.module.name == old.module.name
        &&& self.builder == old.builder
        &&& self.root_function == old.root_function
        &&& self.entry_block == old.entry_block
        &&& self.root_function_prototype == old.root_function_prototype
        &&& self.functions()[0] == old.functions()[0]
    }

    /// `self` grew from `old` without disturbing it: the declarations and the
    /// globals of `old` are kept, as are the entry function's name and type.
    pub open spec fn extends(self, old: Self) -> bool {
        &&& self.module.name == old.module.name
        &&& self.root_function == old.root_function
        &&& self.entry_block == old.entry_block
        &&& self.root_function_prototype == old.root_function_prototype
        &&& self.functions().len() >= old.functions().len()
        &&& forall|f: int| 1 <= f < old.functions().len() ==> self.functions()[f] == old.functions()[f]
        &&& self.functions()[0].name == old.functions()[0].name
        &&& self.functions()[0].function_type == old.functions()[0].function_type
        &&& self.module.globals@.len() >= old.module.globals@.len()
        &&& forall|g: int| 0 <= g < old.module.globals@.len() ==> self.module.globals@[g] == old.module.globals@[g]
    }

    /// `self` differs from `old` in the entry function only by calls appended
    /// to the current block.
    pub open spec fn only_calls_appended(self, old: Self) -> bool {
        let cur = old.current();
        &&& self.builder == old.builder
        &&& self.blocks().len() == old.blocks().len()
        &&& forall|b: int| 0 <= b < self.blocks().len() && b != cur ==> self.blocks()[b] == old.blocks()[b]
        &&& self.blocks()[cur].name == old.blocks()[cur].name
        &&& self.instrs(cur).len() >= old.instrs(cur).len()
        &&& forall|i: int| 0 <= i < old.instrs(cur).len() ==> self.instrs(cur)[i] == old.instrs(cur)[i]
        &&& forall|i: int| old.instrs(cur).len() <= i < self.instrs(cur).len() ==> (#[trigger] self.instrs(cur)[i]) is Call
    }

    /// The index of the function named `name`, if there is one.
    pub open spec fn function_named(self, name: Seq<char>) -> Option<int> {
        self.model().function_index(name)
    }

    /// Instructions appended to the current block show in the model as such.
    proof fn lemma_model_push(self, old: Self, x: Instruction)
        requires
            old.shaped(),
            self.same_but_block(old, old.current()),
            self.instrs(old.current()) == old.instrs(old.current()).push(x),
        ensures
            self.model() == old.model().push_inst(inst_model(x)),
    {
        let c = old.current();
        assert(self.model().blocks[c].insts =~= old.model().blocks[c].insts.push(inst_model(x)));
        assert(self.model().blocks =~= old.model().push_inst(inst_model(x)).blocks);
        assert(self.model().functions =~= old.model().functions);
    }

    /// Creates the module `module_name` with its entry function `main`, which
    /// takes nothing and returns nothing, and the function's first block
    /// `entry`, where the insertion point is placed.
    pub fn new(module_name: &str) -> (r: Self)
        requires
            !module_name@.contains('\0'),
        ensures
            r.wf(),
            r.ip_reachable(),
            r.model() == (IrModel {
                functions: seq![FnModel { name: "main"@, ret: IrType::Void, params: Seq::empty() }],
                blocks: seq![BlockModel { name: "entry"@, insts: Seq::empty() }],
                globals: Seq::empty(),
                cur: 0,
            }),
            r.module.name@ == module_name@,
            r.functions().len() == 1,
            r.functions()[0].name@ == "main"@,
            r.blocks().len() == 1,
            r.blocks()[0].name@ == "entry"@,
            r.instrs(0).len() == 0,
            r.module.globals@.len() == 0,
            r.builder == (InsertionPoint { function: 0, block: 0 }),
    {
        let entry = BasicBlock { name: String::from_str("entry"), instructions: Vec::new() };
        let mut blocks: Vec<BasicBlock> = Vec::new();
        blocks.push(entry);
        let root = Function {
            name: String::from_str("main"),
            function_type: FunctionType { ret: IrType::Void, params: Vec::new() },
            blocks,
        };
        let mut functions: Vec<Function> = Vec::new();
        functions.push(root);
        let module = Module {
            name: String::from_str(module_name),
            functions,
            globals: Vec::new(),
        };
        proof {
            reveal_strlit("main");
            reveal_strlit("entry");
        }
        let r = LLVMContext {
            module,
            builder: InsertionPoint { function: 0, block: 0 },
            root_function_prototype: FunctionType { ret: IrType::Void, params: Vec::new() },
            root_function: 0,
            entry_block: 0,
        };
        assert(r.blocks()[0].instructions@.len() == 0);
        assert(r.model().functions =~= seq![FnModel { name: "main"@, ret: IrType::Void, params: Seq::empty() }]);
        assert(r.model().blocks[0].insts =~= Seq::<Inst>::empty());
        assert(r.model().blocks =~= seq![BlockModel { name: "entry"@, insts: Seq::empty() }]);
        assert(r.model().globals =~= Seq::empty());
        assert(r.is_path(seq![0int]));
        r
    }

    /// Appends `instr` to the block at the insertion point.
    fn push_instruction(&mut self, instr: Instruction)
        requires
            old(self).shaped(),
        ensures
            final(self).same_but_block(*old(self), old(self).current()),
            final(self).instrs(old(self).current()) == old(self).instrs(old(self).current()).push(
                instr,
            ),
    {
        let b = self.builder.block;
        self.module.functions[0].blocks[b].instructions.push(instr);
    }

    /// Appends a call of function `callee` with type `function_type` to the
    /// current block; the result is the call's value.
    pub fn build_call(&mut self, callee: usize, function_type: FunctionType, args: Vec<Value>) -> (r: Value)
        requires
            old(self).shaped(),
            !old(self).blocks()[old(self).current()].terminated(),
            callee < old(self).functions().len(),
            forall|j: int| 0 <= j < args@.len() ==> old(self).value_within(#[trigger] args@[j]),
        ensures
            final(self).shaped(),
            final(self).same_but_block(*old(self), old(self).current()),
            final(self).instrs(old(self).current()) == old(self).instrs(old(self).current()).push(
                Instruction::Call { callee, function_type, args },
            ),
            final(self).model() == old(self).model().push_inst(inst_model(Instruction::Call { callee, function_type, args })),
            !final(self).blocks()[final(self).current()].terminated(),
            r == (Value::CallResult { block: old(self).builder.block, index: old(self).instrs(old(self).current()).len() as usize }),
            final(self).value_within(r),
    {
        let ghost cur = self.current();
        let index = self.module.functions[0].blocks[self.builder.block].instructions.len();
        let r = Value::CallResult { block: self.builder.block, index };
        self.push_instruction(Instruction::Call { callee, function_type, args });
        proof {
            self.lemma_push_keeps_shape(*old(self));
            self.lemma_model_push(*old(self), self.instrs(old(self).current()).last());
        }
        r
    }

    /// Appends an unconditional branch to block `dest` to the current block.
    pub fn build_br(&mut self, dest: usize)
        requires
            old(self).shaped(),
            dest < old(self).blocks().len(),
            !old(self).blocks()[old(self).current()].terminated(),
        ensures
            final(self).shaped(),
            final(self).same_but_block(*old(self), old(self).current()),
            final(self).instrs(old(self).current()) == old(self).instrs(old(self).current()).push(
                Instruction::Br { dest },
            ),
            final(self).model() == old(self).model().push_inst(inst_model(Instruction::Br { dest })),
    {
        self.push_instruction(Instruction::Br { dest });
        proof {
            self.lemma_push_keeps_shape(*old(self));
            self.lemma_model_push(*old(self), self.instrs(old(self).current()).last());
        }
    }

    /// Appends a conditional branch on `cond` to the current block.
    pub fn build_cond_br(&mut self, cond: Value, then_dest: usize, else_dest: usize)
        requires
            old(self).shaped(),
            then_dest < old(self).blocks().len(),
            else_dest < old(self).blocks().len(),
            old(self).value_within(cond),
            !old(self).blocks()[old(self).current()].terminated(),
        ensures
            final(self).shaped(),
            final(self).same_but_block(*old(self), old(self).current()),
            final(self).instrs(old(self).current()) == old(self).instrs(old(self).current()).push(
                Instruction::CondBr { cond, then_dest, else_dest },
            ),
            final(self).model() == old(self).model().push_inst(inst_model(Instruction::CondBr { cond, then_dest, else_dest })),
    {
        self.push_instruction(Instruction::CondBr { cond, then_dest, else_dest });
        proof {
            self.lemma_push_keeps_shape(*old(self));
            self.lemma_model_push(*old(self), self.instrs(old(self).current()).last());
        }
    }

    /// Appends a return without value to the current block.
    pub fn build_ret_void(&mut self)
        requires
            old(self).shaped(),
            !old(self).blocks()[old(self).current()].terminated(),
        ensures
            final(self).shaped(),
            final(self).same_but_block(*old(self), old(self).current()),
            final(self).instrs(old(self).current()) == old(self).instrs(old(self).current()).push(
                Instruction::RetVoid,
            ),
            final(self).model() == old(self).model().push_inst(inst_model(Instruction::RetVoid)),
    {
        self.push_instruction(Instruction::RetVoid);
        proof {
            self.lemma_push_keeps_shape(*old(self));
            self.lemma_model_push(*old(self), self.instrs(old(self).current()).last());
        }
    }

    /// Appends an empty block named `name` to the entry function; the result
    /// is its index.
    pub fn append_basic_block(&mut self, name: &str) -> (r: usize)
        requires
            old(self).shaped(),
        ensures
            final(self).shaped(),
            r == old(self).blocks().len(),
            final(self).blocks().len() == old(self).blocks().len() + 1,
            forall|b: int| 0 <= b < r ==> final(self).blocks()[b] == old(self).blocks()[b],
            final(self).blocks()[r as int].name@ == name@,
            final(self).instrs(r as int).len() == 0,
            final(self).module.name == old(self).module.name,
            final(self).module.globals == old(self).module.globals,
            final(self).builder == old(self).builder,
            final(self).root_function_prototype == old(self).root_function_prototype,
            final(self).functions().len() == old(self).functions().len(),
            forall|f: int| 1 <= f < final(self).functions().len() ==> final(self).functions()[f] == old(self).functions()[f],
            final(self).functions()[0].name == old(self).functions()[0].name,
            final(self).functions()[0].function_type == old(self).functions()[0].function_type,
            final(self).model() == old(self).model().push_block(name@),
    {
        let r = self.module.functions[0].blocks.len();
        let block = BasicBlock { name: String::from_str(name), instructions: Vec::new() };
        self.module.functions[0].blocks.push(block);
        proof {
            let fs = self.functions();
            let ofs = old(self).functions();
            assert forall|f: int| 1 <= f < fs.len() implies (#[trigger] fs[f]).blocks@.len() == 0
                && fs[f].function_type.ret == IrType::I32 by {
                assert(fs[f] == ofs[f]);
            }
            assert forall|f: int, g: int|
                0 <= f < fs.len() && 0 <= g < fs.len() && f != g implies (#[trigger] fs[f]).name@
                    != (#[trigger] fs[g]).name@ by {
                assert(fs[f].name == ofs[f].name);
                assert(fs[g].name == ofs[g].name);
            }
            assert forall|b: int| 0 <= b < self.blocks().len() implies (#[trigger] self.blocks()[b]).terminators_last() by {
                if b < r {
                    assert(self.blocks()[b] == old(self).blocks()[b]);
                }
            }
            assert(self.instrs(r as int).len() == 0);
            self.lemma_code_kept(*old(self));
            assert(self.model().blocks[r as int].insts =~= Seq::<Inst>::empty());
            assert(self.model().blocks =~= old(self).model().push_block(name@).blocks);
            assert(self.model().functions =~= old(self).model().functions);
        }
        r
    }

    /// Moves the insertion point to the end of block `block` of the entry
    /// function.
    pub fn position_builder_at_end(&mut self, block: usize)
        requires
            old(self).shaped(),
            block < old(self).blocks().len(),
        ensures
            final(self).shaped(),
            final(self).builder == (InsertionPoint { function: old(self).root_function, block }),
            final(self).module == old(self).module,
            final(self).root_function == old(self).root_function,
            final(self).entry_block == old(self).entry_block,
            final(self).root_function_prototype == old(self).root_function_prototype,
            final(self).model() == old(self).model().at(block as int),
    {
        self.builder = InsertionPoint { function: self.root_function, block };
        proof {
            self.lemma_code_kept(*old(self));
        }
    }

    /// Looks up the function named `name`.
    pub fn get_named_function(&self, name: &str) -> (r: Option<usize>)
        requires
            self.shaped(),
        ensures
            r == (match self.function_named(name@) {
                Some(f) => Some(f as usize),
                None => None::<usize>,
            }),
    {
        let mut f: usize = 0;
        while f < self.module.functions.len()
            invariant
                self.shaped(),
                f <= self.functions().len(),
                forall|g: int| 0 <= g < f ==> (#[trigger] self.functions()[g]).name@ != name@,
            decreases self.functions().len() - f,
        {
            if same_name(self.module.functions[f].name.as_str(), name) {
                let ghost ms = self.model().functions;
                assert(ms[f as int].name == name@);
                let ghost c = choose|g: int| 0 <= g < ms.len() && (#[trigger] ms[g]).name == name@;
                assert(self.functions()[c].name@ == name@);
                return Some(f);
            }
            f = f + 1;
        }
        assert forall|g: int| 0 <= g < self.model().functions.len() implies (#[trigger] self.model().functions[g]).name != name@ by {
            assert(self.functions()[g].name@ != name@);
        }
        None
    }

    /// Declares an external function named `name` with type `function_type`;
    /// the result is its index.
    pub fn add_function(&mut self, name: &str, function_type: FunctionType) -> (r: usize)
        requires
            old(self).shaped(),
            old(self).function_named(name@) is None,
            function_type.ret == IrType::I32,
        ensures
            final(self).shaped(),
            final(self).same_code(*old(self)),
            final(self).module.globals == old(self).module.globals,
            r == old(self).functions().len(),
            final(self).functions().len() == r + 1,
            forall|f: int| 0 <= f < r ==> final(self).functions()[f] == old(self).functions()[f],
            final(self).functions()[r as int].name@ == name@,
            final(self).functions()[r as int].function_type == function_type,
            final(self).functions()[r as int].blocks@.len() == 0,
            final(self).model() == old(self).model().push_decl(name@, function_type.params@),
    {
        let r = self.module.functions.len();
        let f = Function { name: String::from_str(name), function_type, blocks: Vec::new() };
        self.module.functions.push(f);
        proof {
            let fs = self.functions();
            let ofs = old(self).functions();
            assert(fs[0] == ofs[0]);
            assert forall|f: int| 1 <= f < fs.len() implies (#[trigger] fs[f]).blocks@.len() == 0
                && fs[f].function_type.ret == IrType::I32 by {
                if f < r {
                    assert(fs[f] == ofs[f]);
                }
            }
            assert forall|f: int, g: int|
                0 <= f < fs.len() && 0 <= g < fs.len() && f != g implies (#[trigger] fs[f]).name@
                    != (#[trigger] fs[g]).name@ by {
                if f < r && g < r {
                    assert(fs[f] == ofs[f]);
                    assert(fs[g] == ofs[g]);
                } else if f < r {
                    assert(fs[f] == ofs[f]);
                    assert(old(self).model().functions[f] == fn_model(ofs[f]));
                    assert(ofs[f].name@ != name@);
                } else if g < r {
                    assert(fs[g] == ofs[g]);
                    assert(old(self).model().functions[g] == fn_model(ofs[g]));
                    assert(ofs[g].name@ != name@);
                }
            }
            assert forall|b: int| 0 <= b < self.blocks().len() implies (#[trigger] self.blocks()[b]).terminators_last() by {
                assert(self.blocks()[b] == old(self).blocks()[b]);
            }
            self.lemma_code_kept(*old(self));
            assert(self.model().functions =~= old(self).model().push_decl(name@, function_type.params@).functions);
            assert(self.model().blocks =~= old(self).model().blocks);
        }
        r
    }

    /// Adds a global holding the bytes of `string` followed by a zero byte;
    /// the result points to it. Equal strings are not shared: each call adds
    /// a global of its own.
    pub fn create_string_literal(&mut self, string: &str) -> (r: Value)
        requires
            old(self).shaped(),
            !string@.contains('\0'),
        ensures
            final(self).shaped(),
            final(self).same_code(*old(self)),
            final(self).module.functions == old(self).module.functions,
            final(self).module.globals@.len() == old(self).module.globals@.len() + 1,
            forall|g: int| 0 <= g < old(self).module.globals@.len() ==> final(self).module.globals@[g] == old(self).module.globals@[g],
            final(self).module.globals@.last().name@ == "str"@,
            final(self).module.globals@.last().bytes@ == string.spec_bytes().push(0u8),
            r == (Value::GlobalString { index: old(self).module.globals@.len() as usize }),
            final(self).model() == old(self).model().push_global("str"@, string.spec_bytes().push(0u8)),
    {
        let index = self.module.globals.len();
        let mut bytes = string.as_bytes_vec();
        bytes.push(0u8);
        let g = Global { name: String::from_str("str"), bytes };
        proof {
            reveal_strlit("str");
        }
        self.module.globals.push(g);
        proof {
            self.lemma_code_kept(*old(self));
            assert(self.model().globals =~= old(self).model().push_global("str"@, string.spec_bytes().push(0u8)).globals);
            assert(self.model().blocks =~= old(self).model().blocks);
            assert(self.model().functions =~= old(self).model().functions);
        }
        Value::GlobalString { index }
    }

    /// What exists in `old` still exists in a context that keeps it.
    pub proof fn lemma_keeps_within(self, old: Self, v: Value)
        requires
            self.keeps(old),
            old.value_within(v),
        ensures
            self.value_within(v),
    {
        if let Value::CallResult { block, index } = v {
            assert(self.instrs(block as int)[index as int] == old.instrs(block as int)[index as int]);
        }
    }

    proof fn lemma_keeps_operands(self, old: Self, ins: Instruction)
        requires
            self.keeps(old),
            old.operands_within(ins),
        ensures
            self.operands_within(ins),
    {
        match ins {
            Instruction::Call { args, .. } => {
                assert forall|j: int| 0 <= j < args@.len() implies self.value_within(#[trigger] args@[j]) by {
                    self.lemma_keeps_within(old, args@[j]);
                }
            },
            Instruction::CondBr { cond, .. } => {
                self.lemma_keeps_within(old, cond);
            },
            _ => {},
        }
    }

    /// A context that keeps a well-shaped one, and whose instructions outside
    /// it are well-formed, has all its operands.
    proof fn lemma_keeps_exist(self, old: Self)
        requires
            self.keeps(old),
            old.operands_exist(),
            forall|b: int, i: int|
                0 <= b < self.blocks().len() && 0 <= i < self.instrs(b).len() && !(b < old.blocks().len()
                    && i < old.instrs(b).len()) ==> self.operands_within(#[trigger] self.instrs(b)[i]),
        ensures
            self.operands_exist(),
    {
        assert forall|b: int, i: int|
            0 <= b < self.blocks().len() && 0 <= i < self.instrs(b).len() implies self.operands_within(
                #[trigger] self.instrs(b)[i],
            ) by {
            if b < old.blocks().len() && i < old.instrs(b).len() {
                assert(self.instrs(b)[i] == old.instrs(b)[i]);
                self.lemma_keeps_operands(old, old.instrs(b)[i]);
            }
        }
    }

    /// An operation that adds functions, globals or empty blocks, and leaves
    /// every instruction in place, keeps branches, calls and operands from
    /// dangling.
    proof fn lemma_code_kept(self, old: Self)
        requires
            old.no_dangling(),
            old.operands_exist(),
            self.functions().len() >= old.functions().len(),
            self.module.globals@.len() >= old.module.globals@.len(),
            self.blocks().len() >= old.blocks().len(),
            forall|b: int| 0 <= b < old.blocks().len() ==> self.instrs(b) == old.instrs(b),
            forall|b: int| old.blocks().len() <= b < self.blocks().len() ==> self.instrs(b).len() == 0,
        ensures
            self.no_dangling(),
            self.operands_exist(),
            self.keeps(old),
    {
        assert forall|b: int, i: int|
            0 <= b < self.blocks().len() && 0 <= i < self.instrs(b).len() implies (#[trigger] self.instrs(b)[i]).targets_within(
                self.blocks().len(),
                self.functions().len(),
            ) by {
            assert(self.instrs(b)[i] == old.instrs(b)[i]);
        }
        self.lemma_keeps_exist(old);
    }

    proof fn lemma_push_keeps_shape(self, old: Self)
        requires
            old.shaped(),
            !old.blocks()[old.current()].terminated(),
            self.same_but_block(old, old.current()),
            self.instrs(old.current()) == old.instrs(old.current()).push(
                self.instrs(old.current()).last(),
            ),
            self.instrs(old.current()).last().targets_within(old.blocks().len(), old.functions().len()),
            old.operands_within(self.instrs(old.current()).last()),
        ensures
            self.shaped(),
    {
        assert forall|b: int, i: int|
            0 <= b < old.blocks().len() && 0 <= i < old.instrs(b).len() implies self.instrs(b).len()
                >= old.instrs(b).len() && #[trigger] self.instrs(b)[i] == old.instrs(b)[i] by {
            if b != old.current() {
                assert(self.blocks()[b] == old.blocks()[b]);
            }
        }
        self.lemma_keeps_operands(old, self.instrs(old.current()).last());
        self.lemma_keeps_exist(old);
        assert forall|b: int, i: int|
            0 <= b < self.blocks().len() && 0 <= i < self.instrs(b).len() implies (#[trigger] self.instrs(b)[i]).targets_within(
                self.blocks().len(),
                self.functions().len(),
            ) by {
            if b != old.current() {
                assert(self.blocks()[b] == old.blocks()[b]);
                assert(self.instrs(b)[i] == old.instrs(b)[i]);
            } else if i < old.instrs(b).len() {
                assert(self.instrs(b)[i] == old.instrs(b)[i]);
            } else {
                assert(self.instrs(b)[i] == self.instrs(old.current()).last());
            }
        }
        let fs = self.functions();
        assert forall|f: int| 1 <= f < fs.len() implies (#[trigger] fs[f]).blocks@.len() == 0
            && fs[f].function_type.ret == IrType::I32 by {
            assert(fs[f] == old.functions()[f]);
        }
        assert forall|f: int, g: int|
            0 <= f < fs.len() && 0 <= g < fs.len() && f != g implies (#[trigger] fs[f]).name@
                != (#[trigger] fs[g]).name@ by {
            assert(fs[f].name == old.functions()[f].name);
            assert(fs[g].name == old.functions()[g].name);
        }
        assert forall|b: int| 0 <= b < self.blocks().len() implies (#[trigger] self.blocks()[b]).terminators_last() by {
            if b != old.current() {
                assert(self.blocks()[b] == old.blocks()[b]);
            } else {
                let s = self.instrs(b);
                assert forall|i: int| 0 <= i < s.len() - 1 implies !(#[trigger] s[i]).is_terminator() by {
                    assert(s[i] == old.instrs(b)[i]);
                    if i < old.instrs(b).len() - 1 {
                        assert(old.blocks()[b].terminators_last());
                    }
                }
            }
        }
    }
}

} // verus!
