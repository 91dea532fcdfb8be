//! The intermediate representation that the lowering engine emits: a module
//! of functions made of basic blocks, global string data, and typed values.
use vstd::prelude::*;

verus! {

/// The primitive types of the IR.
#[derive(Debug, Clone, Copy, PartialEq, Eq, Structural)]
pub enum IrType {
    Void,
    /// A 1-bit integer.
    I1,
    /// A 32-bit integer.
    I32,
    /// A 64-bit IEEE-754 floating-point number.
    F64,
    /// A pointer to a byte buffer.
    Ptr,
}

/// A typed handle on a constant or on the result of an instruction.
#[derive(Debug, Clone, Copy, PartialEq, Eq, Structural)]
pub enum Value {
    /// An integer constant of type `ty`, holding the `ty`-wide bit pattern `value`.
    ConstInt { ty: IrType, value: u64 },
    /// A floating-point constant, as the bit pattern of its binary64 value.
    ConstReal { bits: u64 },
    /// A pointer to the global string at `index` in the module.
    GlobalString { index: usize },
    /// The result of the call at `index` in block `block` of the entry function.
    CallResult { block: usize, index: usize },
}

/// The signature of a function: its return type and parameter types.
#[derive(Debug)]
pub struct FunctionType {
    pub ret: IrType,
    pub params: Vec<IrType>,
}

/// An instruction of a basic block; all but calls are terminators.
#[derive(Debug)]
pub enum Instruction {
    /// A call of function `callee`, emitted with type `function_type`.
    Call { callee: usize, function_type: FunctionType, args: Vec<Value> },
    /// An unconditional branch to block `dest`.
    Br { dest: usize },
    /// A branch to `then_dest` when `cond` holds, else to `else_dest`.
    CondBr { cond: Value, then_dest: usize, else_dest: usize },
    /// A return without value.
    RetVoid,
}

/// A named, ordered sequence of instructions.
#[derive(Debug)]
pub struct BasicBlock {
    pub name: String,
    pub instructions: Vec<Instruction>,
}

/// A function; one without blocks is a declaration of an external symbol.
#[derive(Debug)]
pub struct Function {
    pub name: String,
    pub function_type: FunctionType,
    pub blocks: Vec<BasicBlock>,
}

/// A global constant byte buffer.
#[derive(Debug)]
pub struct Global {
    pub name: String,
    pub bytes: Vec<u8>,
}

/// A compilation unit: its functions, the first of which is the entry
/// function, and its global constant data.
#[derive(Debug)]
pub struct Module {
    pub name: String,
    pub functions: Vec<Function>,
    pub globals: Vec<Global>,
}

impl Value {
    /// The IR type of the value.
    pub open spec fn spec_type(self) -> IrType {
        match self {
            Value::ConstInt { ty, .. } => ty,
            Value::ConstReal { .. } => IrType::F64,
            Value::GlobalString { .. } => IrType::Ptr,
            Value::CallResult { .. } => IrType::I32,
        }
    }

    /// The zero-extended value of an integer constant.
    pub open spec fn spec_zext_value(self) -> Option<u64> {
        match self {
            Value::ConstInt { value, .. } => Some(value),
            _ => None,
        }
    }

    /// The sign-extended value of a well-formed 1-bit or 32-bit integer
    /// constant.
    pub open spec fn spec_sext_value(self) -> Option<int> {
        match self {
            Value::ConstInt { ty: IrType::I1, value } => if value < 2 {
                Some(-(value as int))
            } else {
                None
            },
            Value::ConstInt { ty: IrType::I32, value } => if value < 0x1_0000_0000 {
                Some(sext32(value as int))
            } else {
                None
            },
            _ => None,
        }
    }

    /// The bit pattern of a floating-point constant.
    pub open spec fn spec_real_bits(self) -> Option<u64> {
        match self {
            Value::ConstReal { bits } => Some(bits),
            _ => None,
        }
    }

    pub fn type_of(&self) -> (r: IrType)
        ensures
            r == self.spec_type(),
    {
        match self {
            Value::ConstInt { ty, .. } => *ty,
            Value::ConstReal { .. } => IrType::F64,
            Value::GlobalString { .. } => IrType::Ptr,
            Value::CallResult { .. } => IrType::I32,
        }
    }

    /// The zero-extended value of an integer constant.
    pub fn const_int_get_zext_value(&self) -> (r: Option<u64>)
        ensures
            r == self.spec_zext_value(),
    {
        match self {
            Value::ConstInt { value, .. } => Some(*value),
            _ => None,
        }
    }

    /// The sign-extended value of a 1-bit or 32-bit integer constant.
    pub fn const_int_get_sext_value(&self) -> (r: Option<i64>)
        ensures
            r matches Some(x) ==> self.spec_sext_value() == Some(x as int),
            r is None ==> self.spec_sext_value() is None,
    {
        match self {
            Value::ConstInt { ty: IrType::I1, value } if *value < 2 => {
                Some(0i64 - *value as i64)
            },
            Value::ConstInt { ty: IrType::I32, value } if *value < 0x1_0000_0000 => {
                if *value >= 0x8000_0000 {
                    Some(*value as i64 - 0x1_0000_0000i64)
                } else {
                    Some(*value as i64)
                }
            },
            _ => None,
        }
    }

    /// The bit pattern of a floating-point constant.
    pub fn const_real_bits(&self) -> (r: Option<u64>)
        ensures
            r == self.spec_real_bits(),
    {
        match self {
            Value::ConstReal { bits } => Some(*bits),
            _ => None,
        }
    }
}

/// The signed reading of a 32-bit pattern.
pub open spec fn sext32(v: int) -> int {
    if v >= 0x8000_0000 {
        v - 0x1_0000_0000
    } else {
        v
    }
}

impl Instruction {
    pub open spec fn is_terminator(self) -> bool {
        !(self is Call)
    }

    /// The blocks the instruction branches to are among the first `blocks`,
    /// and the function it calls among the first `functions`.
    pub open spec fn targets_within(self, blocks: nat, functions: nat) -> bool {
        match self {
            Instruction::Call { callee, .. } => callee < functions,
            Instruction::Br { dest } => dest < blocks,
            Instruction::CondBr { then_dest, else_dest, .. } => then_dest < blocks && else_dest < blocks,
            Instruction::RetVoid => true,
        }
    }
}

impl BasicBlock {
    /// The block ends with a terminator.
    pub open spec fn terminated(self) -> bool {
        self.instructions@.len() > 0 && self.instructions@.last().is_terminator()
    }

    /// Only the last instruction of the block may be a terminator.
    pub open spec fn terminators_last(self) -> bool {
        forall|i: int|
            0 <= i < self.instructions@.len() - 1 ==> !(#[trigger] self.instructions@[i]).is_terminator()
    }
}

/// The types of a list of values, in order.
pub open spec fn types_of(vals: Seq<Value>) -> Seq<IrType> {
    vals.map_values(|v: Value| v.spec_type())
}

/// Compares two names character by character.
pub fn same_name(a: &str, b: &str) -> (r: bool)
    ensures
        r == (a@ == b@),
{
    let n = a.unicode_len();
    if n != b.unicode_len() {
        return false;
    }
    let mut i: usize = 0;
    while i < n
        invariant
            n == a@.len(),
            n == b@.len(),
            i <= n,
            forall|j: int| 0 <= j < i ==> a@[j] == b@[j],
        decreases n - i,
    {
        if a.get_char(i) != b.get_char(i) {
            return false;
        }
        i = i + 1;
    }
    assert(a@ =~= b@);
    true
}

/// Builds the list of the types of `vals`.
pub fn type_list(vals: &Vec<Value>) -> (r: Vec<IrType>)
    ensures
        r@ == types_of(vals@),
{
    let mut r: Vec<IrType> = Vec::new();
    let mut i: usize = 0;
    while i < vals.len()
        invariant
            i <= vals@.len(),
            r@ == types_of(vals@.subrange(0, i as int)),
        decreases vals@.len() - i,
    {
        r.push(vals[i].type_of());
        assert(vals@.subrange(0, i + 1) =~= vals@.subrange(0, i as int).push(vals@[i as int]));
        i = i + 1;
    }
    assert(vals@.subrange(0, i as int) =~= vals@);
    r
}

} // verus!
