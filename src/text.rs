//! The textual form of a module, in the assembly syntax of the code
//! generation backend: global strings, declarations, then the entry function
//! with one labelled section per block.
use vstd::prelude::*;
use vstd::string::StrSliceExecFns;
use vstd::utf8::encode_utf8;
use crate::ir::{BasicBlock, Function, Instruction, IrType, Module, Value, sext32};

verus! {

/// The bytes of a piece of text.
pub open spec fn txt(s: Seq<char>) -> Seq<u8> {
    encode_utf8(s)
}

/// The concatenation of `f(0)`, ..., `f(n - 1)`.
pub open spec fn concat_upto(n: int, f: spec_fn(int) -> Seq<u8>) -> Seq<u8>
    decreases n,
{
    if n <= 0 {
        Seq::empty()
    } else {
        concat_upto(n - 1, f) + f(n - 1)
    }
}

/// The decimal digits of `n`.
pub open spec fn decimal(n: nat) -> Seq<u8>
    decreases n,
{
    if n < 10 {
        seq![(48 + n) as u8]
    } else {
        decimal(n / 10) + seq![(48 + n % 10) as u8]
    }
}

/// The `k` low hexadecimal digits of `n`, most significant first, in upper case.
pub open spec fn hex_digits(n: nat, k: nat) -> Seq<u8>
    decreases k,
{
    if k == 0 {
        Seq::empty()
    } else {
        hex_digits(n / 16, (k - 1) as nat) + seq![hex_digit(n % 16)]
    }
}

pub open spec fn hex_digit(d: nat) -> u8 {
    if d < 10 {
        (48 + d) as u8
    } else {
        (55 + d) as u8
    }
}

/// A signed integer in decimal.
pub open spec fn signed_decimal(x: int) -> Seq<u8> {
    if x < 0 {
        seq![45u8] + decimal((-x) as nat)
    } else {
        decimal(x as nat)
    }
}

fn push_text(out: &mut Vec<u8>, s: &str)
    ensures
        final(out)@ == old(out)@ + txt(s@),
{
    let mut b = s.as_bytes_vec();
    out.append(&mut b);
}

fn push_decimal(out: &mut Vec<u8>, n: u64)
    ensures
        final(out)@ == old(out)@ + decimal(n as nat),
    decreases n,
{
    if n >= 10 {
        push_decimal(out, n / 10);
    }
    out.push((48 + n % 10) as u8);
    assert(final(out)@ =~= old(out)@ + decimal(n as nat));
}

fn push_hex_digits(out: &mut Vec<u8>, n: u64, k: u64)
    ensures
        final(out)@ == old(out)@ + hex_digits(n as nat, k as nat),
    decreases k,
{
    if k > 0 {
        push_hex_digits(out, n / 16, k - 1);
        let d = n % 16;
        let c: u8 = if d < 10 {
            (48 + d) as u8
        } else {
            (55 + d) as u8
        };
        out.push(c);
        assert(final(out)@ =~= old(out)@ + hex_digits(n as nat, k as nat));
    }
}

/// The separator put before item `i` of a list.
pub open spec fn sep(i: int) -> Seq<u8> {
    if i > 0 {
        txt(", "@)
    } else {
        Seq::empty()
    }
}

pub open spec fn type_text(t: IrType) -> Seq<u8> {
    match t {
        IrType::Void => txt("void"@),
        IrType::I1 => txt("i1"@),
        IrType::I32 => txt("i32"@),
        IrType::F64 => txt("double"@),
        IrType::Ptr => txt("ptr"@),
    }
}

/// The symbol of global `i`: its name, a dot and its index.
pub open spec fn global_symbol(m: Module, i: int) -> Seq<u8> {
    (if 0 <= i < m.globals@.len() {
        txt(m.globals@[i].name@)
    } else {
        txt("str"@)
    }) + txt("."@) + decimal(i as nat)
}

/// The name of function `f`.
pub open spec fn function_symbol(m: Module, f: int) -> Seq<u8> {
    if 0 <= f < m.functions@.len() {
        txt(m.functions@[f].name@)
    } else {
        txt("undefined"@)
    }
}

/// A value with its type: an integer constant in decimal (a 32-bit one
/// read as signed, a 1-bit one as `true` or `false`), a floating-point
/// constant as its bit pattern in hexadecimal, a global by its symbol, and
/// the result of a call by the register named after the call's position.
pub open spec fn value_text(m: Module, v: Value) -> Seq<u8> {
    match v {
        Value::ConstInt { ty: IrType::I32, value } => txt("i32 "@) + signed_decimal(
            sext32(value as int % 0x1_0000_0000),
        ),
        Value::ConstInt { ty: IrType::I1, value } => if value % 2 == 1 {
            txt("i1 true"@)
        } else {
            txt("i1 false"@)
        },
        Value::ConstInt { ty, value } => type_text(ty) + txt(" "@) + decimal(value as nat),
        Value::ConstReal { bits } => txt("double 0x"@) + hex_digits(bits as nat, 16),
        Value::GlobalString { index } => txt("ptr @"@) + global_symbol(m, index as int),
        Value::CallResult { block, index } => txt("i32 %r"@) + decimal(block as nat) + txt("."@)
            + decimal(index as nat),
    }
}

fn push_type(out: &mut Vec<u8>, t: IrType)
    ensures
        final(out)@ == old(out)@ + type_text(t),
{
    match t {
        IrType::Void => push_text(out, "void"),
        IrType::I1 => push_text(out, "i1"),
        IrType::I32 => push_text(out, "i32"),
        IrType::F64 => push_text(out, "double"),
        IrType::Ptr => push_text(out, "ptr"),
    }
}

fn push_global_symbol(out: &mut Vec<u8>, m: &Module, i: usize)
    ensures
        final(out)@ == old(out)@ + global_symbol(*m, i as int),
{
    if i < m.globals.len() {
        push_text(out, m.globals[i].name.as_str());
    } else {
        push_text(out, "str");
    }
    push_text(out, ".");
    push_decimal(out, i as u64);
    assert(final(out)@ =~= old(out)@ + global_symbol(*m, i as int));
}

fn push_signed(out: &mut Vec<u8>, x: i64)
    ensures
        final(out)@ == old(out)@ + signed_decimal(x as int),
{
    if x < 0 {
        out.push(45u8);
        let mag: u64 = if x == i64::MIN {
            0x8000_0000_0000_0000u64
        } else {
            (-x) as u64
        };
        push_decimal(out, mag);
        assert(final(out)@ =~= old(out)@ + signed_decimal(x as int));
    } else {
        push_decimal(out, x as u64);
    }
}

fn push_value(out: &mut Vec<u8>, m: &Module, v: &Value)
    ensures
        final(out)@ == old(out)@ + value_text(*m, *v),
{
    let ghost o = out@;
    match v {
        Value::ConstInt { ty: IrType::I32, value } => {
            push_text(out, "i32 ");
            let low = *value % 0x1_0000_0000;
            let x: i64 = if low >= 0x8000_0000 {
                low as i64 - 0x1_0000_0000i64
            } else {
                low as i64
            };
            push_signed(out, x);
        },
        Value::ConstInt { ty: IrType::I1, value } => {
            if *value % 2 == 1 {
                push_text(out, "i1 true");
            } else {
                push_text(out, "i1 false");
            }
        },
        Value::ConstInt { ty, value } => {
            push_type(out, *ty);
            push_text(out, " ");
            push_decimal(out, *value);
        },
        Value::ConstReal { bits } => {
            push_text(out, "double 0x");
            push_hex_digits(out, *bits, 16);
        },
        Value::GlobalString { index } => {
            push_text(out, "ptr @");
            push_global_symbol(out, m, *index);
        },
        Value::CallResult { block, index } => {
            push_text(out, "i32 %r");
            push_decimal(out, *block as u64);
            push_text(out, ".");
            push_decimal(out, *index as u64);
        },
    }
    assert(out@ =~= o + value_text(*m, *v));
}

/// A byte of a string constant: printable ASCII but the quote and the
/// backslash stands for itself, any other byte is a backslash and two
/// hexadecimal digits.
pub open spec fn escape_byte(b: u8) -> Seq<u8> {
    if 32 <= b < 127 && b != 34 && b != 92 {
        seq![b]
    } else {
        seq![92u8] + hex_digits(b as nat, 2)
    }
}

/// The arguments of a call, separated by commas.
pub open spec fn args_text(m: Module, args: Seq<Value>) -> Seq<u8> {
    concat_upto(args.len() as int, |j: int| sep(j) + value_text(m, args[j]))
}

/// The parameter types of a signature, separated by commas.
pub open spec fn params_text(ps: Seq<IrType>) -> Seq<u8> {
    concat_upto(ps.len() as int, |j: int| sep(j) + type_text(ps[j]))
}

/// Instruction `i` of block `b`, on a line of its own; a call's result is
/// the register named after its position.
pub open spec fn instr_text(m: Module, ins: Instruction, b: int, i: int) -> Seq<u8> {
    match ins {
        Instruction::Call { callee, function_type, args } => txt("  %r"@) + decimal(b as nat) + txt("."@)
            + decimal(i as nat) + txt(" = call "@) + type_text(function_type.ret) + txt(" @"@)
            + function_symbol(m, callee as int) + txt("("@) + args_text(m, args@) + txt(")\n"@),
        Instruction::Br { dest } => txt("  br label %bb"@) + decimal(dest as nat) + txt("\n"@),
        Instruction::CondBr { cond, then_dest, else_dest } => txt("  br "@) + value_text(m, cond)
            + txt(", label %bb"@) + decimal(then_dest as nat) + txt(", label %bb"@) + decimal(
            else_dest as nat,
        ) + txt("\n"@),
        Instruction::RetVoid => txt("  ret void\n"@),
    }
}

/// Block `b`: its label, with its name in a comment, then its instructions.
pub open spec fn block_text(m: Module, blk: BasicBlock, b: int) -> Seq<u8> {
    txt("bb"@) + decimal(b as nat) + txt(":  ; "@) + txt(blk.name@) + txt("\n"@) + concat_upto(
        blk.instructions@.len() as int,
        |i: int| instr_text(m, blk.instructions@[i], b, i),
    )
}

/// A function: a declaration when it has no blocks, else its definition.
pub open spec fn function_text(m: Module, f: Function) -> Seq<u8> {
    if f.blocks@.len() == 0 {
        txt("declare "@) + signature_text(f) + txt("\n"@)
    } else {
        txt("define "@) + signature_text(f) + txt(" {\n"@) + blocks_text(m, f) + txt("}\n"@)
    }
}

/// The return type, name and parameter types of a function.
pub open spec fn signature_text(f: Function) -> Seq<u8> {
    type_text(f.function_type.ret) + txt(" @"@) + txt(f.name@) + txt("("@) + params_text(
        f.function_type.params@,
    ) + txt(")"@)
}

/// The blocks of a function, in order.
pub open spec fn blocks_text(m: Module, f: Function) -> Seq<u8> {
    concat_upto(f.blocks@.len() as int, |b: int| block_text(m, f.blocks@[b], b))
}

/// Global `i`: a private constant array of bytes.
pub open spec fn global_text(m: Module, i: int) -> Seq<u8> {
    let g = m.globals@[i];
    txt("@"@) + global_symbol(m, i) + txt(" = private unnamed_addr constant ["@) + decimal(
        g.bytes@.len(),
    ) + txt(" x i8] c\""@) + concat_upto(g.bytes@.len() as int, |j: int| escape_byte(g.bytes@[j]))
        + txt("\"\n"@)
}

/// The module: a header naming it, its globals, then its functions.
pub open spec fn module_text(m: Module) -> Seq<u8> {
    txt("; ModuleID = '"@) + txt(m.name@) + txt("'\n"@) + concat_upto(
        m.globals@.len() as int,
        |i: int| global_text(m, i),
    ) + concat_upto(m.functions@.len() as int, |f: int| function_text(m, m.functions@[f]))
}

fn push_args(out: &mut Vec<u8>, m: &Module, args: &Vec<Value>)
    ensures
        final(out)@ == old(out)@ + args_text(*m, args@),
{
    let ghost f = |j: int| sep(j) + value_text(*m, args@[j]);
    let mut j: usize = 0;
    while j < args.len()
        invariant
            j <= args@.len(),
            out@ == old(out)@ + concat_upto(j as int, f),
            f == (|j: int| sep(j) + value_text(*m, args@[j])),
        decreases args@.len() - j,
    {
        let ghost before = out@;
        if j > 0 {
            push_text(out, ", ");
        }
        push_value(out, m, &args[j]);
        assert(out@ =~= before + f(j as int));
        j = j + 1;
    }
}

fn push_params(out: &mut Vec<u8>, ps: &Vec<IrType>)
    ensures
        final(out)@ == old(out)@ + params_text(ps@),
{
    let ghost f = |j: int| sep(j) + type_text(ps@[j]);
    let mut j: usize = 0;
    while j < ps.len()
        invariant
            j <= ps@.len(),
            out@ == old(out)@ + concat_upto(j as int, f),
            f == (|j: int| sep(j) + type_text(ps@[j])),
        decreases ps@.len() - j,
    {
        let ghost before = out@;
        if j > 0 {
            push_text(out, ", ");
        }
        push_type(out, ps[j]);
        assert(out@ =~= before + f(j as int));
        j = j + 1;
    }
}

fn push_call(out: &mut Vec<u8>, m: &Module, callee: usize, ret: IrType, args: &Vec<Value>, b: usize, i: usize)
    ensures
        final(out)@ == old(out)@ + txt("  %r"@) + decimal(b as nat) + txt("."@) + decimal(i as nat)
            + txt(" = call "@) + type_text(ret) + txt(" @"@) + function_symbol(*m, callee as int)
            + txt("("@) + args_text(*m, args@) + txt(")\n"@),
{
    let ghost o = out@;
    push_text(out, "  %r");
    push_decimal(out, b as u64);
    push_text(out, ".");
    push_decimal(out, i as u64);
    push_text(out, " = call ");
    let ghost o1 = out@;
    assert(o1 =~= o + txt("  %r"@) + decimal(b as nat) + txt("."@) + decimal(i as nat) + txt(" = call "@));
    push_type(out, ret);
    push_text(out, " @");
    if callee < m.functions.len() {
        push_text(out, m.functions[callee].name.as_str());
    } else {
        push_text(out, "undefined");
    }
    let ghost o2 = out@;
    assert(o2 =~= o1 + type_text(ret) + txt(" @"@) + function_symbol(*m, callee as int));
    push_text(out, "(");
    push_args(out, m, args);
    push_text(out, ")\n");
    assert(out@ =~= o2 + txt("("@) + args_text(*m, args@) + txt(")\n"@));
}

fn push_instruction(out: &mut Vec<u8>, m: &Module, ins: &Instruction, b: usize, i: usize)
    ensures
        final(out)@ == old(out)@ + instr_text(*m, *ins, b as int, i as int),
{
    let ghost o = out@;
    match ins {
        Instruction::Call { callee, function_type, args } => {
            push_call(out, m, *callee, function_type.ret, args, b, i);
        },
        Instruction::Br { dest } => {
            push_text(out, "  br label %bb");
            push_decimal(out, *dest as u64);
            push_text(out, "\n");
        },
        Instruction::CondBr { cond, then_dest, else_dest } => {
            push_text(out, "  br ");
            push_value(out, m, cond);
            push_text(out, ", label %bb");
            push_decimal(out, *then_dest as u64);
            push_text(out, ", label %bb");
            push_decimal(out, *else_dest as u64);
            push_text(out, "\n");
        },
        Instruction::RetVoid => {
            push_text(out, "  ret void\n");
        },
    }
    assert(out@ =~= o + instr_text(*m, *ins, b as int, i as int));
}

fn push_block(out: &mut Vec<u8>, m: &Module, blk: &BasicBlock, b: usize)
    ensures
        final(out)@ == old(out)@ + block_text(*m, *blk, b as int),
{
    let ghost o = out@;
    push_text(out, "bb");
    push_decimal(out, b as u64);
    push_text(out, ":  ; ");
    push_text(out, blk.name.as_str());
    push_text(out, "\n");
    let ghost head = out@;
    let ghost f = |i: int| instr_text(*m, blk.instructions@[i], b as int, i);
    let mut i: usize = 0;
    while i < blk.instructions.len()
        invariant
            i <= blk.instructions@.len(),
            out@ == head + concat_upto(i as int, f),
            f == (|i: int| instr_text(*m, blk.instructions@[i], b as int, i)),
        decreases blk.instructions@.len() - i,
    {
        let ghost before = out@;
        push_instruction(out, m, &blk.instructions[i], b, i);
        assert(out@ =~= before + f(i as int));
        i = i + 1;
    }
    assert(out@ =~= o + block_text(*m, *blk, b as int));
}

fn push_signature(out: &mut Vec<u8>, func: &Function)
    ensures
        final(out)@ == old(out)@ + signature_text(*func),
{
    let ghost o = out@;
    push_type(out, func.function_type.ret);
    push_text(out, " @");
    push_text(out, func.name.as_str());
    push_text(out, "(");
    push_params(out, &func.function_type.params);
    push_text(out, ")");
    assert(out@ =~= o + signature_text(*func));
}

fn push_blocks(out: &mut Vec<u8>, m: &Module, func: &Function)
    ensures
        final(out)@ == old(out)@ + blocks_text(*m, *func),
{
    let ghost f = |b: int| block_text(*m, func.blocks@[b], b);
    let mut b: usize = 0;
    while b < func.blocks.len()
        invariant
            b <= func.blocks@.len(),
            out@ == old(out)@ + concat_upto(b as int, f),
            f == (|b: int| block_text(*m, func.blocks@[b], b)),
        decreases func.blocks@.len() - b,
    {
        let ghost before = out@;
        push_block(out, m, &func.blocks[b], b);
        assert(out@ =~= before + f(b as int));
        b = b + 1;
    }
}

fn push_function(out: &mut Vec<u8>, m: &Module, func: &Function)
    ensures
        final(out)@ == old(out)@ + function_text(*m, *func),
{
    let ghost o = out@;
    if func.blocks.len() == 0 {
        push_text(out, "declare ");
        push_signature(out, func);
        push_text(out, "\n");
        assert(out@ =~= o + function_text(*m, *func));
    } else {
        push_text(out, "define ");
        push_signature(out, func);
        push_text(out, " {\n");
        push_blocks(out, m, func);
        push_text(out, "}\n");
        assert(out@ =~= o + function_text(*m, *func));
    }
}

fn push_global(out: &mut Vec<u8>, m: &Module, i: usize)
    requires
        i < m.globals@.len(),
    ensures
        final(out)@ == old(out)@ + global_text(*m, i as int),
{
    let ghost o = out@;
    let bytes = &m.globals[i].bytes;
    push_text(out, "@");
    push_global_symbol(out, m, i);
    push_text(out, " = private unnamed_addr constant [");
    push_decimal(out, bytes.len() as u64);
    push_text(out, " x i8] c\"");
    let ghost head = out@;
    let ghost f = |j: int| escape_byte(bytes@[j]);
    let mut j: usize = 0;
    while j < bytes.len()
        invariant
            j <= bytes@.len(),
            out@ == head + concat_upto(j as int, f),
            f == (|j: int| escape_byte(bytes@[j])),
        decreases bytes@.len() - j,
    {
        let ghost before = out@;
        let c = bytes[j];
        if 32 <= c && c < 127 && c != 34 && c != 92 {
            out.push(c);
        } else {
            out.push(92u8);
            push_hex_digits(out, c as u64, 2);
        }
        assert(out@ =~= before + f(j as int));
        j = j + 1;
    }
    push_text(out, "\"\n");
    assert(out@ =~= o + global_text(*m, i as int));
}

/// The module in the backend's assembly syntax, as bytes.
pub fn module_text_bytes(m: &Module) -> (r: Vec<u8>)
    ensures
        r@ == module_text(*m),
{
    let mut out: Vec<u8> = Vec::new();
    push_text(&mut out, "; ModuleID = '");
    push_text(&mut out, m.name.as_str());
    push_text(&mut out, "'\n");
    let ghost head = out@;
    let ghost fg = |i: int| global_text(*m, i);
    let mut i: usize = 0;
    while i < m.globals.len()
        invariant
            i <= m.globals@.len(),
            out@ == head + concat_upto(i as int, fg),
            fg == (|i: int| global_text(*m, i)),
        decreases m.globals@.len() - i,
    {
        let ghost before = out@;
        push_global(&mut out, m, i);
        assert(out@ =~= before + fg(i as int));
        i = i + 1;
    }
    let ghost mid = out@;
    let ghost ff = |f: int| function_text(*m, m.functions@[f]);
    let mut f: usize = 0;
    while f < m.functions.len()
        invariant
            f <= m.functions@.len(),
            out@ == mid + concat_upto(f as int, ff),
            ff == (|f: int| function_text(*m, m.functions@[f])),
        decreases m.functions@.len() - f,
    {
        let ghost before = out@;
        push_function(&mut out, m, &m.functions[f]);
        assert(out@ =~= before + ff(f as int));
        f = f + 1;
    }
    assert(out@ =~= module_text(*m));
    out
}

} // verus!
