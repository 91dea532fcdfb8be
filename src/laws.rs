//! Properties that hold across lowering steps, proved from the contracts of
//! the lowering functions.
use vstd::prelude::*;
use vstd::utf8::encode_utf8;
use crate::ast::{CompileError, Expression, Literal, ModuleItem, literal_supported, module_item_error};
use crate::codegen::{bits32, expression_lowered, items_outcome, lemma_outcome_error_kept};
use crate::model::{FnModel, IrModel};
use crate::context::LLVMContext;
use crate::ir::{IrType, Value, sext32};

verus! {

/// Lowering a supported literal and reading the constant back yields the
/// mapped type and the literal's own value: an integer comes back as a 32-bit
/// constant whose signed reading is the integer; a boolean as a 1-bit constant
/// 1 or 0; a number as a 64-bit float with the same bit pattern; a string as a
/// pointer to a new global holding its UTF-8 bytes and a terminating zero.
pub proof fn lemma_literal_round_trip(new: LLVMContext, old: LLVMContext, l: Literal, v: Value)
    requires
        literal_supported(l),
        expression_lowered(new, old, Expression::Literal(l), v),
    ensures
        match l {
            Literal::Int(n) => v.spec_type() == IrType::I32 && v.spec_sext_value() == Some(n as int),
            Literal::Bool(b) => v.spec_type() == IrType::I1 && v.spec_zext_value() == Some(
                if b {
                    1u64
                } else {
                    0u64
                },
            ),
            Literal::Num(bits) => v.spec_type() == IrType::F64 && v.spec_real_bits() == Some(bits),
            Literal::Str(s) => {
                &&& v.spec_type() == IrType::Ptr
                &&& v matches Value::GlobalString { index }
                    && index < new.module.globals@.len()
                    && new.module.globals@[index as int].bytes@ == encode_utf8(s@).push(0u8)
            },
            _ => true,
        },
{
    if let Literal::Int(n) = l {
        let u = bits32(n as int);
        assert(v == Value::ConstInt { ty: IrType::I32, value: u as u64 });
        assert(sext32(u) == n as int);
    }
    if let Literal::Str(s) = l {
        assert(old.module.globals@.len() == old.module.globals.len());
    }
}

/// Calling the same external name twice declares it once, and the second
/// call reuses that declaration: resolving the name again changes nothing
/// and yields the same function. A name new to the module is declared once,
/// returning a 32-bit integer and taking the first call's argument types; a
/// name already declared adds nothing.
pub proof fn lemma_call_declaration_idempotent(
    m: IrModel,
    name: Seq<char>,
    first: Seq<IrType>,
    second: Seq<IrType>,
)
    ensures
        ({
            let (m1, c1) = m.resolve(name, first);
            let (m2, c2) = m1.resolve(name, second);
            &&& m2 == m1
            &&& c2 == c1
            &&& 0 <= c1 < m1.functions.len()
            &&& m1.functions[c1].name == name
            &&& (m.function_index(name) is None ==> m1.functions == m.functions.push(
                FnModel { name, ret: IrType::I32, params: first },
            ) && c1 == m.functions.len())
            &&& (m.function_index(name) matches Some(c) ==> m1 == m && c1 == c)
        }),
{
    let (m1, c1) = m.resolve(name, first);
    match m.function_index(name) {
        Some(c) => {},
        None => {
            let n = m.functions.len() as int;
            assert(m1.functions[n].name == name);
            let g = choose|f: int| 0 <= f < m1.functions.len() && (#[trigger] m1.functions[f]).name == name;
            if g < n {
                assert(m.functions[g] == m1.functions[g]);
            }
        },
    }
}

/// A module whose items all lower without error lowers successfully.
proof fn lemma_items_succeed(s: Seq<ModuleItem>, m: IrModel)
    requires
        forall|j: int| 0 <= j < s.len() ==> module_item_error(#[trigger] s[j]) is None,
    ensures
        items_outcome(s, m) is Ok,
    decreases s.len(),
{
    if s.len() > 0 {
        let prefix = s.subrange(0, s.len() - 1);
        assert forall|j: int| 0 <= j < prefix.len() implies module_item_error(#[trigger] prefix[j]) is None by {
            assert(prefix[j] == s[j]);
        }
        lemma_items_succeed(prefix, m);
    }
}

/// Lowering a module aborts at the first item holding a node outside the
/// supported subset (or a call through something other than a name), with
/// that item's error: whatever follows is never lowered, and no module is
/// produced.
pub proof fn lemma_first_refusal_aborts(s: Seq<ModuleItem>, m: IrModel, i: int)
    requires
        0 <= i < s.len(),
        module_item_error(s[i]) is Some,
        forall|j: int| 0 <= j < i ==> module_item_error(#[trigger] s[j]) is None,
    ensures
        items_outcome(s, m) == Err::<(IrModel, Option<Value>), CompileError>(module_item_error(s[i])->Some_0),
{
    let prefix = s.subrange(0, i);
    assert forall|j: int| 0 <= j < prefix.len() implies module_item_error(#[trigger] prefix[j]) is None by {
        assert(prefix[j] == s[j]);
    }
    lemma_items_succeed(prefix, m);
    let upto = s.subrange(0, i + 1);
    assert(upto.subrange(0, i) =~= prefix);
    assert(upto[i] == s[i]);
    lemma_outcome_error_kept(s, m, i + 1, module_item_error(s[i])->Some_0);
}

} // verus!
