//! Lowering of syntax-tree nodes into the IR of the context's module.
use vstd::prelude::*;
use crate::ast::{
    CompileError, Construct, Expression, Literal, args_nul_free, expr_nul_free, items_nul_free,
    module_item_nul_free, stmt_nul_free, ModuleItem, Statement, StatementListItem, args_error,
    check_expression, check_statement, expr_error, items_error, items_while_count, module_item_error,
    stmt_error, while_count,
};
use crate::context::LLVMContext;
use crate::model::{BlockModel, FnModel, Inst, IrModel};
use vstd::utf8::encode_utf8;
use crate::ir::{FunctionType, Instruction, IrType, Value, type_list, types_of};

verus! {

/// The lowering engine: a context and the functions that lower syntax-tree
/// nodes into it.
pub struct CodeGenerator {
    pub context: LLVMContext,
}

/// The IR type of the value that a supported expression lowers to: a call
/// yields the 32-bit integer that every external function returns.
pub open spec fn expr_type(e: Expression) -> IrType {
    match e {
        Expression::Literal(Literal::Str(_)) => IrType::Ptr,
        Expression::Literal(Literal::Num(_)) => IrType::F64,
        Expression::Literal(Literal::Int(_)) => IrType::I32,
        Expression::Literal(Literal::Bool(_)) => IrType::I1,
        _ => IrType::I32,
    }
}

/// The constant that a supported literal lowers to, where `next_global` is
/// the number of globals before the lowering.
pub open spec fn literal_constant(l: Literal, next_global: usize) -> Value {
    match l {
        Literal::Str(_) => Value::GlobalString { index: next_global },
        Literal::Num(bits) => Value::ConstReal { bits },
        Literal::Int(n) => Value::ConstInt { ty: IrType::I32, value: bits32(n as int) as u64 },
        Literal::Bool(b) => Value::ConstInt { ty: IrType::I1, value: if b { 1 } else { 0 } },
        _ => Value::ConstInt { ty: IrType::I32, value: 0 },
    }
}

/// The 32-bit two's-complement pattern of a value in the range of `i32`.
pub open spec fn bits32(n: int) -> int {
    if n >= 0 {
        n
    } else {
        n + 0x1_0000_0000
    }
}

/// The parameter types of the signature synthesized for a call with these
/// arguments.
pub open spec fn arg_types(args: Seq<Expression>) -> Seq<IrType> {
    args.map_values(|a: Expression| expr_type(a))
}

/// Lowering `e` on the model `m`: the new model and the expression's value.
/// A string adds a global holding its bytes and a zero; other literals are
/// constants; a call lowers its arguments from left to right, resolves the
/// callee's name against the declarations (declaring it with the argument
/// types if it is new), then appends a call carrying the argument values and
/// their types.
pub open spec fn lower_expr(e: Expression, m: IrModel) -> (IrModel, Value)
    decreases e,
{
    match e {
        Expression::Literal(Literal::Str(s)) => (
            m.push_global("str"@, encode_utf8(s@).push(0u8)),
            Value::GlobalString { index: m.globals.len() as usize },
        ),
        Expression::Literal(l) => (m, literal_constant(l, 0)),
        Expression::Call(f, args) => {
            let (m1, vals) = lower_args(args@, m);
            let params = types_of(vals);
            let (m2, c) = m1.resolve((*f)->Identifier_0@, params);
            (
                m2.push_inst(Inst::Call { callee: c, ret: IrType::I32, params, args: vals }),
                Value::CallResult { block: m2.cur as usize, index: m2.blocks[m2.cur].insts.len() as usize },
            )
        },
        _ => (m, Value::ConstInt { ty: IrType::I32, value: 0 }),
    }
}

/// Lowering the expressions of `s` in order, collecting their values.
pub open spec fn lower_args(s: Seq<Expression>, m: IrModel) -> (IrModel, Seq<Value>)
    decreases s,
{
    if s.len() == 0 {
        (m, Seq::empty())
    } else {
        let (m1, vs) = lower_args(s.subrange(0, s.len() - 1), m);
        let (m2, v) = lower_expr(s[s.len() - 1], m1);
        (m2, vs.push(v))
    }
}

/// Lowering `s` on the model `m`. An expression statement yields its
/// expression's value; a block lowers its items in order at the insertion
/// point; a while loop appends `condition`, `body` and `end`, branches from
/// the current block to `condition`, lowers the predicate there and branches
/// on its value to `body` or `end`, lowers the body in `body` and branches
/// back to `condition` from wherever the body ended, and leaves the
/// insertion point at `end`.
pub open spec fn lower_stmt(s: Statement, m: IrModel) -> (IrModel, Option<Value>)
    decreases s,
{
    match s {
        Statement::Expression(e) => {
            let (m1, v) = lower_expr(e, m);
            (m1, Some(v))
        },
        Statement::Block(items) => (lower_items(items@, m), None),
        Statement::WhileLoop(c, body) => {
            let n = m.blocks.len() as int;
            let m1 = m.push_block("condition"@).push_block("body"@).push_block("end"@).push_inst(
                Inst::Br { dest: n },
            ).at(n);
            let (m2, v) = lower_expr(c, m1);
            let m3 = m2.push_inst(Inst::CondBr { cond: v, then_dest: n + 1, else_dest: n + 2 }).at(n + 1);
            let m4 = lower_stmt(*body, m3).0;
            (m4.push_inst(Inst::Br { dest: n }).at(n + 2), None)
        },
        _ => (m, None),
    }
}

/// Lowering the items of a block in order.
pub open spec fn lower_items(s: Seq<StatementListItem>, m: IrModel) -> IrModel
    decreases s,
{
    if s.len() == 0 {
        m
    } else {
        let m1 = lower_items(s.subrange(0, s.len() - 1), m);
        match s[s.len() - 1] {
            StatementListItem::Statement(st) => lower_stmt(st, m1).0,
            StatementListItem::Declaration => m1,
        }
    }
}

/// `new` resolved the external function `name` against `old`, for a call
/// whose arguments have types `params`, to `callee`: the function already
/// declared under that name, or else one declared now with those parameter
/// types and a 32-bit integer result.
pub open spec fn resolved(
    new: LLVMContext,
    old: LLVMContext,
    name: Seq<char>,
    params: Seq<IrType>,
    callee: int,
) -> bool {
    &&& new.shaped()
    &&& new.same_code(old)
    &&& new.module.globals == old.module.globals
    &&& 0 <= callee < new.functions().len()
    &&& new.functions()[callee].name@ == name
    &&& match old.function_named(name) {
        Some(c) => callee == c && new.functions() == old.functions(),
        None => {
            &&& callee == old.functions().len()
            &&& new.functions().len() == old.functions().len() + 1
            &&& forall|f: int| 0 <= f < callee ==> new.functions()[f] == old.functions()[f]
            &&& new.functions()[callee].function_type.ret == IrType::I32
            &&& new.functions()[callee].function_type.params@ == params
            &&& new.functions()[callee].blocks@.len() == 0
        },
    }
}

proof fn lemma_args_ok(args: Seq<Expression>)
    requires
        args_error(args) is None,
        args_nul_free(args),
    ensures
        forall|j: int| 0 <= j < args.len() ==> expr_error(#[trigger] args[j]) is None,
        forall|j: int| 0 <= j < args.len() ==> expr_nul_free(#[trigger] args[j]),
    decreases args.len(),
{
    if args.len() > 0 {
        let rest = args.subrange(1, args.len() as int);
        lemma_args_ok(rest);
        assert forall|j: int| 0 <= j < args.len() implies expr_error(#[trigger] args[j]) is None
            && expr_nul_free(args[j]) by {
            if j > 0 {
                assert(args[j] == rest[j - 1]);
            }
        }
    }
}

/// A function of a well-shaped context is the one its name designates.
pub proof fn lemma_name_unique(c: LLVMContext, name: Seq<char>, f: int)
    requires
        c.shaped(),
        0 <= f < c.functions().len(),
        c.functions()[f].name@ == name,
    ensures
        c.function_named(name) == Some(f),
{
    let ms = c.model().functions;
    assert(ms[f].name == name);
    let g = choose|g: int| 0 <= g < ms.len() && (#[trigger] ms[g]).name == name;
    assert(c.functions()[g].name@ == name);
}

proof fn lemma_extends_trans(a: LLVMContext, b: LLVMContext, c: LLVMContext)
    requires
        b.extends(a),
        c.extends(b),
    ensures
        c.extends(a),
{
}

proof fn lemma_appended_keeps(new: LLVMContext, old: LLVMContext)
    requires
        old.shaped(),
        new.only_calls_appended(old),
        new.extends(old),
    ensures
        new.keeps(old),
{
    assert forall|b: int, i: int|
        0 <= b < old.blocks().len() && 0 <= i < old.instrs(b).len() implies new.instrs(b).len()
            >= old.instrs(b).len() && #[trigger] new.instrs(b)[i] == old.instrs(b)[i] by {
        if b != old.current() {
            assert(new.blocks()[b] == old.blocks()[b]);
        }
    }
}

proof fn lemma_appended_trans(a: LLVMContext, b: LLVMContext, c: LLVMContext)
    requires
        b.only_calls_appended(a),
        c.only_calls_appended(b),
    ensures
        c.only_calls_appended(a),
{
    let cur = a.current();
    assert forall|i: int| a.instrs(cur).len() <= i < c.instrs(cur).len() implies (#[trigger] c.instrs(cur)[i]) is Call by {
        if i < b.instrs(cur).len() {
            assert(c.instrs(cur)[i] == b.instrs(cur)[i]);
        }
    }
}

proof fn lemma_appended_open(new: LLVMContext, old: LLVMContext)
    requires
        new.only_calls_appended(old),
        !old.blocks()[old.current()].terminated(),
    ensures
        !new.blocks()[new.current()].terminated(),
{
    let cur = old.current();
    if new.instrs(cur).len() > old.instrs(cur).len() {
        assert(new.instrs(cur)[new.instrs(cur).len() - 1] is Call);
    } else {
        assert(new.instrs(cur) =~= old.instrs(cur));
    }
}

impl CodeGenerator {
    /// Finds the external function `name`, or declares it with a signature
    /// made of the given parameter types and a 32-bit integer result. A name
    /// keeps its first declaration: a later call with other argument types
    /// reuses it, and the call itself carries the signature of its own
    /// arguments.
    fn resolve_function(&mut self, name: &str, params: Vec<IrType>) -> (r: usize)
        requires
            old(self).context.shaped(),
        ensures
            resolved(final(self).context, old(self).context, name@, params@, r as int),
            (final(self).context.model(), r as int) == old(self).context.model().resolve(name@, params@),
    {
        match self.context.get_named_function(name) {
            Some(f) => {
                proof {
                    assert(self.context.functions().len() == self.context.module.functions.len());
                }
                f
            },
            None => {
                let f = self.context.add_function(name, FunctionType { ret: IrType::I32, params });
                f
            },
        }
    }

    /// Lowers a supported expression at the insertion point.
    fn lower_expression(&mut self, e: &Expression) -> (r: Value)
        requires
            old(self).context.shaped(),
            !old(self).context.blocks()[old(self).context.current()].terminated(),
            expr_error(*e) is None,
            expr_nul_free(*e),
        ensures
            final(self).context.shaped(),
            expression_lowered(final(self).context, old(self).context, *e, r),
            final(self).context.value_within(r),
            (final(self).context.model(), r) == lower_expr(*e, old(self).context.model()),
        decreases e,
    {
        match e {
            Expression::Literal(l) => match l {
                Literal::Str(s) => self.context.create_string_literal(s.as_str()),
                Literal::Num(bits) => Value::ConstReal { bits: *bits },
                Literal::Int(n) => {
                    let value: u64 = if *n >= 0 {
                        *n as u64
                    } else {
                        (*n as i64 + 0x1_0000_0000i64) as u64
                    };
                    Value::ConstInt { ty: IrType::I32, value }
                },
                Literal::Bool(b) => Value::ConstInt { ty: IrType::I1, value: if *b { 1 } else { 0 } },
                _ => Value::ConstInt { ty: IrType::I32, value: 0 },
            },
            Expression::Call(f, args) => {
                let name = match &**f {
                    Expression::Identifier(id) => id,
                    _ => {
                        assert(false);
                        return Value::ConstInt { ty: IrType::I32, value: 0 };
                    },
                };
                proof {
                    lemma_args_ok(args@);
                }
                let mut vals: Vec<Value> = Vec::new();
                let mut i: usize = 0;
                assert(args@.subrange(0, 0) =~= Seq::<Expression>::empty());
                while i < args.len()
                    invariant
                        *e is Call,
                        (*e)->Call_1 == *args,
                        forall|j: int| 0 <= j < args@.len() ==> expr_error(#[trigger] args@[j]) is None,
                        forall|j: int| 0 <= j < args@.len() ==> expr_nul_free(#[trigger] args@[j]),
                        i <= args@.len(),
                        vals@.len() == i,
                        types_of(vals@) == arg_types(args@.subrange(0, i as int)),
                        self.context.shaped(),
                        !self.context.blocks()[self.context.current()].terminated(),
                        self.context.extends(old(self).context),
                        self.context.only_calls_appended(old(self).context),
                        forall|j: int| 0 <= j < i ==> self.context.value_within(#[trigger] vals@[j]),
                        (self.context.model(), vals@) == lower_args(args@.subrange(0, i as int), old(self).context.model()),
                    decreases args@.len() - i,
                {
                    proof {
                        assert(decreases_to!(*e => (*e)->Call_1));
                        assert(decreases_to!(*args => args@));
                        assert(decreases_to!(args@ => args@[i as int]));
                    }
                    let ghost before = self.context;
                    let v = self.lower_expression(&args[i]);
                    proof {
                        lemma_extends_trans(old(self).context, before, self.context);
                        lemma_appended_trans(old(self).context, before, self.context);
                        lemma_appended_open(self.context, before);
                        lemma_appended_keeps(self.context, before);
                        assert forall|j: int| 0 <= j < i implies self.context.value_within(#[trigger] vals@[j]) by {
                            self.context.lemma_keeps_within(before, vals@[j]);
                        }
                    }
                    let ghost old_vals = vals@;
                    vals.push(v);
                    assert(args@.subrange(0, i + 1).subrange(0, i as int) =~= args@.subrange(0, i as int));
                    assert(args@.subrange(0, i + 1) =~= args@.subrange(0, i as int).push(args@[i as int]));
                    assert(types_of(vals@) =~= types_of(old_vals).push(v.spec_type()));
                    assert(arg_types(args@.subrange(0, i + 1)) =~= arg_types(args@.subrange(0, i as int)).push(expr_type(args@[i as int])));
                    i = i + 1;
                }
                assert(args@.subrange(0, i as int) =~= args@);
                let call_params = type_list(&vals);
                let decl_params = type_list(&vals);
                let ghost before = self.context;
                let callee = self.resolve_function(name.as_str(), decl_params);
                proof {
                    assert(self.context.keeps(before));
                    assert forall|j: int| 0 <= j < vals@.len() implies self.context.value_within(#[trigger] vals@[j]) by {
                        self.context.lemma_keeps_within(before, vals@[j]);
                    }
                    assert(self.context.only_calls_appended(before));
                    assert(self.context.extends(before));
                    lemma_extends_trans(old(self).context, before, self.context);
                    lemma_appended_trans(old(self).context, before, self.context);
                }
                let ghost before2 = self.context;
                let ghost vals_seq = vals@;
                let r = self.context.build_call(
                    callee,
                    FunctionType { ret: IrType::I32, params: call_params },
                    vals,
                );
                proof {
                    assert(self.context.only_calls_appended(before2));
                    assert(self.context.extends(before2));
                    lemma_extends_trans(old(self).context, before2, self.context);
                    lemma_appended_trans(old(self).context, before2, self.context);
                }
                r
            },
            _ => {
                assert(false);
                Value::ConstInt { ty: IrType::I32, value: 0 }
            },
        }
    }
}

/// How lowering a statement from `old` to `new` may change the entry
/// function: blocks are only appended; of the blocks of `old`, only the
/// current one changes, and only by instructions appended to it; the
/// insertion point stays, or moves to an appended block.
pub open spec fn stmt_frame(new: LLVMContext, old: LLVMContext) -> bool {
    let cur = old.current();
    &&& new.extends(old)
    &&& new.blocks().len() >= old.blocks().len()
    &&& forall|b: int| 0 <= b < old.blocks().len() && b != cur ==> new.blocks()[b] == old.blocks()[b]
    &&& new.blocks()[cur].name == old.blocks()[cur].name
    &&& new.instrs(cur).len() >= old.instrs(cur).len()
    &&& forall|i: int| 0 <= i < old.instrs(cur).len() ==> new.instrs(cur)[i] == old.instrs(cur)[i]
    &&& (new.current() == cur || new.current() >= old.blocks().len())
    &&& (new.blocks().len() == old.blocks().len() ==> new.current() == cur)
}

/// The control-flow graph that lowering a while loop from `old` to `new`
/// built: three appended blocks `condition`, `body` and `end`; a branch from
/// the block that was current to `condition`; a conditional branch from
/// `condition` to `body` when the predicate holds and to `end` otherwise; a
/// branch back to `condition` from where the body ended, which is `body`
/// itself when the body opened no block; and the insertion point left at the
/// empty, open `end`.
pub open spec fn while_lowered(new: LLVMContext, old: LLVMContext) -> bool {
    let n = old.blocks().len() as int;
    &&& new.blocks().len() >= n + 3
    &&& new.blocks()[n].name@ == "condition"@
    &&& new.blocks()[n + 1].name@ == "body"@
    &&& new.blocks()[n + 2].name@ == "end"@
    &&& new.instrs(old.current()) == old.instrs(old.current()).push(Instruction::Br { dest: n as usize })
    &&& new.instrs(n).last() is CondBr
    &&& new.instrs(n).last()->then_dest == n + 1
    &&& new.instrs(n).last()->else_dest == n + 2
    &&& new.current() == n + 2
    &&& new.instrs(n + 2).len() == 0
    &&& exists|k: int| n + 1 <= k < new.blocks().len() && k != n + 2
        && new.instrs(k).last() == (Instruction::Br { dest: n as usize })
    &&& new.blocks().len() == n + 3 ==> new.instrs(n + 1).last() == (Instruction::Br { dest: n as usize })
}

/// Facts on the context itself that lowering the supported statement `s`
/// from `old` to `new` establishes, beside the exact effect on the model
/// that `lower_stmt` gives: the frame, the number of blocks appended, the
/// value of an expression statement, and the graph of a while loop.
pub open spec fn statement_lowered(new: LLVMContext, old: LLVMContext, s: Statement, r: Option<Value>) -> bool {
    &&& stmt_frame(new, old)
    &&& new.blocks().len() == old.blocks().len() + 3 * while_count(s)
    &&& s is Expression ==> (r matches Some(v) && expression_lowered(new, old, s->Expression_0, v))
    &&& !(s is Expression) ==> r is None
    &&& s is WhileLoop ==> while_lowered(new, old) && new.instrs(old.blocks().len() as int).last()->cond.spec_type()
        == expr_type(s->WhileLoop_0)
}

proof fn lemma_frame_trans(a: LLVMContext, b: LLVMContext, c: LLVMContext)
    requires
        a.shaped(),
        stmt_frame(b, a),
        stmt_frame(c, b),
    ensures
        stmt_frame(c, a),
{
    lemma_extends_trans(a, b, c);
    let cur = a.current();
    if b.current() == cur {
        assert forall|i: int| 0 <= i < a.instrs(cur).len() implies c.instrs(cur)[i] == a.instrs(cur)[i] by {
            assert(c.instrs(cur)[i] == b.instrs(cur)[i]);
        }
    } else {
        assert(c.blocks()[cur] == b.blocks()[cur]);
        assert forall|b2: int| 0 <= b2 < a.blocks().len() && b2 != cur implies c.blocks()[b2] == a.blocks()[b2] by {
            assert(c.blocks()[b2] == b.blocks()[b2]);
        }
    }
}

/// Appending calls to the current block keeps every block settled.
proof fn lemma_appended_settled(new: LLVMContext, old: LLVMContext, pending: Set<int>)
    requires
        new.only_calls_appended(old),
        old.settled(pending),
    ensures
        new.settled(pending),
{
    lemma_appended_open(new, old);
    assert forall|b: int|
        0 <= b < new.blocks().len() && b != new.current() && !pending.contains(b)
            implies (#[trigger] new.blocks()[b]).terminated() by {
        assert(new.blocks()[b] == old.blocks()[b]);
    }
}

/// Facts on the context itself that lowering the supported expression `e`
/// from `old` to `new` establishes, beside the exact effect on the model that
/// `lower_expr` gives: the value `r` has the type `e` maps to; a literal
/// gives its constant, with the module unchanged but for the global that a
/// string adds; a call is as `call_emitted` says.
pub open spec fn expression_lowered(new: LLVMContext, old: LLVMContext, e: Expression, r: Value) -> bool {
    &&& new.extends(old)
    &&& new.only_calls_appended(old)
    &&& r.spec_type() == expr_type(e)
    &&& e is Literal ==> r == literal_constant(e->Literal_0, old.module.globals@.len() as usize)
    &&& (e is Literal && !(e->Literal_0 is Str)) ==> new == old
    &&& (e is Literal && e->Literal_0 is Str) ==> {
        &&& new.same_code(old)
        &&& new.module.functions == old.module.functions
        &&& new.module.globals@.len() == old.module.globals@.len() + 1
        &&& new.module.globals@.last().name@ == "str"@
        &&& new.module.globals@.last().bytes@ == encode_utf8(e->Literal_0->Str_0@).push(0u8)
    }
    &&& e is Call ==> call_emitted(new, old, e, r)
}

impl CodeGenerator {
    /// Lowers a supported statement at the insertion point. The blocks of
    /// `pending` may stay open: they belong to loops being lowered.
    fn lower_statement(&mut self, s: &Statement, Ghost(pending): Ghost<Set<int>>) -> (r: Option<Value>)
        requires
            old(self).context.shaped(),
            old(self).context.settled(pending),
            forall|p: int| pending.contains(p) ==> 0 <= p < old(self).context.blocks().len() && p != old(self).context.current(),
            stmt_error(*s) is None,
            stmt_nul_free(*s),
        ensures
            final(self).context.shaped(),
            final(self).context.settled(pending),
            statement_lowered(final(self).context, old(self).context, *s, r),
            (final(self).context.model(), r) == lower_stmt(*s, old(self).context.model()),
            old(self).context.ip_reachable() ==> final(self).context.ip_reachable(),
        decreases s,
    {
        match s {
            Statement::Expression(e) => {
                let v = self.lower_expression(e);
                proof {
                    lemma_appended_settled(self.context, old(self).context, pending);
                    if old(self).context.ip_reachable() {
                        let p = choose|p: Seq<int>| #[trigger] old(self).context.is_path(p) && p.last() == old(self).context.current();
                        self.context.lemma_path_kept(old(self).context, p);
                    }
                }
                Some(v)
            },
            Statement::Block(items) => {
                let mut i: usize = 0;
                assert(items@.subrange(0, items@.len() as int) =~= items@);
                assert(items@.subrange(0, 0) =~= Seq::<StatementListItem>::empty());
                while i < items.len()
                    invariant
                        *s is Block,
                        (*s)->Block_0 == *items,
                        i <= items@.len(),
                        items_error(items@.subrange(i as int, items@.len() as int)) is None,
                        items_nul_free(items@.subrange(i as int, items@.len() as int)),
                        self.context.shaped(),
                        self.context.settled(pending),
                        forall|p: int| pending.contains(p) ==> 0 <= p < old(self).context.blocks().len() && p != old(self).context.current(),
                        stmt_frame(self.context, old(self).context),
                        old(self).context.shaped(),
                        self.context.blocks().len() == old(self).context.blocks().len() + 3 * items_while_count(items@.subrange(0, i as int)),
                        self.context.model() == lower_items(items@.subrange(0, i as int), old(self).context.model()),
                        old(self).context.ip_reachable() ==> self.context.ip_reachable(),
                    decreases items@.len() - i,
                {
                    let ghost rest = items@.subrange(i as int, items@.len() as int);
                    assert(rest[0] == items@[i as int]);
                    assert(items@.subrange(0, i + 1).subrange(0, i as int) =~= items@.subrange(0, i as int));
                    assert(rest.subrange(1, rest.len() as int) =~= items@.subrange(i + 1, items@.len() as int));
                    let item = &items[i];
                    match item {
                        StatementListItem::Statement(st) => {
                            proof {
                                assert(decreases_to!(*s => (*s)->Block_0));
                                assert(decreases_to!(*items => items@));
                                assert(decreases_to!(items@ => items@[i as int]));
                                assert(decreases_to!(items@[i as int] => items@[i as int]->Statement_0));
                            }
                            let ghost before = self.context;
                            self.lower_statement(st, Ghost(pending));
                            proof {
                                lemma_frame_trans(old(self).context, before, self.context);
                            }
                        },
                        StatementListItem::Declaration => {
                            assert(false);
                        },
                    }
                    i = i + 1;
                }
                None
            },
            Statement::WhileLoop(cond, body) => {
                let ghost s0 = self.context;
                let condition_block = self.context.append_basic_block("condition");
                let body_block = self.context.append_basic_block("body");
                let end_block = self.context.append_basic_block("end");
                let ghost s1 = self.context;
                self.context.build_br(condition_block);
                let ghost s2 = self.context;
                self.context.position_builder_at_end(condition_block);
                let ghost s3 = self.context;
                let ghost p1 = pending.insert(body_block as int).insert(end_block as int);
                assert(s3.settled(p1)) by {
                    assert forall|b: int|
                        0 <= b < s3.blocks().len() && b != s3.current() && !p1.contains(b)
                            implies (#[trigger] s3.blocks()[b]).terminated() by {
                        if b != s0.current() {
                            assert(s3.blocks()[b] == s0.blocks()[b]);
                        }
                    }
                }
                let c = self.lower_expression(cond);
                proof {
                    lemma_appended_settled(self.context, s3, p1);
                }
                let ghost s4 = self.context;
                self.context.build_cond_br(c, body_block, end_block);
                self.context.position_builder_at_end(body_block);
                let ghost s6 = self.context;
                let ghost p2 = pending.insert(end_block as int);
                assert(s6.settled(p2)) by {
                    assert(s6.blocks()[body_block as int] == s1.blocks()[body_block as int]);
                    assert forall|b: int|
                        0 <= b < s6.blocks().len() && b != s6.current() && !p2.contains(b)
                            implies (#[trigger] s6.blocks()[b]).terminated() by {
                        if b != condition_block {
                            assert(s6.blocks()[b] == s4.blocks()[b]);
                        }
                    }
                }
                assert(decreases_to!(*s => (*s)->WhileLoop_1));
                self.lower_statement(body, Ghost(p2));
                let ghost s7 = self.context;
                self.context.build_br(condition_block);
                let ghost s8 = self.context;
                self.context.position_builder_at_end(end_block);
                let ghost s9 = self.context;
                proof {
                    assert(s9.blocks()[end_block as int] == s1.blocks()[end_block as int]);
                    assert forall|b: int|
                        0 <= b < s9.blocks().len() && b != s9.current() && !pending.contains(b)
                            implies (#[trigger] s9.blocks()[b]).terminated() by {
                        if b != s7.current() {
                            assert(s9.blocks()[b] == s7.blocks()[b]);
                        }
                    }
                    assert(s9.instrs(s7.current()).last() == (Instruction::Br { dest: condition_block }));
                    if s7.blocks().len() == s6.blocks().len() {
                        assert(s7.current() == body_block);
                    }
                    assert(s0.current() < s1.blocks().len());
                }
                proof {
                    let n = s0.blocks().len() as int;
                    if s0.ip_reachable() {
                        let p = choose|p: Seq<int>| #[trigger] s0.is_path(p) && p.last() == s0.current();
                        assert forall|b: int| 0 <= b < s0.blocks().len() && b != s0.current() implies s9.blocks()[b] == s0.blocks()[b] by {
                            assert(s1.blocks()[b] == s0.blocks()[b]);
                            assert(s6.blocks()[b] == s1.blocks()[b]);
                            assert(s7.blocks()[b] == s6.blocks()[b]);
                            if b != s7.current() {
                                assert(s9.blocks()[b] == s7.blocks()[b]);
                            }
                        }
                        s9.lemma_path_kept(s0, p);
                        let q = p.push(n).push(n + 2);
                        assert(s9.edge(s0.current(), n));
                        assert(s9.edge(n, n + 2));
                        assert forall|k: int| 0 <= k < q.len() - 1 implies s9.edge(#[trigger] q[k], q[k + 1]) by {
                            if k < p.len() - 1 {
                                assert(q[k] == p[k] && q[k + 1] == p[k + 1]);
                            }
                        }
                        assert forall|k: int| 0 <= k < q.len() implies 0 <= #[trigger] q[k] < s9.blocks().len() by {
                            if k < p.len() {
                                assert(q[k] == p[k]);
                            }
                        }
                        assert(s9.is_path(q));
                    }
                }
                None
            },
            _ => {
                assert(false);
                None
            },
        }
    }
}

impl Default for CodeGenerator {
    /// A generator over a fresh context for the module `main`.
    fn default() -> (r: Self)
        ensures
            r.context.wf(),
            r.context.ip_reachable(),
            r.context.model() == (IrModel {
                functions: seq![FnModel { name: "main"@, ret: IrType::Void, params: Seq::empty() }],
                blocks: seq![BlockModel { name: "entry"@, insts: Seq::empty() }],
                globals: Seq::empty(),
                cur: 0,
            }),
            r.context.module.name@ == "main"@,
            r.context.functions().len() == 1,
            r.context.functions()[0].name@ == "main"@,
            r.context.blocks().len() == 1,
            r.context.blocks()[0].name@ == "entry"@,
            r.context.instrs(0).len() == 0,
            r.context.module.globals@.len() == 0,
            r.context.current() == 0,
    {
        proof {
            reveal_strlit("main");
        }
        CodeGenerator { context: LLVMContext::new("main") }
    }
}

impl CodeGenerator {
    /// Lowers `expression` at the insertion point. An expression outside
    /// the supported subset is refused before anything is emitted, so on an
    /// error the module is unchanged.
    pub fn compile_expression(&mut self, expression: &Expression) -> (r: Result<Value, CompileError>)
        requires
            old(self).context.wf(),
            expr_error(*expression) is None ==> expr_nul_free(*expression),
        ensures
            match expr_error(*expression) {
                Some(k) => r == Err::<Value, CompileError>(k) && final(self).context == old(self).context,
                None => r matches Ok(v) && final(self).context.wf() && expression_lowered(
                    final(self).context,
                    old(self).context,
                    *expression,
                    v,
                ) && (final(self).context.model(), v) == lower_expr(*expression, old(self).context.model()),
            },
            old(self).context.ip_reachable() ==> final(self).context.ip_reachable(),
    {
        match check_expression(expression) {
            Some(k) => Err(k),
            None => {
                let v = self.lower_expression(expression);
                proof {
                    lemma_appended_settled(self.context, old(self).context, Set::empty());
                    if old(self).context.ip_reachable() {
                        let p = choose|p: Seq<int>| #[trigger] old(self).context.is_path(p) && p.last() == old(self).context.current();
                        self.context.lemma_path_kept(old(self).context, p);
                    }
                }
                Ok(v)
            },
        }
    }

    /// Lowers `statement` at the insertion point; an expression statement
    /// yields its expression's value. A statement outside the supported
    /// subset is refused before anything is emitted, so on an error the
    /// module is unchanged.
    pub fn compile_statement(&mut self, statement: &Statement) -> (r: Result<Option<Value>, CompileError>)
        requires
            old(self).context.wf(),
            stmt_error(*statement) is None ==> stmt_nul_free(*statement),
        ensures
            match stmt_error(*statement) {
                Some(k) => r == Err::<Option<Value>, CompileError>(k) && final(self).context == old(self).context,
                None => r matches Ok(v) && final(self).context.wf() && statement_lowered(
                    final(self).context,
                    old(self).context,
                    *statement,
                    v,
                ) && (final(self).context.model(), v) == lower_stmt(*statement, old(self).context.model()),
            },
            old(self).context.ip_reachable() ==> final(self).context.ip_reachable(),
    {
        match check_statement(statement) {
            Some(k) => Err(k),
            None => Ok(self.lower_statement(statement, Ghost(Set::empty()))),
        }
    }

    /// Lowers a top-level item: a statement as `compile_statement` does;
    /// declarations, imports and exports are refused.
    pub fn compile_module_item(&mut self, module_item: &ModuleItem) -> (r: Result<Option<Value>, CompileError>)
        requires
            old(self).context.wf(),
            module_item_error(*module_item) is None ==> module_item_nul_free(*module_item),
        ensures
            match module_item_error(*module_item) {
                Some(k) => r == Err::<Option<Value>, CompileError>(k) && final(self).context == old(self).context,
                None => r matches Ok(v) && final(self).context.wf() && statement_lowered(
                    final(self).context,
                    old(self).context,
                    module_item->StatementListItem_0->Statement_0,
                    v,
                ) && (final(self).context.model(), v) == lower_stmt(
                    module_item->StatementListItem_0->Statement_0,
                    old(self).context.model(),
                ),
            },
            old(self).context.ip_reachable() ==> final(self).context.ip_reachable(),
    {
        match module_item {
            ModuleItem::StatementListItem(StatementListItem::Statement(statement)) => {
                self.compile_statement(statement)
            },
            ModuleItem::StatementListItem(StatementListItem::Declaration) => {
                Err(CompileError::UnsupportedConstruct(Construct::Declaration))
            },
            ModuleItem::ImportDeclaration => Err(CompileError::UnsupportedConstruct(Construct::ImportDeclaration)),
            ModuleItem::ExportDeclaration => Err(CompileError::UnsupportedConstruct(Construct::ExportDeclaration)),
        }
    }

    /// Closes the entry function with a return at the insertion point; after
    /// that every block of it ends with a terminator.
    pub fn finish(&mut self)
        requires
            old(self).context.wf(),
        ensures
            final(self).context.shaped(),
            final(self).context.same_but_block(old(self).context, old(self).context.current()),
            final(self).context.instrs(old(self).context.current()) == old(self).context.instrs(
                old(self).context.current(),
            ).push(Instruction::RetVoid),
            forall|b: int| 0 <= b < final(self).context.blocks().len() ==> (#[trigger] final(self).context.blocks()[b]).terminated(),
            final(self).context.model() == old(self).context.model().push_inst(Inst::RetVoid),
    {
        self.context.build_ret_void();
        proof {
            let c = self.context;
            let o = old(self).context;
            assert forall|b: int| 0 <= b < c.blocks().len() implies (#[trigger] c.blocks()[b]).terminated() by {
                if b != o.current() {
                    assert(c.blocks()[b] == o.blocks()[b]);
                }
            }
        }
    }
}

/// The outcome of lowering the top-level items of `s` in order from the model
/// `m`: the error of the first item that has one, or else the model after
/// the last item together with that item's value.
pub open spec fn items_outcome(s: Seq<ModuleItem>, m: IrModel) -> Result<(IrModel, Option<Value>), CompileError>
    decreases s.len(),
{
    if s.len() == 0 {
        Ok((m, None))
    } else {
        match items_outcome(s.subrange(0, s.len() - 1), m) {
            Err(k) => Err(k),
            Ok((m1, _)) => match module_item_error(s[s.len() - 1]) {
                Some(k) => Err(k),
                None => Ok(lower_stmt(s[s.len() - 1]->StatementListItem_0->Statement_0, m1)),
            },
        }
    }
}

/// Once a prefix of the items has failed, the whole sequence fails with the
/// same error.
pub proof fn lemma_outcome_error_kept(s: Seq<ModuleItem>, m: IrModel, i: int, k: CompileError)
    requires
        0 <= i <= s.len(),
        items_outcome(s.subrange(0, i), m) == Err::<(IrModel, Option<Value>), CompileError>(k),
    ensures
        items_outcome(s, m) == Err::<(IrModel, Option<Value>), CompileError>(k),
    decreases s.len(),
{
    if s.len() == i {
        assert(s.subrange(0, i) =~= s);
    } else {
        let prefix = s.subrange(0, s.len() - 1);
        assert(prefix.subrange(0, i) =~= s.subrange(0, i));
        lemma_outcome_error_kept(prefix, m, i, k);
    }
}

impl CodeGenerator {
    /// Lowers the top-level items of a module in order, stopping at the first
    /// error, and then closes the entry function with a return. On success
    /// the result is the value of the last item.
    pub fn compile_module(&mut self, items: &Vec<ModuleItem>) -> (r: Result<Option<Value>, CompileError>)
        requires
            old(self).context.wf(),
            forall|i: int|
                0 <= i < items@.len() && module_item_error(#[trigger] items@[i]) is None ==> module_item_nul_free(
                    items@[i],
                ),
        ensures
            match items_outcome(items@, old(self).context.model()) {
                Err(k) => r == Err::<Option<Value>, CompileError>(k),
                Ok((m, v)) => {
                    &&& r == Ok::<Option<Value>, CompileError>(v)
                    &&& final(self).context.model() == m.push_inst(Inst::RetVoid)
                    &&& final(self).context.shaped()
                    &&& forall|b: int|
                        0 <= b < final(self).context.blocks().len() ==> (#[trigger] final(self).context.blocks()[b]).terminated()
                },
            },
    {
        let mut last: Option<Value> = None;
        let mut i: usize = 0;
        assert(items@.subrange(0, 0) =~= Seq::<ModuleItem>::empty());
        while i < items.len()
            invariant
                i <= items@.len(),
                self.context.wf(),
                forall|j: int|
                    0 <= j < items@.len() && module_item_error(#[trigger] items@[j]) is None ==> module_item_nul_free(
                        items@[j],
                    ),
                items_outcome(items@.subrange(0, i as int), old(self).context.model()) == Ok::<
                    (IrModel, Option<Value>),
                    CompileError,
                >((self.context.model(), last)),
            decreases items@.len() - i,
        {
            let ghost prefix = items@.subrange(0, i + 1);
            assert(prefix.subrange(0, i as int) =~= items@.subrange(0, i as int));
            assert(prefix[i as int] == items@[i as int]);
            match self.compile_module_item(&items[i]) {
                Err(k) => {
                    proof {
                        lemma_outcome_error_kept(items@, old(self).context.model(), i + 1, k);
                    }
                    return Err(k);
                },
                Ok(v) => {
                    last = v;
                },
            }
            i = i + 1;
        }
        assert(items@.subrange(0, i as int) =~= items@);
        self.finish();
        Ok(last)
    }
}

/// What lowering the call `e` left behind: the last instruction of the current
/// block calls the function named by the callee, with as many arguments as the
/// call has, emitted with the signature synthesized from the argument types;
/// that function is the one already declared under the name, if there was one;
/// the result is the call's value.
pub open spec fn call_emitted(new: LLVMContext, old: LLVMContext, e: Expression, r: Value) -> bool {
    let name = (*e->Call_0)->Identifier_0@;
    let cur = old.current();
    let last = new.instrs(cur).last();
    &&& new.instrs(cur).len() > old.instrs(cur).len()
    &&& r == (Value::CallResult { block: cur as usize, index: (new.instrs(cur).len() - 1) as usize })
    &&& last is Call
    &&& 0 <= last->callee < new.functions().len()
    &&& new.functions()[last->callee as int].name@ == name
    &&& last->function_type.ret == IrType::I32
    &&& last->function_type.params@ == arg_types(e->Call_1@)
    &&& types_of(last->args@) == arg_types(e->Call_1@)
    &&& (old.function_named(name) matches Some(c) ==> last->callee == c)
}

} // verus!
