use jscc::ast::{expression_nul_free, item_nul_free, statement_nul_free, text_nul_free};
use jscc::{
    CodeGenerator, CompileError, Construct, Expression, Instruction, IrType, Literal, ModuleItem, Statement,
    StatementListItem, Value,
};

fn ident(name: &str) -> Box<Expression> {
    Box::new(Expression::Identifier(name.to_string()))
}

fn call(name: &str, args: Vec<Expression>) -> Expression {
    Expression::Call(ident(name), args)
}

fn string(s: &str) -> Expression {
    Expression::Literal(Literal::Str(s.to_string()))
}

fn stmt(e: Expression) -> StatementListItem {
    StatementListItem::Statement(Statement::Expression(e))
}

fn entry_len(g: &CodeGenerator) -> usize {
    g.context.module.functions[0].blocks[0].instructions.len()
}

#[test]
fn integer_literal_is_a_32_bit_constant() {
    let mut g = CodeGenerator::default();
    let v = g.compile_expression(&Expression::Literal(Literal::Int(7))).unwrap();
    assert_eq!(v, Value::ConstInt { ty: IrType::I32, value: 7 });
    assert_eq!(v.type_of(), IrType::I32);
    assert_eq!(v.const_int_get_sext_value(), Some(7));
    assert_eq!(entry_len(&g), 0);
}

#[test]
fn negative_integer_literal_reads_back() {
    let mut g = CodeGenerator::default();
    let v = g.compile_expression(&Expression::Literal(Literal::Int(-1))).unwrap();
    assert_eq!(v, Value::ConstInt { ty: IrType::I32, value: 0xFFFF_FFFF });
    assert_eq!(v.const_int_get_sext_value(), Some(-1));
    let v = g.compile_expression(&Expression::Literal(Literal::Int(i32::MIN))).unwrap();
    assert_eq!(v.const_int_get_sext_value(), Some(i32::MIN as i64));
}

#[test]
fn boolean_literals_are_1_bit_constants() {
    let mut g = CodeGenerator::default();
    let t = g.compile_expression(&Expression::Literal(Literal::Bool(true))).unwrap();
    let f = g.compile_expression(&Expression::Literal(Literal::Bool(false))).unwrap();
    assert_eq!(t.type_of(), IrType::I1);
    assert_eq!(t.const_int_get_zext_value(), Some(1));
    assert_eq!(f.type_of(), IrType::I1);
    assert_eq!(f.const_int_get_zext_value(), Some(0));
}

#[test]
fn number_literal_keeps_its_bits() {
    let mut g = CodeGenerator::default();
    let bits = 1.5f64.to_bits();
    let v = g.compile_expression(&Expression::Literal(Literal::Num(bits))).unwrap();
    assert_eq!(v.type_of(), IrType::F64);
    assert_eq!(v.const_real_bits(), Some(bits));
    assert_eq!(f64::from_bits(v.const_real_bits().unwrap()), 1.5);
}

#[test]
fn string_literal_becomes_a_null_terminated_global() {
    let mut g = CodeGenerator::default();
    let v = g.compile_expression(&string("hi")).unwrap();
    assert_eq!(v, Value::GlobalString { index: 0 });
    assert_eq!(v.type_of(), IrType::Ptr);
    assert_eq!(g.context.module.globals[0].bytes, b"hi\0".to_vec());
    let w = g.compile_expression(&string("hi")).unwrap();
    assert_eq!(w, Value::GlobalString { index: 1 });
    assert_eq!(g.context.module.globals.len(), 2);
}

#[test]
fn unsupported_literals_are_refused() {
    let mut g = CodeGenerator::default();
    for (l, c) in [
        (Literal::Null, Construct::NullLiteral),
        (Literal::Undefined, Construct::UndefinedLiteral),
        (Literal::BigInt, Construct::BigIntLiteral),
    ] {
        assert_eq!(
            g.compile_expression(&Expression::Literal(l)),
            Err(CompileError::UnsupportedConstruct(c))
        );
    }
}

#[test]
fn binary_expression_is_refused() {
    let mut g = CodeGenerator::default();
    let binary = CompileError::UnsupportedConstruct(Construct::Binary);
    assert_eq!(g.compile_expression(&Expression::Binary), Err(binary));
    assert_eq!(
        g.compile_statement(&Statement::Expression(Expression::Binary)),
        Err(binary)
    );
}

#[test]
fn if_and_for_statements_are_refused() {
    let mut g = CodeGenerator::default();
    assert_eq!(g.compile_statement(&Statement::If), Err(CompileError::UnsupportedConstruct(Construct::If)));
    assert_eq!(
        g.compile_statement(&Statement::ForLoop),
        Err(CompileError::UnsupportedConstruct(Construct::ForLoop))
    );
    assert_eq!(g.context.module.functions[0].blocks.len(), 1);
}

#[test]
fn call_through_non_identifier_is_refused() {
    let mut g = CodeGenerator::default();
    let e = Expression::Call(Box::new(Expression::PropertyAccess), vec![]);
    assert_eq!(g.compile_expression(&e), Err(CompileError::InvalidCallTarget));
    assert_eq!(g.context.module.functions.len(), 1);
}

#[test]
fn refused_argument_leaves_module_unchanged() {
    let mut g = CodeGenerator::default();
    let e = call("puts", vec![string("a"), Expression::Literal(Literal::Null)]);
    assert_eq!(g.compile_expression(&e), Err(CompileError::UnsupportedConstruct(Construct::NullLiteral)));
    assert_eq!(g.context.module.functions.len(), 1);
    assert_eq!(g.context.module.globals.len(), 0);
    assert_eq!(entry_len(&g), 0);
}

#[test]
fn while_with_refused_body_emits_nothing() {
    let mut g = CodeGenerator::default();
    let s = Statement::WhileLoop(Expression::Literal(Literal::Bool(true)), Box::new(Statement::If));
    assert_eq!(g.compile_statement(&s), Err(CompileError::UnsupportedConstruct(Construct::If)));
    assert_eq!(g.context.module.functions[0].blocks.len(), 1);
    assert_eq!(entry_len(&g), 0);
}

#[test]
fn declarations_imports_and_exports_are_refused() {
    let mut g = CodeGenerator::default();
    let block = Statement::Block(vec![StatementListItem::Declaration]);
    assert_eq!(
        g.compile_statement(&block),
        Err(CompileError::UnsupportedConstruct(Construct::Declaration))
    );
    assert_eq!(
        g.compile_module_item(&ModuleItem::ImportDeclaration),
        Err(CompileError::UnsupportedConstruct(Construct::ImportDeclaration))
    );
    assert_eq!(
        g.compile_module_item(&ModuleItem::ExportDeclaration),
        Err(CompileError::UnsupportedConstruct(Construct::ExportDeclaration))
    );
    assert_eq!(
        g.compile_module_item(&ModuleItem::StatementListItem(StatementListItem::Declaration)),
        Err(CompileError::UnsupportedConstruct(Construct::Declaration))
    );
}

#[test]
fn error_messages_are_not_empty() {
    assert_eq!(
        CompileError::UnsupportedConstruct(Construct::ForInLoop).message(),
        "unsupported construct: for in loop"
    );
    assert_eq!(
        CompileError::UnsupportedConstruct(Construct::NullLiteral).message(),
        "unsupported construct: null literal"
    );
    assert!(!CompileError::InvalidCallTarget.message().is_empty());
}

#[test]
fn second_call_reuses_the_declaration() {
    let mut g = CodeGenerator::default();
    g.compile_expression(&call("puts", vec![string("a")])).unwrap();
    g.compile_expression(&call("puts", vec![string("b")])).unwrap();
    assert_eq!(g.context.module.functions.len(), 2);
    let instrs = &g.context.module.functions[0].blocks[0].instructions;
    assert_eq!(instrs.len(), 2);
    for i in instrs {
        match i {
            Instruction::Call { callee, .. } => assert_eq!(*callee, 1),
            _ => panic!("expected a call"),
        }
    }
}

#[test]
fn recall_with_other_types_uses_call_site_signature() {
    let mut g = CodeGenerator::default();
    g.compile_expression(&call("f", vec![Expression::Literal(Literal::Int(1))])).unwrap();
    g.compile_expression(&call("f", vec![string("x")])).unwrap();
    assert_eq!(g.context.module.functions.len(), 2);
    assert_eq!(g.context.module.functions[1].function_type.params, vec![IrType::I32]);
    match &g.context.module.functions[0].blocks[0].instructions[1] {
        Instruction::Call { callee, function_type, .. } => {
            assert_eq!(*callee, 1);
            assert_eq!(function_type.params, vec![IrType::Ptr]);
            assert_eq!(function_type.ret, IrType::I32);
        }
        _ => panic!("expected a call"),
    }
}

#[test]
fn nested_call_declares_inner_function_first() {
    let mut g = CodeGenerator::default();
    let v = g.compile_expression(&call("outer", vec![call("inner", vec![])])).unwrap();
    assert_eq!(v, Value::CallResult { block: 0, index: 1 });
    assert_eq!(g.context.module.functions[1].name, "inner");
    assert_eq!(g.context.module.functions[2].name, "outer");
    assert_eq!(g.context.module.functions[2].function_type.params, vec![IrType::I32]);
}

#[test]
fn hello_world_lowers_to_one_call() {
    let mut g = CodeGenerator::default();
    let item = ModuleItem::StatementListItem(stmt(call("puts", vec![string("Hello, World!\n")])));
    let last = g.compile_module_item(&item).unwrap();
    assert_eq!(last, Some(Value::CallResult { block: 0, index: 0 }));
    g.finish();
    let m = &g.context.module;
    assert_eq!(m.functions.len(), 2);
    assert_eq!(m.functions[1].name, "puts");
    assert_eq!(m.functions[1].function_type.ret, IrType::I32);
    assert_eq!(m.functions[1].function_type.params, vec![IrType::Ptr]);
    assert!(m.functions[1].blocks.is_empty());
    assert_eq!(m.globals.len(), 1);
    assert_eq!(m.globals[0].bytes, b"Hello, World!\n\0".to_vec());
    let entry = &m.functions[0].blocks[0];
    assert_eq!(entry.name, "entry");
    assert_eq!(entry.instructions.len(), 2);
    match &entry.instructions[0] {
        Instruction::Call { callee, args, .. } => {
            assert_eq!(*callee, 1);
            assert_eq!(*args, vec![Value::GlobalString { index: 0 }]);
        }
        _ => panic!("expected a call"),
    }
    assert!(matches!(entry.instructions[1], Instruction::RetVoid));
}

fn branch_target(i: &Instruction) -> usize {
    match i {
        Instruction::Br { dest } => *dest,
        _ => panic!("expected a branch"),
    }
}

#[test]
fn while_loop_builds_four_blocks() {
    let mut g = CodeGenerator::default();
    let body = Statement::Expression(call("puts", vec![string("x")]));
    let s = Statement::WhileLoop(Expression::Literal(Literal::Bool(true)), Box::new(body));
    let r = g.compile_module_item(&ModuleItem::StatementListItem(StatementListItem::Statement(s)));
    assert_eq!(r, Ok(None));
    assert_eq!(g.context.builder.block, 3);
    assert!(g.context.module.functions[0].blocks[3].instructions.is_empty());
    g.finish();
    let blocks = &g.context.module.functions[0].blocks;
    let names: Vec<&str> = blocks.iter().map(|b| b.name.as_str()).collect();
    assert_eq!(names, vec!["entry", "condition", "body", "end"]);
    assert_eq!(blocks[0].instructions.len(), 1);
    assert_eq!(branch_target(&blocks[0].instructions[0]), 1);
    match &blocks[1].instructions[0] {
        Instruction::CondBr { cond, then_dest, else_dest } => {
            assert_eq!(*cond, Value::ConstInt { ty: IrType::I1, value: 1 });
            assert_eq!(*then_dest, 2);
            assert_eq!(*else_dest, 3);
        }
        _ => panic!("expected a conditional branch"),
    }
    assert_eq!(blocks[2].instructions.len(), 2);
    assert!(matches!(blocks[2].instructions[0], Instruction::Call { .. }));
    assert_eq!(branch_target(&blocks[2].instructions[1]), 1);
    assert!(matches!(blocks[3].instructions[0], Instruction::RetVoid));
}

#[test]
fn nested_while_loops_branch_back_from_inner_end() {
    let mut g = CodeGenerator::default();
    let inner = Statement::WhileLoop(
        Expression::Literal(Literal::Bool(false)),
        Box::new(Statement::Block(vec![])),
    );
    let outer = Statement::WhileLoop(
        call("more", vec![]),
        Box::new(Statement::Block(vec![StatementListItem::Statement(inner)])),
    );
    assert_eq!(g.compile_statement(&outer), Ok(None));
    let blocks = &g.context.module.functions[0].blocks;
    assert_eq!(blocks.len(), 7);
    assert_eq!(g.context.builder.block, 3);
    assert_eq!(branch_target(&blocks[2].instructions[0]), 4);
    assert_eq!(branch_target(blocks[6].instructions.last().unwrap()), 1);
    assert_eq!(branch_target(blocks[5].instructions.last().unwrap()), 4);
    assert!(matches!(blocks[1].instructions[0], Instruction::Call { .. }));
}

#[test]
fn block_lowers_items_in_order() {
    let mut g = CodeGenerator::default();
    let b = Statement::Block(vec![stmt(call("a", vec![])), stmt(call("b", vec![]))]);
    assert_eq!(g.compile_statement(&b), Ok(None));
    assert_eq!(g.context.module.functions[1].name, "a");
    assert_eq!(g.context.module.functions[2].name, "b");
    assert_eq!(entry_len(&g), 2);
}

#[test]
fn new_context_has_entry_function() {
    let c = jscc::LLVMContext::new("demo");
    assert_eq!(c.module.name, "demo");
    assert_eq!(c.module.functions[0].name, "main");
    assert_eq!(c.module.functions[0].function_type.ret, IrType::Void);
    assert_eq!(c.module.functions[0].blocks[0].name, "entry");
    assert_eq!(c.builder.block, 0);
}

#[test]
fn hello_world_module_text() {
    let mut g = CodeGenerator::default();
    let item = ModuleItem::StatementListItem(stmt(call("puts", vec![string("Hello, World!\n")])));
    g.compile_module_item(&item).unwrap();
    g.finish();
    let text = String::from_utf8(jscc::text::module_text_bytes(&g.context.module)).unwrap();
    let expected = "; ModuleID = 'main'\n\
        @str.0 = private unnamed_addr constant [15 x i8] c\"Hello, World!\\0A\\00\"\n\
        define void @main() {\n\
        bb0:  ; entry\n\
        \x20 %r0.0 = call i32 @puts(ptr @str.0)\n\
        \x20 ret void\n\
        }\n\
        declare i32 @puts(ptr)\n";
    assert_eq!(text, expected);
}

#[test]
fn while_loop_module_text() {
    let mut g = CodeGenerator::default();
    let body = Statement::Expression(call("f", vec![Expression::Literal(Literal::Int(-5))]));
    let s = Statement::WhileLoop(Expression::Literal(Literal::Bool(true)), Box::new(body));
    g.compile_statement(&s).unwrap();
    g.compile_expression(&Expression::Literal(Literal::Num(1.5f64.to_bits()))).unwrap();
    g.finish();
    let text = String::from_utf8(jscc::text::module_text_bytes(&g.context.module)).unwrap();
    let expected = "; ModuleID = 'main'\n\
        define void @main() {\n\
        bb0:  ; entry\n\
        \x20 br label %bb1\n\
        bb1:  ; condition\n\
        \x20 br i1 true, label %bb2, label %bb3\n\
        bb2:  ; body\n\
        \x20 %r2.0 = call i32 @f(i32 -5)\n\
        \x20 br label %bb1\n\
        bb3:  ; end\n\
        \x20 ret void\n\
        }\n\
        declare i32 @f(i32)\n";
    assert_eq!(text, expected);
}

#[test]
fn value_text_forms() {
    let mut g = CodeGenerator::default();
    let e = call(
        "g",
        vec![
            Expression::Literal(Literal::Num(1.5f64.to_bits())),
            Expression::Literal(Literal::Bool(false)),
            Expression::Literal(Literal::Int(i32::MIN)),
            string("\"q\\"),
        ],
    );
    g.compile_expression(&e).unwrap();
    let text = String::from_utf8(jscc::text::module_text_bytes(&g.context.module)).unwrap();
    assert!(text.contains("c\"\\22q\\5C\\00\""));
    assert!(text.contains(
        "call i32 @g(double 0x3FF8000000000000, i1 false, i32 -2147483648, ptr @str.0)"
    ));
    assert!(text.contains("declare i32 @g(double, i1, i32, ptr)"));
}

#[test]
fn nul_characters_are_detected() {
    assert!(text_nul_free("abc"));
    assert!(!text_nul_free("a\0c"));
    assert!(expression_nul_free(&call("puts", vec![string("ok")])));
    assert!(!expression_nul_free(&call("puts", vec![string("x"), string("n\0l")])));
    let bad = Statement::WhileLoop(
        Expression::Literal(Literal::Bool(true)),
        Box::new(Statement::Block(vec![stmt(string("\0"))])),
    );
    assert!(!statement_nul_free(&bad));
    assert!(!item_nul_free(&ModuleItem::StatementListItem(StatementListItem::Statement(bad))));
    assert!(item_nul_free(&ModuleItem::ImportDeclaration));
}

#[test]
fn empty_block_emits_nothing() {
    let mut g = CodeGenerator::default();
    assert_eq!(g.compile_statement(&Statement::Block(vec![])), Ok(None));
    assert_eq!(g.context.module.functions.len(), 1);
    assert_eq!(g.context.module.globals.len(), 0);
    assert_eq!(g.context.module.functions[0].blocks.len(), 1);
    assert_eq!(entry_len(&g), 0);
    assert_eq!(g.context.builder.block, 0);
}

#[test]
fn call_after_loop_lands_in_end() {
    let mut g = CodeGenerator::default();
    let w = Statement::WhileLoop(Expression::Literal(Literal::Bool(true)), Box::new(Statement::Block(vec![])));
    let b = Statement::Block(vec![
        StatementListItem::Statement(w),
        stmt(call("after", vec![Expression::Literal(Literal::Int(7))])),
    ]);
    assert_eq!(g.compile_statement(&b), Ok(None));
    let blocks = &g.context.module.functions[0].blocks;
    assert_eq!(blocks[3].instructions.len(), 1);
    match &blocks[3].instructions[0] {
        Instruction::Call { args, .. } => {
            assert_eq!(*args, vec![Value::ConstInt { ty: IrType::I32, value: 7 }])
        }
        _ => panic!("expected a call"),
    }
    assert_eq!(branch_target(&blocks[2].instructions[0]), 1);
}

fn item(s: Statement) -> ModuleItem {
    ModuleItem::StatementListItem(StatementListItem::Statement(s))
}

#[test]
fn compile_module_lowers_hello_world_and_closes_main() {
    let mut g = CodeGenerator::default();
    let items = vec![item(Statement::Expression(call("puts", vec![string("Hello, World!\n")])))];
    let r = g.compile_module(&items);
    assert_eq!(r, Ok(Some(Value::CallResult { block: 0, index: 0 })));
    let m = &g.context.module;
    assert_eq!(m.functions.len(), 2);
    assert_eq!(m.functions[1].function_type.params, vec![IrType::Ptr]);
    assert_eq!(m.globals[0].bytes, b"Hello, World!\n\0".to_vec());
    let entry = &m.functions[0].blocks[0];
    assert_eq!(entry.instructions.len(), 2);
    assert!(matches!(entry.instructions[1], Instruction::RetVoid));
}

#[test]
fn compile_module_lowers_while_loop_scenario() {
    let mut g = CodeGenerator::default();
    let body = Statement::Expression(call("puts", vec![string("x")]));
    let w = Statement::WhileLoop(Expression::Literal(Literal::Bool(true)), Box::new(body));
    assert_eq!(g.compile_module(&vec![item(w)]), Ok(None));
    let blocks = &g.context.module.functions[0].blocks;
    assert_eq!(blocks.len(), 4);
    assert!(matches!(blocks[3].instructions[0], Instruction::RetVoid));
    assert_eq!(branch_target(blocks[2].instructions.last().unwrap()), 1);
}

#[test]
fn compile_module_stops_at_first_refused_item() {
    let mut g = CodeGenerator::default();
    let items = vec![
        item(Statement::Expression(call("a", vec![]))),
        item(Statement::If),
        ModuleItem::ImportDeclaration,
    ];
    assert_eq!(
        g.compile_module(&items),
        Err(CompileError::UnsupportedConstruct(Construct::If))
    );
}

#[test]
fn debugger_statement_is_refused_by_name() {
    let mut g = CodeGenerator::default();
    let e = g.compile_statement(&Statement::Debugger).unwrap_err();
    assert_eq!(e, CompileError::UnsupportedConstruct(Construct::Debugger));
    assert_eq!(e.message(), "unsupported construct: debugger");
    assert_eq!(Construct::This.name(), "this");
}

#[test]
fn invalid_target_message() {
    assert_eq!(
        CompileError::InvalidCallTarget.message(),
        "call target is not a plain identifier"
    );
}

#[test]
fn nul_string_after_refused_callee_is_not_reached() {
    let mut g = CodeGenerator::default();
    let e = Expression::Call(Box::new(Expression::PropertyAccess), vec![string("\0")]);
    assert_eq!(g.compile_expression(&e), Err(CompileError::InvalidCallTarget));
    assert_eq!(g.context.module.globals.len(), 0);
}
