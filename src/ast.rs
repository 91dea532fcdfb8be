//! The syntax tree the lowering engine consumes.
//!
//! Only the nodes that the engine lowers carry their contents; every other
//! node kind is a named variant without payload, so that each dispatch site
//! states explicitly that it rejects it.
use vstd::prelude::*;
use vstd::string::StrSliceExecFns;

verus! {

/// A literal of the source language.
#[derive(Debug)]
pub enum Literal {
    Str(String),
    /// A number literal, as the bit pattern of its IEEE-754 binary64 value.
    Num(u64),
    Int(i32),
    BigInt,
    Bool(bool),
    Null,
    Undefined,
}

#[derive(Debug)]
pub enum Expression {
    This,
    Identifier(String),
    Literal(Literal),
    /// A call: the callee expression and the argument list.
    Call(Box<Expression>, Vec<Expression>),
    RegExpLiteral,
    ArrayLiteral,
    ObjectLiteral,
    Spread,
    Function,
    Class,
    TemplateLiteral,
    PropertyAccess,
    New,
    SuperCall,
    ImportCall,
    Optional,
    TaggedTemplate,
    NewTarget,
    ImportMeta,
    Assign,
    Unary,
    Update,
    Binary,
    Conditional,
    Await,
    Yield,
    Parenthesized,
    Other,
}

#[derive(Debug)]
pub enum Statement {
    Block(Vec<StatementListItem>),
    Var,
    Empty,
    Expression(Expression),
    If,
    DoWhileLoop,
    /// A while loop: its condition and its body.
    WhileLoop(Expression, Box<Statement>),
    ForLoop,
    ForInLoop,
    ForOfLoop,
    Switch,
    Continue,
    Break,
    Return,
    Labelled,
    Throw,
    Try,
    With,
    Debugger,
}

#[derive(Debug)]
pub enum StatementListItem {
    Statement(Statement),
    Declaration,
}

#[derive(Debug)]
pub enum ModuleItem {
    ImportDeclaration,
    ExportDeclaration,
    StatementListItem(StatementListItem),
}

/// A kind of node that has no lowering rule.
#[derive(Debug, Clone, Copy, PartialEq, Eq, Structural)]
pub enum Construct {
    This,
    RegExpLiteral,
    ArrayLiteral,
    ObjectLiteral,
    Spread,
    Function,
    Class,
    TemplateLiteral,
    PropertyAccess,
    New,
    SuperCall,
    ImportCall,
    Optional,
    TaggedTemplate,
    NewTarget,
    ImportMeta,
    Assign,
    Unary,
    Update,
    Binary,
    Conditional,
    Await,
    Yield,
    Parenthesized,
    Identifier,
    NullLiteral,
    UndefinedLiteral,
    BigIntLiteral,
    OtherExpression,
    Var,
    Empty,
    If,
    DoWhileLoop,
    ForLoop,
    ForInLoop,
    ForOfLoop,
    Switch,
    Continue,
    Break,
    Return,
    Labelled,
    Throw,
    Try,
    With,
    Debugger,
    Declaration,
    ImportDeclaration,
    ExportDeclaration,
}

/// The name of a construct, as a message shows it.
pub open spec fn construct_name(c: Construct) -> Seq<char> {
    match c {
        Construct::This => "this"@,
        Construct::RegExpLiteral => "reg exp literal"@,
        Construct::ArrayLiteral => "array literal"@,
        Construct::ObjectLiteral => "object literal"@,
        Construct::Spread => "spread"@,
        Construct::Function => "function"@,
        Construct::Class => "class"@,
        Construct::TemplateLiteral => "template literal"@,
        Construct::PropertyAccess => "property access"@,
        Construct::New => "new"@,
        Construct::SuperCall => "super call"@,
        Construct::ImportCall => "import call"@,
        Construct::Optional => "optional"@,
        Construct::TaggedTemplate => "tagged template"@,
        Construct::NewTarget => "new target"@,
        Construct::ImportMeta => "import meta"@,
        Construct::Assign => "assign"@,
        Construct::Unary => "unary"@,
        Construct::Update => "update"@,
        Construct::Binary => "binary"@,
        Construct::Conditional => "conditional"@,
        Construct::Await => "await"@,
        Construct::Yield => "yield"@,
        Construct::Parenthesized => "parenthesized"@,
        Construct::Identifier => "identifier"@,
        Construct::NullLiteral => "null literal"@,
        Construct::UndefinedLiteral => "undefined literal"@,
        Construct::BigIntLiteral => "big int literal"@,
        Construct::OtherExpression => "expression"@,
        Construct::Var => "var"@,
        Construct::Empty => "empty"@,
        Construct::If => "if"@,
        Construct::DoWhileLoop => "do while loop"@,
        Construct::ForLoop => "for loop"@,
        Construct::ForInLoop => "for in loop"@,
        Construct::ForOfLoop => "for of loop"@,
        Construct::Switch => "switch"@,
        Construct::Continue => "continue"@,
        Construct::Break => "break"@,
        Construct::Return => "return"@,
        Construct::Labelled => "labelled"@,
        Construct::Throw => "throw"@,
        Construct::Try => "try"@,
        Construct::With => "with"@,
        Construct::Debugger => "debugger"@,
        Construct::Declaration => "declaration"@,
        Construct::ImportDeclaration => "import declaration"@,
        Construct::ExportDeclaration => "export declaration"@,
    }
}

impl Construct {
    /// The name of the construct, as a message shows it.
    pub fn name(&self) -> (r: String)
        ensures
            r@ == construct_name(*self),
    {
        match self {
            Construct::This => String::from_str("this"),
            Construct::RegExpLiteral => String::from_str("reg exp literal"),
            Construct::ArrayLiteral => String::from_str("array literal"),
            Construct::ObjectLiteral => String::from_str("object literal"),
            Construct::Spread => String::from_str("spread"),
            Construct::Function => String::from_str("function"),
            Construct::Class => String::from_str("class"),
            Construct::TemplateLiteral => String::from_str("template literal"),
            Construct::PropertyAccess => String::from_str("property access"),
            Construct::New => String::from_str("new"),
            Construct::SuperCall => String::from_str("super call"),
            Construct::ImportCall => String::from_str("import call"),
            Construct::Optional => String::from_str("optional"),
            Construct::TaggedTemplate => String::from_str("tagged template"),
            Construct::NewTarget => String::from_str("new target"),
            Construct::ImportMeta => String::from_str("import meta"),
            Construct::Assign => String::from_str("assign"),
            Construct::Unary => String::from_str("unary"),
            Construct::Update => String::from_str("update"),
            Construct::Binary => String::from_str("binary"),
            Construct::Conditional => String::from_str("conditional"),
            Construct::Await => String::from_str("await"),
            Construct::Yield => String::from_str("yield"),
            Construct::Parenthesized => String::from_str("parenthesized"),
            Construct::Identifier => String::from_str("identifier"),
            Construct::NullLiteral => String::from_str("null literal"),
            Construct::UndefinedLiteral => String::from_str("undefined literal"),
            Construct::BigIntLiteral => String::from_str("big int literal"),
            Construct::OtherExpression => String::from_str("expression"),
            Construct::Var => String::from_str("var"),
            Construct::Empty => String::from_str("empty"),
            Construct::If => String::from_str("if"),
            Construct::DoWhileLoop => String::from_str("do while loop"),
            Construct::ForLoop => String::from_str("for loop"),
            Construct::ForInLoop => String::from_str("for in loop"),
            Construct::ForOfLoop => String::from_str("for of loop"),
            Construct::Switch => String::from_str("switch"),
            Construct::Continue => String::from_str("continue"),
            Construct::Break => String::from_str("break"),
            Construct::Return => String::from_str("return"),
            Construct::Labelled => String::from_str("labelled"),
            Construct::Throw => String::from_str("throw"),
            Construct::Try => String::from_str("try"),
            Construct::With => String::from_str("with"),
            Construct::Debugger => String::from_str("debugger"),
            Construct::Declaration => String::from_str("declaration"),
            Construct::ImportDeclaration => String::from_str("import declaration"),
            Construct::ExportDeclaration => String::from_str("export declaration"),
        }
    }
}

/// Why a node could not be lowered. Both kinds abort the compilation.
#[derive(Debug, Clone, Copy, PartialEq, Eq, Structural)]
pub enum CompileError {
    /// A node of this kind has no lowering rule.
    UnsupportedConstruct(Construct),
    /// The callee of a call is not a plain identifier.
    InvalidCallTarget,
}

/// The message of an error: the construct it names, or the call target.
pub open spec fn message_text(e: CompileError) -> Seq<char> {
    match e {
        CompileError::UnsupportedConstruct(c) => "unsupported construct: "@ + construct_name(c),
        CompileError::InvalidCallTarget => "call target is not a plain identifier"@,
    }
}

impl CompileError {
    /// A human-readable description of the error, naming the construct.
    pub fn message(&self) -> (r: String)
        ensures
            r@ == message_text(*self),
    {
        match self {
            CompileError::UnsupportedConstruct(c) => {
                let mut s = String::from_str("unsupported construct: ");
                let n = c.name();
                s.append(n.as_str());
                s
            },
            CompileError::InvalidCallTarget => String::from_str("call target is not a plain identifier"),
        }
    }
}

/// The construct an unsupported expression is.
pub open spec fn expr_construct(e: Expression) -> Construct {
    match e {
        Expression::This => Construct::This,
        Expression::RegExpLiteral => Construct::RegExpLiteral,
        Expression::ArrayLiteral => Construct::ArrayLiteral,
        Expression::ObjectLiteral => Construct::ObjectLiteral,
        Expression::Spread => Construct::Spread,
        Expression::Function => Construct::Function,
        Expression::Class => Construct::Class,
        Expression::TemplateLiteral => Construct::TemplateLiteral,
        Expression::PropertyAccess => Construct::PropertyAccess,
        Expression::New => Construct::New,
        Expression::SuperCall => Construct::SuperCall,
        Expression::ImportCall => Construct::ImportCall,
        Expression::Optional => Construct::Optional,
        Expression::TaggedTemplate => Construct::TaggedTemplate,
        Expression::NewTarget => Construct::NewTarget,
        Expression::ImportMeta => Construct::ImportMeta,
        Expression::Assign => Construct::Assign,
        Expression::Unary => Construct::Unary,
        Expression::Update => Construct::Update,
        Expression::Binary => Construct::Binary,
        Expression::Conditional => Construct::Conditional,
        Expression::Await => Construct::Await,
        Expression::Yield => Construct::Yield,
        Expression::Parenthesized => Construct::Parenthesized,
        Expression::Identifier(_) => Construct::Identifier,
        Expression::Literal(Literal::Null) => Construct::NullLiteral,
        Expression::Literal(Literal::Undefined) => Construct::UndefinedLiteral,
        Expression::Literal(Literal::BigInt) => Construct::BigIntLiteral,
        _ => Construct::OtherExpression,
    }
}

/// The construct an unsupported expression is.
pub fn expression_construct(e: &Expression) -> (r: Construct)
    ensures
        r == expr_construct(*e),
{
    match e {
        Expression::This => Construct::This,
        Expression::RegExpLiteral => Construct::RegExpLiteral,
        Expression::ArrayLiteral => Construct::ArrayLiteral,
        Expression::ObjectLiteral => Construct::ObjectLiteral,
        Expression::Spread => Construct::Spread,
        Expression::Function => Construct::Function,
        Expression::Class => Construct::Class,
        Expression::TemplateLiteral => Construct::TemplateLiteral,
        Expression::PropertyAccess => Construct::PropertyAccess,
        Expression::New => Construct::New,
        Expression::SuperCall => Construct::SuperCall,
        Expression::ImportCall => Construct::ImportCall,
        Expression::Optional => Construct::Optional,
        Expression::TaggedTemplate => Construct::TaggedTemplate,
        Expression::NewTarget => Construct::NewTarget,
        Expression::ImportMeta => Construct::ImportMeta,
        Expression::Assign => Construct::Assign,
        Expression::Unary => Construct::Unary,
        Expression::Update => Construct::Update,
        Expression::Binary => Construct::Binary,
        Expression::Conditional => Construct::Conditional,
        Expression::Await => Construct::Await,
        Expression::Yield => Construct::Yield,
        Expression::Parenthesized => Construct::Parenthesized,
        Expression::Identifier(_) => Construct::Identifier,
        Expression::Literal(Literal::Null) => Construct::NullLiteral,
        Expression::Literal(Literal::Undefined) => Construct::UndefinedLiteral,
        Expression::Literal(Literal::BigInt) => Construct::BigIntLiteral,
        _ => Construct::OtherExpression,
    }
}

/// The construct an unsupported statement is.
pub open spec fn stmt_construct(s: Statement) -> Construct {
    match s {
        Statement::Var => Construct::Var,
        Statement::Empty => Construct::Empty,
        Statement::If => Construct::If,
        Statement::DoWhileLoop => Construct::DoWhileLoop,
        Statement::ForLoop => Construct::ForLoop,
        Statement::ForInLoop => Construct::ForInLoop,
        Statement::ForOfLoop => Construct::ForOfLoop,
        Statement::Switch => Construct::Switch,
        Statement::Continue => Construct::Continue,
        Statement::Break => Construct::Break,
        Statement::Return => Construct::Return,
        Statement::Labelled => Construct::Labelled,
        Statement::Throw => Construct::Throw,
        Statement::Try => Construct::Try,
        Statement::With => Construct::With,
        Statement::Debugger => Construct::Debugger,
        _ => Construct::Empty,
    }
}

/// The construct an unsupported statement is.
pub fn statement_construct(s: &Statement) -> (r: Construct)
    ensures
        r == stmt_construct(*s),
{
    match s {
        Statement::Var => Construct::Var,
        Statement::Empty => Construct::Empty,
        Statement::If => Construct::If,
        Statement::DoWhileLoop => Construct::DoWhileLoop,
        Statement::ForLoop => Construct::ForLoop,
        Statement::ForInLoop => Construct::ForInLoop,
        Statement::ForOfLoop => Construct::ForOfLoop,
        Statement::Switch => Construct::Switch,
        Statement::Continue => Construct::Continue,
        Statement::Break => Construct::Break,
        Statement::Return => Construct::Return,
        Statement::Labelled => Construct::Labelled,
        Statement::Throw => Construct::Throw,
        Statement::Try => Construct::Try,
        Statement::With => Construct::With,
        Statement::Debugger => Construct::Debugger,
        _ => Construct::Empty,
    }
}

/// The literal kinds that have a lowering rule.
pub open spec fn literal_supported(l: Literal) -> bool {
    match l {
        Literal::Str(_) | Literal::Num(_) | Literal::Int(_) | Literal::Bool(_) => true,
        _ => false,
    }
}

/// The first error met when lowering `e`, if any: the callee of a call is
/// examined before its arguments, and the arguments from left to right.
pub open spec fn expr_error(e: Expression) -> Option<CompileError>
    decreases e,
{
    match e {
        Expression::Literal(l) => if literal_supported(l) {
            None
        } else {
            Some(CompileError::UnsupportedConstruct(expr_construct(e)))
        },
        Expression::Call(f, args) => if !(*f is Identifier) {
            Some(CompileError::InvalidCallTarget)
        } else {
            args_error(args@)
        },
        _ => Some(CompileError::UnsupportedConstruct(expr_construct(e))),
    }
}

/// The first error met when lowering the expressions of `s` in order.
pub open spec fn args_error(s: Seq<Expression>) -> Option<CompileError>
    decreases s,
{
    if s.len() == 0 {
        None
    } else if expr_error(s[0]) is Some {
        expr_error(s[0])
    } else {
        args_error(s.subrange(1, s.len() as int))
    }
}

/// The first error met when lowering `s`.
pub open spec fn stmt_error(s: Statement) -> Option<CompileError>
    decreases s,
{
    match s {
        Statement::Block(items) => items_error(items@),
        Statement::Expression(e) => expr_error(e),
        Statement::WhileLoop(c, body) => if expr_error(c) is Some {
            expr_error(c)
        } else {
            stmt_error(*body)
        },
        _ => Some(CompileError::UnsupportedConstruct(stmt_construct(s))),
    }
}

/// The first error met when lowering the items of a block in order.
pub open spec fn items_error(s: Seq<StatementListItem>) -> Option<CompileError>
    decreases s,
{
    if s.len() == 0 {
        None
    } else {
        let first = match s[0] {
            StatementListItem::Statement(st) => stmt_error(st),
            StatementListItem::Declaration => Some(CompileError::UnsupportedConstruct(Construct::Declaration)),
        };
        if first is Some {
            first
        } else {
            items_error(s.subrange(1, s.len() as int))
        }
    }
}

/// The number of while loops in `s`, nested ones included.
pub open spec fn while_count(s: Statement) -> nat
    decreases s,
{
    match s {
        Statement::Block(items) => items_while_count(items@),
        Statement::WhileLoop(_, body) => 1 + while_count(*body),
        _ => 0,
    }
}

/// The number of while loops in a sequence of block items.
pub open spec fn items_while_count(s: Seq<StatementListItem>) -> nat
    decreases s,
{
    if s.len() == 0 {
        0
    } else {
        items_while_count(s.subrange(0, s.len() - 1)) + match s[s.len() - 1] {
            StatementListItem::Statement(st) => while_count(st),
            StatementListItem::Declaration => 0,
        }
    }
}

/// The first error met when lowering a top-level item.
pub open spec fn module_item_error(m: ModuleItem) -> Option<CompileError> {
    match m {
        ModuleItem::StatementListItem(StatementListItem::Statement(st)) => stmt_error(st),
        ModuleItem::StatementListItem(StatementListItem::Declaration) => Some(
            CompileError::UnsupportedConstruct(Construct::Declaration),
        ),
        ModuleItem::ImportDeclaration => Some(CompileError::UnsupportedConstruct(Construct::ImportDeclaration)),
        ModuleItem::ExportDeclaration => Some(CompileError::UnsupportedConstruct(Construct::ExportDeclaration)),
    }
}

/// Finds the first error met when lowering `e`, without lowering anything.
pub fn check_expression(e: &Expression) -> (r: Option<CompileError>)
    ensures
        r == expr_error(*e),
    decreases e,
{
    match e {
        Expression::Literal(l) => match l {
            Literal::Str(_) | Literal::Num(_) | Literal::Int(_) | Literal::Bool(_) => None,
            _ => Some(CompileError::UnsupportedConstruct(expression_construct(e))),
        },
        Expression::Call(f, args) => {
            if !matches!(**f, Expression::Identifier(_)) {
                return Some(CompileError::InvalidCallTarget);
            }
            let mut i: usize = 0;
            assert(args@.subrange(0, args@.len() as int) =~= args@);
            while i < args.len()
                invariant
                    *e is Call,
                    (*e)->Call_1 == *args,
                    (*(*e)->Call_0) is Identifier,
                    i <= args@.len(),
                    args_error(args@) == args_error(args@.subrange(i as int, args@.len() as int)),
                decreases args@.len() - i,
            {
                proof {
                    assert(decreases_to!(*e => (*e)->Call_1));
                    assert((*e)->Call_1 == *args);
                    assert(decreases_to!(*args => args@));
                    assert(decreases_to!(args@ => args@[i as int]));
                }
                let r = check_expression(&args[i]);
                let ghost rest = args@.subrange(i as int, args@.len() as int);
                assert(rest[0] == args@[i as int]);
                if r.is_some() {
                    assert(args_error(rest) == expr_error(rest[0]));
                    return r;
                }
                assert(rest.subrange(1, rest.len() as int) =~= args@.subrange(
                    i + 1,
                    args@.len() as int,
                ));
                i = i + 1;
            }
            assert(args@.subrange(i as int, args@.len() as int).len() == 0);
            None
        },
        _ => Some(CompileError::UnsupportedConstruct(expression_construct(e))),
    }
}

/// Finds the first error met when lowering `s`, without lowering anything.
pub fn check_statement(s: &Statement) -> (r: Option<CompileError>)
    ensures
        r == stmt_error(*s),
    decreases s,
{
    match s {
        Statement::Block(items) => {
            let mut i: usize = 0;
            assert(items@.subrange(0, items@.len() as int) =~= items@);
            while i < items.len()
                invariant
                    *s is Block,
                    (*s)->Block_0 == *items,
                    i <= items@.len(),
                    items_error(items@) == items_error(
                        items@.subrange(i as int, items@.len() as int),
                    ),
                decreases items@.len() - i,
            {
                let ghost rest = items@.subrange(i as int, items@.len() as int);
                assert(rest[0] == items@[i as int]);
                let item = &items[i];
                let r = match item {
                    StatementListItem::Statement(st) => {
                        proof {
                            assert(decreases_to!(*s => (*s)->Block_0));
                            assert((*s)->Block_0 == *items);
                            assert(decreases_to!(items@[i as int] => items@[i as int]->Statement_0));
                            assert(decreases_to!(*items => items@));
                            assert(decreases_to!(items@ => items@[i as int]));
                            assert(decreases_to!(*item => *st));
                        }
                        check_statement(st)
                    },
                    StatementListItem::Declaration => Some(CompileError::UnsupportedConstruct(Construct::Declaration)),
                };
                if r.is_some() {
                    return r;
                }
                assert(rest.subrange(1, rest.len() as int) =~= items@.subrange(
                    i + 1,
                    items@.len() as int,
                ));
                i = i + 1;
            }
            assert(items@.subrange(i as int, items@.len() as int).len() == 0);
            None
        },
        Statement::Expression(e) => check_expression(e),
        Statement::WhileLoop(c, body) => {
            let r = check_expression(c);
            if r.is_some() {
                r
            } else {
                check_statement(body)
            }
        },
        _ => Some(CompileError::UnsupportedConstruct(statement_construct(s))),
    }
}

/// No string literal in `e` holds a NUL character.
pub open spec fn expr_nul_free(e: Expression) -> bool
    decreases e,
{
    match e {
        Expression::Literal(Literal::Str(s)) => !s@.contains('\0'),
        Expression::Call(_, args) => args_nul_free(args@),
        _ => true,
    }
}

/// No string literal in the expressions of `s` holds a NUL character.
pub open spec fn args_nul_free(s: Seq<Expression>) -> bool
    decreases s,
{
    if s.len() == 0 {
        true
    } else {
        expr_nul_free(s[0]) && args_nul_free(s.subrange(1, s.len() as int))
    }
}

/// No string literal in `s` holds a NUL character.
pub open spec fn stmt_nul_free(s: Statement) -> bool
    decreases s,
{
    match s {
        Statement::Block(items) => items_nul_free(items@),
        Statement::Expression(e) => expr_nul_free(e),
        Statement::WhileLoop(c, body) => expr_nul_free(c) && stmt_nul_free(*body),
        _ => true,
    }
}

/// No string literal in the items of a block holds a NUL character.
pub open spec fn items_nul_free(s: Seq<StatementListItem>) -> bool
    decreases s,
{
    if s.len() == 0 {
        true
    } else {
        (match s[0] {
            StatementListItem::Statement(st) => stmt_nul_free(st),
            StatementListItem::Declaration => true,
        }) && items_nul_free(s.subrange(1, s.len() as int))
    }
}

/// No string literal in a top-level item holds a NUL character.
pub open spec fn module_item_nul_free(m: ModuleItem) -> bool {
    match m {
        ModuleItem::StatementListItem(StatementListItem::Statement(st)) => stmt_nul_free(st),
        _ => true,
    }
}

/// Whether `s` holds no NUL character.
pub fn text_nul_free(s: &str) -> (r: bool)
    ensures
        r == !s@.contains('\0'),
{
    let n = s.unicode_len();
    let mut i: usize = 0;
    while i < n
        invariant
            n == s@.len(),
            i <= n,
            forall|j: int| 0 <= j < i ==> s@[j] != '\0',
        decreases n - i,
    {
        if s.get_char(i) == '\0' {
            return false;
        }
        i = i + 1;
    }
    true
}

/// Whether no string literal in `e` holds a NUL character.
pub fn expression_nul_free(e: &Expression) -> (r: bool)
    ensures
        r == expr_nul_free(*e),
    decreases e,
{
    match e {
        Expression::Literal(Literal::Str(t)) => text_nul_free(t.as_str()),
        Expression::Call(_, args) => {
            let mut i: usize = 0;
            assert(args@.subrange(0, args@.len() as int) =~= args@);
            while i < args.len()
                invariant
                    *e is Call,
                    (*e)->Call_1 == *args,
                    i <= args@.len(),
                    args_nul_free(args@) == args_nul_free(args@.subrange(i as int, args@.len() as int)),
                decreases args@.len() - i,
            {
                proof {
                    assert(decreases_to!(*e => (*e)->Call_1));
                    assert(decreases_to!(*args => args@));
                    assert(decreases_to!(args@ => args@[i as int]));
                }
                let ghost rest = args@.subrange(i as int, args@.len() as int);
                assert(rest[0] == args@[i as int]);
                assert(rest.subrange(1, rest.len() as int) =~= args@.subrange(i + 1, args@.len() as int));
                if !expression_nul_free(&args[i]) {
                    return false;
                }
                i = i + 1;
            }
            assert(args@.subrange(i as int, args@.len() as int).len() == 0);
            true
        },
        _ => true,
    }
}

/// Whether no string literal in `s` holds a NUL character.
pub fn statement_nul_free(s: &Statement) -> (r: bool)
    ensures
        r == stmt_nul_free(*s),
    decreases s,
{
    match s {
        Statement::Block(items) => {
            let mut i: usize = 0;
            assert(items@.subrange(0, items@.len() as int) =~= items@);
            while i < items.len()
                invariant
                    *s is Block,
                    (*s)->Block_0 == *items,
                    i <= items@.len(),
                    items_nul_free(items@) == items_nul_free(items@.subrange(i as int, items@.len() as int)),
                decreases items@.len() - i,
            {
                let ghost rest = items@.subrange(i as int, items@.len() as int);
                assert(rest[0] == items@[i as int]);
                assert(rest.subrange(1, rest.len() as int) =~= items@.subrange(i + 1, items@.len() as int));
                let item = &items[i];
                match item {
                    StatementListItem::Statement(st) => {
                        proof {
                            assert(decreases_to!(*s => (*s)->Block_0));
                            assert(decreases_to!(*items => items@));
                            assert(decreases_to!(items@ => items@[i as int]));
                            assert(decreases_to!(items@[i as int] => items@[i as int]->Statement_0));
                        }
                        if !statement_nul_free(st) {
                            return false;
                        }
                    },
                    StatementListItem::Declaration => {},
                }
                i = i + 1;
            }
            assert(items@.subrange(i as int, items@.len() as int).len() == 0);
            true
        },
        Statement::Expression(e) => expression_nul_free(e),
        Statement::WhileLoop(c, body) => expression_nul_free(c) && statement_nul_free(body),
        _ => true,
    }
}

/// Finds the first error met when lowering a top-level item, without
/// lowering anything.
pub fn check_module_item(m: &ModuleItem) -> (r: Option<CompileError>)
    ensures
        r == module_item_error(*m),
{
    match m {
        ModuleItem::StatementListItem(StatementListItem::Statement(st)) => check_statement(st),
        ModuleItem::StatementListItem(StatementListItem::Declaration) => Some(
            CompileError::UnsupportedConstruct(Construct::Declaration),
        ),
        ModuleItem::ImportDeclaration => Some(CompileError::UnsupportedConstruct(Construct::ImportDeclaration)),
        ModuleItem::ExportDeclaration => Some(CompileError::UnsupportedConstruct(Construct::ExportDeclaration)),
    }
}

/// Whether no string literal in a top-level item holds a NUL character.
pub fn item_nul_free(m: &ModuleItem) -> (r: bool)
    ensures
        r == module_item_nul_free(*m),
{
    match m {
        ModuleItem::StatementListItem(StatementListItem::Statement(st)) => statement_nul_free(st),
        _ => true,
    }
}

} // verus!
