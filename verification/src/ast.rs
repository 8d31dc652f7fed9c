//! The abstract syntax tree of a Yar program.
use vstd::prelude::*;

use crate::text::{push_char, signed_decimal, i64_decimal};
use crate::token::{Kind, Position};

verus! {

#[derive(Debug, Default, PartialEq)]
pub struct Program {
    pub package_pos: Position,
    pub package_name: String,
    pub imports: Vec<ImportDecl>,
    pub structs: Vec<StructDecl>,
    pub interfaces: Vec<InterfaceDecl>,
    pub enums: Vec<EnumDecl>,
    pub functions: Vec<FunctionDecl>,
}

#[derive(Debug, PartialEq)]
pub struct PackageImport {
    pub name: String,
    pub path: String,
    pub target: PackageId,
    pub decl: ImportDecl,
}

#[derive(Debug, Default, Eq, Ord, PartialEq, PartialOrd)]
pub enum SourceId {
    #[default]
    Entry,
    Path {
        manifest_path: String,
    },
    Git {
        git: String,
        commit: String,
    },
    Stdlib,
}

/// Stable package identity inside one compilation graph.
///
/// Import spellings and dependency aliases are bindings owned by a source;
/// they are deliberately not part of the package identity.
#[derive(Debug, Default, Eq, Ord, PartialEq, PartialOrd)]
pub struct PackageId {
    pub source: SourceId,
    pub subpath: String,
}

#[derive(Debug, Default, PartialEq)]
pub struct Package {
    pub id: PackageId,
    pub name: String,
    pub stdlib: bool,
    pub files: Vec<Program>,
    pub imports: Vec<PackageImport>,
    pub structs: Vec<StructDecl>,
    pub interfaces: Vec<InterfaceDecl>,
    pub enums: Vec<EnumDecl>,
    pub functions: Vec<FunctionDecl>,
}

#[derive(Debug, Default, PartialEq)]
pub struct PackageGraph {
    pub entry: PackageId,
    pub packages: Vec<Package>,
}

#[derive(Clone, Copy, Debug, Eq, PartialEq, Structural)]
pub enum TypeRefKind {
    Named,
    Errorable,
    Pointer,
    Array,
    Slice,
    MapType,
    Chan,
    Function,
}

#[derive(Debug, PartialEq)]
pub struct TypeRef {
    pub kind: TypeRefKind,
    pub name: String,
    pub type_args: Vec<TypeRef>,
    pub array_len: i64,
    pub elem: Option<Box<TypeRef>>,
    pub key: Option<Box<TypeRef>>,
    pub value: Option<Box<TypeRef>>,
    pub params: Vec<TypeRef>,
    pub return_type: Option<Box<TypeRef>>,
    pub errorable: bool,
    pub pos: Position,
}

#[derive(Debug, Eq, PartialEq)]
pub struct ImportDecl {
    pub import_pos: Position,
    pub path: String,
    pub path_pos: Position,
}

#[derive(Debug, Eq, PartialEq)]
pub struct TypeParam {
    pub name: String,
    pub pos: Position,
}

#[derive(Debug, PartialEq)]
pub struct StructDecl {
    pub struct_pos: Position,
    pub exported: bool,
    pub resource: bool,
    pub name: String,
    pub name_pos: Position,
    pub type_params: Vec<TypeParam>,
    pub fields: Vec<StructField>,
}

#[derive(Debug, PartialEq)]
pub struct StructField {
    pub exported: bool,
    pub name: String,
    pub name_pos: Position,
    pub type_ref: TypeRef,
}

#[derive(Debug, PartialEq)]
pub struct InterfaceDecl {
    pub interface_pos: Position,
    pub exported: bool,
    pub name: String,
    pub name_pos: Position,
    pub methods: Vec<InterfaceMethodDecl>,
}

#[derive(Debug, PartialEq)]
pub struct InterfaceMethodDecl {
    pub name: String,
    pub name_pos: Position,
    pub params: Vec<Param>,
    pub return_type: TypeRef,
    pub return_is_bang: bool,
}

#[derive(Debug, PartialEq)]
pub struct EnumDecl {
    pub enum_pos: Position,
    pub exported: bool,
    pub name: String,
    pub name_pos: Position,
    pub cases: Vec<EnumCaseDecl>,
}

#[derive(Debug, PartialEq)]
pub struct EnumCaseDecl {
    pub name: String,
    pub name_pos: Position,
    pub fields: Vec<StructField>,
}

#[derive(Debug, PartialEq)]
pub struct FunctionDecl {
    pub exported: bool,
    pub host_intrinsic: bool,
    pub name: String,
    pub name_pos: Position,
    pub type_params: Vec<TypeParam>,
    pub receiver: Option<ReceiverDecl>,
    pub params: Vec<Param>,
    pub return_type: TypeRef,
    pub return_is_bang: bool,
    pub body: BlockStmt,
}

#[derive(Debug, PartialEq)]
pub struct Param {
    pub name: String,
    pub name_pos: Position,
    pub type_ref: TypeRef,
}

#[derive(Debug, PartialEq)]
pub struct ReceiverDecl {
    pub name: String,
    pub name_pos: Position,
    pub type_ref: TypeRef,
}

#[derive(Debug, PartialEq)]
pub struct BlockStmt {
    pub lbrace: Position,
    pub stmts: Vec<Statement>,
}

#[derive(Debug, PartialEq)]
pub enum Statement {
    Block(Box<BlockStmt>),
    Let(Box<LetStmt>),
    Var(Box<VarStmt>),
    Assign(Box<AssignStmt>),
    CompoundAssign(Box<CompoundAssignStmt>),
    If(Box<IfStmt>),
    For(Box<ForStmt>),
    Break(BreakStmt),
    Continue(ContinueStmt),
    Return(Box<ReturnStmt>),
    Match(Box<MatchStmt>),
    Expr(Box<ExprStmt>),
    Spawn(Box<SpawnStmt>),
}

#[derive(Debug, PartialEq)]
pub struct LetStmt {
    pub let_pos: Position,
    pub name: String,
    pub name_pos: Position,
    pub value: Expression,
}

#[derive(Debug, PartialEq)]
pub struct VarStmt {
    pub var_pos: Position,
    pub name: String,
    pub name_pos: Position,
    pub type_ref: TypeRef,
    pub value: Option<Expression>,
}

#[derive(Debug, PartialEq)]
pub struct AssignStmt {
    pub target: Expression,
    pub value: Expression,
}

#[derive(Debug, PartialEq)]
pub struct CompoundAssignStmt {
    pub target: Expression,
    pub operator: Kind,
    pub op_pos: Position,
    pub value: Expression,
}

#[derive(Debug, PartialEq)]
pub struct IfStmt {
    pub if_pos: Position,
    pub cond: Expression,
    pub then_block: BlockStmt,
    pub else_stmt: Option<Statement>,
}

#[derive(Debug, PartialEq)]
pub struct ForStmt {
    pub for_pos: Position,
    pub init: Option<Statement>,
    pub cond: Option<Expression>,
    pub post: Option<Statement>,
    pub body: BlockStmt,
}

#[derive(Debug, Eq, PartialEq)]
pub struct BreakStmt {
    pub break_pos: Position,
}

#[derive(Debug, Eq, PartialEq)]
pub struct ContinueStmt {
    pub continue_pos: Position,
}

#[derive(Debug, PartialEq)]
pub struct ReturnStmt {
    pub return_pos: Position,
    pub value: Option<Expression>,
}

#[derive(Debug, PartialEq)]
pub struct MatchStmt {
    pub match_pos: Position,
    pub value: Expression,
    pub arms: Vec<MatchArm>,
    pub else_body: Option<BlockStmt>,
}

#[derive(Debug, PartialEq)]
pub struct MatchArm {
    pub case_pos: Position,
    pub enum_type: TypeRef,
    pub case_name: String,
    pub case_name_pos: Position,
    pub bind_name: String,
    pub bind_name_pos: Position,
    pub bind_ignore: bool,
    pub body: BlockStmt,
}

#[derive(Debug, PartialEq)]
pub struct ExprStmt {
    pub expr: Expression,
}

#[derive(Debug, PartialEq)]
pub struct SpawnStmt {
    pub spawn_pos: Position,
    pub call: Expression,
}

#[derive(Debug, PartialEq)]
pub enum Expression {
    Ident(Box<IdentExpr>),
    Int(IntLiteral),
    Char(CharLiteral),
    String(StringLiteral),
    Bool(BoolLiteral),
    Nil(NilLiteral),
    Error(ErrorLiteral),
    TypeApplication(Box<TypeApplicationExpr>),
    Call(Box<CallExpr>),
    FunctionLiteral(Box<FunctionLiteralExpr>),
    Taskgroup(Box<TaskgroupExpr>),
    Unary(Box<UnaryExpr>),
    Binary(Box<BinaryExpr>),
    Group(Box<GroupExpr>),
    Selector(Box<SelectorExpr>),
    Index(Box<IndexExpr>),
    Slice(Box<SliceExpr>),
    StructLiteral(Box<StructLiteralExpr>),
    ArrayLiteral(Box<ArrayLiteralExpr>),
    SliceLiteral(Box<SliceLiteralExpr>),
    MapLiteral(Box<MapLiteralExpr>),
    Propagate(Box<PropagateExpr>),
    Handle(Box<HandleExpr>),
    Missing(Position),
}

#[derive(Debug, Eq, PartialEq)]
pub struct IdentExpr {
    pub name: String,
    pub name_pos: Position,
}

#[derive(Debug, Eq, PartialEq)]
pub struct IntLiteral {
    pub value: i64,
    pub lit_pos: Position,
}

#[derive(Debug, Eq, PartialEq)]
pub struct CharLiteral {
    pub value: char,
    pub lit_pos: Position,
}

#[derive(Debug, Eq, PartialEq)]
pub struct StringLiteral {
    pub value: String,
    pub lit_pos: Position,
}

#[derive(Debug, Eq, PartialEq)]
pub struct BoolLiteral {
    pub value: bool,
    pub lit_pos: Position,
}

#[derive(Debug, Eq, PartialEq)]
pub struct NilLiteral {
    pub lit_pos: Position,
}

#[derive(Debug, Eq, PartialEq)]
pub struct ErrorLiteral {
    pub name: String,
    pub err_pos: Position,
}

#[derive(Debug, PartialEq)]
pub struct TypeApplicationExpr {
    pub inner: Expression,
    pub lbracket_pos: Position,
    pub type_args: Vec<TypeRef>,
}

#[derive(Debug, PartialEq)]
pub struct CallExpr {
    pub callee: Expression,
    pub args: Vec<Expression>,
}

#[derive(Debug, PartialEq)]
pub struct FunctionLiteralExpr {
    pub fn_pos: Position,
    pub enclosing_function: String,
    pub params: Vec<Param>,
    pub return_type: TypeRef,
    pub return_is_bang: bool,
    pub body: BlockStmt,
}

#[derive(Debug, PartialEq)]
pub struct TaskgroupExpr {
    pub taskgroup_pos: Position,
    pub result_type: TypeRef,
    pub body: BlockStmt,
}

#[derive(Debug, PartialEq)]
pub struct UnaryExpr {
    pub operator: Kind,
    pub op_pos: Position,
    pub inner: Expression,
}

#[derive(Debug, PartialEq)]
pub struct BinaryExpr {
    pub left: Expression,
    pub operator: Kind,
    pub op_pos: Position,
    pub right: Expression,
}

#[derive(Debug, PartialEq)]
pub struct GroupExpr {
    pub inner: Expression,
}

#[derive(Debug, PartialEq)]
pub struct SelectorExpr {
    pub inner: Expression,
    pub dot_pos: Position,
    pub name: String,
    pub name_pos: Position,
}

#[derive(Debug, PartialEq)]
pub struct IndexExpr {
    pub inner: Expression,
    pub lbracket_pos: Position,
    pub index: Expression,
}

#[derive(Debug, PartialEq)]
pub struct SliceExpr {
    pub inner: Expression,
    pub lbracket_pos: Position,
    pub start: Option<Expression>,
    pub colon_pos: Position,
    pub end: Option<Expression>,
}

#[derive(Debug, PartialEq)]
pub struct StructLiteralExpr {
    pub type_ref: TypeRef,
    pub lbrace: Position,
    pub fields: Vec<StructLiteralField>,
}

#[derive(Debug, PartialEq)]
pub struct StructLiteralField {
    pub name: String,
    pub name_pos: Position,
    pub value: Expression,
}

#[derive(Debug, PartialEq)]
pub struct ArrayLiteralExpr {
    pub type_ref: TypeRef,
    pub lbrace: Position,
    pub elements: Vec<Expression>,
}

#[derive(Debug, PartialEq)]
pub struct SliceLiteralExpr {
    pub type_ref: TypeRef,
    pub lbrace: Position,
    pub elements: Vec<Expression>,
}

#[derive(Debug, PartialEq)]
pub struct MapLiteralExpr {
    pub type_ref: TypeRef,
    pub lbrace: Position,
    pub pairs: Vec<MapLiteralPair>,
}

#[derive(Debug, PartialEq)]
pub struct MapLiteralPair {
    pub key: Expression,
    pub key_pos: Position,
    pub value: Expression,
    pub value_pos: Position,
}

#[derive(Debug, PartialEq)]
pub struct PropagateExpr {
    pub inner: Expression,
    pub question_pos: Position,
}

#[derive(Debug, PartialEq)]
pub struct HandleExpr {
    pub inner: Expression,
    pub or_pos: Position,
    pub err_name: String,
    pub err_pos: Position,
    pub handler: BlockStmt,
}

impl TypeRef {
    /// A named type reference with no type arguments.
    pub fn named(name: String, pos: Position) -> (t: TypeRef)
        ensures
            t.kind == TypeRefKind::Named,
            t.name@ == name@,
            t.type_args@.len() == 0,
            t.array_len == 0,
            t.elem is None,
            t.key is None,
            t.value is None,
            t.params@.len() == 0,
            t.return_type is None,
            !t.errorable,
            t.pos@ == pos@,
    {
        TypeRef {
            kind: TypeRefKind::Named,
            name,
            type_args: Vec::new(),
            array_len: 0,
            elem: None,
            key: None,
            value: None,
            params: Vec::new(),
            return_type: None,
            errorable: false,
            pos,
        }
    }
}

/// The source spelling of an optional type reference (empty when absent).
pub open spec fn optional_type_text(t: Option<Box<TypeRef>>) -> Seq<char>
    decreases t,
{
    match t {
        Some(b) => type_text(*b),
        None => Seq::empty(),
    }
}

/// The source spellings of type references joined by `, `.
pub open spec fn joined_type_text(ts: Seq<TypeRef>) -> Seq<char>
    decreases ts,
{
    if ts.len() == 0 {
        Seq::empty()
    } else if ts.len() == 1 {
        type_text(ts[0])
    } else {
        joined_type_text(ts.drop_last()) + seq![',', ' '] + type_text(ts.last())
    }
}

/// The source spelling of a type reference, as the compiler prints it in messages.
pub open spec fn type_text(t: TypeRef) -> Seq<char>
    decreases t,
{
    match t.kind {
        TypeRefKind::Errorable => seq!['!'] + optional_type_text(t.elem),
        TypeRefKind::Pointer => seq!['*'] + optional_type_text(t.elem),
        TypeRefKind::Array => seq!['['] + signed_decimal(t.array_len as int) + seq![']']
            + optional_type_text(t.elem),
        TypeRefKind::Slice => seq!['[', ']'] + optional_type_text(t.elem),
        TypeRefKind::MapType => seq!['m', 'a', 'p', '['] + optional_type_text(t.key) + seq![']']
            + optional_type_text(t.value),
        TypeRefKind::Chan => seq!['c', 'h', 'a', 'n', '['] + optional_type_text(t.elem) + seq![
            ']',
        ],
        TypeRefKind::Function => seq!['f', 'n', '('] + joined_type_text(t.params@) + seq![')', ' ']
            + (if t.errorable {
            seq!['!']
        } else {
            Seq::empty()
        }) + optional_type_text(t.return_type),
        TypeRefKind::Named => if t.type_args@.len() == 0 {
            t.name@
        } else {
            t.name@ + seq!['['] + joined_type_text(t.type_args@) + seq![']']
        },
    }
}

fn push_text(out: &mut String, text: &str)
    ensures
        final(out)@ == old(out)@ + text@,
{
    out.append(text);
}

fn push_optional(out: &mut String, t: &Option<Box<TypeRef>>)
    ensures
        final(out)@ == old(out)@ + optional_type_text(*t),
    decreases t,
{
    match t {
        Some(b) => {
            let inner = b.display();
            out.append(inner.as_str());
        },
        None => {},
    }
}

fn push_joined(out: &mut String, ts: &Vec<TypeRef>)
    ensures
        final(out)@ == old(out)@ + joined_type_text(ts@),
    decreases ts,
{
    let mut i: usize = 0;
    while i < ts.len()
        invariant
            i <= ts@.len(),
            out@ == old(out)@ + joined_type_text(ts@.subrange(0, i as int)),
        decreases ts.len() - i,
    {
        let ghost before = out@;
        if i > 0 {
            push_char(out, ',');
            push_char(out, ' ');
        }
        assert(decreases_to!(ts => ts@[i as int]));
        let inner = ts[i].display();
        out.append(inner.as_str());
        i = i + 1;
        proof {
            let cur = ts@.subrange(0, i as int);
            assert(cur.drop_last() =~= ts@.subrange(0, i - 1));
            assert(cur.last() == ts@[i - 1]);
            if i == 1 {
                assert(joined_type_text(cur) == type_text(cur[0]));
            }
            assert(out@ =~= old(out)@ + joined_type_text(cur));
        }
    }
    assert(ts@.subrange(0, ts@.len() as int) =~= ts@);
}

impl TypeRef {
    /// The source spelling of this type reference, as the compiler prints it.
    pub fn display(&self) -> (s: String)
        ensures
            s@ == type_text(*self),
        decreases self,
    {
        let mut out = String::new();
        match self.kind {
            TypeRefKind::Errorable => {
                push_char(&mut out, '!');
                push_optional(&mut out, &self.elem);
            },
            TypeRefKind::Pointer => {
                push_char(&mut out, '*');
                push_optional(&mut out, &self.elem);
            },
            TypeRefKind::Array => {
                push_char(&mut out, '[');
                let n = i64_decimal(self.array_len);
                out.append(n.as_str());
                push_char(&mut out, ']');
                push_optional(&mut out, &self.elem);
            },
            TypeRefKind::Slice => {
                push_char(&mut out, '[');
                push_char(&mut out, ']');
                push_optional(&mut out, &self.elem);
            },
            TypeRefKind::MapType => {
                push_char(&mut out, 'm');
                push_char(&mut out, 'a');
                push_char(&mut out, 'p');
                push_char(&mut out, '[');
                push_optional(&mut out, &self.key);
                push_char(&mut out, ']');
                push_optional(&mut out, &self.value);
            },
            TypeRefKind::Chan => {
                push_char(&mut out, 'c');
                push_char(&mut out, 'h');
                push_char(&mut out, 'a');
                push_char(&mut out, 'n');
                push_char(&mut out, '[');
                push_optional(&mut out, &self.elem);
                push_char(&mut out, ']');
            },
            TypeRefKind::Function => {
                push_char(&mut out, 'f');
                push_char(&mut out, 'n');
                push_char(&mut out, '(');
                push_joined(&mut out, &self.params);
                push_char(&mut out, ')');
                push_char(&mut out, ' ');
                if self.errorable {
                    push_char(&mut out, '!');
                }
                push_optional(&mut out, &self.return_type);
            },
            TypeRefKind::Named => {
                out = self.name.clone();
                if self.type_args.len() > 0 {
                    push_char(&mut out, '[');
                    push_joined(&mut out, &self.type_args);
                    push_char(&mut out, ']');
                }
            },
        }
        assert(out@ =~= type_text(*self));
        out
    }
}

impl Expression {
    /// The source position that stands for this expression in diagnostics.
    pub fn pos(&self) -> (p: Position)
        ensures
            p@ == expression_pos(*self),
        decreases self,
    {
        match self {
            Expression::Ident(expr) => expr.name_pos.duplicate(),
            Expression::Int(expr) => expr.lit_pos.duplicate(),
            Expression::Char(expr) => expr.lit_pos.duplicate(),
            Expression::String(expr) => expr.lit_pos.duplicate(),
            Expression::Bool(expr) => expr.lit_pos.duplicate(),
            Expression::Nil(expr) => expr.lit_pos.duplicate(),
            Expression::Error(expr) => expr.err_pos.duplicate(),
            Expression::TypeApplication(expr) => expr.inner.pos(),
            Expression::Call(expr) => expr.callee.pos(),
            Expression::FunctionLiteral(expr) => expr.fn_pos.duplicate(),
            Expression::Taskgroup(expr) => expr.taskgroup_pos.duplicate(),
            Expression::Unary(expr) => expr.op_pos.duplicate(),
            Expression::Binary(expr) => expr.left.pos(),
            Expression::Group(expr) => expr.inner.pos(),
            Expression::Selector(expr) => expr.inner.pos(),
            Expression::Index(expr) => expr.inner.pos(),
            Expression::Slice(expr) => expr.inner.pos(),
            Expression::StructLiteral(expr) => expr.type_ref.pos.duplicate(),
            Expression::ArrayLiteral(expr) => expr.type_ref.pos.duplicate(),
            Expression::SliceLiteral(expr) => expr.type_ref.pos.duplicate(),
            Expression::MapLiteral(expr) => expr.type_ref.pos.duplicate(),
            Expression::Propagate(expr) => expr.inner.pos(),
            Expression::Handle(expr) => expr.inner.pos(),
            Expression::Missing(pos) => pos.duplicate(),
        }
    }
}

/// The position of an expression: that of its leftmost part (the callee of a
/// call, the left operand of a binary expression, the inner expression of a
/// postfix form), the operator of a unary expression, the type of a literal.
pub open spec fn expression_pos(e: Expression) -> crate::token::PositionView
    decreases e,
{
    match e {
        Expression::Ident(x) => x.name_pos@,
        Expression::Int(x) => x.lit_pos@,
        Expression::Char(x) => x.lit_pos@,
        Expression::String(x) => x.lit_pos@,
        Expression::Bool(x) => x.lit_pos@,
        Expression::Nil(x) => x.lit_pos@,
        Expression::Error(x) => x.err_pos@,
        Expression::TypeApplication(x) => expression_pos(x.inner),
        Expression::Call(x) => expression_pos(x.callee),
        Expression::FunctionLiteral(x) => x.fn_pos@,
        Expression::Taskgroup(x) => x.taskgroup_pos@,
        Expression::Unary(x) => x.op_pos@,
        Expression::Binary(x) => expression_pos(x.left),
        Expression::Group(x) => expression_pos(x.inner),
        Expression::Selector(x) => expression_pos(x.inner),
        Expression::Index(x) => expression_pos(x.inner),
        Expression::Slice(x) => expression_pos(x.inner),
        Expression::StructLiteral(x) => x.type_ref.pos@,
        Expression::ArrayLiteral(x) => x.type_ref.pos@,
        Expression::SliceLiteral(x) => x.type_ref.pos@,
        Expression::MapLiteral(x) => x.type_ref.pos@,
        Expression::Propagate(x) => expression_pos(x.inner),
        Expression::Handle(x) => expression_pos(x.inner),
        Expression::Missing(p) => p@,
    }
}

} // verus!
