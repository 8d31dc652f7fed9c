//! Checking function bodies: statements, expressions and the local scopes.
use vstd::prelude::*;

use super::types::{
    const_integer_expression, diagnostic_type_name, infer_untyped_integer_type,
    int_expression_operands_fit, int_value_fits, is_integer_type, is_pointer_type,
    package_display_name, package_for_type, parse_array_type, parse_chan_type,
    parse_errorable_type, parse_map_type, parse_pointer_type, parse_slice_type,
    sequence_element_type, call_name, opt_view, package_part, pointer_elem, strip_entry_package,
};
use super::{
    blank_signature, is_type, q, CaptureInfo, Checker, EnumCaseInfo, EnumInfo, ExprType, FunctionContext, FunctionLiteralInfo, LocalBinding, Signature, StructField,
    StructInfo, TaskgroupContext, CallUse, Info, InterfaceInfo, InterfaceMethodInfo, frame_kept, frame_kept_outside_loops,
    loop_control_reported, lemma_loop_control_kept, lemma_loop_controls_kept,
};
use crate::ast::{
    AssignStmt, BinaryExpr, BlockStmt, CompoundAssignStmt, Expression, FunctionDecl, HandleExpr,
    IndexExpr, LetStmt, MatchStmt, PropagateExpr, ReturnStmt, SelectorExpr, SliceExpr, Statement,
    StructLiteralExpr, ArrayLiteralExpr, SliceLiteralExpr, MapLiteralExpr, UnaryExpr, VarStmt, expression_pos,
};
use crate::diag::{extends, DiagnosticView};
use crate::names::{lemma_name_set_bound, name_set, NameMap, NameSet};
use vstd::set_lib::{lemma_len_subset, lemma_subset_equality};
use crate::text::{cat, concat, debug_quoted, lemma_concat_all_four, lemma_concat_all_six, owned, str_eq};
use crate::token::{Kind, Position};

verus! {

/// The names of the cases of an enum.
pub open spec fn case_names(e: EnumInfo) -> Set<Seq<char>> {
    name_set(e.cases@.map_values(|c: EnumCaseInfo| c.name))
}

/// Whether some arm of a match names the case `name`.
pub open spec fn arm_named(stmt: MatchStmt, name: Seq<char>) -> bool {
    exists|a: int| 0 <= a < stmt.arms@.len() && #[trigger] stmt.arms@[a].case_name@ == name
}

/// Whether every case of `e` is named by some arm of the match.
pub open spec fn arms_cover(stmt: MatchStmt, e: EnumInfo) -> bool {
    forall|c: int| 0 <= c < e.cases@.len() ==> arm_named(stmt, #[trigger] e.cases@[c].name@)
}

/// What a match arm needs to know of one case of the matched enum.
struct CaseShape {
    name: String,
    plain: bool,
    payload_type: String,
}

/// Whether `shapes` describes the cases of `e`, one for one and in order.
spec fn shapes_of(shapes: Seq<CaseShape>, e: EnumInfo) -> bool {
    &&& shapes.len() == e.cases@.len()
    &&& forall|i: int|
        0 <= i < shapes.len() ==> {
            &&& #[trigger] shapes[i].name@ == e.cases@[i].name@
            &&& shapes[i].plain == (e.cases@[i].fields@.len() == 0)
            &&& shapes[i].payload_type@ == e.cases@[i].payload_type@
        }
}

/// The `E.Case` list of the cases of `e`, among the first `n`, that no arm of
/// the match names, joined by `, `.
pub open spec fn missing_cases(e: EnumInfo, stmt: MatchStmt, n: int) -> Seq<char>
    decreases n,
{
    if n <= 0 {
        Seq::empty()
    } else {
        let prev = missing_cases(e, stmt, n - 1);
        let name = e.cases@[n - 1].name@;
        if arm_named(stmt, name) {
            prev
        } else if prev.len() == 0 {
            e.name@ + "."@ + name
        } else {
            prev + ", "@ + e.name@ + "."@ + name
        }
    }
}

/// The shape of each case of `e`.
fn case_shapes(e: &EnumInfo) -> (r: Vec<CaseShape>)
    ensures
        shapes_of(r@, *e),
{
    let mut r: Vec<CaseShape> = Vec::new();
    let mut i: usize = 0;
    while i < e.cases.len()
        invariant
            i <= e.cases@.len(),
            r@.len() == i,
            forall|k: int|
                0 <= k < i ==> {
                    &&& #[trigger] r@[k].name@ == e.cases@[k].name@
                    &&& r@[k].plain == (e.cases@[k].fields@.len() == 0)
                    &&& r@[k].payload_type@ == e.cases@[k].payload_type@
                },
        decreases e.cases.len() - i,
    {
        let case = &e.cases[i];
        r.push(
            CaseShape {
                name: case.name.clone(),
                plain: case.fields.len() == 0,
                payload_type: case.payload_type.clone(),
            },
        );
        i = i + 1;
    }
    r
}

/// A set of case names, all of `e`, as large as the number of its cases, holds every case
/// named by the arms.
proof fn lemma_full_coverage(stmt: MatchStmt, e: EnumInfo, seen: Set<Seq<char>>)
    requires
        seen.subset_of(case_names(e)),
        seen.len() == e.cases@.len(),
        forall|n: Seq<char>| #[trigger] seen.contains(n) ==> arm_named(stmt, n),
    ensures
        arms_cover(stmt, e),
{
    let names = e.cases@.map_values(|c: EnumCaseInfo| c.name);
    lemma_name_set_bound(names);
    lemma_len_subset(seen, case_names(e));
    lemma_subset_equality(seen, case_names(e));
    assert forall|c: int| 0 <= c < e.cases@.len() implies arm_named(stmt, #[trigger] e.cases@[c].name@) by {
        assert(names[c]@ == e.cases@[c].name@);
        assert(case_names(e).contains(e.cases@[c].name@));
        assert(seen.contains(e.cases@[c].name@));
    }
}

/// Whether `name` is a local of the function being checked, in any open scope.
pub open spec fn declares_local(c: Checker, name: Seq<char>) -> bool {
    c.in_function && exists|i: int|
        0 <= i < c.current.scopes@.len() && (#[trigger] c.current.scopes@[i])@.contains_key(name)
}

/// Whether an expression calls, by its name, a declared function that can fail,
/// the name being neither a local nor a special builtin.
pub open spec fn errorable_call_statement(c: Checker, e: Expression) -> bool {
    match e {
        Expression::Call(call) => match call.callee {
            Expression::Ident(x) => {
                &&& !declares_local(c, x.name@)
                &&& !super::calls::special_builtin(x.name@)
                &&& c.functions@.contains_key(x.name@)
                &&& c.functions@[x.name@].errorable
            },
            _ => false,
        },
        _ => false,
    }
}

/// Whether a `return` is refused whatever its value's type: inside a taskgroup
/// body, in a `noreturn` function, without a value where one is owed, or
/// returning an error from a function that cannot fail.
pub open spec fn return_refused(c: Checker, stmt: ReturnStmt) -> bool {
    let sig = c.current.signature;
    ||| in_taskgroup_body(c)
    ||| sig.return_type@ == "noreturn"@
    ||| stmt.value is None && sig.return_type@ != "void"@
    ||| stmt.value matches Some(Expression::Error(_)) && !sig.errorable && sig.return_type@ != "error"@
}

/// The only conversions a value undergoes without being asked: `nil` to a
/// pointer type, a value to an interface it is or provides every method of,
/// and an untyped integer constant to `i32` or `i64`.
pub open spec fn implicit_conversion(info: Info, from: ExprType, target: Seq<char>) -> bool {
    ||| from.base@ == "nil"@ && pointer_elem(target) is Some
    ||| info.interfaces@.contains_key(target) && (from.base@ == target || provides_methods(
        info,
        from.base@,
        info.interfaces@[target],
    ))
    ||| from.base@ == "untyped-int"@ && (target == "i32"@ || target == "i64"@)
}

/// The binding of `name` in the innermost of the first `i` scopes that declares it.
pub open spec fn innermost_binding(scopes: Seq<NameMap<LocalBinding>>, i: int, name: Seq<char>) -> Option<
    LocalBinding,
>
    decreases i,
{
    if i <= 0 {
        None
    } else if scopes[i - 1]@.contains_key(name) {
        Some(scopes[i - 1]@[name])
    } else {
        innermost_binding(scopes, i - 1, name)
    }
}

/// Whether `name` is a local that a function literal being checked captures:
/// its innermost binding was declared at a shallower closure depth.
pub open spec fn captured_outer_local(c: Checker, name: Seq<char>) -> bool {
    c.in_function && match innermost_binding(c.current.scopes@, c.current.scopes@.len() as int, name) {
        Some(binding) => binding.closure_depth < c.current.closure_depth,
        None => false,
    }
}

/// The name at the root of an address expression: an identifier, seen through
/// parentheses, field selections and indexing.
pub open spec fn address_root_name(expr: Expression) -> Option<Seq<char>>
    decreases expr,
{
    match expr {
        Expression::Ident(e) => Some(e.name@),
        Expression::Group(e) => address_root_name(e.inner),
        Expression::Selector(e) => address_root_name(e.inner),
        Expression::Index(e) => address_root_name(e.inner),
        _ => None,
    }
}

/// Whether a case of `e` has the payload struct `payload_type`.
pub open spec fn has_payload_case(e: EnumInfo, payload_type: Seq<char>) -> bool {
    exists|k: int| 0 <= k < e.cases@.len() && #[trigger] e.cases@[k].payload_type@ == payload_type
}

/// Whether `expr` calls, by name, a declared function that never returns.
pub open spec fn calls_noreturn(functions: Map<Seq<char>, Signature>, expr: Expression) -> bool
    decreases expr,
{
    match expr {
        Expression::Group(e) => calls_noreturn(functions, e.inner),
        Expression::Call(call) => match call.callee {
            Expression::Ident(x) => functions.contains_key(x.name@) && functions[x.name@].return_type@
                == "noreturn"@,
            _ => false,
        },
        _ => false,
    }
}

/// Whether `stmt` always returns from the function (`leave` false) or always
/// leaves its block (`leave` true, where `break` and `continue` count too).
pub open spec fn stmt_exits(functions: Map<Seq<char>, Signature>, stmt: Statement, leave: bool) -> bool
    decreases stmt, 0int, 0int,
{
    match stmt {
        Statement::Return(_) => true,
        Statement::Break(_) => leave,
        Statement::Continue(_) => leave,
        Statement::Block(block) => block_exits_from(functions, *block, 0, leave),
        Statement::Expr(e) => calls_noreturn(functions, e.expr),
        Statement::If(i) => match i.else_stmt {
            Some(else_stmt) => block_exits_from(functions, i.then_block, 0, leave) && stmt_exits(
                functions,
                else_stmt,
                leave,
            ),
            None => false,
        },
        Statement::Match(m) => (m.arms@.len() > 0 || m.else_body is Some) && arms_exit_from(
            functions,
            *m,
            0,
            leave,
        ),
        _ => false,
    }
}

/// Whether some statement of `block` from the `i`-th on exits (see `stmt_exits`).
pub open spec fn block_exits_from(functions: Map<Seq<char>, Signature>, block: BlockStmt, i: int, leave: bool) -> bool
    decreases block, 1int, block.stmts@.len() - i,
{
    if 0 <= i < block.stmts@.len() {
        proof {
            assert(decreases_to!(block => block.stmts@[i]));
        }
        stmt_exits(functions, block.stmts@[i], leave) || block_exits_from(functions, block, i + 1, leave)
    } else {
        false
    }
}

/// Whether every arm of `m` from the `i`-th on, and its else block, exit (see `stmt_exits`).
pub open spec fn arms_exit_from(functions: Map<Seq<char>, Signature>, m: MatchStmt, i: int, leave: bool) -> bool
    decreases m, 2int, m.arms@.len() - i,
{
    if 0 <= i < m.arms@.len() {
        proof {
            assert(decreases_to!(m => m.arms@[i].body));
        }
        block_exits_from(functions, m.arms@[i].body, 0, leave) && arms_exit_from(functions, m, i + 1, leave)
    } else if i >= m.arms@.len() {
        match m.else_body {
            Some(else_body) => block_exits_from(functions, else_body, 0, leave),
            None => true,
        }
    } else {
        false
    }
}

/// The type of a literal that needs no context: an integer constant is untyped.
pub open spec fn literal_type(expr: Expression) -> Option<Seq<char>> {
    match expr {
        Expression::Int(_) => Some("untyped-int"@),
        Expression::Char(_) => Some("i32"@),
        Expression::String(_) => Some("str"@),
        Expression::Bool(_) => Some("bool"@),
        Expression::Nil(_) => Some("nil"@),
        _ => None,
    }
}

/// Whether the untyped integer expression `expr` fits the integer type `target`.
pub open spec fn untyped_fits(expr: Expression, target: Seq<char>) -> bool {
    match super::types::const_value(expr) {
        Some(v) => super::types::fits(v as int, target),
        None => super::types::operands_fit(expr, target),
    }
}

/// Whether `==` or `!=` may compare values of types `left` and `right`: integers
/// with a common type, or two values of one comparable type (`bool`, `str`,
/// `error`, pointers with `nil`, channels); never enums, and not `nil` with `nil`.
pub open spec fn equality_allowed(info: Info, binary: BinaryExpr, left: Seq<char>, right: Seq<char>) -> bool {
    if super::types::integer_type_spec(left) || super::types::integer_type_spec(right) {
        binary_integer_type(binary.left, left, binary.right, right) is Some
    } else if info.enums@.contains_key(left) || info.enums@.contains_key(right) {
        false
    } else if left == "nil"@ && right == "nil"@ {
        false
    } else if left == "bool"@ || left == "str"@ || left == "error"@ || left == "nil"@ || pointer_elem(left) is Some
        || super::types::chan_elem(left) is Some {
        (left == right && left != "nil"@) || (left == "nil"@ && pointer_elem(right) is Some) || (right == "nil"@
            && pointer_elem(left) is Some)
    } else {
        false
    }
}

/// No literal has a pointer type.
proof fn lemma_literal_not_pointer(expr: Expression)
    requires
        literal_type(expr) is Some,
    ensures
        pointer_elem(literal_type(expr)->0) is None,
{
    reveal_strlit("*");
    reveal_strlit("untyped-int");
    reveal_strlit("i32");
    reveal_strlit("str");
    reveal_strlit("bool");
    reveal_strlit("nil");
    let t = literal_type(expr)->0;
    if t.len() >= 1 && t.subrange(0, 1) == "*"@ {
        assert(t.subrange(0, 1)[0] == t[0]);
    }
}

/// The type of `left op right` for operand types `left` and `right`, or `None`
/// where the operator refuses them.
pub open spec fn binary_result(info: Info, binary: BinaryExpr, left: Seq<char>, right: Seq<char>) -> Option<
    Seq<char>,
> {
    let op = binary.operator;
    if op == Kind::AmpAmp || op == Kind::PipePipe {
        if left == "bool"@ && right == "bool"@ {
            Some("bool"@)
        } else {
            None
        }
    } else if op == Kind::Plus && left == "str"@ && right == "str"@ {
        Some("str"@)
    } else if arithmetic_operator(op) {
        binary_integer_type(binary.left, left, binary.right, right)
    } else if op == Kind::Less || op == Kind::LessEqual || op == Kind::Greater || op == Kind::GreaterEqual {
        if binary_integer_type(binary.left, left, binary.right, right) is Some {
            Some("bool"@)
        } else {
            None
        }
    } else if op == Kind::EqualEqual || op == Kind::BangEqual {
        if equality_allowed(info, binary, left, right) {
            Some("bool"@)
        } else {
            None
        }
    } else {
        None
    }
}

/// The literal types are non-empty, differ from `void` and `noreturn`, and
/// `nil` and `untyped-int` differ from the others.
proof fn lemma_literal_type_names()
    ensures
        "untyped-int"@ != ""@ && "untyped-int"@ != "void"@ && "untyped-int"@ != "noreturn"@,
        "i32"@ != ""@ && "i32"@ != "void"@ && "i32"@ != "noreturn"@,
        "str"@ != ""@ && "str"@ != "void"@ && "str"@ != "noreturn"@,
        "bool"@ != ""@ && "bool"@ != "void"@ && "bool"@ != "noreturn"@,
        "nil"@ != ""@ && "nil"@ != "void"@ && "nil"@ != "noreturn"@,
        "nil"@ != "untyped-int"@ && "nil"@ != "i32"@ && "nil"@ != "str"@ && "nil"@ != "bool"@,
        "untyped-int"@ != "i32"@ && "untyped-int"@ != "str"@ && "untyped-int"@ != "bool"@,
{
    reveal_strlit("");
    reveal_strlit("nil");
    reveal_strlit("untyped-int");
    reveal_strlit("void");
    reveal_strlit("noreturn");
    reveal_strlit("i32");
    reveal_strlit("str");
    reveal_strlit("bool");
    assert(""@.len() == 0 && "void"@.len() == 4 && "noreturn"@.len() == 8 && "untyped-int"@.len() == 11);
    assert("nil"@[0] != "i32"@[0] && "nil"@[0] != "str"@[0] && "nil"@.len() != "bool"@.len());
    assert("void"@[0] != "bool"@[0]);
}

/// Of the literals, only integer and character literals have an integer type.
proof fn lemma_literal_integer(expr: Expression)
    requires
        literal_type(expr) is Some,
    ensures
        super::types::integer_type_spec(literal_type(expr)->0) <==> (expr is Int || expr is Char),
        literal_type(expr)->0 == "untyped-int"@ <==> expr is Int,
{
    reveal_strlit("untyped-int");
    reveal_strlit("i32");
    reveal_strlit("i64");
    reveal_strlit("str");
    reveal_strlit("bool");
    reveal_strlit("nil");
    assert("str"@[0] != "i32"@[0] && "str"@[0] != "i64"@[0] && "str"@[0] != "untyped-int"@[0]);
    assert("bool"@[0] != "i32"@[0] && "bool"@[0] != "i64"@[0] && "bool"@[0] != "untyped-int"@[0]);
    assert("nil"@[0] != "i32"@[0] && "nil"@[0] != "i64"@[0] && "nil"@[0] != "untyped-int"@[0]);
    assert("i32"@.len() != "untyped-int"@.len());
}

/// No literal has an errorable type or the type `error`.
proof fn lemma_literal_not_errorable(expr: Expression)
    requires
        literal_type(expr) is Some,
    ensures
        super::types::errorable_elem(literal_type(expr)->0) is None,
        literal_type(expr)->0 != "error"@,
{
    reveal_strlit("!");
    reveal_strlit("error");
    reveal_strlit("untyped-int");
    reveal_strlit("i32");
    reveal_strlit("str");
    reveal_strlit("bool");
    reveal_strlit("nil");
    let t = literal_type(expr)->0;
    assert(t[0] != '!' && t[0] != 'e');
    assert("error"@[0] == 'e');
    if t.len() >= 1 && t.subrange(0, 1) == "!"@ {
        assert(t.subrange(0, 1)[0] == t[0]);
    }
}

/// No literal has a map, array or slice type.
proof fn lemma_literal_not_container(expr: Expression)
    requires
        literal_type(expr) is Some,
    ensures
        super::types::map_parts(literal_type(expr)->0) is None,
        super::types::sequence_elem(literal_type(expr)->0) is None,
{
    reveal_strlit("[");
    reveal_strlit("[]");
    reveal_strlit("map[");
    reveal_strlit("untyped-int");
    reveal_strlit("i32");
    reveal_strlit("str");
    reveal_strlit("bool");
    reveal_strlit("nil");
    let t = literal_type(expr)->0;
    assert(t[0] != '[' && t[0] != 'm');
    if t.len() >= 1 && t.subrange(0, 1) == "["@ {
        assert(t.subrange(0, 1)[0] == t[0]);
    }
    if t.len() >= 2 && t.subrange(0, 2) == "[]"@ {
        assert(t.subrange(0, 2)[0] == t[0]);
    }
    if t.len() >= 4 && t.subrange(0, 4) == "map["@ {
        assert(t.subrange(0, 4)[0] == t[0]);
    }
}

/// The message for a statement that cannot leave a loop.
fn loop_control_message(keyword: &str, rest: &str) -> (s: String)
    ensures
        s@ == keyword@ + rest@,
{
    concat(keyword, rest)
}

impl Checker {
    /// Checks one function body against its signature.
    pub(crate) fn check_function_body(&mut self, function: &FunctionDecl, signature: Signature)
        ensures
            extends(old(self).diag@, final(self).diag@),
            !final(self).in_function,
            blank_signature(final(self).current.signature),
            final(self).current.scopes@.len() == 0 && final(self).current.taskgroups@.len() == 0,
            final(self).functions@ == old(self).functions@,
            final(self).function_signatures@ == old(self).function_signatures@,
            signature.return_type@ != "void"@ && !block_exits_from(old(self).functions@, function.body, 0, false)
                ==> final(self).diag@.len() > old(self).diag@.len(),
            final(self).info.enums@ == old(self).info.enums@,
            final(self).info.interfaces@ == old(self).info.interfaces@,
            final(self).info.structs@ == old(self).info.structs@,
            final(self).info.functions@ == old(self).info.functions@,
            forall|j: int|
                0 <= j < function.body.stmts@.len() ==> loop_control_reported(
                    #[trigger] function.body.stmts@[j],
                    old(self).diag@.len() as int,
                    final(self).diag@,
                ),
    {
        let ghost d0 = self.diag@;
        let mut scope: NameMap<LocalBinding> = NameMap::new();
        let mut param_index: usize = 0;
        match &function.receiver {
            Some(receiver) => {
                if signature.params.len() > 0 {
                    scope.insert(
                        receiver.name.clone(),
                        LocalBinding { type_: signature.params[0].clone(), closure_depth: 0 },
                    );
                }
                param_index = 1;
            },
            None => {},
        }
        let mut idx: usize = 0;
        while idx < function.params.len()
            invariant
                idx <= function.params@.len(),
                param_index <= 1,
            decreases function.params.len() - idx,
        {
            let slot = idx + param_index;
            if slot < signature.params.len() {
                scope.insert(
                    function.params[idx].name.clone(),
                    LocalBinding { type_: signature.params[slot].clone(), closure_depth: 0 },
                );
            }
            idx = idx + 1;
        }
        let returns_void = is_type(&signature.return_type, "void");
        let returns_noreturn = is_type(&signature.return_type, "noreturn");
        let mut scopes: Vec<NameMap<LocalBinding>> = Vec::new();
        scopes.push(scope);
        self.current = FunctionContext {
            signature,
            literal_keys: Vec::new(),
            scopes,
            loop_depth: 0,
            closure_depth: 0,
            taskgroups: Vec::new(),
        };
        self.in_function = true;
        let ghost d_block = self.diag@;
        self.check_block(&function.body);
        let ghost d_after_block = self.diag@;
        if !returns_void && !self.block_definitely_returns(&function.body) {
            if returns_noreturn {
                self.diag.add(
                    function.name_pos.duplicate(),
                    cat(vec!["function ", q(function.name.as_str()).as_str(), " must not fall through"]),
                );
            } else {
                self.diag.add(
                    function.name_pos.duplicate(),
                    cat(
                        vec![
                            "function ",
                            q(function.name.as_str()).as_str(),
                            " must return a value on all paths",
                        ],
                    ),
                );
            }
        }
        self.in_function = false;
        self.current = super::empty_context();
        proof {
            assert forall|j: int| 0 <= j < function.body.stmts@.len() implies loop_control_reported(
                #[trigger] function.body.stmts@[j],
                d0.len() as int,
                self.diag@,
            ) by {
                lemma_loop_control_kept(
                    function.body.stmts@[j],
                    d0.len() as int,
                    d_block.len() as int,
                    d_after_block,
                    self.diag@,
                );
            }
        }
    }

    /// Checks a block in a scope of its own.
    pub(crate) fn check_block(&mut self, block: &BlockStmt)
        ensures
            frame_kept(*old(self), *final(self)),
            extends(old(self).diag@, final(self).diag@),
            final(self).diag@.len() == old(self).diag@.len() ==> forall|i: int|
                0 <= i < block.stmts@.len() ==> matches_cover_some_enum(#[trigger] block.stmts@[i], old(self).info),
            old(self).in_function && old(self).current.loop_depth == 0 ==> forall|j: int|
                0 <= j < block.stmts@.len() ==> loop_control_reported(
                    #[trigger] block.stmts@[j],
                    old(self).diag@.len() as int,
                    final(self).diag@,
                ),
        decreases block, 1int,
    {
        self.push_scope();
        self.check_block_in_current_scope(block);
        self.pop_scope();
    }

    /// Checks the statements of a block in the current scope.
    pub(crate) fn check_block_in_current_scope(&mut self, block: &BlockStmt)
        ensures
            frame_kept(*old(self), *final(self)),
            extends(old(self).diag@, final(self).diag@),
            final(self).diag@.len() == old(self).diag@.len() ==> forall|i: int|
                0 <= i < block.stmts@.len() ==> matches_cover_some_enum(#[trigger] block.stmts@[i], old(self).info),
            old(self).in_function && old(self).current.loop_depth == 0 ==> forall|j: int|
                0 <= j < block.stmts@.len() ==> loop_control_reported(
                    #[trigger] block.stmts@[j],
                    old(self).diag@.len() as int,
                    final(self).diag@,
                ),
        decreases block, 0int,
    {
        let ghost d0 = self.diag@;
        let mut i: usize = 0;
        while i < block.stmts.len()
            invariant
                frame_kept(*old(self), *self),
                i <= block.stmts@.len(),
                extends(d0, self.diag@),
                d0 == old(self).diag@,
                self.diag@.len() == d0.len() ==> forall|j: int|
                    0 <= j < i ==> matches_cover_some_enum(#[trigger] block.stmts@[j], old(self).info),
                old(self).in_function && old(self).current.loop_depth == 0 ==> forall|j: int|
                    0 <= j < i ==> loop_control_reported(#[trigger] block.stmts@[j], d0.len() as int, self.diag@),
            decreases block.stmts.len() - i,
        {
            assert(decreases_to!(block => block.stmts@[i as int]));
            let ghost before = self.diag@;
            self.check_statement(&block.stmts[i]);
            proof {
                if old(self).in_function && old(self).current.loop_depth == 0 {
                    lemma_loop_controls_kept(block.stmts@, i as int, d0.len() as int, before, self.diag@);
                    lemma_loop_control_kept(block.stmts@[i as int], d0.len() as int, before.len() as int, self.diag@, self.diag@);
                }
            }
            i = i + 1;
        }
    }

    /// Checks one statement.
    pub(crate) fn check_statement(&mut self, stmt: &Statement)
        ensures
            frame_kept(*old(self), *final(self)),
            extends(old(self).diag@, final(self).diag@),
            stmt is Break || stmt is Continue ==> (!old(self).in_function || old(self).current.loop_depth == 0
                ==> final(self).diag@.len() == old(self).diag@.len() + 1),
            stmt matches Statement::Return(r) ==> (old(self).in_function && return_refused(*old(self), **r)
                ==> final(self).diag@.len() > old(self).diag@.len()),
            stmt matches Statement::Match(m) ==> (m.else_body is None && final(self).diag@.len()
                == old(self).diag@.len() ==> exists|k: Seq<char>|
                #![trigger old(self).info.enums@[k]]
                old(self).info.enums@.contains_key(k) && arms_cover(**m, old(self).info.enums@[k])),
            old(self).in_function && old(self).current.loop_depth == 0 ==> loop_control_reported(
                *stmt,
                old(self).diag@.len() as int,
                final(self).diag@,
            ),
            stmt matches Statement::Expr(s) ==> (errorable_call_statement(*old(self), s.expr) ==> exists|k: int|
                old(self).diag@.len() <= k < final(self).diag@.len() && #[trigger] final(self).diag@[k] == (
                DiagnosticView {
                    pos: crate::ast::expression_pos(s.expr),
                    message: "errorable value cannot be used as a statement"@,
                })),
        decreases stmt, 1int,
    {
        let ghost d_in = self.diag@;
        match stmt {
            Statement::Block(block) => self.check_block(block),
            Statement::Let(s) => self.check_let(s),
            Statement::Var(s) => self.check_var(s),
            Statement::Assign(s) => self.check_assign(s),
            Statement::CompoundAssign(s) => self.check_compound_assign(s),
            Statement::If(s) => {
                self.check_condition(&s.cond, "if condition must be bool", "if condition cannot be errorable");
                self.check_block(&s.then_block);
                match &s.else_stmt {
                    Some(else_stmt) => self.check_statement(else_stmt),
                    None => {},
                }
            },
            Statement::For(s) => {
                self.push_scope();
                match &s.init {
                    Some(init) => self.check_statement(init),
                    None => {},
                }
                match &s.cond {
                    Some(cond) => self.check_condition(
                        cond,
                        "for condition must be bool",
                        "for condition cannot be errorable",
                    ),
                    None => {},
                }
                match &s.post {
                    Some(post) => self.check_statement(post),
                    None => {},
                }
                let entered = self.enter_loop();
                self.check_block(&s.body);
                self.exit_loop(entered);
                self.pop_scope();
            },
            Statement::Break(s) => {
                self.check_loop_control(&s.break_pos, "break");
                proof {
                    if old(self).in_function && old(self).current.loop_depth == 0 {
                        assert(self.diag@[d_in.len() as int] == (DiagnosticView {
                            pos: s.break_pos@,
                            message: "break"@ + " can only be used inside a loop"@,
                        }));
                    }
                }
            },
            Statement::Continue(s) => {
                self.check_loop_control(&s.continue_pos, "continue");
                proof {
                    if old(self).in_function && old(self).current.loop_depth == 0 {
                        assert(self.diag@[d_in.len() as int] == (DiagnosticView {
                            pos: s.continue_pos@,
                            message: "continue"@ + " can only be used inside a loop"@,
                        }));
                    }
                }
            },
            Statement::Return(s) => self.check_return(s),
            Statement::Match(s) => self.check_match(s),
            Statement::Expr(s) => {
                let expr_type = self.check_expression(&s.expr);
                let ghost d_mid = self.diag@;
                if expr_type.errorable {
                    self.diag.add(s.expr.pos(), owned("errorable value cannot be used as a statement"));
                }
                proof {
                    if errorable_call_statement(*old(self), s.expr) {
                        assert(expr_type.errorable);
                        assert(self.diag@[d_mid.len() as int].message == "errorable value cannot be used as a statement"@);
                    }
                }
                if is_type(&expr_type.base, "noreturn") && self.current_taskgroup().is_some() {
                    self.diag.add(
                        s.expr.pos(),
                        owned(
                            "noreturn expression cannot be used inside a taskgroup body because it would skip the taskgroup join",
                        ),
                    );
                }
                proof {
                    if errorable_call_statement(*old(self), s.expr) {
                        assert(self.diag@[d_mid.len() as int] == (DiagnosticView {
                            pos: crate::ast::expression_pos(s.expr),
                            message: "errorable value cannot be used as a statement"@,
                        }));
                    }
                }
            },
            Statement::Spawn(s) => self.check_spawn(s),
        }
    }

    /// Checks `break` or `continue`: it must stand in a loop, and may not leave a
    /// taskgroup body.
    pub(crate) fn check_loop_control(&mut self, pos: &Position, keyword: &str)
        ensures
            frame_kept(*old(self), *final(self)),
            extends(old(self).diag@, final(self).diag@),
            !old(self).in_function || old(self).current.loop_depth == 0 ==> final(self).diag@
                == old(self).diag@.push(
                crate::diag::DiagnosticView {
                    pos: pos@,
                    message: keyword@ + " can only be used inside a loop"@,
                },
            ),
    {
        if !self.in_function || self.current.loop_depth == 0 {
            self.diag.add(pos.duplicate(), loop_control_message(keyword, " can only be used inside a loop"));
            return;
        }
        match self.current_taskgroup() {
            Some(group) => {
                if self.current.loop_depth == group.loop_depth {
                    self.diag.add(pos.duplicate(), loop_control_message(keyword, " cannot exit a taskgroup body"));
                }
            },
            None => {},
        }
    }

    fn check_let(&mut self, stmt: &LetStmt)
        ensures
            frame_kept(*old(self), *final(self)),
            extends(old(self).diag@, final(self).diag@),
            literal_type(stmt.value) == Some("nil"@) ==> final(self).diag@.len() == old(self).diag@.len() + 1,
            old(self).in_function && old(self).current.scopes@.len() > 0 && literal_type(stmt.value) is Some
                && literal_type(stmt.value)->0 != "nil"@ && literal_type(stmt.value)->0 != "untyped-int"@
                ==> if old(self).current.scopes@.last()@.contains_key(
                stmt.name@,
            ) {
                final(self).diag@.len() == old(self).diag@.len() + 1
            } else {
                &&& final(self).diag@ == old(self).diag@
                &&& final(self).current.scopes@.len() == old(self).current.scopes@.len()
                &&& final(self).current.scopes@.last()@.contains_key(stmt.name@)
                &&& final(self).current.scopes@.last()@[stmt.name@].type_@ == literal_type(stmt.value)->0
                &&& final(self).current.scopes@.last()@[stmt.name@].closure_depth == old(self).current.closure_depth
                &&& final(self).current.scopes@.last()@.remove(stmt.name@) == old(self).current.scopes@.last()@
            },
        decreases stmt, 1int,
    {
        proof {
            lemma_literal_type_names();
        }
        let value = self.check_expression(&stmt.value);
        let mut value = self.require_non_errorable_value(
            &stmt.value,
            value,
            owned("errorable value cannot be bound to a local"),
        );
        if is_type(&value.base, "") {
            return;
        }
        if is_type(&value.base, "nil") {
            self.diag.add(stmt.value.pos(), owned("cannot infer type from nil without a pointer context"));
            return;
        }
        if is_type(&value.base, "untyped-int") {
            let default_type = self.default_untyped_integer_type(&stmt.value);
            if is_type(&default_type, "") {
                self.diag.add(stmt.value.pos(), owned("integer literal does not fit a supported integer type"));
                return;
            }
            value = self.coerce_untyped_integer(&stmt.value, value, default_type.as_str());
        }
        if self.scope_owns(stmt.name.as_str()) {
            self.diag.add(
                stmt.name_pos.duplicate(),
                cat(vec!["local ", q(stmt.name.as_str()).as_str(), " is already declared in this scope"]),
            );
            return;
        }
        self.bind_local(stmt.name.as_str(), value.base);
    }

    fn check_var(&mut self, stmt: &VarStmt)
        ensures
            frame_kept(*old(self), *final(self)),
            extends(old(self).diag@, final(self).diag@),
            old(self).in_function && old(self).current.scopes@.len() > 0
                && old(self).current.scopes@.last()@.contains_key(stmt.name@) ==> final(self).diag@.len()
                > old(self).diag@.len(),
        decreases stmt, 1int,
    {
        let declared_type = self.resolve_type_ref(&stmt.type_ref);
        if is_type(&declared_type, "void") || is_type(&declared_type, "noreturn") || is_type(&declared_type, "") {
            self.diag.add(
                stmt.type_ref.pos.duplicate(),
                cat(
                    vec![
                        "local ",
                        q(stmt.name.as_str()).as_str(),
                        " cannot use type ",
                        q(stmt.type_ref.display().as_str()).as_str(),
                    ],
                ),
            );
            return;
        }
        if self.scope_owns(stmt.name.as_str()) {
            self.diag.add(
                stmt.name_pos.duplicate(),
                cat(vec!["local ", q(stmt.name.as_str()).as_str(), " is already declared in this scope"]),
            );
            return;
        }
        match &stmt.value {
            Some(value_expr) => {
                let value = self.check_expression(value_expr);
                let value = self.require_non_errorable_value(
                    value_expr,
                    value,
                    owned("errorable value cannot be bound to a local"),
                );
                if is_type(&value.base, "") {
                    return;
                }
                let value = self.coerce_value(value_expr, value, declared_type.as_str());
                if is_type(&value.base, "") {
                    return;
                }
                if !str_eq(value.base.as_str(), declared_type.as_str()) {
                    self.add_cannot_assign(value_expr.pos(), value.base.as_str(), declared_type.as_str());
                    return;
                }
            },
            None => {},
        }
        self.bind_local(stmt.name.as_str(), declared_type);
    }

    /// Reports `cannot assign <value> to <target>`.
    pub(crate) fn add_cannot_assign(&mut self, pos: Position, value: &str, target: &str)
        ensures
            frame_kept(*old(self), *final(self)),
            final(self).diag@.len() == old(self).diag@.len() + 1,
            extends(old(self).diag@, final(self).diag@),
    {
        self.diag.add(
            pos,
            cat(
                vec![
                    "cannot assign ",
                    diagnostic_type_name(value).as_str(),
                    " to ",
                    diagnostic_type_name(target).as_str(),
                ],
            ),
        );
    }

    fn check_assign(&mut self, stmt: &AssignStmt)
        ensures
            frame_kept(*old(self), *final(self)),
            extends(old(self).diag@, final(self).diag@),
            stmt.target matches Expression::Ident(e) ==> (captured_outer_local(*old(self), e.name@)
                ==> final(self).diag@ == old(self).diag@.push(
                DiagnosticView {
                    pos: e.name_pos@,
                    message: "cannot assign to captured outer local "@ + debug_quoted(e.name@),
                },
            )),
        decreases stmt, 1int,
    {
        match self.check_map_assignment_target(&stmt.target) {
            Some(map_value_type) => {
                if is_type(&map_value_type, "") {
                    return;
                }
                let value = self.check_expression(&stmt.value);
                let value = self.require_non_errorable_value(
                    &stmt.value,
                    value,
                    owned("errorable value cannot be assigned directly"),
                );
                if is_type(&value.base, "") {
                    return;
                }
                let value = self.coerce_value(&stmt.value, value, map_value_type.as_str());
                if is_type(&value.base, "") {
                    return;
                }
                if !str_eq(value.base.as_str(), map_value_type.as_str()) {
                    self.add_cannot_assign(stmt.value.pos(), value.base.as_str(), map_value_type.as_str());
                }
                return;
            },
            None => {},
        }
        let target_type = self.check_assignment_target(&stmt.target);
        proof {
            reveal_strlit("");
            if target_type@.len() == 0 {
                assert(target_type@ =~= ""@);
            }
        }
        if is_type(&target_type, "") {
            return;
        }
        let value = self.check_expression(&stmt.value);
        let value = self.require_non_errorable_value(
            &stmt.value,
            value,
            owned("errorable value cannot be assigned directly"),
        );
        if is_type(&value.base, "") {
            return;
        }
        let value = self.coerce_value(&stmt.value, value, target_type.as_str());
        if is_type(&value.base, "") {
            return;
        }
        if !str_eq(value.base.as_str(), target_type.as_str()) {
            self.add_cannot_assign(stmt.value.pos(), value.base.as_str(), target_type.as_str());
        }
    }

    fn check_compound_assign(&mut self, stmt: &CompoundAssignStmt)
        ensures
            frame_kept(*old(self), *final(self)),
            extends(old(self).diag@, final(self).diag@),
            stmt.target matches Expression::Ident(e) ==> (captured_outer_local(*old(self), e.name@)
                ==> final(self).diag@ == old(self).diag@.push(
                DiagnosticView {
                    pos: e.name_pos@,
                    message: "cannot assign to captured outer local "@ + debug_quoted(e.name@),
                },
            )),
        decreases stmt, 1int,
    {
        if self.check_map_assignment_target(&stmt.target).is_some() {
            self.diag.add(
                stmt.op_pos.duplicate(),
                owned("map compound assignment is not supported; use an explicit lookup and assignment"),
            );
            return;
        }
        let target_type = self.check_assignment_target(&stmt.target);
        proof {
            reveal_strlit("");
            if target_type@.len() == 0 {
                assert(target_type@ =~= ""@);
            }
        }
        if is_type(&target_type, "") {
            return;
        }
        let value = self.check_expression(&stmt.value);
        let value = self.require_non_errorable_value(
            &stmt.value,
            value,
            owned("compound assignment cannot use an errorable value"),
        );
        if is_type(&value.base, "") {
            return;
        }
        let value = self.coerce_value(&stmt.value, value, target_type.as_str());
        let plus = stmt.operator == Kind::Plus;
        let valid = if plus && is_type(&target_type, "str") {
            is_type(&value.base, "str")
        } else {
            is_integer_type(target_type.as_str()) && str_eq(value.base.as_str(), target_type.as_str())
        };
        if !valid {
            if plus {
                self.diag.add(stmt.op_pos.duplicate(), owned("'+=' requires matching integer or str operands"));
            } else {
                self.diag.add(
                    stmt.op_pos.duplicate(),
                    owned("compound arithmetic operators require matching integer operands"),
                );
            }
        }
    }

    fn check_return(&mut self, stmt: &ReturnStmt)
        ensures
            frame_kept(*old(self), *final(self)),
            extends(old(self).diag@, final(self).diag@),
            old(self).in_function && return_refused(*old(self), *stmt) ==> final(self).diag@.len()
                > old(self).diag@.len(),
            old(self).in_function && stmt.value is None && old(self).current.signature.return_type@
                == "void"@ && !in_taskgroup_body(*old(self)) ==> final(self).diag@ == old(self).diag@,
        decreases stmt, 1int,
    {
        if !self.in_function {
            return;
        }
        proof {
            reveal_strlit("void");
            reveal_strlit("noreturn");
            assert("void"@.len() != "noreturn"@.len());
        }
        let signature = self.current.signature.duplicate();
        if self.current_taskgroup().is_some() {
            self.diag.add(stmt.return_pos.duplicate(), owned("return is not allowed inside a taskgroup body"));
        }
        if is_type(&signature.return_type, "noreturn") {
            self.diag.add(stmt.return_pos.duplicate(), owned("noreturn functions cannot return"));
            return;
        }
        let value_expr = match &stmt.value {
            Some(v) => v,
            None => {
                if is_type(&signature.return_type, "void") {
                    return;
                }
                self.diag.add(stmt.return_pos.duplicate(), owned("return value is required"));
                return;
            },
        };
        match value_expr {
            Expression::Error(error) => {
                self.record_error(error.name.as_str());
                if !signature.errorable && !is_type(&signature.return_type, "error") {
                    self.diag.add(
                        value_expr.pos(),
                        cat(
                            vec![
                                "cannot return error.",
                                error.name.as_str(),
                                " from function returning ",
                                signature.return_type.as_str(),
                            ],
                        ),
                    );
                }
                return;
            },
            _ => {},
        }
        let value = self.check_expression(value_expr);
        if is_type(&value.base, "") {
            return;
        }
        if value.errorable {
            if signature.errorable && str_eq(value.base.as_str(), signature.return_type.as_str()) {
                return;
            }
            self.diag.add(value_expr.pos(), owned("return cannot use an errorable value directly"));
            return;
        }
        if is_type(&value.base, "noreturn") || is_type(&value.base, "void") {
            self.diag.add(value_expr.pos(), owned("return requires a value"));
            return;
        }
        let value = self.coerce_value(value_expr, value, signature.return_type.as_str());
        if !str_eq(value.base.as_str(), signature.return_type.as_str()) {
            self.diag.add(
                value_expr.pos(),
                cat(
                    vec![
                        "cannot return ",
                        diagnostic_type_name(value.base.as_str()).as_str(),
                        " from function returning ",
                        diagnostic_type_name(signature.return_type.as_str()).as_str(),
                    ],
                ),
            );
        }
    }

    fn check_match(&mut self, stmt: &MatchStmt)
        ensures
            frame_kept(*old(self), *final(self)),
            extends(old(self).diag@, final(self).diag@),
            stmt.else_body is None && final(self).diag@.len() == old(self).diag@.len() ==> exists|
                k: Seq<char>,
            |
                #![trigger old(self).info.enums@[k]]
                old(self).info.enums@.contains_key(k) && arms_cover(*stmt, old(self).info.enums@[k]),
            stmt.else_body is None ==> match super::calls::local_type_of(*old(self), stmt.value) {
                Some(k) => old(self).info.enums@.contains_key(k) && !arms_cover(*stmt, old(self).info.enums@[k])
                    ==> final(self).diag@.len() > old(self).diag@.len() && final(self).diag@.last() == (
                DiagnosticView {
                    pos: stmt.match_pos@,
                    message: "match on "@ + debug_quoted(old(self).info.enums@[k].name@)
                        + " is not exhaustive; missing "@ + missing_cases(
                        old(self).info.enums@[k],
                        *stmt,
                        old(self).info.enums@[k].cases@.len() as int,
                    ),
                }),
                None => true,
            },
        decreases stmt, 1int,
    {
        let ghost d0 = self.diag@;
        let value = self.check_expression(&stmt.value);
        if value.errorable {
            self.diag.add(stmt.value.pos(), owned("match value cannot be errorable"));
            return;
        }
        let (enum_name, cases) = match self.info.enums.get(value.base.as_str()) {
            Some(e) => (e.name.clone(), case_shapes(e)),
            None => {
                self.diag.add(stmt.value.pos(), owned("match requires an enum value"));
                return;
            },
        };
        let ghost key = value.base@;
        let ghost matched = self.info.enums@[key];
        let mut seen = NameSet::new();
        let mut a: usize = 0;
        while a < stmt.arms.len()
            invariant
                frame_kept(*old(self), *self),
                a <= stmt.arms@.len(),
                extends(d0, self.diag@),
                old(self).info.enums@.contains_key(key),
                old(self).info.enums@[key] == matched,
                shapes_of(cases@, matched),
                seen@.subset_of(case_names(matched)),
                forall|n: Seq<char>| #[trigger] seen@.contains(n) ==> arm_named(*stmt, n),
                forall|j: int|
                    0 <= j < a && case_names(matched).contains(#[trigger] stmt.arms@[j].case_name@)
                        ==> seen@.contains(stmt.arms@[j].case_name@),
                enum_name@ == matched.name@,
            decreases stmt.arms.len() - a,
        {
            let arm = &stmt.arms[a];
            assert(decreases_to!(stmt => stmt.arms@[a as int].body));
            let ghost arm_index = a as int;
            a = a + 1;
            let arm_enum = self.resolve_type_ref(&arm.enum_type);
            if !str_eq(arm_enum.as_str(), value.base.as_str()) {
                self.diag.add(
                    arm.enum_type.pos.duplicate(),
                    cat(vec!["match arm must use enum ", q(enum_name.as_str()).as_str()]),
                );
            }
            let mut found: Option<usize> = None;
            let mut c: usize = 0;
            while c < cases.len()
                invariant
                    c <= cases@.len(),
                    found matches Some(ci) ==> ci < cases@.len() && cases@[ci as int].name@
                        == arm.case_name@,
                    found is None ==> forall|d: int| 0 <= d < c ==> #[trigger] cases@[d].name@ != arm.case_name@,
                ensures
                    found matches Some(ci) ==> ci < cases@.len() && cases@[ci as int].name@
                        == arm.case_name@,
                    found is None ==> forall|d: int|
                        0 <= d < cases@.len() ==> #[trigger] cases@[d].name@ != arm.case_name@,
                decreases cases.len() - c,
            {
                if str_eq(cases[c].name.as_str(), arm.case_name.as_str()) {
                    found = Some(c);
                    break;
                }
                c = c + 1;
            }
            let case_index = match found {
                Some(ci) => ci,
                None => {
                    proof {
                        if case_names(matched).contains(arm.case_name@) {
                            let names = matched.cases@.map_values(|k: EnumCaseInfo| k.name);
                            let i = choose|i: int| 0 <= i < names.len() && #[trigger] names[i]@ == arm.case_name@;
                            assert(cases@[i].name@ == matched.cases@[i].name@);
                        }
                    }
                    self.diag.add(
                        arm.case_name_pos.duplicate(),
                        cat(
                            vec![
                                "enum ",
                                q(enum_name.as_str()).as_str(),
                                " has no case ",
                                q(arm.case_name.as_str()).as_str(),
                            ],
                        ),
                    );
                    self.check_block(&arm.body);
                    continue;
                },
            };
            let enum_case = &cases[case_index];
            proof {
                assert(stmt.arms@[arm_index].case_name@ == enum_case.name@);
                assert(arm_named(*stmt, enum_case.name@));
                assert(case_names(matched).contains(enum_case.name@)) by {
                    let names = matched.cases@.map_values(|k: EnumCaseInfo| k.name);
                    assert(names[case_index as int]@ == enum_case.name@);
                }
            }
            if !seen.insert(enum_case.name.clone()) {
                self.diag.add(
                    arm.case_name_pos.duplicate(),
                    cat(vec!["duplicate match arm for ", q(enum_case.name.as_str()).as_str()]),
                );
            }
            let no_bind = is_type(&arm.bind_name, "");
            if enum_case.plain && (!no_bind || arm.bind_ignore) {
                self.diag.add(
                    arm.bind_name_pos.duplicate(),
                    cat(vec!["plain enum case ", q(enum_case.name.as_str()).as_str(), " cannot bind a payload"]),
                );
                self.check_block(&arm.body);
            } else if !enum_case.plain && !no_bind && !arm.bind_ignore {
                self.push_scope();
                self.bind_local(arm.bind_name.as_str(), enum_case.payload_type.clone());
                self.check_block_in_current_scope(&arm.body);
                self.pop_scope();
            } else {
                self.check_block(&arm.body);
            }
        }
        match &stmt.else_body {
            Some(else_body) => {
                self.check_block(else_body);
                return;
            },
            None => {},
        }
        if seen.len() == cases.len() {
            proof {
                lemma_full_coverage(*stmt, matched, seen@);
            }
            return;
        }
        proof {
            reveal_strlit("");
            assert forall|n: Seq<char>| case_names(matched).contains(n) implies (seen@.contains(n) <==> arm_named(
                *stmt,
                n,
            )) by {
                if arm_named(*stmt, n) {
                    let j = choose|j: int| 0 <= j < stmt.arms@.len() && #[trigger] stmt.arms@[j].case_name@ == n;
                    assert(case_names(matched).contains(stmt.arms@[j].case_name@));
                }
            }
        }
        let mut missing = String::new();
        let mut c: usize = 0;
        while c < cases.len()
            invariant
                c <= cases@.len(),
                shapes_of(cases@, matched),
                enum_name@ == matched.name@,
                forall|n: Seq<char>| case_names(matched).contains(n) ==> (seen@.contains(n) <==> arm_named(*stmt, n)),
                missing@ == missing_cases(matched, *stmt, c as int),
            decreases cases.len() - c,
        {
            let case_name = cases[c].name.as_str();
            proof {
                let names = matched.cases@.map_values(|k: EnumCaseInfo| k.name);
                assert(names[c as int]@ == case_name@);
                assert(case_names(matched).contains(case_name@));
                assert(matched.cases@[c as int].name@ == case_name@);
                reveal_strlit("");
                if missing@.len() == 0 {
                    assert(missing@ =~= ""@);
                }
            }
            if !seen.contains(case_name) {
                if !is_type(&missing, "") {
                    missing.append(", ");
                }
                missing.append(enum_name.as_str());
                missing.append(".");
                missing.append(case_name);
            }
            c = c + 1;
        }
        let quoted = q(enum_name.as_str());
        let parts = vec!["match on ", quoted.as_str(), " is not exhaustive; missing ", missing.as_str()];
        proof {
            lemma_concat_all_four(parts@);
        }
        self.diag.add(stmt.match_pos.duplicate(), cat(parts));
    }

    /// Checks a condition: it must be a plain `bool`.
    pub(crate) fn check_condition(&mut self, expr: &Expression, type_message: &str, error_message: &str)
        ensures
            frame_kept(*old(self), *final(self)),
            extends(old(self).diag@, final(self).diag@),
            literal_type(*expr) == Some("bool"@) ==> final(self).diag@ == old(self).diag@,
            literal_type(*expr) is Some && literal_type(*expr) != Some("bool"@) ==> final(self).diag@
                == old(self).diag@.push(DiagnosticView { pos: expression_pos(*expr), message: type_message@ }),
        decreases expr, 3int,
    {
        let cond = self.check_expression(expr);
        if cond.errorable {
            self.diag.add(expr.pos(), owned(error_message));
        }
        if !is_type(&cond.base, "bool") {
            self.diag.add(expr.pos(), owned(type_message));
        }
    }

    /// Checks an expression and answers its type.
    pub(crate) fn check_expression(&mut self, expr: &Expression) -> (t: ExprType)
        ensures
            frame_kept(*old(self), *final(self)),
            extends(old(self).diag@, final(self).diag@),
            literal_type(*expr) is Some ==> t.base@ == literal_type(*expr)->0 && !t.errorable
                && final(self).diag@ == old(self).diag@ && *final(self) == *old(self),
            expr matches Expression::Ident(e) ==> match innermost_binding(
                old(self).current.scopes@,
                old(self).current.scopes@.len() as int,
                e.name@,
            ) {
                Some(binding) => old(self).in_function ==> t.base@ == binding.type_@ && !t.errorable
                    && final(self).diag@ == old(self).diag@,
                None => t.base@.len() == 0 && final(self).diag@ == old(self).diag@.push(
                    DiagnosticView { pos: e.name_pos@, message: "unknown local "@ + debug_quoted(e.name@) },
                ),
            },
            expr matches Expression::Ident(e) ==> (!old(self).in_function ==> t.base@.len() == 0
                && final(self).diag@ == old(self).diag@.push(
                DiagnosticView { pos: e.name_pos@, message: "unknown local "@ + debug_quoted(e.name@) },
            )),
            expr is Ident ==> final(self).current == old(self).current,
            expr matches Expression::Call(c) ==> (c.callee matches Expression::Ident(x) ==> (!declares_local(
                *old(self),
                x.name@,
            ) && !super::calls::special_builtin(x.name@) ==> super::calls::named_call_outcome(
                *old(self),
                *final(self),
                x.name@,
                x.name_pos@,
                t,
            ))),
            expr matches Expression::Propagate(p) ==> (in_taskgroup_body(*old(self)) ==> final(self).diag@.len() > 0
                && final(self).diag@.last() == (DiagnosticView {
                pos: p.question_pos@,
                message: "? is not allowed inside a taskgroup body because it could skip the taskgroup join"@,
            })),
        decreases expr, 2int,
    {
        proof {
            reveal_strlit("untyped-int");
            reveal_strlit("i32");
            reveal_strlit("str");
            reveal_strlit("bool");
            reveal_strlit("nil");
        }
        match expr {
            Expression::Ident(e) => match self.lookup_local(e.name.as_str()) {
                Some(binding) => {
                    if self.is_captured_local(e.name.as_str()) {
                        self.record_capture(e.name.as_str(), binding.type_.as_str(), binding.closure_depth);
                    }
                    ExprType::plain(binding.type_)
                },
                None => {
                    let quoted = q(e.name.as_str());
                    let parts = vec!["unknown local ", quoted.as_str()];
                    proof {
                        crate::text::lemma_concat_all_pair(parts@);
                    }
                    self.diag.add(e.name_pos.duplicate(), cat(parts));
                    ExprType::invalid()
                },
            },
            Expression::Int(_) => ExprType::plain_str("untyped-int"),
            Expression::Char(_) => ExprType::plain_str("i32"),
            Expression::String(_) => ExprType::plain_str("str"),
            Expression::Bool(_) => ExprType::plain_str("bool"),
            Expression::Nil(_) => ExprType::plain_str("nil"),
            Expression::Error(e) => {
                self.record_error(e.name.as_str());
                ExprType::plain_str("error")
            },
            Expression::Group(e) => self.check_expression(&e.inner),
            Expression::Unary(e) => self.check_unary(e),
            Expression::Binary(e) => self.check_binary(e),
            Expression::Selector(e) => self.check_selector(e),
            Expression::Index(e) => self.check_index(e),
            Expression::Slice(e) => self.check_slice_expr(e),
            Expression::StructLiteral(e) => self.check_struct_literal(e),
            Expression::ArrayLiteral(e) => self.check_array_literal(e),
            Expression::SliceLiteral(e) => self.check_slice_literal(e),
            Expression::MapLiteral(e) => self.check_map_literal(e),
            Expression::Call(e) => self.check_call(e, CallUse::Ordinary),
            Expression::Propagate(e) => self.check_propagate(e),
            Expression::Handle(e) => self.check_handle(e),
            Expression::FunctionLiteral(e) => self.check_function_literal(e),
            Expression::Taskgroup(e) => self.check_taskgroup(e),
            Expression::TypeApplication(e) => {
                self.diag.add(
                    e.lbracket_pos.duplicate(),
                    owned("type arguments are not valid in expression position"),
                );
                ExprType::invalid()
            },
            Expression::Missing(pos) => {
                self.diag.add(pos.duplicate(), owned("missing expression"));
                ExprType::invalid()
            },
        }
    }

    fn check_propagate(&mut self, expr: &PropagateExpr) -> (t: ExprType)
        ensures
            in_taskgroup_body(*old(self)) ==> final(self).diag@.len() > 0 && final(self).diag@.last() == (
            crate::diag::DiagnosticView {
                pos: expr.question_pos@,
                message: "? is not allowed inside a taskgroup body because it could skip the taskgroup join"@,
            }),
            frame_kept(*old(self), *final(self)),
            extends(old(self).diag@, final(self).diag@),
        decreases expr, 1int,
    {
        let inner = self.check_expression(&expr.inner);
        if self.current_taskgroup().is_some() {
            self.diag.add(
                expr.question_pos.duplicate(),
                owned("? is not allowed inside a taskgroup body because it could skip the taskgroup join"),
            );
            return ExprType::invalid();
        }
        let value_type: Option<String> = if inner.errorable {
            Some(inner.base)
        } else {
            match parse_errorable_type(inner.base.as_str()) {
                Some(v) => Some(v),
                None => if is_type(&inner.base, "error") {
                    Some(owned("void"))
                } else {
                    None
                },
            }
        };
        match value_type {
            Some(v) => {
                if !self.current_can_propagate_error() {
                    self.diag.add(
                        expr.question_pos.duplicate(),
                        owned("cannot use ? in a function that cannot return an error"),
                    );
                    return ExprType::invalid();
                }
                ExprType::plain(v)
            },
            None => {
                self.diag.add(
                    expr.question_pos.duplicate(),
                    owned("? requires an errorable expression or error value"),
                );
                ExprType::invalid()
            },
        }
    }

    fn check_handle(&mut self, expr: &HandleExpr) -> (t: ExprType)
        ensures
            frame_kept(*old(self), *final(self)),
            extends(old(self).diag@, final(self).diag@),
            !t.errorable,
            t.base@.len() != 0 && t.base@ != "void"@ ==> block_exits_from(
                old(self).functions@,
                expr.handler,
                0,
                true,
            ),
            literal_type(expr.inner) is Some ==> t.base@.len() == 0 && final(self).diag@ == old(self).diag@.push(
                DiagnosticView { pos: expr.or_pos@, message: "or requires an errorable expression or error value"@ },
            ),
        decreases expr, 1int,
    {
        proof {
            reveal_strlit("void");
            if literal_type(expr.inner) is Some {
                lemma_literal_not_errorable(expr.inner);
            }
        }
        let ghost d0 = self.diag@;
        let inner = self.check_expression(&expr.inner);
        let value_type = if inner.errorable {
            inner.base
        } else {
            match parse_errorable_type(inner.base.as_str()) {
                Some(v) => v,
                None => {
                    if is_type(&inner.base, "error") {
                        owned("void")
                    } else {
                        self.diag.add(
                            expr.or_pos.duplicate(),
                            owned("or requires an errorable expression or error value"),
                        );
                        return ExprType::invalid();
                    }
                },
            }
        };
        let requires_terminating_handler = !is_type(&value_type, "void");
        self.push_scope();
        self.bind_local(expr.err_name.as_str(), owned("error"));
        let mut i: usize = 0;
        while i < expr.handler.stmts.len()
            invariant
                frame_kept(*old(self), *self),
                i <= expr.handler.stmts@.len(),
                extends(d0, self.diag@),
            decreases expr.handler.stmts.len() - i,
        {
            assert(decreases_to!(expr => expr.handler.stmts@[i as int]));
            self.check_statement(&expr.handler.stmts[i]);
            i = i + 1;
        }
        self.pop_scope();
        if requires_terminating_handler && !self.block_terminates_control_flow(&expr.handler) {
            self.diag.add(
                expr.or_pos.duplicate(),
                owned("or handler for a value result must terminate control flow"),
            );
            return ExprType::invalid();
        }
        ExprType::plain(value_type)
    }

    fn check_unary(&mut self, unary: &UnaryExpr) -> (t: ExprType)
        ensures
            frame_kept(*old(self), *final(self)),
            extends(old(self).diag@, final(self).diag@),
            !t.errorable,
            unary.operator == Kind::Bang ==> t.base@ == "bool"@ || t.base@ == Seq::<char>::empty(),
            unary.operator == Kind::Minus ==> super::types::integer_type_spec(t.base@) || t.base@
                == Seq::<char>::empty(),
            unary.operator == Kind::Amp && t.base@ != Seq::<char>::empty() ==> pointer_elem(t.base@) is Some,
            unary.operator == Kind::Bang && literal_type(unary.inner) is Some ==> if literal_type(unary.inner)
                == Some("bool"@) {
                t.base@ == "bool"@ && final(self).diag@ == old(self).diag@
            } else {
                t.base@.len() == 0 && final(self).diag@.len() == old(self).diag@.len() + 1
            },
            unary.operator == Kind::Minus && literal_type(unary.inner) is Some ==> if super::types::integer_type_spec(
                literal_type(unary.inner)->0,
            ) {
                t.base@ == literal_type(unary.inner)->0 && final(self).diag@ == old(self).diag@
            } else {
                t.base@.len() == 0 && final(self).diag@.len() == old(self).diag@.len() + 1
            },
            unary.operator == Kind::Star && literal_type(unary.inner) is Some ==> t.base@.len() == 0
                && final(self).diag@.len() == old(self).diag@.len() + 1,
        decreases unary, 1int,
    {
        match unary.operator {
            Kind::Minus => {
                let inner = self.check_expression(&unary.inner);
                if inner.errorable {
                    self.diag.add(unary.op_pos.duplicate(), owned("unary operators cannot use errorable operands"));
                    return ExprType::invalid();
                }
                if !is_integer_type(inner.base.as_str()) {
                    self.diag.add(unary.op_pos.duplicate(), owned("unary - requires an integer operand"));
                    return ExprType::invalid();
                }
                inner
            },
            Kind::Bang => {
                let inner = self.check_expression(&unary.inner);
                if inner.errorable {
                    self.diag.add(unary.op_pos.duplicate(), owned("unary operators cannot use errorable operands"));
                    return ExprType::invalid();
                }
                if !is_type(&inner.base, "bool") {
                    self.diag.add(unary.op_pos.duplicate(), owned("unary ! requires a bool operand"));
                    return ExprType::invalid();
                }
                ExprType::plain_str("bool")
            },
            Kind::Amp => {
                match self.address_root_captured_outer_local(&unary.inner) {
                    Some(name) => {
                        self.diag.add(
                            unary.op_pos.duplicate(),
                            cat(vec!["captured outer local ", q(name.as_str()).as_str(), " is not addressable"]),
                        );
                        return ExprType::invalid();
                    },
                    None => {},
                }
                let t = self.check_addressable_expr(&unary.inner, true);
                if is_type(&t, "") {
                    self.diag.add(
                        unary.op_pos.duplicate(),
                        owned("address-of requires an addressable operand or composite literal"),
                    );
                    return ExprType::invalid();
                }
                let spelled = concat("*", t.as_str());
                proof {
                    reveal_strlit("*");
                    assert(spelled@.subrange(0, 1) =~= "*"@);
                }
                ExprType::plain(spelled)
            },
            Kind::Star => {
                proof {
                    if literal_type(unary.inner) is Some {
                        lemma_literal_not_pointer(unary.inner);
                    }
                }
                let inner = self.check_expression(&unary.inner);
                if inner.errorable {
                    self.diag.add(unary.op_pos.duplicate(), owned("dereference cannot use an errorable operand"));
                    return ExprType::invalid();
                }
                match parse_pointer_type(inner.base.as_str()) {
                    Some(elem) => ExprType::plain(elem),
                    None => {
                        self.diag.add(unary.op_pos.duplicate(), owned("dereference requires a pointer operand"));
                        ExprType::invalid()
                    },
                }
            },
            _ => {
                self.diag.add(unary.op_pos.duplicate(), owned("unsupported unary operator"));
                ExprType::invalid()
            },
        }
    }

    fn check_binary(&mut self, binary: &BinaryExpr) -> (t: ExprType)
        ensures
            frame_kept(*old(self), *final(self)),
            extends(old(self).diag@, final(self).diag@),
            !t.errorable,
            logical_or_comparison(binary.operator) ==> t.base@ == "bool"@ || t.base@ == Seq::<char>::empty(),
            arithmetic_operator(binary.operator) && t.base@ != Seq::<char>::empty() ==> t.base@ == "str"@
                || super::types::integer_type_spec(t.base@),
            match (known_operand_type(*old(self), binary.left), known_operand_type(*old(self), binary.right)) {
                (Some(lt), Some(rt)) => match binary_result(old(self).info, *binary, lt, rt) {
                    Some(ty) => t.base@ == ty && final(self).diag@ == old(self).diag@,
                    None => t.base@.len() == 0 && final(self).diag@.len() == old(self).diag@.len() + 1,
                },
                _ => true,
            },
        decreases binary, 1int,
    {
        proof {
            reveal_strlit("bool");
            reveal_strlit("str");
        }
        let left = self.check_expression(&binary.left);
        let right = self.check_expression(&binary.right);
        if left.errorable || right.errorable {
            self.diag.add(binary.op_pos.duplicate(), owned("binary operators cannot use errorable operands"));
            return ExprType::invalid();
        }
        let op = binary.operator;
        if op == Kind::AmpAmp || op == Kind::PipePipe {
            if !is_type(&left.base, "bool") || !is_type(&right.base, "bool") {
                self.diag.add(binary.op_pos.duplicate(), owned("logical operators require bool operands"));
                return ExprType::invalid();
            }
            return ExprType::plain_str("bool");
        }
        if op == Kind::Plus && is_type(&left.base, "str") && is_type(&right.base, "str") {
            return ExprType::plain_str("str");
        }
        if op == Kind::Plus || op == Kind::Minus || op == Kind::Star || op == Kind::Slash || op
            == Kind::Percent {
            return match self.coerce_binary_integers(&binary.left, left, &binary.right, right) {
                Some(result) => ExprType::plain(result),
                None => {
                    if op == Kind::Plus {
                        self.diag.add(
                            binary.op_pos.duplicate(),
                            owned("'+' requires matching integer or str operands"),
                        );
                    } else {
                        self.diag.add(
                            binary.op_pos.duplicate(),
                            owned("arithmetic operators require matching integer operands"),
                        );
                    }
                    ExprType::invalid()
                },
            };
        }
        if op == Kind::Less || op == Kind::LessEqual || op == Kind::Greater || op == Kind::GreaterEqual {
            if self.coerce_binary_integers(&binary.left, left, &binary.right, right).is_none() {
                self.diag.add(
                    binary.op_pos.duplicate(),
                    owned("relational operators require matching integer operands"),
                );
                return ExprType::invalid();
            }
            return ExprType::plain_str("bool");
        }
        if op == Kind::EqualEqual || op == Kind::BangEqual {
            return self.check_equality(binary, left, right);
        }
        self.diag.add(binary.op_pos.duplicate(), owned("unsupported operator"));
        ExprType::invalid()
    }

    /// The `==` and `!=` rules: integers, bool, str, error, pointers (and nil) and
    /// channels compare with their own type; enums and other values do not.
    fn check_equality(&mut self, binary: &BinaryExpr, left: ExprType, right: ExprType) -> (t: ExprType)
        ensures
            frame_kept(*old(self), *final(self)),
            extends(old(self).diag@, final(self).diag@),
            !t.errorable,
            t.base@ == "bool"@ || t.base@ == Seq::<char>::empty(),
            equality_allowed(old(self).info, *binary, left.base@, right.base@) ==> t.base@ == "bool"@
                && final(self).diag@ == old(self).diag@,
            !equality_allowed(old(self).info, *binary, left.base@, right.base@) ==> t.base@.len() == 0
                && final(self).diag@.len() == old(self).diag@.len() + 1,
    {
        proof {
            reveal_strlit("bool");
            reveal_strlit("");
        }
        let same_message = "comparison operands must have the same type";
        let unsupported = "comparison is only supported for bool, integers, pointers, str, and error";
        if is_integer_type(left.base.as_str()) || is_integer_type(right.base.as_str()) {
            if self.coerce_binary_integers(&binary.left, left, &binary.right, right).is_none() {
                self.diag.add(binary.op_pos.duplicate(), owned(same_message));
                return ExprType::invalid();
            }
            return ExprType::plain_str("bool");
        }
        if self.info.enums.contains_key(left.base.as_str()) || self.info.enums.contains_key(
            right.base.as_str(),
        ) {
            if !str_eq(left.base.as_str(), right.base.as_str()) {
                self.diag.add(binary.op_pos.duplicate(), owned(same_message));
            } else {
                self.diag.add(
                    binary.op_pos.duplicate(),
                    owned("comparison is not supported for enum values in v0.4"),
                );
            }
            return ExprType::invalid();
        }
        if is_type(&left.base, "nil") && is_type(&right.base, "nil") {
            self.diag.add(binary.op_pos.duplicate(), owned(unsupported));
            return ExprType::invalid();
        }
        if is_type(&left.base, "bool") || is_type(&left.base, "str") || is_type(&left.base, "error") || is_type(&left.base, "nil")
            || is_pointer_type(left.base.as_str()) || parse_chan_type(left.base.as_str()).is_some() {
            if !same_comparable_type(left.base.as_str(), right.base.as_str()) {
                self.diag.add(binary.op_pos.duplicate(), owned(same_message));
                return ExprType::invalid();
            }
            return ExprType::plain_str("bool");
        }
        if !str_eq(left.base.as_str(), right.base.as_str()) {
            self.diag.add(binary.op_pos.duplicate(), owned(same_message));
        } else {
            self.diag.add(binary.op_pos.duplicate(), owned(unsupported));
        }
        ExprType::invalid()
    }

    fn check_selector(&mut self, selector: &SelectorExpr) -> (t: ExprType)
        ensures
            frame_kept(*old(self), *final(self)),
            extends(old(self).diag@, final(self).diag@),
            !t.errorable,
            selector.inner matches Expression::Ident(id) ==> (!declares_local(*old(self), id.name@)
                && old(self).info.enums@.contains_key(id.name@) ==> match first_case_named(
                old(self).info.enums@[id.name@],
                selector.name@,
            ) {
                Some(c) => if old(self).info.enums@[id.name@].cases@[c].fields@.len() == 0 {
                    t.base@ == old(self).info.enums@[id.name@].name@ && final(self).diag@ == old(self).diag@
                } else {
                    t.base@.len() == 0 && final(self).diag@.len() == old(self).diag@.len() + 1
                },
                None => t.base@.len() == 0 && final(self).diag@.len() == old(self).diag@.len() + 1,
            }),
        decreases selector, 1int,
    {
        match &selector.inner {
            Expression::Ident(ident) => {
                if self.lookup_local(ident.name.as_str()).is_none() {
                    match self.info.enums.get(ident.name.as_str()) {
                        Some(enum_info) => {
                            let enum_name = enum_info.name.clone();
                            let mut c: usize = 0;
                            let mut found: Option<bool> = None;
                            while c < enum_info.cases.len()
                                invariant_except_break
                                    found is None,
                                    forall|d: int| 0 <= d < c ==> #[trigger] enum_info.cases@[d].name@ != selector.name@,
                                invariant
                                    frame_kept(*old(self), *self),
                                    c <= enum_info.cases@.len(),
                                ensures
                                    match found {
                                        Some(b) => first_case_named(*enum_info, selector.name@) matches Some(k)
                                            && b == (enum_info.cases@[k].fields@.len() > 0),
                                        None => first_case_named(*enum_info, selector.name@) is None,
                                    },
                                decreases enum_info.cases.len() - c,
                            {
                                if str_eq(enum_info.cases[c].name.as_str(), selector.name.as_str()) {
                                    found = Some(enum_info.cases[c].fields.len() > 0);
                                    proof {
                                        lemma_first_case_named(*enum_info, selector.name@, c as int);
                                    }
                                    break;
                                }
                                c = c + 1;
                            }
                            proof {
                                if found is None {
                                    lemma_no_case_named(*enum_info, selector.name@);
                                }
                            }
                            match found {
                                Some(true) => {
                                    self.diag.add(
                                        selector.name_pos.duplicate(),
                                        cat(
                                            vec![
                                                "payload case ",
                                                q(selector.name.as_str()).as_str(),
                                                " requires a constructor body",
                                            ],
                                        ),
                                    );
                                    return ExprType::invalid();
                                },
                                Some(false) => {
                                    return ExprType::plain(enum_name);
                                },
                                None => {
                                    self.diag.add(
                                        selector.name_pos.duplicate(),
                                        cat(
                                            vec![
                                                "enum ",
                                                q(enum_name.as_str()).as_str(),
                                                " has no case ",
                                                q(selector.name.as_str()).as_str(),
                                            ],
                                        ),
                                    );
                                    return ExprType::invalid();
                                },
                            }
                        },
                        None => {},
                    }
                }
            },
            _ => {},
        }
        let inner = self.check_expression(&selector.inner);
        if inner.errorable {
            self.diag.add(selector.dot_pos.duplicate(), owned("field access cannot use an errorable value"));
            return ExprType::invalid();
        }
        let base = match parse_pointer_type(inner.base.as_str()) {
            Some(b) => b,
            None => inner.base,
        };
        match self.info.interfaces.get(base.as_str()) {
            Some(interface) => {
                let mut has = false;
                let mut m: usize = 0;
                while m < interface.methods.len()
                    invariant
                        frame_kept(*old(self), *self),
                        m <= interface.methods@.len(),
                    decreases interface.methods.len() - m,
                {
                    if str_eq(interface.methods[m].name.as_str(), selector.name.as_str()) {
                        has = true;
                    }
                    m = m + 1;
                }
                if has {
                    self.diag.add(selector.name_pos.duplicate(), owned("method values are not supported"));
                    return ExprType::invalid();
                }
                let name = interface.name.clone();
                self.diag.add(
                    selector.name_pos.duplicate(),
                    cat(
                        vec![
                            "interface ",
                            q(name.as_str()).as_str(),
                            " has no method ",
                            q(selector.name.as_str()).as_str(),
                        ],
                    ),
                );
                return ExprType::invalid();
            },
            None => {},
        }
        let info = match self.info.structs.get(base.as_str()) {
            Some(i) => i.clone(),
            None => {
                self.diag.add(selector.dot_pos.duplicate(), owned("field access requires a struct value"));
                return ExprType::invalid();
            },
        };
        match find_field(&info.fields, selector.name.as_str()) {
            Some(fi) => {
                let field = info.fields[fi].clone();
                if self.private_field_is_inaccessible(&info, &field, &selector.name_pos) {
                    ExprType::invalid()
                } else {
                    ExprType::plain(field.type_)
                }
            },
            None => {
                if self.lookup_method_for_base(base.as_str(), selector.name.as_str()) {
                    self.diag.add(selector.name_pos.duplicate(), owned("method values are not supported"));
                    return ExprType::invalid();
                }
                self.add_no_field(selector.name_pos.duplicate(), info.name.as_str(), selector.name.as_str());
                ExprType::invalid()
            },
        }
    }

    /// Reports `struct <name> has no field <field>`.
    fn add_no_field(&mut self, pos: Position, struct_name: &str, field: &str)
        ensures
            frame_kept(*old(self), *final(self)),
            extends(old(self).diag@, final(self).diag@),
            final(self).diag@ == old(self).diag@.push(
                DiagnosticView {
                    pos: pos@,
                    message: "struct "@ + debug_quoted(strip_entry_package(struct_name@, 0, None))
                        + " has no field "@ + debug_quoted(field@),
                },
            ),
    {
        let spelled = q(diagnostic_type_name(struct_name).as_str());
        let quoted = q(field);
        let parts = vec!["struct ", spelled.as_str(), " has no field ", quoted.as_str()];
        proof {
            lemma_concat_all_four(parts@);
        }
        self.diag.add(pos, cat(parts));
    }

    /// The package of the function being checked (empty outside a function).
    pub(crate) fn current_package(&self) -> (p: String)
        ensures
            p@ == (if self.in_function {
                self.current.signature.package@
            } else {
                Seq::<char>::empty()
            }),
    {
        if self.in_function {
            self.current.signature.package.clone()
        } else {
            String::new()
        }
    }

    /// Whether a field may not be read here because it is private to another
    /// package; reports it when so.
    pub(crate) fn private_field_is_inaccessible(
        &mut self,
        info: &StructInfo,
        field: &StructField,
        field_pos: &Position,
    ) -> (b: bool)
        ensures
            frame_kept(*old(self), *final(self)),
            extends(old(self).diag@, final(self).diag@),
            b ==> final(self).diag@.len() == old(self).diag@.len() + 1,
            !b ==> final(self).diag@ == old(self).diag@,
            b == (!field.exported && package_part(info.name@).len() > 0 && package_part(info.name@) != (if old(
                self,
            ).in_function {
                old(self).current.signature.package@
            } else {
                Seq::<char>::empty()
            })),
    {
        proof {
            reveal_strlit("");
        }
        let package = package_for_type(info.name.as_str());
        let current = self.current_package();
        if field.exported || is_type(&package, "") || str_eq(current.as_str(), package.as_str()) {
            return false;
        }
        proof {
            if package@.len() == 0 {
                assert(package@ =~= ""@);
            }
        }
        self.diag.add(
            field_pos.duplicate(),
            cat(
                vec![
                    "field ",
                    q(field.name.as_str()).as_str(),
                    " of struct ",
                    q(diagnostic_type_name(info.name.as_str()).as_str()).as_str(),
                    " is not exported by package ",
                    q(package_display_name(package.as_str()).as_str()).as_str(),
                ],
            ),
        );
        true
    }

    fn check_index(&mut self, index: &IndexExpr) -> (t: ExprType)
        ensures
            frame_kept(*old(self), *final(self)),
            extends(old(self).diag@, final(self).diag@),
            literal_type(index.inner) is Some && literal_type(index.inner) != Some("str"@) ==> t.base@.len() == 0
                && final(self).diag@.len() == old(self).diag@.len() + 1,
        decreases index, 1int,
    {
        proof {
            if literal_type(index.inner) is Some {
                lemma_literal_not_container(index.inner);
            }
        }
        let inner = self.check_expression(&index.inner);
        if inner.errorable {
            self.diag.add(index.lbracket_pos.duplicate(), owned("indexing cannot use an errorable value"));
            return ExprType::invalid();
        }
        match parse_map_type(inner.base.as_str()) {
            Some((key_type, value_type)) => {
                let key = self.check_expression(&index.index);
                if key.errorable {
                    self.diag.add(index.index.pos(), owned("map key expression cannot be errorable"));
                    return ExprType::invalid();
                }
                let key = self.coerce_value(&index.index, key, key_type.as_str());
                if !str_eq(key.base.as_str(), key_type.as_str()) {
                    self.add_map_key_mismatch(index.index.pos(), key_type.as_str(), key.base.as_str());
                    return ExprType::invalid();
                }
                self.record_error("MissingKey");
                return ExprType { base: value_type, errorable: true };
            },
            None => {},
        }
        let elem_type = if is_type(&inner.base, "str") {
            owned("i32")
        } else {
            match sequence_element_type(inner.base.as_str()) {
                Some(elem) => elem,
                None => {
                    self.diag.add(
                        index.lbracket_pos.duplicate(),
                        owned("indexing requires an array, slice, map, or str value"),
                    );
                    return ExprType::invalid();
                },
            }
        };
        if !self.check_index_like_integer(&index.index) {
            return ExprType::invalid();
        }
        ExprType::plain(elem_type)
    }

    /// Reports `map key must be <key>, got <got>`.
    fn add_map_key_mismatch(&mut self, pos: Position, key_type: &str, got: &str)
        ensures
            frame_kept(*old(self), *final(self)),
            extends(old(self).diag@, final(self).diag@),
            final(self).diag@ == old(self).diag@.push(
                DiagnosticView {
                    pos: pos@,
                    message: "map key must be "@ + strip_entry_package(key_type@, 0, None) + ", got "@
                        + strip_entry_package(got@, 0, None),
                },
            ),
    {
        let want = diagnostic_type_name(key_type);
        let have = diagnostic_type_name(got);
        let parts = vec!["map key must be ", want.as_str(), ", got ", have.as_str()];
        proof {
            lemma_concat_all_four(parts@);
        }
        self.diag.add(pos, cat(parts));
    }

    fn check_slice_expr(&mut self, slice: &SliceExpr) -> (t: ExprType)
        ensures
            frame_kept(*old(self), *final(self)),
            extends(old(self).diag@, final(self).diag@),
            !t.errorable,
            t.base@ == "str"@ || super::types::slice_elem(t.base@) is Some || (t.base@.len() == 0
                && final(self).diag@.len() > old(self).diag@.len()),
            slice.inner is String ==> t.base@ == "str"@,
            literal_type(slice.inner) is Some && !(slice.inner is String) ==> t.base@.len() == 0
                && final(self).diag@.len() == old(self).diag@.len() + 1,
        decreases slice, 1int,
    {
        proof {
            if literal_type(slice.inner) is Some {
                lemma_literal_not_container(slice.inner);
                lemma_literal_type_names();
                reveal_strlit("str");
                reveal_strlit("i32");
                reveal_strlit("untyped-int");
                reveal_strlit("bool");
                reveal_strlit("nil");
                assert("i32"@[0] != "str"@[0] && "bool"@.len() != "str"@.len());
            }
        }
        let inner = self.check_expression(&slice.inner);
        if inner.errorable {
            self.diag.add(slice.lbracket_pos.duplicate(), owned("slicing cannot use an errorable value"));
            return ExprType::invalid();
        }
        let out_type = if is_type(&inner.base, "str") {
            owned("str")
        } else if parse_slice_type(inner.base.as_str()).is_some() {
            inner.base
        } else {
            self.diag.add(slice.lbracket_pos.duplicate(), owned("slicing requires a slice or str value"));
            return ExprType::invalid();
        };
        match &slice.start {
            Some(start) => {
                self.check_slice_bound(start);
            },
            None => {},
        }
        match &slice.end {
            Some(end) => {
                self.check_slice_bound(end);
            },
            None => {},
        }
        ExprType::plain(out_type)
    }

    /// Checks a struct literal (or an enum case's payload literal).
    pub(crate) fn check_struct_literal(&mut self, literal: &StructLiteralExpr) -> (t: ExprType)
        ensures
            frame_kept(*old(self), *final(self)),
            extends(old(self).diag@, final(self).diag@),
            !t.errorable,
            t.base@.len() == 0 && !old(self).info.structs@.contains_key(""@) && !old(self).info.enums@.contains_key(
                ""@,
            ) ==> final(self).diag@.len() > old(self).diag@.len(),
            t.base@.len() != 0 && !old(self).info.enums@.contains_key(t.base@) ==> forall|e: Seq<char>|
                #[trigger] old(self).info.enums@.contains_key(e) ==> !has_payload_case(
                    old(self).info.enums@[e],
                    t.base@,
                ),
        decreases literal, 1int,
    {
        proof {
            reveal_strlit("");
        }
        let ghost d0 = self.diag@;
        let spelled = self.resolve_type_ref(&literal.type_ref);
        let info = match self.info.structs.get(spelled.as_str()) {
            Some(i) => i.clone(),
            None => {
                self.diag.add(literal.type_ref.pos.duplicate(), owned("struct literal requires a struct type"));
                return ExprType::invalid();
            },
        };
        assert(!old(self).info.structs@.contains_key(""@) ==> spelled@.len() != 0) by {
            if spelled@.len() == 0 {
                assert(spelled@ =~= ""@);
            }
        }
        let package = package_for_type(info.name.as_str());
        let mut has_private = false;
        let mut f: usize = 0;
        while f < info.fields.len()
            invariant
                frame_kept(*old(self), *self),
                f <= info.fields@.len(),
            decreases info.fields.len() - f,
        {
            if !info.fields[f].exported {
                has_private = true;
            }
            f = f + 1;
        }
        let current = self.current_package();
        if has_private && !is_type(&package, "") && !str_eq(current.as_str(), package.as_str()) {
            self.diag.add(
                literal.type_ref.pos.duplicate(),
                cat(
                    vec![
                        "struct literal for ",
                        q(diagnostic_type_name(info.name.as_str()).as_str()).as_str(),
                        " is not allowed outside package ",
                        q(package_display_name(package.as_str()).as_str()).as_str(),
                        " because it has package-private fields",
                    ],
                ),
            );
            return ExprType::invalid();
        }
        let mut seen = NameSet::new();
        let mut i: usize = 0;
        while i < literal.fields.len()
            invariant
                frame_kept(*old(self), *self),
                i <= literal.fields@.len(),
                extends(d0, self.diag@),
            decreases literal.fields.len() - i,
        {
            let field = &literal.fields[i];
            assert(decreases_to!(literal => literal.fields@[i as int].value));
            i = i + 1;
            if !seen.insert(field.name.clone()) {
                self.diag.add(
                    field.name_pos.duplicate(),
                    cat(vec!["field ", q(field.name.as_str()).as_str(), " is already initialized"]),
                );
                continue;
            }
            let fi = match find_field(&info.fields, field.name.as_str()) {
                Some(fi) => fi,
                None => {
                    self.add_no_field(field.name_pos.duplicate(), info.name.as_str(), field.name.as_str());
                    continue;
                },
            };
            let target = info.fields[fi].type_.as_str();
            let value = self.check_expression(&field.value);
            let value = self.require_non_errorable_value(
                &field.value,
                value,
                owned("errorable value cannot be used in a struct literal"),
            );
            let value = self.coerce_value(&field.value, value, target);
            if !str_eq(value.base.as_str(), target) {
                self.add_cannot_assign(field.value.pos(), value.base.as_str(), target);
            }
        }
        match self.enum_type_for_payload(spelled.as_str()) {
            Some(enum_name) => {
                assert(!old(self).info.enums@.contains_key(""@) ==> enum_name@.len() != 0) by {
                    if enum_name@.len() == 0 {
                        assert(enum_name@ =~= ""@);
                    }
                }
                ExprType::plain(enum_name)
            },
            None => ExprType::plain(spelled),
        }
    }

    /// Checks a fixed-size array literal.
    pub(crate) fn check_array_literal(&mut self, literal: &ArrayLiteralExpr) -> (t: ExprType)
        ensures
            frame_kept(*old(self), *final(self)),
            extends(old(self).diag@, final(self).diag@),
            !t.errorable,
            super::types::array_parts(t.base@) is None ==> t.base@.len() == 0 && final(self).diag@.len()
                > old(self).diag@.len(),
            super::types::array_parts(t.base@) matches Some((n, _)) ==> (literal.elements@.len() > n ==> final(self).diag@.len()
                > old(self).diag@.len()),
        decreases literal, 1int,
    {
        let ghost d0 = self.diag@;
        let spelled = self.resolve_type_ref(&literal.type_ref);
        let (len, elem_type) = match parse_array_type(spelled.as_str()) {
            Some(p) => p,
            None => {
                self.diag.add(literal.type_ref.pos.duplicate(), owned("array literal requires an array type"));
                return ExprType::invalid();
            },
        };
        if literal.elements.len() > len {
            self.diag.add(
                literal.type_ref.pos.duplicate(),
                concat("array literal has too many elements for ", spelled.as_str()),
            );
        }
        let ghost d1 = self.diag@;
        let mut i: usize = 0;
        while i < literal.elements.len()
            invariant
                frame_kept(*old(self), *self),
                i <= literal.elements@.len(),
                extends(d0, self.diag@),
                extends(d1, self.diag@),
            decreases literal.elements.len() - i,
        {
            assert(decreases_to!(literal => literal.elements@[i as int]));
            self.check_aggregate_element(&literal.elements[i], elem_type.as_str(), "array literal");
            i = i + 1;
        }
        ExprType::plain(spelled)
    }

    /// Checks a slice literal.
    pub(crate) fn check_slice_literal(&mut self, literal: &SliceLiteralExpr) -> (t: ExprType)
        ensures
            frame_kept(*old(self), *final(self)),
            extends(old(self).diag@, final(self).diag@),
            !t.errorable,
            super::types::slice_elem(t.base@) is None ==> t.base@.len() == 0 && final(self).diag@.len()
                > old(self).diag@.len(),
        decreases literal, 1int,
    {
        let ghost d0 = self.diag@;
        let spelled = self.resolve_type_ref(&literal.type_ref);
        let elem_type = match parse_slice_type(spelled.as_str()) {
            Some(e) => e,
            None => {
                self.diag.add(literal.type_ref.pos.duplicate(), owned("slice literal requires a slice type"));
                return ExprType::invalid();
            },
        };
        let mut i: usize = 0;
        while i < literal.elements.len()
            invariant
                frame_kept(*old(self), *self),
                i <= literal.elements@.len(),
                extends(d0, self.diag@),
            decreases literal.elements.len() - i,
        {
            assert(decreases_to!(literal => literal.elements@[i as int]));
            self.check_aggregate_element(&literal.elements[i], elem_type.as_str(), "slice literal");
            i = i + 1;
        }
        ExprType::plain(spelled)
    }

    /// Checks a map literal.
    pub(crate) fn check_map_literal(&mut self, literal: &MapLiteralExpr) -> (t: ExprType)
        ensures
            frame_kept(*old(self), *final(self)),
            extends(old(self).diag@, final(self).diag@),
            !t.errorable,
            super::types::map_parts(t.base@) is None ==> t.base@.len() == 0 && final(self).diag@.len()
                > old(self).diag@.len(),
        decreases literal, 1int,
    {
        let ghost d0 = self.diag@;
        let spelled = self.resolve_type_ref(&literal.type_ref);
        let (key_type, value_type) = match parse_map_type(spelled.as_str()) {
            Some(p) => p,
            None => {
                self.diag.add(literal.type_ref.pos.duplicate(), owned("map literal requires a map type"));
                return ExprType::invalid();
            },
        };
        let mut i: usize = 0;
        while i < literal.pairs.len()
            invariant
                frame_kept(*old(self), *self),
                i <= literal.pairs@.len(),
                extends(d0, self.diag@),
            decreases literal.pairs.len() - i,
        {
            let pair = &literal.pairs[i];
            assert(decreases_to!(literal => literal.pairs@[i as int].key));
            assert(decreases_to!(literal => literal.pairs@[i as int].value));
            i = i + 1;
            let key = self.check_expression(&pair.key);
            let key = self.require_non_errorable_value(
                &pair.key,
                key,
                owned("errorable value cannot be used as a map key"),
            );
            let key = self.coerce_value(&pair.key, key, key_type.as_str());
            if !str_eq(key.base.as_str(), key_type.as_str()) {
                self.diag.add(
                    pair.key.pos(),
                    cat(
                        vec![
                            "cannot use ",
                            diagnostic_type_name(key.base.as_str()).as_str(),
                            " as map key type ",
                            diagnostic_type_name(key_type.as_str()).as_str(),
                        ],
                    ),
                );
            }
            let value = self.check_expression(&pair.value);
            let value = self.require_non_errorable_value(
                &pair.value,
                value,
                owned("errorable value cannot be used as a map value"),
            );
            let value = self.coerce_value(&pair.value, value, value_type.as_str());
            if !str_eq(value.base.as_str(), value_type.as_str()) {
                self.add_cannot_assign(pair.value.pos(), value.base.as_str(), value_type.as_str());
            }
        }
        ExprType::plain(spelled)
    }

    /// Checks an element of an array or slice literal against the element type.
    pub(crate) fn check_aggregate_element(&mut self, element: &Expression, target: &str, label: &str)
        ensures
            frame_kept(*old(self), *final(self)),
            extends(old(self).diag@, final(self).diag@),
            literal_type(*element) is Some && !old(self).info.interfaces@.contains_key(target@) && !(
            *element is Nil && pointer_elem(target@) is Some) ==> (if literal_type(*element)->0 == target@ || (
            *element is Int && (target@ == "i32"@ || target@ == "i64"@) && untyped_fits(*element, target@)) {
                final(self).diag@ == old(self).diag@
            } else {
                final(self).diag@.len() == old(self).diag@.len() + 1
            }),
        decreases element, 3int,
    {
        proof {
            if literal_type(*element) is Some {
                lemma_literal_integer(*element);
                lemma_literal_type_names();
            }
        }
        let value = self.check_expression(element);
        let value = self.require_non_errorable_value(
            element,
            value,
            concat("errorable value cannot be used in an ", label),
        );
        let value = self.coerce_value(element, value, target);
        if !str_eq(value.base.as_str(), target) {
            self.add_cannot_assign(element.pos(), value.base.as_str(), target);
        }
    }

    /// Checks an index: a plain integer, which must fit `i32` when untyped.
    pub(crate) fn check_index_like_integer(&mut self, expr: &Expression) -> (ok: bool)
        ensures
            frame_kept(*old(self), *final(self)),
            extends(old(self).diag@, final(self).diag@),
            !ok ==> final(self).diag@.len() > old(self).diag@.len(),
            literal_type(*expr) is Some ==> (ok <==> (*expr is Char || (*expr is Int && untyped_fits(*expr, "i32"@)))),
            literal_type(*expr) is Some && ok ==> final(self).diag@ == old(self).diag@,
        decreases expr, 3int,
    {
        proof {
            if literal_type(*expr) is Some {
                lemma_literal_integer(*expr);
                lemma_literal_type_names();
            }
        }
        let t = self.check_expression(expr);
        if t.errorable {
            self.diag.add(expr.pos(), owned("index expression cannot be errorable"));
            return false;
        }
        if !is_integer_type(t.base.as_str()) {
            self.diag.add(expr.pos(), owned("index expression must be an integer"));
            return false;
        }
        if is_type(&t.base, "untyped-int") {
            let t = self.coerce_untyped_integer(expr, t, "i32");
            if is_type(&t.base, "untyped-int") {
                self.diag.add(expr.pos(), owned("index expression must fit in i32"));
                return false;
            }
        }
        true
    }

    /// Checks a slice bound: a plain integer, which must fit `i32` when untyped.
    pub(crate) fn check_slice_bound(&mut self, expr: &Expression) -> (ok: bool)
        ensures
            frame_kept(*old(self), *final(self)),
            extends(old(self).diag@, final(self).diag@),
            !ok ==> final(self).diag@.len() > old(self).diag@.len(),
            literal_type(*expr) is Some ==> (ok <==> (*expr is Char || (*expr is Int && untyped_fits(*expr, "i32"@)))),
            literal_type(*expr) is Some && ok ==> final(self).diag@ == old(self).diag@,
        decreases expr, 3int,
    {
        proof {
            if literal_type(*expr) is Some {
                lemma_literal_integer(*expr);
                lemma_literal_type_names();
            }
        }
        let t = self.check_expression(expr);
        if t.errorable {
            self.diag.add(expr.pos(), owned("slice bounds cannot be errorable"));
            return false;
        }
        if !is_integer_type(t.base.as_str()) {
            self.diag.add(expr.pos(), owned("slice bounds must be integers"));
            return false;
        }
        if is_type(&t.base, "untyped-int") {
            let t = self.coerce_untyped_integer(expr, t, "i32");
            if is_type(&t.base, "untyped-int") {
                self.diag.add(expr.pos(), owned("slice bounds must fit in i32"));
                return false;
            }
        }
        true
    }

    /// Checks the target of an assignment and answers its type (empty when invalid).
    pub(crate) fn check_assignment_target(&mut self, target: &Expression) -> (t: String)
        ensures
            frame_kept(*old(self), *final(self)),
            extends(old(self).diag@, final(self).diag@),
            t@.len() == 0 ==> final(self).diag@.len() > old(self).diag@.len(),
            target matches Expression::Ident(e) ==> (captured_outer_local(*old(self), e.name@) ==> t@.len() == 0
                && final(self).diag@ == old(self).diag@.push(
                DiagnosticView {
                    pos: e.name_pos@,
                    message: "cannot assign to captured outer local "@ + debug_quoted(e.name@),
                },
            )),
        decreases target, 5int,
    {
        match target {
            Expression::Ident(e) => {
                if self.is_captured_local(e.name.as_str()) {
                    let quoted = q(e.name.as_str());
                    let parts = vec!["cannot assign to captured outer local ", quoted.as_str()];
                    proof {
                        crate::text::lemma_concat_all_pair(parts@);
                    }
                    self.diag.add(e.name_pos.duplicate(), cat(parts));
                    return String::new();
                }
            },
            _ => {},
        }
        let t = self.check_addressable_expr(target, false);
        if is_type(&t, "") {
            self.diag.add(target.pos(), owned("invalid assignment target"));
        }
        proof {
            reveal_strlit("");
            if t@.len() == 0 {
                assert(t@ =~= ""@);
            }
        }
        t
    }

    /// For a map index target, the map's value type (empty when invalid); `None`
    /// for any other target.
    pub(crate) fn check_map_assignment_target(&mut self, target: &Expression) -> (r: Option<String>)
        ensures
            frame_kept(*old(self), *final(self)),
            extends(old(self).diag@, final(self).diag@),
            !(target is Index) ==> r is None && final(self).diag@ == old(self).diag@ && *final(self) == *old(self),
            r matches Some(value_type) ==> value_type@.len() == 0 && final(self).diag@.len()
                > old(self).diag@.len() || exists|key: Seq<char>, map_type: Seq<char>|
                super::types::map_parts(map_type) == Some((key, value_type@)),
            target matches Expression::Index(ix) ==> (ix.inner matches Expression::Ident(e) ==> (old(
                self,
            ).in_function ==> (innermost_binding(
                old(self).current.scopes@,
                old(self).current.scopes@.len() as int,
                e.name@,
            ) matches Some(b) ==> (super::types::map_parts(b.type_@) is Some ==> r is Some)))),
        decreases target, 5int,
    {
        let index = match target {
            Expression::Index(i) => i,
            _ => {
                return None;
            },
        };
        let inner = self.check_expression(&index.inner);
        if inner.errorable {
            self.diag.add(index.lbracket_pos.duplicate(), owned("indexing cannot use an errorable value"));
            return Some(String::new());
        }
        let (key_type, value_type) = match parse_map_type(inner.base.as_str()) {
            Some(p) => p,
            None => {
                return None;
            },
        };
        let key = self.check_expression(&index.index);
        if key.errorable {
            self.diag.add(index.index.pos(), owned("map key expression cannot be errorable"));
            return Some(String::new());
        }
        let key = self.coerce_value(&index.index, key, key_type.as_str());
        if !str_eq(key.base.as_str(), key_type.as_str()) {
            self.add_map_key_mismatch(index.index.pos(), key_type.as_str(), key.base.as_str());
            return Some(String::new());
        }
        Some(value_type)
    }

    /// The type of an addressable expression (empty when it is not addressable).
    pub(crate) fn check_addressable_expr(&mut self, expr: &Expression, allow_composite_literal: bool) -> (t:
        String)
        ensures
            frame_kept(*old(self), *final(self)),
            extends(old(self).diag@, final(self).diag@),
            expr matches Expression::Ident(e) ==> (if declares_local(*old(self), e.name@) {
                if captured_outer_local(*old(self), e.name@) {
                    t@.len() == 0 && final(self).diag@ == old(self).diag@.push(
                        DiagnosticView {
                            pos: e.name_pos@,
                            message: "captured outer local "@ + debug_quoted(e.name@) + " is not addressable"@,
                        },
                    )
                } else {
                    innermost_binding(
                        old(self).current.scopes@,
                        old(self).current.scopes@.len() as int,
                        e.name@,
                    ) matches Some(b) && t@ == b.type_@ && final(self).diag@ == old(self).diag@
                }
            } else {
                t@.len() == 0 && final(self).diag@ == old(self).diag@.push(
                    DiagnosticView { pos: e.name_pos@, message: "unknown local "@ + debug_quoted(e.name@) },
                )
            }),
        decreases expr, 4int,
    {
        match expr {
            Expression::Ident(e) => match self.lookup_local(e.name.as_str()) {
                Some(binding) => {
                    if self.is_captured_local(e.name.as_str()) {
                        let quoted = q(e.name.as_str());
                        let parts = vec!["captured outer local ", quoted.as_str(), " is not addressable"];
                        proof {
                            crate::text::lemma_concat_all_triple(parts@);
                        }
                        self.diag.add(e.name_pos.duplicate(), cat(parts));
                        return String::new();
                    }
                    binding.type_
                },
                None => {
                    let quoted = q(e.name.as_str());
                    let parts = vec!["unknown local ", quoted.as_str()];
                    proof {
                        crate::text::lemma_concat_all_pair(parts@);
                    }
                    self.diag.add(e.name_pos.duplicate(), cat(parts));
                    String::new()
                },
            },
            Expression::Group(e) => self.check_addressable_expr(&e.inner, allow_composite_literal),
            Expression::Selector(e) => {
                let base = self.check_addressable_expr(&e.inner, false);
                let resolved = match parse_pointer_type(base.as_str()) {
                    Some(r) => r,
                    None => base,
                };
                let info = match self.info.structs.get(resolved.as_str()) {
                    Some(i) => i.clone(),
                    None => {
                        self.diag.add(e.dot_pos.duplicate(), owned("field access requires a struct value"));
                        return String::new();
                    },
                };
                match find_field(&info.fields, e.name.as_str()) {
                    Some(fi) => {
                        let field = info.fields[fi].clone();
                        if self.private_field_is_inaccessible(&info, &field, &e.name_pos) {
                            String::new()
                        } else {
                            field.type_
                        }
                    },
                    None => {
                        self.add_no_field(e.name_pos.duplicate(), info.name.as_str(), e.name.as_str());
                        String::new()
                    },
                }
            },
            Expression::Index(e) => {
                let base = self.check_addressable_expr(&e.inner, false);
                let elem_type = match sequence_element_type(base.as_str()) {
                    Some(t) => t,
                    None => {
                        self.diag.add(e.lbracket_pos.duplicate(), owned("indexing requires an array or slice value"));
                        return String::new();
                    },
                };
                if !self.check_index_like_integer(&e.index) {
                    return String::new();
                }
                elem_type
            },
            Expression::Unary(e) => {
                if e.operator != Kind::Star {
                    return String::new();
                }
                let inner = self.check_expression(&e.inner);
                match parse_pointer_type(inner.base.as_str()) {
                    Some(t) => t,
                    None => {
                        self.diag.add(e.op_pos.duplicate(), owned("dereference requires a pointer operand"));
                        String::new()
                    },
                }
            },
            Expression::StructLiteral(e) => {
                if allow_composite_literal {
                    self.check_struct_literal(e).base
                } else {
                    String::new()
                }
            },
            Expression::ArrayLiteral(e) => {
                if allow_composite_literal {
                    self.check_array_literal(e).base
                } else {
                    String::new()
                }
            },
            Expression::SliceLiteral(e) => {
                if allow_composite_literal {
                    self.check_slice_literal(e).base
                } else {
                    String::new()
                }
            },
            Expression::MapLiteral(e) => {
                if allow_composite_literal {
                    self.check_map_literal(e).base
                } else {
                    String::new()
                }
            },
            _ => String::new(),
        }
    }

    /// A value that may be bound or stored: not errorable, not invalid, not
    /// `void` or `noreturn`. Reports what is wrong and answers the invalid type.
    pub(crate) fn require_non_errorable_value(
        &mut self,
        expr: &Expression,
        expr_type: ExprType,
        message: String,
    ) -> (t: ExprType)
        ensures
            frame_kept(*old(self), *final(self)),
            extends(old(self).diag@, final(self).diag@),
            expr_type.errorable ==> t.base@ == Seq::<char>::empty() && final(self).diag@ == old(self).diag@.push(
                crate::diag::DiagnosticView { pos: crate::ast::expression_pos(*expr), message: message@ },
            ),
            !expr_type.errorable && expr_type.base@ != ""@ && expr_type.base@
                != "void"@ && expr_type.base@ != "noreturn"@ ==> t == expr_type && final(self).diag@
                == old(self).diag@ && *final(self) == *old(self),
    {
        if expr_type.errorable {
            self.diag.add(expr.pos(), message);
            return ExprType::invalid();
        }
        if is_type(&expr_type.base, "") {
            return ExprType::invalid();
        }
        if is_type(&expr_type.base, "void") || is_type(&expr_type.base, "noreturn") {
            self.diag.add(expr.pos(), owned("declaration requires a value"));
            return ExprType::invalid();
        }
        expr_type
    }

    /// Converts a value to `target` where the language allows it: `nil` to a
    /// pointer, a type to an interface it satisfies, an untyped integer that fits.
    pub(crate) fn coerce_value(&mut self, expr: &Expression, expr_type: ExprType, target: &str) -> (t:
        ExprType)
        ensures
            frame_kept(*old(self), *final(self)),
            extends(old(self).diag@, final(self).diag@),
            t == expr_type || (t.base@ == target@ && !t.errorable && implicit_conversion(
                old(self).info,
                expr_type,
                target@,
            )) || (t.base@.len() == 0 && final(self).diag@.len() > old(self).diag@.len()),
            expr_type.base@ == "nil"@ && pointer_elem(target@) is Some ==> t.base@ == target@ && !t.errorable,
            old(self).info.interfaces@.contains_key(target@) && expr_type.base@ == target@ ==> t.base@ == target@
                && !t.errorable,
            old(self).info.interfaces@.contains_key(target@) && expr_type.base@ != target@
                && old(self).info.interfaces@.contains_key(expr_type.base@) && !(expr_type.base@ == "nil"@
                && pointer_elem(target@) is Some) ==> t == expr_type,
            !old(self).info.interfaces@.contains_key(target@) && !(expr_type.base@ == "nil"@ && pointer_elem(
                target@,
            ) is Some) ==> final(self).diag@ == old(self).diag@ && (if expr_type.base@ == "untyped-int"@
                && (target@ == "i32"@ || target@ == "i64"@) && untyped_fits(*expr, target@) {
                t.base@ == target@ && !t.errorable
            } else {
                t == expr_type
            }),
    {
        if is_type(&expr_type.base, "nil") && is_pointer_type(target) {
            return ExprType::plain_str(target);
        }
        if self.info.interfaces.contains_key(target) {
            if str_eq(expr_type.base.as_str(), target) {
                return ExprType::plain_str(target);
            }
            if self.info.interfaces.contains_key(expr_type.base.as_str()) {
                return expr_type;
            }
            match self.satisfies_interface(expr_type.base.as_str(), target) {
                Ok(true) => {
                    return ExprType::plain_str(target);
                },
                Ok(false) => {},
                Err(message) => {
                    self.diag.add(expr.pos(), message);
                    return ExprType::invalid();
                },
            }
        }
        self.coerce_untyped_integer(expr, expr_type, target)
    }

    /// An untyped integer that fits `target` (`i32` or `i64`) takes that type;
    /// any other value is left as it is.
    pub(crate) fn coerce_untyped_integer(&self, expr: &Expression, expr_type: ExprType, target: &str) -> (t:
        ExprType)
        ensures
            !(expr_type.base@ == "untyped-int"@ && (target@ == "i32"@ || target@ == "i64"@)) ==> t
                == expr_type,
            t == expr_type || (t.base@ == target@ && !t.errorable),
            expr_type.base@ == "untyped-int"@ && (target@ == "i32"@ || target@ == "i64"@) ==> (if untyped_fits(
                *expr,
                target@,
            ) {
                t.base@ == target@ && !t.errorable
            } else {
                t == expr_type
            }),
    {
        if !is_type(&expr_type.base, "untyped-int") || !(str_eq(target, "i32") || str_eq(target, "i64")) {
            return expr_type;
        }
        if int_expression_fits(expr, target) {
            ExprType::plain_str(target)
        } else {
            expr_type
        }
    }

    /// The common integer type of two operands, when they have one.
    pub(crate) fn coerce_binary_integers(
        &self,
        left_expr: &Expression,
        left: ExprType,
        right_expr: &Expression,
        right: ExprType,
    ) -> (r: Option<String>)
        ensures
            r is Some ==> super::types::integer_type_spec(left.base@) && super::types::integer_type_spec(
                right.base@,
            ),
            opt_view(r) == binary_integer_type(*left_expr, left.base@, *right_expr, right.base@),
    {
        if !is_integer_type(left.base.as_str()) || !is_integer_type(right.base.as_str()) {
            return None;
        }
        let lu = is_type(&left.base, "untyped-int");
        let ru = is_type(&right.base, "untyped-int");
        if lu && ru {
            return Some(owned("untyped-int"));
        }
        if lu && int_expression_fits(left_expr, right.base.as_str()) {
            return Some(right.base);
        }
        if ru && int_expression_fits(right_expr, left.base.as_str()) {
            return Some(left.base);
        }
        if str_eq(left.base.as_str(), right.base.as_str()) {
            return Some(left.base);
        }
        None
    }

    /// The type an untyped integer expression takes by default (empty when none fits).
    pub(crate) fn default_untyped_integer_type(&self, expr: &Expression) -> (t: String)
        ensures
            t@ == (match super::types::inferred_int_type(*expr) {
                Some(n) => n,
                None => Seq::<char>::empty(),
            }),
    {
        match infer_untyped_integer_type(expr) {
            Some(t) => owned(t),
            None => String::new(),
        }
    }

    /// Whether some statement of the block always returns.
    pub(crate) fn block_definitely_returns(&self, block: &BlockStmt) -> (b: bool)
        ensures
            b == block_exits_from(self.functions@, *block, 0, false),
        decreases block, 1int,
    {
        let mut i: usize = 0;
        while i < block.stmts.len()
            invariant
                i <= block.stmts@.len(),
                block_exits_from(self.functions@, *block, 0, false) == block_exits_from(
                    self.functions@,
                    *block,
                    i as int,
                    false,
                ),
            decreases block.stmts.len() - i,
        {
            assert(decreases_to!(block => block.stmts@[i as int]));
            if self.stmt_definitely_returns(&block.stmts[i]) {
                return true;
            }
            i = i + 1;
        }
        false
    }

    /// Whether some statement of the block always leaves it (return, break,
    /// continue or a call that does not return).
    pub(crate) fn block_terminates_control_flow(&self, block: &BlockStmt) -> (b: bool)
        ensures
            b == block_exits_from(self.functions@, *block, 0, true),
        decreases block, 1int,
    {
        let mut i: usize = 0;
        while i < block.stmts.len()
            invariant
                i <= block.stmts@.len(),
                block_exits_from(self.functions@, *block, 0, true) == block_exits_from(
                    self.functions@,
                    *block,
                    i as int,
                    true,
                ),
            decreases block.stmts.len() - i,
        {
            assert(decreases_to!(block => block.stmts@[i as int]));
            if self.stmt_terminates_control_flow(&block.stmts[i]) {
                return true;
            }
            i = i + 1;
        }
        false
    }

    /// Whether a statement always leaves the enclosing block.
    pub(crate) fn stmt_terminates_control_flow(&self, stmt: &Statement) -> (b: bool)
        ensures
            b == stmt_exits(self.functions@, *stmt, true),
        decreases stmt, 0int,
    {
        match stmt {
            Statement::Return(_) | Statement::Break(_) | Statement::Continue(_) => true,
            Statement::Block(block) => self.block_terminates_control_flow(block),
            Statement::Expr(s) => self.expression_definitely_returns(&s.expr),
            Statement::If(s) => match &s.else_stmt {
                Some(else_stmt) => self.block_terminates_control_flow(&s.then_block)
                    && self.stmt_terminates_control_flow(else_stmt),
                None => false,
            },
            Statement::Match(s) => self.match_terminates(s),
            _ => false,
        }
    }

    /// Whether a match statement always leaves the enclosing block: it has arms or an else, and
    /// every arm and the else do.
    pub(crate) fn match_terminates(&self, s: &MatchStmt) -> (b: bool)
        ensures
            b == ((s.arms@.len() > 0 || s.else_body is Some) && arms_exit_from(self.functions@, *s, 0, true)),
        decreases s, 2int,
    {
        if s.arms.len() == 0 && s.else_body.is_none() {
            return false;
        }
        let mut i: usize = 0;
        while i < s.arms.len()
            invariant
                i <= s.arms@.len(),
                arms_exit_from(self.functions@, *s, 0, true) == arms_exit_from(self.functions@, *s, i as int, true),
            decreases s.arms.len() - i,
        {
            assert(decreases_to!(s => s.arms@[i as int].body));
            if !self.block_terminates_control_flow(&s.arms[i].body) {
                return false;
            }
            i = i + 1;
        }
        match &s.else_body {
            Some(else_body) => self.block_terminates_control_flow(else_body),
            None => true,
        }
    }

    /// Whether a statement always returns from the function.
    pub(crate) fn stmt_definitely_returns(&self, stmt: &Statement) -> (b: bool)
        ensures
            b == stmt_exits(self.functions@, *stmt, false),
        decreases stmt, 0int,
    {
        match stmt {
            Statement::Return(_) => true,
            Statement::Block(block) => self.block_definitely_returns(block),
            Statement::Expr(s) => self.expression_definitely_returns(&s.expr),
            Statement::If(s) => match &s.else_stmt {
                Some(else_stmt) => self.block_definitely_returns(&s.then_block)
                    && self.stmt_definitely_returns(else_stmt),
                None => false,
            },
            Statement::Match(s) => self.match_returns(s),
            _ => false,
        }
    }

    /// Whether a match statement always returns: it has arms or an else, and
    /// every arm and the else do.
    pub(crate) fn match_returns(&self, s: &MatchStmt) -> (b: bool)
        ensures
            b == ((s.arms@.len() > 0 || s.else_body is Some) && arms_exit_from(self.functions@, *s, 0, false)),
        decreases s, 2int,
    {
        if s.arms.len() == 0 && s.else_body.is_none() {
            return false;
        }
        let mut i: usize = 0;
        while i < s.arms.len()
            invariant
                i <= s.arms@.len(),
                arms_exit_from(self.functions@, *s, 0, false) == arms_exit_from(self.functions@, *s, i as int, false),
            decreases s.arms.len() - i,
        {
            assert(decreases_to!(s => s.arms@[i as int].body));
            if !self.block_definitely_returns(&s.arms[i].body) {
                return false;
            }
            i = i + 1;
        }
        match &s.else_body {
            Some(else_body) => self.block_definitely_returns(else_body),
            None => true,
        }
    }

    /// Whether an expression is a call of a function that never returns.
    pub(crate) fn expression_definitely_returns(&self, expr: &Expression) -> (b: bool)
        ensures
            b == calls_noreturn(self.functions@, *expr),
        decreases expr,
    {
        match expr {
            Expression::Group(e) => self.expression_definitely_returns(&e.inner),
            Expression::Call(call) => match call_name(&call.callee) {
                Some((name, _)) => match self.functions.get(name.as_str()) {
                    Some(sig) => is_type(&sig.return_type, "noreturn"),
                    None => false,
                },
                None => false,
            },
            _ => false,
        }
    }

    /// Opens a new innermost scope.
    pub(crate) fn push_scope(&mut self)
        ensures
            frame_kept(*old(self), *final(self)),
            final(self).diag@ == old(self).diag@,
            final(self).in_function == old(self).in_function,
    {
        if self.in_function {
            self.current.scopes.push(NameMap::new());
        }
    }

    /// Closes the innermost scope.
    pub(crate) fn pop_scope(&mut self)
        ensures
            frame_kept(*old(self), *final(self)),
            final(self).diag@ == old(self).diag@,
            final(self).in_function == old(self).in_function,
    {
        if self.in_function {
            self.current.scopes.pop();
        }
    }

    /// Enters a loop body; says whether the loop depth was raised.
    pub(crate) fn enter_loop(&mut self) -> (entered: bool)
        ensures
            frame_kept_outside_loops(*old(self), *final(self)),
            final(self).diag@ == old(self).diag@,
            entered <==> old(self).in_function && old(self).current.loop_depth < usize::MAX,
            entered ==> final(self).current.loop_depth == old(self).current.loop_depth + 1,
            !entered ==> final(self).current.loop_depth == old(self).current.loop_depth,
    {
        if self.in_function && self.current.loop_depth < usize::MAX {
            self.current.loop_depth = self.current.loop_depth + 1;
            true
        } else {
            false
        }
    }

    /// Leaves a loop body that `enter_loop` entered, lowering the loop depth again.
    pub(crate) fn exit_loop(&mut self, entered: bool)
        requires
            entered ==> old(self).current.loop_depth > 0,
        ensures
            frame_kept_outside_loops(*old(self), *final(self)),
            final(self).diag@ == old(self).diag@,
            entered ==> final(self).current.loop_depth == old(self).current.loop_depth - 1,
            !entered ==> final(self).current.loop_depth == old(self).current.loop_depth,
    {
        if entered {
            self.current.loop_depth = self.current.loop_depth - 1;
        }
    }

    /// Binds a local in the innermost scope, at the current closure depth.
    pub(crate) fn bind_local(&mut self, name: &str, type_: String)
        ensures
            frame_kept(*old(self), *final(self)),
            final(self).diag@ == old(self).diag@,
            final(self).current.scopes@.len() == old(self).current.scopes@.len(),
            forall|k: int|
                0 <= k < old(self).current.scopes@.len() - 1 ==> final(self).current.scopes@[k]
                    == old(self).current.scopes@[k],
            old(self).in_function && old(self).current.scopes@.len() > 0 ==> final(self).current.scopes@.last()@
                == old(self).current.scopes@.last()@.insert(
                name@,
                LocalBinding { type_, closure_depth: old(self).current.closure_depth },
            ),
            !(old(self).in_function && old(self).current.scopes@.len() > 0) ==> final(self).current.scopes@
                == old(self).current.scopes@,
    {
        if self.in_function {
            let depth = self.current.closure_depth;
            match self.current.scopes.pop() {
                Some(mut scope) => {
                    let ghost rest = self.current.scopes@;
                    scope.insert(owned(name), LocalBinding { type_, closure_depth: depth });
                    self.current.scopes.push(scope);
                    assert(self.current.scopes@ == rest.push(scope));
                },
                None => {},
            }
        }
    }

    /// Whether the innermost scope declares `name`.
    pub(crate) fn scope_owns(&self, name: &str) -> (b: bool)
        ensures
            b == (self.in_function && self.current.scopes@.len() > 0
                && self.current.scopes@.last()@.contains_key(name@)),
    {
        if !self.in_function || self.current.scopes.len() == 0 {
            return false;
        }
        let last = self.current.scopes.len() - 1;
        self.current.scopes[last].contains_key(name)
    }

    /// The binding of `name` in the innermost scope that declares it.
    pub(crate) fn lookup_local(&self, name: &str) -> (r: Option<LocalBinding>)
        ensures
            !self.in_function ==> r is None,
            r is None <==> !declares_local(*self, name@),
            self.in_function ==> r == innermost_binding(self.current.scopes@, self.current.scopes@.len() as int, name@),
    {
        if !self.in_function {
            return None;
        }
        let mut i: usize = self.current.scopes.len();
        while i > 0
            invariant
                i <= self.current.scopes@.len(),
                self.in_function,
                forall|k: int| i <= k < self.current.scopes@.len() ==> !(#[trigger] self.current.scopes@[k])@.contains_key(name@),
                innermost_binding(self.current.scopes@, self.current.scopes@.len() as int, name@)
                    == innermost_binding(self.current.scopes@, i as int, name@),
            decreases i,
        {
            i = i - 1;
            match self.current.scopes[i].get(name) {
                Some(binding) => {
                    return Some(binding.duplicate());
                },
                None => {},
            }
        }
        None
    }

    /// Whether `name` is a local of an enclosing function, seen from inside a
    /// function literal.
    pub(crate) fn is_captured_local(&self, name: &str) -> (b: bool)
        ensures
            !self.in_function ==> !b,
            b == captured_outer_local(*self, name@),
    {
        if !self.in_function {
            return false;
        }
        match self.lookup_local(name) {
            Some(binding) => binding.closure_depth < self.current.closure_depth,
            None => false,
        }
    }

    /// The captured outer local at the root of an address expression, if any
    /// (recording the capture).
    pub(crate) fn address_root_captured_outer_local(&mut self, expr: &Expression) -> (r: Option<String>)
        ensures
            frame_kept(*old(self), *final(self)),
            final(self).diag@ == old(self).diag@,
            opt_view(r) == (match address_root_name(*expr) {
                Some(n) => if captured_outer_local(*old(self), n) {
                    Some(n)
                } else {
                    None::<Seq<char>>
                },
                None => None,
            }),
        decreases expr,
    {
        match expr {
            Expression::Ident(e) => {
                let binding = match self.lookup_local(e.name.as_str()) {
                    Some(b) => b,
                    None => {
                        return None;
                    },
                };
                if !self.is_captured_local(e.name.as_str()) {
                    return None;
                }
                self.record_capture(e.name.as_str(), binding.type_.as_str(), binding.closure_depth);
                Some(e.name.clone())
            },
            Expression::Group(e) => self.address_root_captured_outer_local(&e.inner),
            Expression::Selector(e) => self.address_root_captured_outer_local(&e.inner),
            Expression::Index(e) => self.address_root_captured_outer_local(&e.inner),
            _ => None,
        }
    }

    /// The innermost taskgroup entered at the current closure depth.
    pub(crate) fn current_taskgroup(&self) -> (r: Option<TaskgroupContext>)
        ensures
            !self.in_function ==> r is None,
            r is Some <==> in_taskgroup_body(*self),
    {
        if !self.in_function {
            return None;
        }
        let mut i: usize = self.current.taskgroups.len();
        while i > 0
            invariant
                i <= self.current.taskgroups@.len(),
                self.in_function,
                forall|k: int|
                    i <= k < self.current.taskgroups@.len() ==> #[trigger] self.current.taskgroups@[k].closure_depth
                        != self.current.closure_depth,
            decreases i,
        {
            i = i - 1;
            if self.current.taskgroups[i].closure_depth == self.current.closure_depth {
                return Some(self.current.taskgroups[i].clone());
            }
        }
        None
    }

    /// The innermost taskgroup, whatever closure depth it was entered at.
    pub(crate) fn current_taskgroup_or_enclosing(&self) -> (r: Option<TaskgroupContext>)
        ensures
            !self.in_function ==> r is None,
            r is Some <==> self.in_function && self.current.taskgroups@.len() > 0,
    {
        if !self.in_function || self.current.taskgroups.len() == 0 {
            return None;
        }
        let last = self.current.taskgroups.len() - 1;
        Some(self.current.taskgroups[last].clone())
    }

    /// The method `name` declared for exactly the receiver type `receiver`.
    pub(crate) fn lookup_method(&self, receiver: &str, name: &str) -> (r: Option<&Signature>)
        ensures
            match r {
                Some(sig) => method_of(self.info, receiver@, name@) == Some(*sig),
                None => method_of(self.info, receiver@, name@) is None,
            },
    {
        match self.info.methods.get(receiver) {
            Some(methods) => match methods.get(name) {
                Some(sig) => Some(sig),
                None => None,
            },
            None => None,
        }
    }

    /// The enum whose case has `payload_type` as its payload struct.
    pub(crate) fn enum_type_for_payload(&self, payload_type: &str) -> (r: Option<String>)
        ensures
            match r {
                Some(e) => self.info.enums@.contains_key(e@) && has_payload_case(
                    self.info.enums@[e@],
                    payload_type@,
                ),
                None => forall|e: Seq<char>|
                    #[trigger] self.info.enums@.contains_key(e) ==> !has_payload_case(
                        self.info.enums@[e],
                        payload_type@,
                    ),
            },
    {
        let n = self.info.enums.len();
        let mut i: usize = 0;
        while i < n
            invariant
                n == self.info.enums.size(),
                i <= n,
                self.info.enums.key_order().len() == n,
                forall|k: Seq<char>| self.info.enums@.contains_key(k) <==> self.info.enums.key_order().contains(k),
                forall|j: int|
                    0 <= j < i ==> !has_payload_case(
                        self.info.enums@[#[trigger] self.info.enums.key_order()[j]],
                        payload_type@,
                    ),
            decreases n - i,
        {
            let (enum_name, enum_info) = self.info.enums.entry(i);
            let mut c: usize = 0;
            while c < enum_info.cases.len()
                invariant
                    c <= enum_info.cases@.len(),
                    forall|k: int| 0 <= k < c ==> enum_info.cases@[k].payload_type@ != payload_type@,
                    self.info.enums@.contains_key(enum_name@),
                    self.info.enums@[enum_name@] == *enum_info,
                decreases enum_info.cases.len() - c,
            {
                if str_eq(enum_info.cases[c].payload_type.as_str(), payload_type) {
                    assert(has_payload_case(*enum_info, payload_type@)) by {
                        assert(enum_info.cases@[c as int].payload_type@ == payload_type@);
                    }
                    return Some(enum_name.clone());
                }
                c = c + 1;
            }
            i = i + 1;
        }
        proof {
            assert forall|e: Seq<char>|
                #[trigger] self.info.enums@.contains_key(e) implies !has_payload_case(
                self.info.enums@[e],
                payload_type@,
            ) by {
                let keys = self.info.enums.key_order();
                assert(keys.contains(e));
                let j = choose|j: int| 0 <= j < keys.len() && keys[j] == e;
                assert(keys[j] == e);
            }
        }
        None
    }

    /// Whether `concrete` has every method of `interface` with the same
    /// signature; an error message where it is an interface itself, lacks a
    /// method or has one of another shape.
    pub(crate) fn satisfies_interface(&self, concrete: &str, interface: &str) -> (r: Result<bool, String>)
        ensures
            concrete@ == interface@ ==> r == Ok::<bool, String>(true),
            concrete@ != interface@ && (concrete@.len() == 0 || interface@.len() == 0) ==> r == Ok::<
                bool,
                String,
            >(false),
            concrete@ != interface@ && concrete@.len() > 0 && interface@.len() > 0
                && self.info.interfaces@.contains_key(concrete@) ==> r is Err,
            concrete@ != interface@ && concrete@.len() > 0 && interface@.len() > 0
                && !self.info.interfaces@.contains_key(concrete@) && !self.info.interfaces@.contains_key(
                interface@,
            ) ==> r == Ok::<bool, String>(false),
            concrete@ != interface@ && concrete@.len() > 0 && interface@.len() > 0
                && !self.info.interfaces@.contains_key(concrete@) && self.info.interfaces@.contains_key(
                interface@,
            ) ==> (r is Ok <==> provides_methods(self.info, concrete@, self.info.interfaces@[interface@]))
                && (r is Ok ==> r == Ok::<bool, String>(true)),
    {
        if str_eq(concrete, interface) {
            return Ok(true);
        }
        if concrete.unicode_len() == 0 || interface.unicode_len() == 0 {
            return Ok(false);
        }
        if self.info.interfaces.contains_key(concrete) {
            return Err(
                cat(
                    vec![
                        "cannot assign ",
                        diagnostic_type_name(concrete).as_str(),
                        " to ",
                        diagnostic_type_name(interface).as_str(),
                    ],
                ),
            );
        }
        let info = match self.info.interfaces.get(interface) {
            Some(i) => i,
            None => {
                return Ok(false);
            },
        };
        let mut m: usize = 0;
        while m < info.methods.len()
            invariant
                m <= info.methods@.len(),
                concrete@ != interface@,
                concrete@.len() > 0,
                interface@.len() > 0,
                !self.info.interfaces@.contains_key(concrete@),
                self.info.interfaces@.contains_key(interface@),
                *info == self.info.interfaces@[interface@],
                forall|k: int| 0 <= k < m ==> provides_method(self.info, concrete@, #[trigger] info.methods@[k]),
            decreases info.methods.len() - m,
        {
            let method = &info.methods[m];
            let sig = match self.lookup_method(concrete, method.name.as_str()) {
                Some(s) => s,
                None => {
                    return Err(
                        cat(
                            vec![
                                "type ",
                                q(diagnostic_type_name(concrete).as_str()).as_str(),
                                " does not satisfy interface ",
                                q(diagnostic_type_name(interface).as_str()).as_str(),
                                " (missing method ",
                                q(method.name.as_str()).as_str(),
                                ")",
                            ],
                        ),
                    );
                },
            };
            if !str_eq(sig.return_type.as_str(), method.return_type.as_str()) || sig.errorable
                != method.errorable || !params_match_after_receiver(&sig.params, &method.params) {
                return Err(
                    cat(
                        vec![
                            "method ",
                            q(method.name.as_str()).as_str(),
                            " on ",
                            q(diagnostic_type_name(concrete).as_str()).as_str(),
                            " does not match interface ",
                            q(diagnostic_type_name(interface).as_str()).as_str(),
                        ],
                    ),
                );
            }
            m = m + 1;
        }
        Ok(true)
    }

    /// Whether the function being checked may propagate an error with `?`.
    pub(crate) fn current_can_propagate_error(&self) -> (b: bool)
        ensures
            b == (self.in_function && (self.current.signature.errorable
                || self.current.signature.return_type@ == "error"@)),
    {
        self.in_function && (self.current.signature.errorable || is_type(
            &self.current.signature.return_type,
            "error",
        ))
    }

    /// Records that the function literals entered deeper than `binding_depth`
    /// capture the local `name`.
    pub(crate) fn record_capture(&mut self, name: &str, type_: &str, binding_depth: usize)
        ensures
            frame_kept(*old(self), *final(self)),
            final(self).diag@ == old(self).diag@,
            final(self).in_function == old(self).in_function,
            !old(self).in_function ==> *final(self) == *old(self),
            final(self).current == old(self).current,
            forall|key: Seq<char>| #[trigger]
                old(self).info.function_literals@.contains_key(key)
                    ==> final(self).info.function_literals@.contains_key(key),
            forall|j: int|
                old(self).in_function && binding_depth <= j < old(self).current.literal_keys@.len()
                    && old(self).info.function_literals@.contains_key(
                    #[trigger] old(self).current.literal_keys@[j]@,
                ) ==> captures_local(
                    final(self).info.function_literals@[old(self).current.literal_keys@[j]@],
                    name@,
                ),
    {
        if !self.in_function {
            return;
        }
        let ghost lk = self.current.literal_keys@;
        let mut keys: Vec<String> = Vec::new();
        let mut i: usize = 0;
        while i < self.current.literal_keys.len()
            invariant
                *self == *old(self),
                lk == old(self).current.literal_keys@,
                i <= lk.len(),
                keys@.len() == (if i > binding_depth { i - binding_depth } else { 0 }),
                forall|j: int| 0 <= j < keys@.len() ==> #[trigger] keys@[j]@ == lk[binding_depth + j]@,
            decreases self.current.literal_keys.len() - i,
        {
            if i >= binding_depth {
                keys.push(self.current.literal_keys[i].clone());
            }
            i = i + 1;
        }
        let ghost d0 = self.diag@;
        let ghost f0 = self.in_function;
        let ghost m0 = self.info.function_literals@;
        let mut k: usize = 0;
        while k < keys.len()
            invariant
                frame_kept(*old(self), *self),
                self.current == old(self).current,
                k <= keys@.len(),
                self.diag@ == d0,
                self.in_function == f0,
                m0 == old(self).info.function_literals@,
                forall|key: Seq<char>| #[trigger] m0.contains_key(key) ==> self.info.function_literals@.contains_key(key),
                forall|j: int|
                    0 <= j < k && m0.contains_key(#[trigger] keys@[j]@) ==> captures_local(
                        self.info.function_literals@[keys@[j]@],
                        name@,
                    ),
            decreases keys.len() - k,
        {
            let key = keys[k].as_str();
            k = k + 1;
            let mut info = match self.info.function_literals.get(key) {
                Some(existing) => {
                    let mut present = false;
                    let mut c: usize = 0;
                    while c < existing.captures.len()
                        invariant
                            c <= existing.captures@.len(),
                            present ==> captures_local(*existing, name@),
                        decreases existing.captures.len() - c,
                    {
                        if str_eq(existing.captures[c].name.as_str(), name) {
                            present = true;
                        }
                        c = c + 1;
                    }
                    if present {
                        continue;
                    }
                    existing.clone()
                },
                None => {
                    continue;
                },
            };
            info.captures.push(CaptureInfo { name: owned(name), type_: owned(type_) });
            assert(info.captures@[info.captures@.len() - 1].name@ == name@);
            self.info.function_literals.insert(owned(key), info);
        }
        assert forall|j: int|
            old(self).in_function && binding_depth <= j < old(self).current.literal_keys@.len()
                && old(self).info.function_literals@.contains_key(
                #[trigger] old(self).current.literal_keys@[j]@,
            ) implies captures_local(
                self.info.function_literals@[old(self).current.literal_keys@[j]@],
                name@,
            ) by {
            assert(keys@[j - binding_depth]@ == lk[j]@);
        }
    }
}

/// A statement that is a `match` without an `else` arm covers every case of
/// some enum known to `info`.
pub open spec fn matches_cover_some_enum(stmt: Statement, info: Info) -> bool {
    match stmt {
        Statement::Match(m) => m.else_body is None ==> exists|k: Seq<char>|
            #![trigger info.enums@[k]]
            info.enums@.contains_key(k) && arms_cover(*m, info.enums@[k]),
        _ => true,
    }
}

/// The index of the first case of `e` called `name`.
pub open spec fn first_case_named(e: EnumInfo, name: Seq<char>) -> Option<int> {
    if exists|k: int| 0 <= k < e.cases@.len() && #[trigger] e.cases@[k].name@ == name {
        Some(
            choose|k: int|
                0 <= k < e.cases@.len() && #[trigger] e.cases@[k].name@ == name && forall|d: int|
                    0 <= d < k ==> #[trigger] e.cases@[d].name@ != name,
        )
    } else {
        None
    }
}

/// A case called `name` at `c`, with no earlier one, is the first so called.
pub(crate) proof fn lemma_first_case_named(e: EnumInfo, name: Seq<char>, c: int)
    requires
        0 <= c < e.cases@.len(),
        e.cases@[c].name@ == name,
        forall|d: int| 0 <= d < c ==> #[trigger] e.cases@[d].name@ != name,
    ensures
        first_case_named(e, name) == Some(c),
{
    let k = choose|k: int|
        0 <= k < e.cases@.len() && #[trigger] e.cases@[k].name@ == name && forall|d: int|
            0 <= d < k ==> #[trigger] e.cases@[d].name@ != name;
    assert(0 <= k < e.cases@.len() && e.cases@[k].name@ == name && forall|d: int|
        0 <= d < k ==> #[trigger] e.cases@[d].name@ != name);
    if k < c {
        assert(e.cases@[k].name@ != name);
    }
    if c < k {
        assert(e.cases@[c].name@ != name);
    }
}

/// With no case called `name`, there is no first one.
pub(crate) proof fn lemma_no_case_named(e: EnumInfo, name: Seq<char>)
    requires
        forall|d: int| 0 <= d < e.cases@.len() ==> #[trigger] e.cases@[d].name@ != name,
    ensures
        first_case_named(e, name) is None,
{
}

/// The type of an operand that is told without checking it: a literal's type,
/// or the type of the local variable it names.
pub open spec fn known_operand_type(c: Checker, e: Expression) -> Option<Seq<char>> {
    if literal_type(e) is Some {
        literal_type(e)
    } else {
        super::calls::local_type_of(c, e)
    }
}

/// Whether the function literal `info` lists a capture of the local `name`.
pub open spec fn captures_local(info: FunctionLiteralInfo, name: Seq<char>) -> bool {
    exists|c: int| 0 <= c < info.captures@.len() && #[trigger] info.captures@[c].name@ == name
}

/// Whether a taskgroup body of the current closure is being checked.
pub open spec fn in_taskgroup_body(c: Checker) -> bool {
    c.in_function && exists|k: int|
        0 <= k < c.current.taskgroups@.len() && #[trigger] c.current.taskgroups@[k].closure_depth
            == c.current.closure_depth
}

/// The index of the field called `name`.
pub fn find_field(fields: &Vec<StructField>, name: &str) -> (r: Option<usize>)
    ensures
        match r {
            Some(i) => i < fields@.len() && fields@[i as int].name@ == name@ && forall|j: int|
                0 <= j < i ==> fields@[j].name@ != name@,
            None => forall|j: int| 0 <= j < fields@.len() ==> fields@[j].name@ != name@,
        },
{
    let mut i: usize = 0;
    while i < fields.len()
        invariant
            i <= fields@.len(),
            forall|j: int| 0 <= j < i ==> fields@[j].name@ != name@,
        decreases fields.len() - i,
    {
        if str_eq(fields[i].name.as_str(), name) {
            return Some(i);
        }
        i = i + 1;
    }
    None
}

/// Whether a method's parameters after the receiver are those of an interface

/// The method `name` declared on `receiver`, if any.
pub open spec fn method_of(info: Info, receiver: Seq<char>, name: Seq<char>) -> Option<Signature> {
    if info.methods@.contains_key(receiver) && info.methods@[receiver]@.contains_key(name) {
        Some(info.methods@[receiver]@[name])
    } else {
        None
    }
}

/// Whether `concrete` declares a method with the name of `method` and its exact
/// signature: the same parameters after the receiver, result and errorability.
pub open spec fn provides_method(info: Info, concrete: Seq<char>, method: InterfaceMethodInfo) -> bool {
    match method_of(info, concrete, method.name@) {
        Some(sig) => sig.return_type@ == method.return_type@ && sig.errorable == method.errorable
            && sig.params@.len() == method.params@.len() + 1 && forall|i: int|
            0 <= i < method.params@.len() ==> sig.params@[i + 1]@ == method.params@[i]@,
        None => false,
    }
}

/// Whether `concrete` provides every method of an interface.
pub open spec fn provides_methods(info: Info, concrete: Seq<char>, interface: InterfaceInfo) -> bool {
    forall|k: int| 0 <= k < interface.methods@.len() ==> provides_method(info, concrete, #[trigger] interface.methods@[k])
}

/// method.
pub fn params_match_after_receiver(sig_params: &Vec<String>, method_params: &Vec<String>) -> (b: bool)
    ensures
        b == (sig_params@.len() == method_params@.len() + 1 && forall|i: int|
            0 <= i < method_params@.len() ==> sig_params@[i + 1]@ == method_params@[i]@),
{
    if sig_params.len() == 0 || sig_params.len() - 1 != method_params.len() {
        return false;
    }
    let mut i: usize = 0;
    while i < method_params.len()
        invariant
            sig_params@.len() == method_params@.len() + 1,
            i <= method_params@.len(),
            forall|j: int| 0 <= j < i ==> sig_params@[j + 1]@ == method_params@[j]@,
        decreases method_params.len() - i,
    {
        if !str_eq(sig_params[i + 1].as_str(), method_params[i].as_str()) {
            return false;
        }
        i = i + 1;
    }
    true
}

/// Whether two types may be compared with `==`: the same type (but not two
/// `nil`s), or `nil` and a pointer.
pub fn same_comparable_type(left: &str, right: &str) -> (b: bool)
    ensures
        b == ((left@ == right@ && left@ != "nil"@) || (left@ == "nil"@ && super::types::pointer_elem(
            right@,
        ) is Some) || (right@ == "nil"@ && super::types::pointer_elem(left@) is Some)),
{
    (str_eq(left, right) && !str_eq(left, "nil")) || (str_eq(left, "nil") && is_pointer_type(right)) || (
    str_eq(right, "nil") && is_pointer_type(left))
}

/// The logical, relational and equality operators, whose value is a `bool`.
pub open spec fn logical_or_comparison(op: Kind) -> bool {
    op == Kind::AmpAmp || op == Kind::PipePipe || op == Kind::Less || op == Kind::LessEqual || op
        == Kind::Greater || op == Kind::GreaterEqual || op == Kind::EqualEqual || op == Kind::BangEqual
}

/// The arithmetic operators.
pub open spec fn arithmetic_operator(op: Kind) -> bool {
    op == Kind::Plus || op == Kind::Minus || op == Kind::Star || op == Kind::Slash || op == Kind::Percent
}

/// The integer type two operands meet at: both untyped constants stay
/// untyped; an untyped operand takes the other's type when it fits it;
/// otherwise both must have the same integer type.
pub open spec fn binary_integer_type(
    left_expr: Expression,
    left: Seq<char>,
    right_expr: Expression,
    right: Seq<char>,
) -> Option<Seq<char>> {
    let fits_in = |e: Expression, target: Seq<char>|
        match super::types::const_value(e) {
            Some(v) => super::types::fits(v as int, target),
            None => super::types::operands_fit(e, target),
        };
    if !(super::types::integer_type_spec(left) && super::types::integer_type_spec(right)) {
        None
    } else if left == "untyped-int"@ && right == "untyped-int"@ {
        Some("untyped-int"@)
    } else if left == "untyped-int"@ && fits_in(left_expr, right) {
        Some(right)
    } else if right == "untyped-int"@ && fits_in(right_expr, left) {
        Some(left)
    } else if left == right {
        Some(left)
    } else {
        None
    }
}

/// Whether an integer expression fits `target`: its constant value where it has
/// one, else each of its operands.
pub fn int_expression_fits(expr: &Expression, target: &str) -> (b: bool)
    ensures
        b == (match super::types::const_value(*expr) {
            Some(v) => super::types::fits(v as int, target@),
            None => super::types::operands_fit(*expr, target@),
        }),
{
    match const_integer_expression(expr) {
        Some(value) => int_value_fits(value, target),
        None => int_expression_operands_fit(expr, target),
    }
}

} // verus!
