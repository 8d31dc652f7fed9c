//! Walks over a program that collect what code generation declares up front:
//! every function literal, and the value types of map lookups and channel results.
use vstd::prelude::*;

use crate::ast::{
    BlockStmt, Expression, FunctionDecl, FunctionLiteralExpr, MapLiteralExpr, MapLiteralPair, MatchArm, MatchStmt,
    Program, Statement, StructLiteralExpr, StructLiteralField, TypeRef,
};
use crate::checker::types::{parse_chan_type, parse_map_type};
use crate::text::{keeps_prefix, owned};

verus! {

broadcast use {crate::text::lemma_keeps_prefix_trans, crate::text::lemma_keeps_prefix_refl};

/// How many function literals an expression holds, nested ones included.
pub open spec fn literals_in_expr(e: Expression) -> nat
    decreases e,
{
    match e {
        Expression::TypeApplication(x) => literals_in_expr(x.inner),
        Expression::Call(x) => literals_in_expr(x.callee) + literals_in_exprs(x.args@),
        Expression::FunctionLiteral(x) => 1 + literals_in_block(x.body),
        Expression::Taskgroup(x) => literals_in_block(x.body),
        Expression::Unary(x) => literals_in_expr(x.inner),
        Expression::Binary(x) => literals_in_expr(x.left) + literals_in_expr(x.right),
        Expression::Group(x) => literals_in_expr(x.inner),
        Expression::Selector(x) => literals_in_expr(x.inner),
        Expression::Index(x) => literals_in_expr(x.inner) + literals_in_expr(x.index),
        Expression::Slice(x) => literals_in_expr(x.inner) + literals_in_opt_expr(x.start) + literals_in_opt_expr(
            x.end,
        ),
        Expression::StructLiteral(x) => literals_in_fields(x.fields@),
        Expression::ArrayLiteral(x) => literals_in_exprs(x.elements@),
        Expression::SliceLiteral(x) => literals_in_exprs(x.elements@),
        Expression::MapLiteral(x) => literals_in_pairs(x.pairs@),
        Expression::Propagate(x) => literals_in_expr(x.inner),
        Expression::Handle(x) => literals_in_expr(x.inner) + literals_in_block(x.handler),
        _ => 0,
    }
}

/// How many function literals an optional expression holds.
pub open spec fn literals_in_opt_expr(e: Option<Expression>) -> nat
    decreases e,
{
    match e {
        Some(x) => literals_in_expr(x),
        None => 0,
    }
}

/// How many function literals a list of expressions holds.
pub open spec fn literals_in_exprs(es: Seq<Expression>) -> nat
    decreases es,
{
    if es.len() == 0 {
        0
    } else {
        literals_in_exprs(es.drop_last()) + literals_in_expr(es.last())
    }
}

/// How many function literals the values of struct literal fields hold.
pub open spec fn literals_in_fields(fs: Seq<StructLiteralField>) -> nat
    decreases fs,
{
    if fs.len() == 0 {
        0
    } else {
        literals_in_fields(fs.drop_last()) + literals_in_expr(fs.last().value)
    }
}

/// How many function literals the keys and values of map literal pairs hold.
pub open spec fn literals_in_pairs(ps: Seq<MapLiteralPair>) -> nat
    decreases ps,
{
    if ps.len() == 0 {
        0
    } else {
        literals_in_pairs(ps.drop_last()) + literals_in_expr(ps.last().key) + literals_in_expr(ps.last().value)
    }
}

/// How many function literals a block holds.
pub open spec fn literals_in_block(b: BlockStmt) -> nat
    decreases b,
{
    literals_in_stmts(b.stmts@)
}

/// How many function literals a list of statements holds.
pub open spec fn literals_in_stmts(ss: Seq<Statement>) -> nat
    decreases ss,
{
    if ss.len() == 0 {
        0
    } else {
        literals_in_stmts(ss.drop_last()) + literals_in_stmt(ss.last())
    }
}

/// How many function literals an optional statement holds.
pub open spec fn literals_in_opt_stmt(s: Option<Statement>) -> nat
    decreases s,
{
    match s {
        Some(x) => literals_in_stmt(x),
        None => 0,
    }
}

/// How many function literals the bodies of match arms hold.
pub open spec fn literals_in_arms(arms: Seq<MatchArm>) -> nat
    decreases arms,
{
    if arms.len() == 0 {
        0
    } else {
        literals_in_arms(arms.drop_last()) + literals_in_block(arms.last().body)
    }
}

/// How many function literals an optional block holds.
pub open spec fn literals_in_opt_block(b: Option<BlockStmt>) -> nat
    decreases b,
{
    match b {
        Some(x) => literals_in_block(x),
        None => 0,
    }
}

/// How many function literals a statement holds.
pub open spec fn literals_in_stmt(s: Statement) -> nat
    decreases s,
{
    match s {
        Statement::Block(b) => literals_in_block(*b),
        Statement::Let(x) => literals_in_expr(x.value),
        Statement::Var(x) => literals_in_opt_expr(x.value),
        Statement::Assign(x) => literals_in_expr(x.target) + literals_in_expr(x.value),
        Statement::CompoundAssign(x) => literals_in_expr(x.target) + literals_in_expr(x.value),
        Statement::If(x) => literals_in_expr(x.cond) + literals_in_block(x.then_block) + literals_in_opt_stmt(
            x.else_stmt,
        ),
        Statement::For(x) => literals_in_opt_stmt(x.init) + literals_in_opt_expr(x.cond) + literals_in_opt_stmt(
            x.post,
        ) + literals_in_block(x.body),
        Statement::Return(x) => literals_in_opt_expr(x.value),
        Statement::Match(x) => literals_in_expr(x.value) + literals_in_arms(x.arms@) + literals_in_opt_block(
            x.else_body,
        ),
        Statement::Expr(x) => literals_in_expr(x.expr),
        Statement::Spawn(x) => literals_in_expr(x.call),
        Statement::Break(_) => 0,
        Statement::Continue(_) => 0,
    }
}

/// How many function literals the bodies of declared functions hold.
pub open spec fn literals_in_functions(fs: Seq<FunctionDecl>) -> nat
    decreases fs.len(),
{
    if fs.len() == 0 {
        0
    } else {
        literals_in_functions(fs.drop_last()) + literals_in_block(fs.last().body)
    }
}


/// Every function literal of a program, outermost first, in source order.
pub fn collect_function_literals(program: &Program) -> (literals: Vec<&FunctionLiteralExpr>)
    ensures
        literals@.len() == literals_in_functions(program.functions@),
{
    let mut literals: Vec<&FunctionLiteralExpr> = Vec::new();
    let mut i: usize = 0;
    while i < program.functions.len()
        invariant
            i <= program.functions@.len(),
            literals@.len() == literals_in_functions(program.functions@.subrange(0, i as int)),
        decreases program.functions.len() - i,
    {
        collect_function_literals_from_block(&program.functions[i].body, &mut literals);
        i = i + 1;
        proof {
            let cur = program.functions@.subrange(0, i as int);
            assert(cur.drop_last() =~= program.functions@.subrange(0, i - 1));
        }
    }
    assert(program.functions@.subrange(0, program.functions@.len() as int) =~= program.functions@);
    literals
}


fn collect_function_literals_from_block<'a>(block: &'a BlockStmt, literals: &mut Vec<&'a FunctionLiteralExpr>)
    ensures
        keeps_prefix(old(literals)@, final(literals)@),
        final(literals)@.len() == old(literals)@.len() + literals_in_block(*block),
    decreases block, 1int,
{
    let mut i: usize = 0;
    while i < block.stmts.len()
        invariant
            i <= block.stmts@.len(),
            keeps_prefix(old(literals)@, literals@),
            literals@.len() == old(literals)@.len() + literals_in_stmts(block.stmts@.subrange(0, i as int)),
        decreases block.stmts.len() - i,
    {
        assert(decreases_to!(block => block.stmts@[i as int]));
        collect_function_literals_from_statement(&block.stmts[i], literals);
        i = i + 1;
        proof {
            let cur = block.stmts@.subrange(0, i as int);
            assert(cur.drop_last() =~= block.stmts@.subrange(0, i - 1));
        }
    }
    assert(block.stmts@.subrange(0, block.stmts@.len() as int) =~= block.stmts@);
}

fn collect_function_literals_from_statement<'a>(statement: &'a Statement, literals: &mut Vec<&'a FunctionLiteralExpr>)
    ensures
        keeps_prefix(old(literals)@, final(literals)@),
        final(literals)@.len() == old(literals)@.len() + literals_in_stmt(*statement),
    decreases statement, 1int,
{
    match statement {
        Statement::Block(block) => collect_function_literals_from_block(block, literals),
        Statement::Let(s) => collect_function_literals_from_expression(&s.value, literals),
        Statement::Var(s) => match &s.value {
            Some(v) => collect_function_literals_from_expression(v, literals),
            None => {},
        },
        Statement::Assign(s) => {
            collect_function_literals_from_expression(&s.target, literals);
            collect_function_literals_from_expression(&s.value, literals);
        },
        Statement::CompoundAssign(s) => {
            collect_function_literals_from_expression(&s.target, literals);
            collect_function_literals_from_expression(&s.value, literals);
        },
        Statement::If(s) => {
            collect_function_literals_from_expression(&s.cond, literals);
            collect_function_literals_from_block(&s.then_block, literals);
            match &s.else_stmt {
                Some(e) => collect_function_literals_from_statement(e, literals),
                None => {},
            }
        },
        Statement::For(s) => {
            match &s.init {
                Some(init) => collect_function_literals_from_statement(init, literals),
                None => {},
            }
            match &s.cond {
                Some(c) => collect_function_literals_from_expression(c, literals),
                None => {},
            }
            match &s.post {
                Some(p) => collect_function_literals_from_statement(p, literals),
                None => {},
            }
            collect_function_literals_from_block(&s.body, literals);
        },
        Statement::Return(s) => match &s.value {
            Some(v) => collect_function_literals_from_expression(v, literals),
            None => {},
        },
        Statement::Match(s) => {
            collect_function_literals_from_expression(&s.value, literals);
            collect_function_literals_from_arms(s, literals);
            match &s.else_body {
                Some(e) => collect_function_literals_from_block(e, literals),
                None => {},
            }
        },
        Statement::Expr(s) => collect_function_literals_from_expression(&s.expr, literals),
        Statement::Spawn(s) => collect_function_literals_from_expression(&s.call, literals),
        Statement::Break(_) | Statement::Continue(_) => {},
    }
}

fn collect_function_literals_from_expressions<'a>(
    owner: &'a Expression,
    items: &'a Vec<Expression>,
    literals: &mut Vec<&'a FunctionLiteralExpr>,
)
    requires
        decreases_to!(owner => items),
    ensures
        keeps_prefix(old(literals)@, final(literals)@),
        final(literals)@.len() == old(literals)@.len() + literals_in_exprs(items@),
    decreases owner, 0int,
{
    let mut i: usize = 0;
    while i < items.len()
        invariant
            i <= items@.len(),
            decreases_to!(owner => items),
            keeps_prefix(old(literals)@, literals@),
            literals@.len() == old(literals)@.len() + literals_in_exprs(items@.subrange(0, i as int)),
        decreases items.len() - i,
    {
        assert(decreases_to!(items => items@[i as int]));
        collect_function_literals_from_expression(&items[i], literals);
        i = i + 1;
        proof {
            let cur = items@.subrange(0, i as int);
            assert(cur.drop_last() =~= items@.subrange(0, i - 1));
        }
    }
    assert(items@.subrange(0, items@.len() as int) =~= items@);
}

fn collect_function_literals_from_expression<'a>(expression: &'a Expression, literals: &mut Vec<&'a FunctionLiteralExpr>)
    ensures
        keeps_prefix(old(literals)@, final(literals)@),
        final(literals)@.len() == old(literals)@.len() + literals_in_expr(*expression),
    decreases expression, 1int,
{
    match expression {
        Expression::TypeApplication(e) => collect_function_literals_from_expression(&e.inner, literals),
        Expression::Call(e) => {
            collect_function_literals_from_expression(&e.callee, literals);
            collect_function_literals_from_expressions(expression, &e.args, literals);
        },
        Expression::FunctionLiteral(e) => {
            literals.push(e);
            assert(literals@.subrange(0, old(literals)@.len() as int) =~= old(literals)@);
            assert(keeps_prefix(old(literals)@, literals@));
            let ghost mid = literals@;
            collect_function_literals_from_block(&e.body, literals);
            proof {
                crate::text::lemma_keeps_prefix_trans(old(literals)@, mid, literals@);
            }
        },
        Expression::Taskgroup(e) => collect_function_literals_from_block(&e.body, literals),
        Expression::Unary(e) => collect_function_literals_from_expression(&e.inner, literals),
        Expression::Binary(e) => {
            collect_function_literals_from_expression(&e.left, literals);
            collect_function_literals_from_expression(&e.right, literals);
        },
        Expression::Group(e) => collect_function_literals_from_expression(&e.inner, literals),
        Expression::Selector(e) => collect_function_literals_from_expression(&e.inner, literals),
        Expression::Index(e) => {
            collect_function_literals_from_expression(&e.inner, literals);
            collect_function_literals_from_expression(&e.index, literals);
        },
        Expression::Slice(e) => {
            collect_function_literals_from_expression(&e.inner, literals);
            let ghost after_inner = literals@;
            match &e.start {
                Some(s) => collect_function_literals_from_expression(s, literals),
                None => {
                    proof {
                        crate::text::lemma_keeps_prefix_refl(literals@);
                    }
                },
            }
            assert(literals@.len() == after_inner.len() + literals_in_opt_expr(e.start));
            let ghost after_start = literals@;
            match &e.end {
                Some(x) => collect_function_literals_from_expression(x, literals),
                None => {
                    proof {
                        crate::text::lemma_keeps_prefix_refl(literals@);
                    }
                },
            }
            assert(literals@.len() == after_start.len() + literals_in_opt_expr(e.end));
        },
        Expression::StructLiteral(e) => collect_function_literals_from_fields(e, literals),
        Expression::ArrayLiteral(e) => collect_function_literals_from_expressions(expression, &e.elements, literals),
        Expression::SliceLiteral(e) => collect_function_literals_from_expressions(expression, &e.elements, literals),
        Expression::MapLiteral(e) => collect_function_literals_from_pairs(e, literals),
        Expression::Propagate(e) => collect_function_literals_from_expression(&e.inner, literals),
        Expression::Handle(e) => {
            collect_function_literals_from_expression(&e.inner, literals);
            collect_function_literals_from_block(&e.handler, literals);
        },
        _ => {},
    }
}

/// Adds the value types of every map lookup and channel result that the
/// program's declarations and bodies mention (`void` and the element type for
/// each channel).
pub fn collect_map_result_types(program: &Program, result_types: &mut Vec<String>)
    ensures
        final(result_types)@.len() >= old(result_types)@.len(),
{
    let mut d: usize = 0;
    while d < program.structs.len()
        invariant
            d <= program.structs@.len(),
            result_types@.len() >= old(result_types)@.len(),
        decreases program.structs.len() - d,
    {
        let decl = &program.structs[d];
        let mut f: usize = 0;
        while f < decl.fields.len()
            invariant
                f <= decl.fields@.len(),
                result_types@.len() >= old(result_types)@.len(),
            decreases decl.fields.len() - f,
        {
            collect_map_result_types_from_type_ref(&decl.fields[f].type_ref, result_types);
            f = f + 1;
        }
        d = d + 1;
    }
    let mut d: usize = 0;
    while d < program.enums.len()
        invariant
            d <= program.enums@.len(),
            result_types@.len() >= old(result_types)@.len(),
        decreases program.enums.len() - d,
    {
        let decl = &program.enums[d];
        let mut c: usize = 0;
        while c < decl.cases.len()
            invariant
                c <= decl.cases@.len(),
                result_types@.len() >= old(result_types)@.len(),
            decreases decl.cases.len() - c,
        {
            let case = &decl.cases[c];
            let mut f: usize = 0;
            while f < case.fields.len()
                invariant
                    f <= case.fields@.len(),
                    result_types@.len() >= old(result_types)@.len(),
                decreases case.fields.len() - f,
            {
                collect_map_result_types_from_type_ref(&case.fields[f].type_ref, result_types);
                f = f + 1;
            }
            c = c + 1;
        }
        d = d + 1;
    }
    let mut fi: usize = 0;
    while fi < program.functions.len()
        invariant
            fi <= program.functions@.len(),
            result_types@.len() >= old(result_types)@.len(),
        decreases program.functions.len() - fi,
    {
        let function = &program.functions[fi];
        match &function.receiver {
            Some(r) => collect_map_result_types_from_type_ref(&r.type_ref, result_types),
            None => {},
        }
        let mut p: usize = 0;
        while p < function.params.len()
            invariant
                p <= function.params@.len(),
                result_types@.len() >= old(result_types)@.len(),
            decreases function.params.len() - p,
        {
            collect_map_result_types_from_type_ref(&function.params[p].type_ref, result_types);
            p = p + 1;
        }
        collect_map_result_types_from_type_ref(&function.return_type, result_types);
        collect_map_result_types_from_block(&function.body, result_types);
        fi = fi + 1;
    }
}

fn collect_map_result_types_from_optional_type_ref(t: &Option<Box<TypeRef>>, result_types: &mut Vec<String>)
    ensures
        final(result_types)@.len() >= old(result_types)@.len(),
    decreases t,
{
    match t {
        Some(b) => collect_map_result_types_from_type_ref(b, result_types),
        None => {},
    }
}

fn collect_map_result_types_from_type_refs(ts: &Vec<TypeRef>, result_types: &mut Vec<String>)
    ensures
        final(result_types)@.len() >= old(result_types)@.len(),
    decreases ts,
{
    let mut i: usize = 0;
    while i < ts.len()
        invariant
            i <= ts@.len(),
            result_types@.len() >= old(result_types)@.len(),
        decreases ts.len() - i,
    {
        assert(decreases_to!(ts => ts@[i as int]));
        collect_map_result_types_from_type_ref(&ts[i], result_types);
        i = i + 1;
    }
}

fn collect_map_result_types_from_type_ref(type_ref: &TypeRef, result_types: &mut Vec<String>)
    ensures
        final(result_types)@.len() >= old(result_types)@.len(),
    decreases type_ref,
{
    let spelled = type_ref.display();
    match parse_map_type(spelled.as_str()) {
        Some((_, value)) => result_types.push(value),
        None => {},
    }
    match parse_chan_type(spelled.as_str()) {
        Some(value) => {
            result_types.push(owned("void"));
            result_types.push(value);
        },
        None => {},
    }
    collect_map_result_types_from_type_refs(&type_ref.type_args, result_types);
    collect_map_result_types_from_optional_type_ref(&type_ref.elem, result_types);
    collect_map_result_types_from_optional_type_ref(&type_ref.key, result_types);
    collect_map_result_types_from_optional_type_ref(&type_ref.value, result_types);
    collect_map_result_types_from_type_refs(&type_ref.params, result_types);
    collect_map_result_types_from_optional_type_ref(&type_ref.return_type, result_types);
}

fn collect_map_result_types_from_block(block: &BlockStmt, result_types: &mut Vec<String>)
    ensures
        final(result_types)@.len() >= old(result_types)@.len(),
    decreases block, 1int,
{
    let mut i: usize = 0;
    while i < block.stmts.len()
        invariant
            i <= block.stmts@.len(),
            result_types@.len() >= old(result_types)@.len(),
        decreases block.stmts.len() - i,
    {
        assert(decreases_to!(block => block.stmts@[i as int]));
        collect_map_result_types_from_statement(&block.stmts[i], result_types);
        i = i + 1;
    }
}

fn collect_map_result_types_from_statement(statement: &Statement, result_types: &mut Vec<String>)
    ensures
        final(result_types)@.len() >= old(result_types)@.len(),
    decreases statement, 1int,
{
    match statement {
        Statement::Block(block) => collect_map_result_types_from_block(block, result_types),
        Statement::Let(s) => collect_map_result_types_from_expression(&s.value, result_types),
        Statement::Var(s) => {
            collect_map_result_types_from_type_ref(&s.type_ref, result_types);
            match &s.value {
                Some(v) => collect_map_result_types_from_expression(v, result_types),
                None => {},
            }
        },
        Statement::Assign(s) => {
            collect_map_result_types_from_expression(&s.target, result_types);
            collect_map_result_types_from_expression(&s.value, result_types);
        },
        Statement::CompoundAssign(s) => {
            collect_map_result_types_from_expression(&s.target, result_types);
            collect_map_result_types_from_expression(&s.value, result_types);
        },
        Statement::If(s) => {
            collect_map_result_types_from_expression(&s.cond, result_types);
            collect_map_result_types_from_block(&s.then_block, result_types);
            match &s.else_stmt {
                Some(e) => collect_map_result_types_from_statement(e, result_types),
                None => {},
            }
        },
        Statement::For(s) => {
            match &s.init {
                Some(init) => collect_map_result_types_from_statement(init, result_types),
                None => {},
            }
            match &s.cond {
                Some(c) => collect_map_result_types_from_expression(c, result_types),
                None => {},
            }
            match &s.post {
                Some(p) => collect_map_result_types_from_statement(p, result_types),
                None => {},
            }
            collect_map_result_types_from_block(&s.body, result_types);
        },
        Statement::Return(s) => match &s.value {
            Some(v) => collect_map_result_types_from_expression(v, result_types),
            None => {},
        },
        Statement::Match(s) => {
            collect_map_result_types_from_expression(&s.value, result_types);
            collect_map_result_types_from_arms(s, result_types);
            match &s.else_body {
                Some(e) => collect_map_result_types_from_block(e, result_types),
                None => {},
            }
        },
        Statement::Expr(s) => collect_map_result_types_from_expression(&s.expr, result_types),
        Statement::Spawn(s) => collect_map_result_types_from_expression(&s.call, result_types),
        Statement::Break(_) | Statement::Continue(_) => {},
    }
}

fn collect_map_result_types_from_expressions(owner: &Expression, items: &Vec<Expression>, result_types: &mut Vec<String>)
    requires
        decreases_to!(owner => items),
    ensures
        final(result_types)@.len() >= old(result_types)@.len(),
    decreases owner, 0int,
{
    let mut i: usize = 0;
    while i < items.len()
        invariant
            i <= items@.len(),
            decreases_to!(owner => items),
            result_types@.len() >= old(result_types)@.len(),
        decreases items.len() - i,
    {
        assert(decreases_to!(items => items@[i as int]));
        collect_map_result_types_from_expression(&items[i], result_types);
        i = i + 1;
    }
}

fn collect_map_result_types_from_expression(expression: &Expression, result_types: &mut Vec<String>)
    ensures
        final(result_types)@.len() >= old(result_types)@.len(),
    decreases expression, 1int,
{
    match expression {
        Expression::TypeApplication(e) => {
            collect_map_result_types_from_expression(&e.inner, result_types);
            let is_chan_new = match &e.inner {
                Expression::Ident(ident) => crate::text::str_eq(ident.name.as_str(), "chan_new"),
                _ => false,
            };
            if is_chan_new && e.type_args.len() == 1 {
                result_types.push(owned("void"));
                result_types.push(e.type_args[0].display());
            }
            collect_map_result_types_from_type_refs(&e.type_args, result_types);
        },
        Expression::Call(e) => {
            collect_map_result_types_from_expression(&e.callee, result_types);
            collect_map_result_types_from_expressions(expression, &e.args, result_types);
        },
        Expression::FunctionLiteral(e) => {
            let mut p: usize = 0;
            while p < e.params.len()
                invariant
                    p <= e.params@.len(),
                    result_types@.len() >= old(result_types)@.len(),
                decreases e.params.len() - p,
            {
                collect_map_result_types_from_type_ref(&e.params[p].type_ref, result_types);
                p = p + 1;
            }
            collect_map_result_types_from_type_ref(&e.return_type, result_types);
            collect_map_result_types_from_block(&e.body, result_types);
        },
        Expression::Taskgroup(e) => {
            collect_map_result_types_from_type_ref(&e.result_type, result_types);
            collect_map_result_types_from_block(&e.body, result_types);
        },
        Expression::Unary(e) => collect_map_result_types_from_expression(&e.inner, result_types),
        Expression::Binary(e) => {
            collect_map_result_types_from_expression(&e.left, result_types);
            collect_map_result_types_from_expression(&e.right, result_types);
        },
        Expression::Group(e) => collect_map_result_types_from_expression(&e.inner, result_types),
        Expression::Selector(e) => collect_map_result_types_from_expression(&e.inner, result_types),
        Expression::Index(e) => {
            collect_map_result_types_from_expression(&e.inner, result_types);
            collect_map_result_types_from_expression(&e.index, result_types);
        },
        Expression::Slice(e) => {
            collect_map_result_types_from_expression(&e.inner, result_types);
            match &e.start {
                Some(s) => collect_map_result_types_from_expression(s, result_types),
                None => {},
            }
            match &e.end {
                Some(x) => collect_map_result_types_from_expression(x, result_types),
                None => {},
            }
        },
        Expression::StructLiteral(e) => {
            collect_map_result_types_from_type_ref(&e.type_ref, result_types);
            collect_map_result_types_from_fields(e, result_types);
        },
        Expression::ArrayLiteral(e) => {
            collect_map_result_types_from_type_ref(&e.type_ref, result_types);
            collect_map_result_types_from_expressions(expression, &e.elements, result_types);
        },
        Expression::SliceLiteral(e) => {
            collect_map_result_types_from_type_ref(&e.type_ref, result_types);
            collect_map_result_types_from_expressions(expression, &e.elements, result_types);
        },
        Expression::MapLiteral(e) => {
            collect_map_result_types_from_type_ref(&e.type_ref, result_types);
            collect_map_result_types_from_pairs(e, result_types);
        },
        Expression::Propagate(e) => collect_map_result_types_from_expression(&e.inner, result_types),
        Expression::Handle(e) => {
            collect_map_result_types_from_expression(&e.inner, result_types);
            collect_map_result_types_from_block(&e.handler, result_types);
        },
        _ => {},
    }
}

fn collect_function_literals_from_arms<'a>(s: &'a MatchStmt, literals: &mut Vec<&'a FunctionLiteralExpr>)
    ensures
        keeps_prefix(old(literals)@, final(literals)@),
        final(literals)@.len() == old(literals)@.len() + literals_in_arms(s.arms@),
    decreases s, 0int,
{
    let mut i: usize = 0;
    while i < s.arms.len()
        invariant
            i <= s.arms@.len(),
            keeps_prefix(old(literals)@, literals@),
            literals@.len() == old(literals)@.len() + literals_in_arms(s.arms@.subrange(0, i as int)),
        decreases s.arms.len() - i,
    {
        assert(decreases_to!(s => s.arms@[i as int].body));
        collect_function_literals_from_block(&s.arms[i].body, literals);
        i = i + 1;
        proof {
            let cur = s.arms@.subrange(0, i as int);
            assert(cur.drop_last() =~= s.arms@.subrange(0, i - 1));
        }
    }
    assert(s.arms@.subrange(0, s.arms@.len() as int) =~= s.arms@);
}

fn collect_function_literals_from_fields<'a>(e: &'a StructLiteralExpr, literals: &mut Vec<&'a FunctionLiteralExpr>)
    ensures
        keeps_prefix(old(literals)@, final(literals)@),
        final(literals)@.len() == old(literals)@.len() + literals_in_fields(e.fields@),
    decreases e, 0int,
{
    let mut i: usize = 0;
    while i < e.fields.len()
        invariant
            i <= e.fields@.len(),
            keeps_prefix(old(literals)@, literals@),
            literals@.len() == old(literals)@.len() + literals_in_fields(e.fields@.subrange(0, i as int)),
        decreases e.fields.len() - i,
    {
        assert(decreases_to!(e => e.fields@[i as int].value));
        collect_function_literals_from_expression(&e.fields[i].value, literals);
        i = i + 1;
        proof {
            let cur = e.fields@.subrange(0, i as int);
            assert(cur.drop_last() =~= e.fields@.subrange(0, i - 1));
        }
    }
    assert(e.fields@.subrange(0, e.fields@.len() as int) =~= e.fields@);
}

fn collect_function_literals_from_pairs<'a>(e: &'a MapLiteralExpr, literals: &mut Vec<&'a FunctionLiteralExpr>)
    ensures
        keeps_prefix(old(literals)@, final(literals)@),
        final(literals)@.len() == old(literals)@.len() + literals_in_pairs(e.pairs@),
    decreases e, 0int,
{
    let mut i: usize = 0;
    while i < e.pairs.len()
        invariant
            i <= e.pairs@.len(),
            keeps_prefix(old(literals)@, literals@),
            literals@.len() == old(literals)@.len() + literals_in_pairs(e.pairs@.subrange(0, i as int)),
        decreases e.pairs.len() - i,
    {
        assert(decreases_to!(e => e.pairs@[i as int].key));
        assert(decreases_to!(e => e.pairs@[i as int].value));
        collect_function_literals_from_expression(&e.pairs[i].key, literals);
        collect_function_literals_from_expression(&e.pairs[i].value, literals);
        i = i + 1;
        proof {
            let cur = e.pairs@.subrange(0, i as int);
            assert(cur.drop_last() =~= e.pairs@.subrange(0, i - 1));
        }
    }
    assert(e.pairs@.subrange(0, e.pairs@.len() as int) =~= e.pairs@);
}

fn collect_map_result_types_from_arms(s: &MatchStmt, result_types: &mut Vec<String>)
    ensures
        final(result_types)@.len() >= old(result_types)@.len(),
    decreases s, 0int,
{
    let mut i: usize = 0;
    while i < s.arms.len()
        invariant
            i <= s.arms@.len(),
            result_types@.len() >= old(result_types)@.len(),
        decreases s.arms.len() - i,
    {
        assert(decreases_to!(s => s.arms@[i as int].body));
        collect_map_result_types_from_type_ref(&s.arms[i].enum_type, result_types);
        collect_map_result_types_from_block(&s.arms[i].body, result_types);
        i = i + 1;
    }
}

fn collect_map_result_types_from_fields(e: &StructLiteralExpr, result_types: &mut Vec<String>)
    ensures
        final(result_types)@.len() >= old(result_types)@.len(),
    decreases e, 0int,
{
    let mut i: usize = 0;
    while i < e.fields.len()
        invariant
            i <= e.fields@.len(),
            result_types@.len() >= old(result_types)@.len(),
        decreases e.fields.len() - i,
    {
        assert(decreases_to!(e => e.fields@[i as int].value));
        collect_map_result_types_from_expression(&e.fields[i].value, result_types);
        i = i + 1;
    }
}

fn collect_map_result_types_from_pairs(e: &MapLiteralExpr, result_types: &mut Vec<String>)
    ensures
        final(result_types)@.len() >= old(result_types)@.len(),
    decreases e, 0int,
{
    let mut i: usize = 0;
    while i < e.pairs.len()
        invariant
            i <= e.pairs@.len(),
            result_types@.len() >= old(result_types)@.len(),
        decreases e.pairs.len() - i,
    {
        assert(decreases_to!(e => e.pairs@[i as int].key));
        assert(decreases_to!(e => e.pairs@[i as int].value));
        collect_map_result_types_from_expression(&e.pairs[i].key, result_types);
        collect_map_result_types_from_expression(&e.pairs[i].value, result_types);
        i = i + 1;
    }
}

} // verus!
