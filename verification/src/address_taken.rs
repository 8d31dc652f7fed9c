//! Finds the locals of a function body whose address is taken with `&`.
use vstd::prelude::*;

use crate::ast::{BlockStmt, Expression, MapLiteralPair, MatchArm, Statement, StructLiteralField};
use crate::names::NameSet;
use crate::token::Kind;

verus! {

/// The local that an addressable expression is rooted at: the identifier reached
/// through groups, field selections and indexing.
pub open spec fn address_root(e: Expression) -> Option<Seq<char>>
    decreases e,
{
    match e {
        Expression::Ident(x) => Some(x.name@),
        Expression::Group(x) => address_root(x.inner),
        Expression::Selector(x) => address_root(x.inner),
        Expression::Index(x) => address_root(x.inner),
        _ => None,
    }
}

/// The locals whose address an expression takes (not looking into function literals).
pub open spec fn taken_expr(e: Expression) -> Set<Seq<char>>
    decreases e,
{
    match e {
        Expression::TypeApplication(x) => taken_expr(x.inner),
        Expression::Call(x) => taken_expr(x.callee) + taken_exprs(x.args@),
        Expression::FunctionLiteral(_) => Set::empty(),
        Expression::Taskgroup(x) => taken_block(x.body),
        Expression::Unary(x) => (if x.operator == Kind::Amp && address_root(x.inner) is Some {
            set![address_root(x.inner)->0]
        } else {
            Set::empty()
        }) + taken_expr(x.inner),
        Expression::Binary(x) => taken_expr(x.left) + taken_expr(x.right),
        Expression::Group(x) => taken_expr(x.inner),
        Expression::Selector(x) => taken_expr(x.inner),
        Expression::Index(x) => taken_expr(x.inner) + taken_expr(x.index),
        Expression::Slice(x) => taken_expr(x.inner) + taken_opt_expr(x.start) + taken_opt_expr(
            x.end,
        ),
        Expression::StructLiteral(x) => taken_fields(x.fields@),
        Expression::ArrayLiteral(x) => taken_exprs(x.elements@),
        Expression::SliceLiteral(x) => taken_exprs(x.elements@),
        Expression::MapLiteral(x) => taken_pairs(x.pairs@),
        Expression::Propagate(x) => taken_expr(x.inner),
        Expression::Handle(x) => taken_expr(x.inner) + taken_block(x.handler),
        _ => Set::empty(),
    }
}

/// The locals whose address an optional expression takes.
pub open spec fn taken_opt_expr(e: Option<Expression>) -> Set<Seq<char>>
    decreases e,
{
    match e {
        Some(x) => taken_expr(x),
        None => Set::empty(),
    }
}

/// The locals whose address a list of expressions takes.
pub open spec fn taken_exprs(es: Seq<Expression>) -> Set<Seq<char>>
    decreases es,
{
    if es.len() == 0 {
        Set::empty()
    } else {
        taken_exprs(es.drop_last()) + taken_expr(es.last())
    }
}

/// The locals whose address the values of struct literal fields take.
pub open spec fn taken_fields(fs: Seq<StructLiteralField>) -> Set<Seq<char>>
    decreases fs,
{
    if fs.len() == 0 {
        Set::empty()
    } else {
        taken_fields(fs.drop_last()) + taken_expr(fs.last().value)
    }
}

/// The locals whose address the keys and values of map literal pairs take.
pub open spec fn taken_pairs(ps: Seq<MapLiteralPair>) -> Set<Seq<char>>
    decreases ps,
{
    if ps.len() == 0 {
        Set::empty()
    } else {
        taken_pairs(ps.drop_last()) + taken_expr(ps.last().key) + taken_expr(ps.last().value)
    }
}

/// The locals whose address a block takes.
pub open spec fn taken_block(b: BlockStmt) -> Set<Seq<char>>
    decreases b,
{
    taken_stmts(b.stmts@)
}

/// The locals whose address a list of statements takes.
pub open spec fn taken_stmts(ss: Seq<Statement>) -> Set<Seq<char>>
    decreases ss,
{
    if ss.len() == 0 {
        Set::empty()
    } else {
        taken_stmts(ss.drop_last()) + taken_stmt(ss.last())
    }
}

/// The locals whose address an optional statement takes.
pub open spec fn taken_opt_stmt(s: Option<Statement>) -> Set<Seq<char>>
    decreases s,
{
    match s {
        Some(x) => taken_stmt(x),
        None => Set::empty(),
    }
}

/// The locals whose address the bodies of match arms take.
pub open spec fn taken_arms(arms: Seq<MatchArm>) -> Set<Seq<char>>
    decreases arms,
{
    if arms.len() == 0 {
        Set::empty()
    } else {
        taken_arms(arms.drop_last()) + taken_block(arms.last().body)
    }
}

/// The locals whose address an optional block takes.
pub open spec fn taken_opt_block(b: Option<BlockStmt>) -> Set<Seq<char>>
    decreases b,
{
    match b {
        Some(x) => taken_block(x),
        None => Set::empty(),
    }
}

/// The locals whose address a statement takes.
pub open spec fn taken_stmt(s: Statement) -> Set<Seq<char>>
    decreases s,
{
    match s {
        Statement::Block(b) => taken_block(*b),
        Statement::Let(x) => taken_expr(x.value),
        Statement::Var(x) => taken_opt_expr(x.value),
        Statement::Assign(x) => taken_expr(x.target) + taken_expr(x.value),
        Statement::CompoundAssign(x) => taken_expr(x.target) + taken_expr(x.value),
        Statement::If(x) => taken_expr(x.cond) + taken_block(x.then_block) + taken_opt_stmt(
            x.else_stmt,
        ),
        Statement::For(x) => taken_opt_stmt(x.init) + taken_opt_expr(x.cond) + taken_opt_stmt(
            x.post,
        ) + taken_block(x.body),
        Statement::Return(x) => taken_opt_expr(x.value),
        Statement::Match(x) => taken_expr(x.value) + taken_arms(x.arms@) + taken_opt_block(
            x.else_body,
        ),
        Statement::Expr(x) => taken_expr(x.expr),
        Statement::Spawn(x) => taken_expr(x.call),
        Statement::Break(_) => Set::empty(),
        Statement::Continue(_) => Set::empty(),
    }
}

/// The locals of `block` whose address is taken with `&`, directly or through
/// field selection, indexing or grouping; function literals are not entered.
pub fn collect_address_taken_locals(block: &BlockStmt) -> (locals: NameSet)
    ensures
        locals@ == taken_block(*block),
{
    let mut locals = NameSet::new();
    collect_from_block(block, &mut locals);
    assert(locals@ =~= taken_block(*block));
    locals
}

fn collect_from_block(block: &BlockStmt, locals: &mut NameSet)
    ensures
        final(locals)@ == old(locals)@ + taken_block(*block),
    decreases block,
{
    let mut i: usize = 0;
    while i < block.stmts.len()
        invariant
            i <= block.stmts@.len(),
            locals@ == old(locals)@ + taken_stmts(block.stmts@.subrange(0, i as int)),
        decreases block.stmts.len() - i,
    {
        assert(decreases_to!(block => block.stmts@[i as int]));
        collect_from_statement(&block.stmts[i], locals);
        i = i + 1;
        proof {
            let cur = block.stmts@.subrange(0, i as int);
            assert(cur.drop_last() =~= block.stmts@.subrange(0, i - 1));
            assert(locals@ =~= old(locals)@ + taken_stmts(cur));
        }
    }
    assert(block.stmts@.subrange(0, block.stmts@.len() as int) =~= block.stmts@);
}

fn collect_from_exprs(es: &Vec<Expression>, locals: &mut NameSet)
    ensures
        final(locals)@ == old(locals)@ + taken_exprs(es@),
    decreases es,
{
    let mut i: usize = 0;
    while i < es.len()
        invariant
            i <= es@.len(),
            locals@ == old(locals)@ + taken_exprs(es@.subrange(0, i as int)),
        decreases es.len() - i,
    {
        assert(decreases_to!(es => es@[i as int]));
        collect_from_expression(&es[i], locals);
        i = i + 1;
        proof {
            let cur = es@.subrange(0, i as int);
            assert(cur.drop_last() =~= es@.subrange(0, i - 1));
            assert(locals@ =~= old(locals)@ + taken_exprs(cur));
        }
    }
    assert(es@.subrange(0, es@.len() as int) =~= es@);
}

fn collect_from_opt_expression(e: &Option<Expression>, locals: &mut NameSet)
    ensures
        final(locals)@ == old(locals)@ + taken_opt_expr(*e),
    decreases e,
{
    match e {
        Some(x) => collect_from_expression(x, locals),
        None => {
            assert(locals@ =~= old(locals)@ + Set::<Seq<char>>::empty());
        },
    }
}

fn collect_from_opt_statement(s: &Option<Statement>, locals: &mut NameSet)
    ensures
        final(locals)@ == old(locals)@ + taken_opt_stmt(*s),
    decreases s,
{
    match s {
        Some(x) => collect_from_statement(x, locals),
        None => {
            assert(locals@ =~= old(locals)@ + Set::<Seq<char>>::empty());
        },
    }
}

fn collect_from_statement(statement: &Statement, locals: &mut NameSet)
    ensures
        final(locals)@ == old(locals)@ + taken_stmt(*statement),
    decreases statement,
{
    match statement {
        Statement::Block(block) => collect_from_block(block, locals),
        Statement::Let(statement) => collect_from_expression(&statement.value, locals),
        Statement::Var(statement) => collect_from_opt_expression(&statement.value, locals),
        Statement::Assign(statement) => {
            collect_from_expression(&statement.target, locals);
            collect_from_expression(&statement.value, locals);
            assert(locals@ =~= old(locals)@ + (taken_expr(statement.target) + taken_expr(
                statement.value,
            )));
        },
        Statement::CompoundAssign(statement) => {
            collect_from_expression(&statement.target, locals);
            collect_from_expression(&statement.value, locals);
            assert(locals@ =~= old(locals)@ + (taken_expr(statement.target) + taken_expr(
                statement.value,
            )));
        },
        Statement::If(statement) => {
            collect_from_expression(&statement.cond, locals);
            collect_from_block(&statement.then_block, locals);
            collect_from_opt_statement(&statement.else_stmt, locals);
            assert(locals@ =~= old(locals)@ + (taken_expr(statement.cond) + taken_block(
                statement.then_block,
            ) + taken_opt_stmt(statement.else_stmt)));
        },
        Statement::For(statement) => {
            collect_from_opt_statement(&statement.init, locals);
            collect_from_opt_expression(&statement.cond, locals);
            collect_from_opt_statement(&statement.post, locals);
            collect_from_block(&statement.body, locals);
            assert(locals@ =~= old(locals)@ + (taken_opt_stmt(statement.init) + taken_opt_expr(
                statement.cond,
            ) + taken_opt_stmt(statement.post) + taken_block(statement.body)));
        },
        Statement::Return(statement) => collect_from_opt_expression(&statement.value, locals),
        Statement::Match(statement) => {
            collect_from_expression(&statement.value, locals);
            collect_from_arms(&statement.arms, locals);
            match &statement.else_body {
                Some(else_body) => collect_from_block(else_body, locals),
                None => {},
            }
            assert(locals@ =~= old(locals)@ + (taken_expr(statement.value) + taken_arms(
                statement.arms@,
            ) + taken_opt_block(statement.else_body)));
        },
        Statement::Expr(statement) => collect_from_expression(&statement.expr, locals),
        Statement::Spawn(statement) => collect_from_expression(&statement.call, locals),
        Statement::Break(_) => {
            assert(locals@ =~= old(locals)@ + Set::<Seq<char>>::empty());
        },
        Statement::Continue(_) => {
            assert(locals@ =~= old(locals)@ + Set::<Seq<char>>::empty());
        },
    }
}

fn collect_from_expression(expression: &Expression, locals: &mut NameSet)
    ensures
        final(locals)@ == old(locals)@ + taken_expr(*expression),
    decreases expression,
{
    match expression {
        Expression::TypeApplication(x) => collect_from_expression(&x.inner, locals),
        Expression::Call(x) => {
            collect_from_expression(&x.callee, locals);
            collect_from_exprs(&x.args, locals);
            assert(locals@ =~= old(locals)@ + (taken_expr(x.callee) + taken_exprs(x.args@)));
        },
        Expression::FunctionLiteral(_) => {
            assert(locals@ =~= old(locals)@ + Set::<Seq<char>>::empty());
        },
        Expression::Taskgroup(x) => collect_from_block(&x.body, locals),
        Expression::Unary(x) => {
            if x.operator == Kind::Amp {
                match address_root_local(&x.inner) {
                    Some(name) => {
                        locals.insert(name);
                    },
                    None => {},
                }
            }
            collect_from_expression(&x.inner, locals);
            assert(locals@ =~= old(locals)@ + taken_expr(*expression));
        },
        Expression::Binary(x) => {
            collect_from_expression(&x.left, locals);
            collect_from_expression(&x.right, locals);
            assert(locals@ =~= old(locals)@ + (taken_expr(x.left) + taken_expr(x.right)));
        },
        Expression::Group(x) => collect_from_expression(&x.inner, locals),
        Expression::Selector(x) => collect_from_expression(&x.inner, locals),
        Expression::Index(x) => {
            collect_from_expression(&x.inner, locals);
            collect_from_expression(&x.index, locals);
            assert(locals@ =~= old(locals)@ + (taken_expr(x.inner) + taken_expr(x.index)));
        },
        Expression::Slice(x) => {
            collect_from_expression(&x.inner, locals);
            collect_from_opt_expression(&x.start, locals);
            collect_from_opt_expression(&x.end, locals);
            assert(locals@ =~= old(locals)@ + (taken_expr(x.inner) + taken_opt_expr(x.start)
                + taken_opt_expr(x.end)));
        },
        Expression::StructLiteral(x) => collect_from_fields(&x.fields, locals),
        Expression::ArrayLiteral(x) => collect_from_exprs(&x.elements, locals),
        Expression::SliceLiteral(x) => collect_from_exprs(&x.elements, locals),
        Expression::MapLiteral(x) => collect_from_pairs(&x.pairs, locals),
        Expression::Propagate(x) => collect_from_expression(&x.inner, locals),
        Expression::Handle(x) => {
            collect_from_expression(&x.inner, locals);
            collect_from_block(&x.handler, locals);
            assert(locals@ =~= old(locals)@ + (taken_expr(x.inner) + taken_block(x.handler)));
        },
        _ => {
            assert(locals@ =~= old(locals)@ + Set::<Seq<char>>::empty());
        },
    }
}

fn collect_from_fields(fs: &Vec<StructLiteralField>, locals: &mut NameSet)
    ensures
        final(locals)@ == old(locals)@ + taken_fields(fs@),
    decreases fs,
{
    let mut i: usize = 0;
    while i < fs.len()
        invariant
            i <= fs@.len(),
            locals@ == old(locals)@ + taken_fields(fs@.subrange(0, i as int)),
        decreases fs.len() - i,
    {
        assert(decreases_to!(fs => fs@[i as int].value));
        collect_from_expression(&fs[i].value, locals);
        i = i + 1;
        proof {
            let cur = fs@.subrange(0, i as int);
            assert(cur.drop_last() =~= fs@.subrange(0, i - 1));
            assert(locals@ =~= old(locals)@ + taken_fields(cur));
        }
    }
    assert(fs@.subrange(0, fs@.len() as int) =~= fs@);
}

fn collect_from_pairs(ps: &Vec<MapLiteralPair>, locals: &mut NameSet)
    ensures
        final(locals)@ == old(locals)@ + taken_pairs(ps@),
    decreases ps,
{
    let mut i: usize = 0;
    while i < ps.len()
        invariant
            i <= ps@.len(),
            locals@ == old(locals)@ + taken_pairs(ps@.subrange(0, i as int)),
        decreases ps.len() - i,
    {
        assert(decreases_to!(ps => ps@[i as int].key));
        assert(decreases_to!(ps => ps@[i as int].value));
        collect_from_expression(&ps[i].key, locals);
        collect_from_expression(&ps[i].value, locals);
        i = i + 1;
        proof {
            let cur = ps@.subrange(0, i as int);
            assert(cur.drop_last() =~= ps@.subrange(0, i - 1));
            assert(locals@ =~= old(locals)@ + taken_pairs(cur));
        }
    }
    assert(ps@.subrange(0, ps@.len() as int) =~= ps@);
}

fn collect_from_arms(arms: &Vec<MatchArm>, locals: &mut NameSet)
    ensures
        final(locals)@ == old(locals)@ + taken_arms(arms@),
    decreases arms,
{
    let mut i: usize = 0;
    while i < arms.len()
        invariant
            i <= arms@.len(),
            locals@ == old(locals)@ + taken_arms(arms@.subrange(0, i as int)),
        decreases arms.len() - i,
    {
        assert(decreases_to!(arms => arms@[i as int].body));
        collect_from_block(&arms[i].body, locals);
        i = i + 1;
        proof {
            let cur = arms@.subrange(0, i as int);
            assert(cur.drop_last() =~= arms@.subrange(0, i - 1));
            assert(locals@ =~= old(locals)@ + taken_arms(cur));
        }
    }
    assert(arms@.subrange(0, arms@.len() as int) =~= arms@);
}

/// The local that an addressable expression is rooted at, if any.
fn address_root_local(expression: &Expression) -> (r: Option<String>)
    ensures
        match r {
            Some(n) => address_root(*expression) == Some(n@),
            None => address_root(*expression) is None,
        },
    decreases expression,
{
    match expression {
        Expression::Ident(x) => Some(x.name.clone()),
        Expression::Group(x) => address_root_local(&x.inner),
        Expression::Selector(x) => address_root_local(&x.inner),
        Expression::Index(x) => address_root_local(&x.inner),
        _ => None,
    }
}

} // verus!
