//! The markup extractor: finds, within the located function's body, the
//! expression the component returns as its render output.
//!
//! Two traversal strategies compose. The direct-return strategy takes the
//! argument of a `return` statement; the nested-call strategy recurses into
//! call-expression arguments of an expression statement (an immediately
//! invoked render call) looking for a markup literal inside. The search is
//! depth first and the first markup-shaped expression wins; nothing after
//! it is inspected. When no markup is found the pipeline still produces an
//! empty template block, never a hard failure.

use vstd::prelude::*;

use crate::ast::Expr;
use crate::ast::MarkupNode;
use crate::ast::Stmt;

verus! {

/// The first markup literal inside the expression, depth first: the
/// expression itself, or the first hit among a call's arguments.
pub open spec fn spec_find_markup_expr(e: Expr) -> Option<MarkupNode>
    decreases e, 1int,
{
    match e {
        Expr::Markup(m) => Some(m),
        Expr::Call { callee, args } => spec_find_markup_args(args@),
        _ => None,
    }
}

/// The first hit among the arguments, in order.
pub open spec fn spec_find_markup_args(args: Seq<Expr>) -> Option<MarkupNode>
    decreases args, 0int,
{
    if args.len() == 0 {
        None
    } else {
        match spec_find_markup_expr(args[0]) {
            Some(m) => Some(m),
            None => spec_find_markup_args(args.drop_first()),
        }
    }
}

/// The expression a statement offers to the search: the argument of a
/// `return`, or the expression of an expression statement.
pub open spec fn stmt_markup_expr(s: Stmt) -> Option<Expr> {
    match s {
        Stmt::Return(Some(e)) => Some(e),
        Stmt::ExprStmt(e) => Some(e),
        _ => None,
    }
}

/// The first markup literal the body yields, statement by statement.
pub open spec fn spec_find_markup(stmts: Seq<Stmt>) -> Option<MarkupNode>
    decreases stmts.len(),
{
    if stmts.len() == 0 {
        None
    } else {
        let head = match stmt_markup_expr(stmts[0]) {
            Some(e) => spec_find_markup_expr(e),
            None => None,
        };
        match head {
            Some(m) => Some(m),
            None => spec_find_markup(stmts.drop_first()),
        }
    }
}

/// Finds the first markup literal inside one expression.
#[verifier::loop_isolation(false)]
fn find_markup_in_expr(e: &Expr) -> (r: Option<&MarkupNode>)
    ensures
        (match r {
            Some(m) => spec_find_markup_expr(*e) == Some(*m),
            None => spec_find_markup_expr(*e) is None,
        }),
    decreases *e, 1int,
{
    match e {
        Expr::Markup(m) => Some(m),
        Expr::Call { callee: _, args } => find_markup_in_args(args),
        _ => None,
    }
}

/// Finds the first markup literal among call arguments.
#[verifier::loop_isolation(false)]
fn find_markup_in_args(args: &Vec<Expr>) -> (r: Option<&MarkupNode>)
    ensures
        (match r {
            Some(m) => spec_find_markup_args(args@) == Some(*m),
            None => spec_find_markup_args(args@) is None,
        }),
    decreases args@, 0int,
{
    let mut i: usize = 0;
    proof {
        assert(args@.skip(0) =~= args@);
    }
    while i < args.len()
        invariant
            i <= args.len(),
            spec_find_markup_args(args@) == spec_find_markup_args(args@.skip(i as int)),
        decreases args@.len() - i,
    {
        proof {
            assert(args@.skip(i as int)[0] == args@[i as int]);
            assert(args@.skip(i as int).drop_first() =~= args@.skip(i + 1 as int));
        }
        let found = find_markup_in_expr(&args[i]);
        match found {
            Some(m) => {
                return Some(m);
            },
            None => {},
        }
        i = i + 1;
    }
    proof {
        assert(args@.skip(args@.len() as int) =~= Seq::<Expr>::empty());
    }
    None
}

/// Finds the render output of the component body: the first markup-shaped
/// expression under either traversal strategy.
#[verifier::loop_isolation(false)]
pub fn extract_markup(body: &Vec<Stmt>) -> (r: Option<&MarkupNode>)
    ensures
        (match r {
            Some(m) => spec_find_markup(body@) == Some(*m),
            None => spec_find_markup(body@) is None,
        }),
{
    let mut i: usize = 0;
    proof {
        assert(body@.skip(0) =~= body@);
    }
    while i < body.len()
        invariant
            i <= body.len(),
            spec_find_markup(body@) == spec_find_markup(body@.skip(i as int)),
        decreases body@.len() - i,
    {
        proof {
            assert(body@.skip(i as int)[0] == body@[i as int]);
            assert(body@.skip(i as int).drop_first() =~= body@.skip(i + 1 as int));
        }
        match &body[i] {
            Stmt::Return(Some(e)) => {
                let found = find_markup_in_expr(e);
                match found {
                    Some(m) => {
                        return Some(m);
                    },
                    None => {},
                }
            },
            Stmt::ExprStmt(e) => {
                let found = find_markup_in_expr(e);
                match found {
                    Some(m) => {
                        return Some(m);
                    },
                    None => {},
                }
            },
            _ => {},
        }
        i = i + 1;
    }
    proof {
        assert(body@.skip(body@.len() as int) =~= Seq::<Stmt>::empty());
    }
    None
}

} // verus!
