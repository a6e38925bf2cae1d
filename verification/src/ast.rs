//! The data model of the transpiler: the syntax tree handed in by the
//! surrounding tool (built from an outside parser's output), the markup tree
//! embedded in it, and the component descriptor that the recognizers fill.
//!
//! Every type is plain data. Sub-expressions that the transpiler only prints
//! are carried in their serialized text form (`String`); the tree never holds
//! a reference back into the parser's own structures. A markup fragment is
//! represented as an element whose tag is the empty string.
//!
//! For specification purposes each markup-side type has a mathematical view
//! (`…View`) over `Seq<char>` and `Seq<…>`, computed by the `view_…` spec
//! functions below.

use vstd::prelude::*;
use vstd::string::StringExecFns;

use crate::text::join_with;
use crate::text::lemma_join_with_push;

verus! {

/// View of a list of names.
pub open spec fn view_strings(s: Seq<String>) -> Seq<Seq<char>> {
    s.map_values(|p: String| p@)
}

// ---------------------------------------------------------------------------
// Markup
// ---------------------------------------------------------------------------
/// The value of one markup attribute.
pub enum AttrValue {
    /// `name="text"`
    Text(String),
    /// `name={expr}`, the expression in serialized form
    ExprBinding(String),
    /// a bare attribute with no value
    Bare,
}

/// One attribute of a markup element.
pub struct Attr {
    pub name: String,
    pub value: AttrValue,
}

/// A markup element: tag, attributes and children in source order.
pub struct Element {
    pub tag: String,
    pub attrs: Vec<Attr>,
    pub children: Vec<MarkupNode>,
}

/// One syntactic unit of declarative markup structure.
pub enum MarkupNode {
    /// `<tag …>…</tag>`
    Element(Element),
    /// `{expr}`: an interpolated expression, in serialized form
    TextInterpolation(String),
    /// `{cond && <element …>}`: conditionally rendered markup
    ConditionalBlock { cond: String, then: Element },
    /// literal text
    RawText(String),
}

// ---------------------------------------------------------------------------
// Markup views
// ---------------------------------------------------------------------------
/// Mathematical view of [`AttrValue`].
pub enum AttrValueView {
    Text(Seq<char>),
    ExprBinding(Seq<char>),
    Bare,
}

/// Mathematical view of [`Attr`].
pub struct AttrView {
    pub name: Seq<char>,
    pub value: AttrValueView,
}

/// Mathematical view of [`Element`].
pub struct ElementView {
    pub tag: Seq<char>,
    pub attrs: Seq<AttrView>,
    pub children: Seq<MarkupNodeView>,
}

/// Mathematical view of [`MarkupNode`].
pub enum MarkupNodeView {
    Element(ElementView),
    TextInterpolation(Seq<char>),
    ConditionalBlock { cond: Seq<char>, then: ElementView },
    RawText(Seq<char>),
}

/// View of an attribute value.
pub open spec fn view_attr_value(v: AttrValue) -> AttrValueView {
    match v {
        AttrValue::Text(s) => AttrValueView::Text(s@),
        AttrValue::ExprBinding(s) => AttrValueView::ExprBinding(s@),
        AttrValue::Bare => AttrValueView::Bare,
    }
}

/// View of an attribute.
pub open spec fn view_attr(a: Attr) -> AttrView {
    AttrView { name: a.name@, value: view_attr_value(a.value) }
}

/// View of an element.
pub open spec fn view_element(e: Element) -> ElementView
    decreases e,
{
    ElementView {
        tag: e.tag@,
        attrs: e.attrs@.map_values(|a: Attr| view_attr(a)),
        children: view_nodes(e.children@),
    }
}

/// View of a sequence of markup nodes.
pub open spec fn view_nodes(ns: Seq<MarkupNode>) -> Seq<MarkupNodeView>
    decreases ns,
{
    if ns.len() == 0 {
        Seq::empty()
    } else {
        seq![view_node(ns[0])] + view_nodes(ns.drop_first())
    }
}

/// View of a markup node.
pub open spec fn view_node(n: MarkupNode) -> MarkupNodeView
    decreases n,
{
    match n {
        MarkupNode::Element(e) => MarkupNodeView::Element(view_element(e)),
        MarkupNode::TextInterpolation(s) => MarkupNodeView::TextInterpolation(s@),
        MarkupNode::ConditionalBlock { cond, then } => MarkupNodeView::ConditionalBlock {
            cond: cond@,
            then: view_element(then),
        },
        MarkupNode::RawText(s) => MarkupNodeView::RawText(s@),
    }
}

/// The view of a node sequence is the sequence of node views.
pub proof fn lemma_view_nodes(ns: Seq<MarkupNode>)
    ensures
        view_nodes(ns).len() == ns.len(),
        forall|i: int| 0 <= i < ns.len() ==> #[trigger] view_nodes(ns)[i] == view_node(ns[i]),
    decreases ns,
{
    if ns.len() > 0 {
        lemma_view_nodes(ns.drop_first());
        assert forall|i: int| 0 <= i < ns.len() implies #[trigger] view_nodes(ns)[i] == view_node(
            ns[i],
        ) by {
            if i > 0 {
                assert(ns.drop_first()[i - 1] == ns[i]);
            }
        }
    }
}

// ---------------------------------------------------------------------------
// Script-side syntax
// ---------------------------------------------------------------------------
/// A binding pattern on the left of a declaration or in a parameter list.
pub enum Pat {
    /// `name`
    Ident(String),
    /// `[a, b, …]`
    ArrayPat(Vec<String>),
    /// `{ a, b, … }`
    ObjectPat(Vec<String>),
}

/// An expression, as far as the transpiler distinguishes shapes; anything
/// else arrives as its serialized text.
pub enum Expr {
    /// a plain identifier
    Ident(String),
    /// `callee(arg, …)`
    Call { callee: String, args: Vec<Expr> },
    /// `(params) => body`, the body block in serialized form
    Arrow { params: Vec<String>, body: String },
    /// a markup literal
    Markup(MarkupNode),
    /// any other expression, in serialized form
    Raw(String),
}

/// A statement of a function body.
pub enum Stmt {
    /// `const pat = init;` (or `let`/`var`; the keyword is irrelevant here)
    VarDecl { pat: Pat, init: Option<Expr> },
    /// `return expr;` / `return;`
    Return(Option<Expr>),
    /// an expression statement
    ExprStmt(Expr),
    /// any other statement
    Other,
}

/// A function definition; an anonymous function has the empty name.
pub struct FnDef {
    pub name: String,
    pub params: Vec<Pat>,
    pub body: Vec<Stmt>,
}

/// One top-level declaration of the source unit.
pub enum Declaration {
    /// `export function …`
    ExportedFn(FnDef),
    /// a function that is not exported
    LocalFn(FnDef),
    /// a top-level statement
    Statement(Stmt),
    /// anything else (imports, type declarations, …)
    Other,
}

/// The syntax tree of one source unit: its top-level declarations in source
/// order.
pub struct SyntaxTree {
    pub decls: Vec<Declaration>,
}

// ---------------------------------------------------------------------------
// Component descriptor
// ---------------------------------------------------------------------------
/// One recognized reactive-state declaration: the value name and the
/// serialized initial-value expression.
pub struct StateEntry {
    pub name: String,
    pub init: String,
}

/// One recognized method: the name and the serialized function expression.
pub struct MethodEntry {
    pub name: String,
    pub body: String,
}

/// Mathematical view of [`StateEntry`].
pub struct StateEntryView {
    pub name: Seq<char>,
    pub init: Seq<char>,
}

/// Mathematical view of [`MethodEntry`].
pub struct MethodEntryView {
    pub name: Seq<char>,
    pub body: Seq<char>,
}

/// View of a state entry.
pub open spec fn view_state_entry(e: StateEntry) -> StateEntryView {
    StateEntryView { name: e.name@, init: e.init@ }
}

/// View of a method entry.
pub open spec fn view_method_entry(e: MethodEntry) -> MethodEntryView {
    MethodEntryView { name: e.name@, body: e.body@ }
}

/// The recognized component: everything the script assembler and the
/// component emitter need. The markup root holds the markup in its already
/// transformed form.
pub struct ComponentDescriptor {
    pub name: String,
    pub prop_names: Vec<String>,
    pub state_entries: Vec<StateEntry>,
    pub method_entries: Vec<MethodEntry>,
    pub markup_root: Option<MarkupNode>,
}

// ---------------------------------------------------------------------------
// Expression serialization
// ---------------------------------------------------------------------------
/// Serialized form of a call's argument list: the arguments joined by
/// comma and space.
pub open spec fn spec_serialize_exprs(es: Seq<Expr>) -> Seq<char>
    decreases es, 0int,
{
    if es.len() == 0 {
        Seq::empty()
    } else if es.len() == 1 {
        spec_serialize_expr(es[0])
    } else {
        spec_serialize_expr(es[0]) + ", "@ + spec_serialize_exprs(es.drop_first())
    }
}

/// The printable form of a sub-expression, used verbatim in emitted output.
/// Identifiers and pre-serialized text print as themselves; calls and
/// closures are rebuilt from their parts. A markup literal has no
/// expression-level text form in this model and prints as the empty string.
pub open spec fn spec_serialize_expr(e: Expr) -> Seq<char>
    decreases e, 1int,
{
    match e {
        Expr::Ident(s) => s@,
        Expr::Call { callee, args } => callee@ + "("@ + spec_serialize_exprs(args@) + ")"@,
        Expr::Arrow { params, body } => "("@ + join_with(view_strings(params@), ", "@) + ") => "@
            + body@,
        Expr::Markup(m) => Seq::empty(),
        Expr::Raw(s) => s@,
    }
}

/// Appending one argument extends the serialized list on the right.
pub proof fn lemma_serialize_exprs_push(es: Seq<Expr>, x: Expr)
    ensures
        spec_serialize_exprs(es.push(x)) == if es.len() == 0 {
            spec_serialize_expr(x)
        } else {
            spec_serialize_exprs(es) + ", "@ + spec_serialize_expr(x)
        },
    decreases es.len(),
{
    if es.len() == 0 {
        assert(es.push(x).len() == 1);
        assert(spec_serialize_exprs(es.push(x)) == spec_serialize_expr(es.push(x)[0]));
        assert(es.push(x)[0] == x);
    } else if es.len() == 1 {
        assert(es.push(x).drop_first() =~= seq![x]);
        assert(spec_serialize_exprs(es.push(x)) == spec_serialize_expr(es.push(x)[0]) + ", "@
            + spec_serialize_exprs(es.push(x).drop_first()));
        assert(spec_serialize_exprs(seq![x]) == spec_serialize_expr(seq![x][0]));
        assert(seq![x][0] == x);
        assert(es.push(x)[0] == es[0]);
        assert(spec_serialize_exprs(es) == spec_serialize_expr(es[0]));
    } else {
        assert(spec_serialize_exprs(es.push(x)) == spec_serialize_expr(es.push(x)[0]) + ", "@
            + spec_serialize_exprs(es.push(x).drop_first()));
        assert(es.push(x).drop_first() =~= es.drop_first().push(x));
        lemma_serialize_exprs_push(es.drop_first(), x);
        assert(es.drop_first().len() >= 1);
        assert(es.push(x)[0] == es[0]);
        assert(spec_serialize_exprs(es.push(x)) == spec_serialize_expr(es[0]) + ", "@
            + (spec_serialize_exprs(es.drop_first()) + ", "@ + spec_serialize_expr(x)));
        assert(spec_serialize_expr(es[0]) + ", "@ + (spec_serialize_exprs(es.drop_first()) + ", "@
            + spec_serialize_expr(x)) =~= (spec_serialize_expr(es[0]) + ", "@
            + spec_serialize_exprs(es.drop_first())) + ", "@ + spec_serialize_expr(x));
        assert(spec_serialize_exprs(es) == spec_serialize_expr(es[0]) + ", "@
            + spec_serialize_exprs(es.drop_first()));
    }
}

/// Appends the serialized argument list.
#[verifier::loop_isolation(false)]
fn push_serialized_exprs(es: &Vec<Expr>, out: &mut String)
    ensures
        final(out)@ == old(out)@ + spec_serialize_exprs(es@),
    decreases es@, 0int,
{
    let ghost out0: Seq<char> = out@;
    let mut i: usize = 0;
    while i < es.len()
        invariant
            i <= es.len(),
            out@ == out0 + spec_serialize_exprs(es@.subrange(0, i as int)),
        decreases es@.len() - i,
    {
        if i > 0 {
            out.append(", ");
        }
        push_serialized_expr(&es[i], out);
        proof {
            assert(es@.subrange(0, i + 1 as int) =~= es@.subrange(0, i as int).push(
                es@[i as int],
            ));
            lemma_serialize_exprs_push(es@.subrange(0, i as int), es@[i as int]);
            assert(out@ =~= out0 + spec_serialize_exprs(es@.subrange(0, i + 1 as int)));
        }
        i = i + 1;
    }
    proof {
        assert(es@.subrange(0, es@.len() as int) =~= es@);
    }
}

/// Appends the serialized form of one expression.
#[verifier::loop_isolation(false)]
fn push_serialized_expr(e: &Expr, out: &mut String)
    ensures
        final(out)@ == old(out)@ + spec_serialize_expr(*e),
    decreases *e, 1int,
{
    match e {
        Expr::Ident(s) => {
            out.append(s.as_str());
        },
        Expr::Call { callee, args } => {
            out.append(callee.as_str());
            out.append("(");
            push_serialized_exprs(args, out);
            out.append(")");
            proof {
                assert(final(out)@ =~= old(out)@ + spec_serialize_expr(*e));
            }
        },
        Expr::Arrow { params, body } => {
            out.append("(");
            push_joined_names(params, out);
            out.append(") => ");
            out.append(body.as_str());
            proof {
                assert(final(out)@ =~= old(out)@ + spec_serialize_expr(*e));
            }
        },
        Expr::Markup(m) => {},
        Expr::Raw(s) => {
            out.append(s.as_str());
        },
    }
}

/// Appends the names joined by comma and space.
#[verifier::loop_isolation(false)]
pub fn push_joined_names(names: &Vec<String>, out: &mut String)
    ensures
        final(out)@ == old(out)@ + join_with(view_strings(names@), ", "@),
{
    let ghost out0: Seq<char> = out@;
    let mut i: usize = 0;
    while i < names.len()
        invariant
            i <= names.len(),
            out@ == out0 + join_with(view_strings(names@.subrange(0, i as int)), ", "@),
        decreases names@.len() - i,
    {
        if i > 0 {
            out.append(", ");
        }
        out.append(names[i].as_str());
        proof {
            assert(view_strings(names@.subrange(0, i + 1 as int)) =~= view_strings(
                names@.subrange(0, i as int),
            ).push(names@[i as int]@));
            lemma_join_with_push(
                view_strings(names@.subrange(0, i as int)),
                names@[i as int]@,
                ", "@,
            );
            assert(out@ =~= out0 + join_with(
                view_strings(names@.subrange(0, i + 1 as int)),
                ", "@,
            ));
        }
        i = i + 1;
    }
    proof {
        assert(names@.subrange(0, names@.len() as int) =~= names@);
    }
}

/// The printable form of a sub-expression, executable form.
pub fn serialize_expr(e: &Expr) -> (r: String)
    ensures
        r@ == spec_serialize_expr(*e),
{
    let mut out = String::new();
    push_serialized_expr(e, &mut out);
    out
}

} // verus!
