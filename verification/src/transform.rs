//! The markup transformer: rewrites recognized source-dialect constructs in
//! the markup tree into the target template dialect.
//!
//! Three rewrite rules operate on the tree:
//! 1. the attribute key `className` becomes `class` (exact, case-sensitive);
//! 2. an event attribute `on<EventName>={handler}` becomes the directive
//!    `@<eventname>="handler"` with the event name lower-cased;
//! 3. a conditional block `{cond && <element …>}` becomes the element itself
//!    with a guard attribute `conditional-attribute="cond"` appended.
//!
//! Because conditional blocks are a distinct node class, rule 3 can never be
//! mistaken for a plain interpolation, and interpolations are rendered with
//! the double-delimiter syntax only by the emitter. A rule that matches
//! nowhere leaves the tree unchanged there; the transformer never fails.

use vstd::prelude::*;
use vstd::string::StrSliceExecFns;
use vstd::string::StringExecFns;

use crate::ast::Attr;
use crate::ast::AttrValue;
use crate::ast::AttrValueView;
use crate::ast::AttrView;
use crate::ast::Element;
use crate::ast::ElementView;
use crate::ast::MarkupNode;
use crate::ast::MarkupNodeView;
use crate::ast::lemma_view_nodes;
use crate::ast::view_attr;
use crate::ast::view_element;
use crate::ast::view_node;
use crate::ast::view_nodes;
use crate::emit::guard_attr_view;
use crate::emit::view_attrs;
use crate::text::lower;
use crate::text::push_lower;
use crate::text::str_eq;

verus! {

/// An upper-case ASCII letter.
pub open spec fn is_upper(c: char) -> bool {
    65 <= c as u32 && c as u32 <= 90
}

/// An attribute name of the event-binding shape: `on` followed by a
/// capitalized event name.
pub open spec fn is_event_name(name: Seq<char>) -> bool {
    name.len() > 2 && name.subrange(0, 2) == "on"@ && is_upper(name[2])
}

/// The directive name an event attribute is rewritten to: `@` followed by
/// the lower-cased event name.
pub open spec fn event_directive(name: Seq<char>) -> Seq<char> {
    "@"@ + lower(name.subrange(2, name.len() as int))
}

/// The rewrite of one attribute: rule 1 for `className`, rule 2 for an
/// event binding whose value is an expression binding; anything else is
/// kept unchanged.
pub open spec fn spec_rewrite_attr(a: AttrView) -> AttrView {
    if a.name == "className"@ {
        AttrView { name: "class"@, value: a.value }
    } else if is_event_name(a.name) {
        match a.value {
            AttrValueView::ExprBinding(h) => AttrView {
                name: event_directive(a.name),
                value: AttrValueView::Text(h),
            },
            _ => a,
        }
    } else {
        a
    }
}

/// The rewrite of a whole attribute list, position by position.
pub open spec fn spec_rewrite_attrs(attrs: Seq<AttrView>) -> Seq<AttrView> {
    attrs.map_values(|a: AttrView| spec_rewrite_attr(a))
}

/// The transformation of an element: attributes rewritten, children
/// transformed, tag kept.
pub open spec fn spec_transform_element(e: ElementView) -> ElementView
    decreases e, 1int,
{
    ElementView {
        tag: e.tag,
        attrs: spec_rewrite_attrs(e.attrs),
        children: spec_transform_nodes(e.children),
    }
}

/// The transformation of a node sequence, position by position.
pub open spec fn spec_transform_nodes(ns: Seq<MarkupNodeView>) -> Seq<MarkupNodeView>
    decreases ns, 0int,
{
    if ns.len() == 0 {
        Seq::empty()
    } else {
        seq![spec_transform_node(ns[0])] + spec_transform_nodes(ns.drop_first())
    }
}

/// The transformation of one markup node. A conditional block is replaced
/// by its (transformed) element with the guard attribute appended; raw text
/// and interpolations pass through unchanged.
pub open spec fn spec_transform_node(n: MarkupNodeView) -> MarkupNodeView
    decreases n, 2int,
{
    match n {
        MarkupNodeView::Element(e) => MarkupNodeView::Element(spec_transform_element(e)),
        MarkupNodeView::TextInterpolation(s) => MarkupNodeView::TextInterpolation(s),
        MarkupNodeView::ConditionalBlock { cond, then } => MarkupNodeView::Element(
            ElementView {
                tag: then.tag,
                attrs: spec_rewrite_attrs(then.attrs).push(guard_attr_view(cond)),
                children: spec_transform_nodes(then.children),
            },
        ),
        MarkupNodeView::RawText(s) => MarkupNodeView::RawText(s),
    }
}

/// The transformed node sequence is the sequence of transformed nodes.
pub proof fn lemma_transform_nodes(ns: Seq<MarkupNodeView>)
    ensures
        spec_transform_nodes(ns).len() == ns.len(),
        forall|i: int|
            0 <= i < ns.len() ==> #[trigger] spec_transform_nodes(ns)[i] == spec_transform_node(
                ns[i],
            ),
    decreases ns,
{
    if ns.len() > 0 {
        lemma_transform_nodes(ns.drop_first());
        assert forall|i: int|
            0 <= i < ns.len() implies #[trigger] spec_transform_nodes(ns)[i]
            == spec_transform_node(ns[i]) by {
            if i > 0 {
                assert(ns.drop_first()[i - 1] == ns[i]);
            }
        }
    }
}

// ---------------------------------------------------------------------------
// Laws of the rewrite rules
// ---------------------------------------------------------------------------
/// No node in the sequence carries an attribute with the given name.
pub open spec fn no_attr_named_nodes(ns: Seq<MarkupNodeView>, bad: Seq<char>) -> bool
    decreases ns, 0int,
{
    if ns.len() == 0 {
        true
    } else {
        no_attr_named_node(ns[0], bad) && no_attr_named_nodes(ns.drop_first(), bad)
    }
}

/// Neither the element's own attribute list nor any descendant carries an
/// attribute with the given name.
pub open spec fn no_attr_named_element(e: ElementView, bad: Seq<char>) -> bool
    decreases e, 1int,
{
    (forall|i: int| 0 <= i < e.attrs.len() ==> #[trigger] e.attrs[i].name != bad)
        && no_attr_named_nodes(e.children, bad)
}

/// No element anywhere in the node carries an attribute with the given
/// name.
pub open spec fn no_attr_named_node(n: MarkupNodeView, bad: Seq<char>) -> bool
    decreases n, 2int,
{
    match n {
        MarkupNodeView::Element(e) => no_attr_named_element(e, bad),
        MarkupNodeView::ConditionalBlock { cond, then } => no_attr_named_element(then, bad),
        _ => true,
    }
}

/// A rewritten attribute never bears the source dialect's class key.
pub proof fn lemma_rewritten_attr_not_classname(a: AttrView)
    ensures
        spec_rewrite_attr(a).name != "className"@,
{
    reveal_strlit("class");
    reveal_strlit("className");
    reveal_strlit("@");
    if a.name == "className"@ {
        assert(spec_rewrite_attr(a).name == "class"@);
        assert("class"@.len() == 5 && "className"@.len() == 9);
    } else if is_event_name(a.name) && a.value is ExprBinding {
        assert(spec_rewrite_attr(a).name == event_directive(a.name));
        assert(event_directive(a.name)[0] == '@');
        assert("className"@[0] == 'c');
    }
}

/// Every attribute named `className` is renamed to `class` with its value
/// kept; no other rule touches it.
pub proof fn lemma_attribute_rewrite(v: AttrValueView)
    ensures
        spec_rewrite_attr((AttrView { name: "className"@, value: v })) == (AttrView {
            name: "class"@,
            value: v,
        }),
{
}

/// After the transformation no element of the tree carries a `className`
/// attribute any more (sequence form).
pub proof fn lemma_transform_removes_classname_nodes(ns: Seq<MarkupNodeView>)
    ensures
        no_attr_named_nodes(spec_transform_nodes(ns), "className"@),
    decreases ns, 0int,
{
    if ns.len() > 0 {
        lemma_transform_removes_classname_node(ns[0]);
        lemma_transform_removes_classname_nodes(ns.drop_first());
        assert(spec_transform_nodes(ns)[0] == spec_transform_node(ns[0]));
        assert(spec_transform_nodes(ns).drop_first() =~= spec_transform_nodes(ns.drop_first()));
    }
}

/// After the transformation no element of the tree carries a `className`
/// attribute any more.
pub proof fn lemma_transform_removes_classname_node(n: MarkupNodeView)
    ensures
        no_attr_named_node(spec_transform_node(n), "className"@),
    decreases n, 2int,
{
    match n {
        MarkupNodeView::Element(e) => {
            assert forall|i: int| 0 <= i < spec_rewrite_attrs(e.attrs).len() implies #[trigger]
            spec_rewrite_attrs(e.attrs)[i].name != "className"@ by {
                lemma_rewritten_attr_not_classname(e.attrs[i]);
            }
            lemma_transform_removes_classname_nodes(e.children);
        },
        MarkupNodeView::ConditionalBlock { cond, then } => {
            let attrs = spec_rewrite_attrs(then.attrs).push(guard_attr_view(cond));
            assert forall|i: int| 0 <= i < attrs.len() implies #[trigger] attrs[i].name
                != "className"@ by {
                if i < attrs.len() - 1 {
                    lemma_rewritten_attr_not_classname(then.attrs[i]);
                    assert(attrs[i] == spec_rewrite_attrs(then.attrs)[i]);
                } else {
                    reveal_strlit("conditional-attribute");
                    reveal_strlit("className");
                    assert(attrs[i] == guard_attr_view(cond));
                    assert("conditional-attribute"@.len() == 21 && "className"@.len() == 9);
                }
            }
            lemma_transform_removes_classname_nodes(then.children);
        },
        _ => {},
    }
}

/// Every event attribute `on<EventName>={handler}` becomes the directive
/// `@<eventname>="handler"`, whatever the event.
pub proof fn lemma_event_rewrite(name: Seq<char>, h: Seq<char>)
    requires
        is_event_name(name),
    ensures
        spec_rewrite_attr((AttrView { name, value: AttrValueView::ExprBinding(h) })) == (AttrView {
            name: event_directive(name),
            value: AttrValueView::Text(h),
        }),
{
    reveal_strlit("on");
    reveal_strlit("className");
    if name == "className"@ {
        assert(name.subrange(0, 2)[0] == name[0]);
        assert(name[0] == 'o' && "className"@[0] == 'c');
    }
}

/// The event binding `onClick={handler}` in particular becomes
/// `@click="handler"`.
pub proof fn lemma_onclick_rewrite(h: Seq<char>)
    ensures
        spec_rewrite_attr(
            (AttrView { name: "onClick"@, value: AttrValueView::ExprBinding(h) }),
        ) == (AttrView { name: "@click"@, value: AttrValueView::Text(h) }),
{
    reveal_strlit("onClick");
    reveal_strlit("on");
    reveal_strlit("className");
    reveal_strlit("@");
    reveal_strlit("@click");
    assert("onClick"@.subrange(0, 2) =~= "on"@);
    assert(is_event_name("onClick"@));
    lemma_event_rewrite("onClick"@, h);
    assert(event_directive("onClick"@) =~= "@click"@);
}

/// A rewritten class attribute reaches the emitted template as
/// `class="…"` with the value kept.
pub proof fn lemma_classname_rendered(v: Seq<char>)
    ensures
        crate::emit::spec_render_attr(
            spec_rewrite_attr((AttrView { name: "className"@, value: AttrValueView::Text(v) })),
        ) == "class"@ + "=\""@ + v + "\""@,
{
}

/// A rewritten click binding reaches the emitted template as
/// `@click="…"` with the handler text kept.
pub proof fn lemma_onclick_rendered(h: Seq<char>)
    ensures
        crate::emit::spec_render_attr(
            spec_rewrite_attr(
                (AttrView { name: "onClick"@, value: AttrValueView::ExprBinding(h) }),
            ),
        ) == "@click"@ + "=\""@ + h + "\""@,
{
    lemma_onclick_rewrite(h);
}

/// A conditional block is hoisted to its element with the guard attribute
/// appended; in particular it never becomes a text interpolation, so the
/// plain-interpolation rendering rule cannot touch it.
pub proof fn lemma_conditional_rewrite(cond: Seq<char>, then: ElementView)
    ensures
        spec_transform_node((MarkupNodeView::ConditionalBlock { cond, then }))
            == MarkupNodeView::Element(
            (ElementView {
                tag: then.tag,
                attrs: spec_rewrite_attrs(then.attrs).push(guard_attr_view(cond)),
                children: spec_transform_nodes(then.children),
            }),
        ),
        (!(spec_transform_node(
            (MarkupNodeView::ConditionalBlock { cond, then }),
        ) is TextInterpolation)),
{
}

/// The attribute name has the event-binding shape.
fn is_event_attr_name(s: &str) -> (r: bool)
    ensures
        r == is_event_name(s@),
{
    let n: usize = s.unicode_len();
    if n <= 2 {
        return false;
    }
    let c0 = s.get_char(0);
    let c1 = s.get_char(1);
    let c2 = s.get_char(2);
    let r = c0 == 'o' && c1 == 'n' && (c2 as u32) >= 65 && (c2 as u32) <= 90;
    proof {
        reveal_strlit("on");
        if r {
            assert(s@.subrange(0, 2) =~= "on"@);
        } else {
            if s@.subrange(0, 2) == "on"@ {
                assert(s@.subrange(0, 2)[0] == s@[0]);
                assert(s@.subrange(0, 2)[1] == s@[1]);
                assert(s@[0] == 'o' && s@[1] == 'n');
            }
        }
    }
    r
}

/// A copy of an attribute value with the same view.
fn clone_attr_value(v: &AttrValue) -> (r: AttrValue)
    ensures
        crate::ast::view_attr_value(r) == crate::ast::view_attr_value(*v),
{
    match v {
        AttrValue::Text(s) => AttrValue::Text(s.clone()),
        AttrValue::ExprBinding(s) => AttrValue::ExprBinding(s.clone()),
        AttrValue::Bare => AttrValue::Bare,
    }
}

/// Rewrites one attribute (rules 1 and 2).
fn rewrite_attr(a: &Attr) -> (r: Attr)
    ensures
        view_attr(r) == spec_rewrite_attr(view_attr(*a)),
{
    if str_eq(a.name.as_str(), "className") {
        return Attr { name: String::from_str("class"), value: clone_attr_value(&a.value) };
    }
    if is_event_attr_name(a.name.as_str()) {
        match &a.value {
            AttrValue::ExprBinding(h) => {
                let n: usize = a.name.as_str().unicode_len();
                let suffix = a.name.as_str().substring_char(2, n);
                let mut name = String::from_str("@");
                push_lower(&mut name, suffix);
                return Attr { name, value: AttrValue::Text(h.clone()) };
            },
            _ => {},
        }
    }
    Attr { name: a.name.clone(), value: clone_attr_value(&a.value) }
}

/// Rewrites a whole attribute list.
#[verifier::loop_isolation(false)]
fn rewrite_attrs(attrs: &Vec<Attr>) -> (r: Vec<Attr>)
    ensures
        view_attrs(r@) == spec_rewrite_attrs(view_attrs(attrs@)),
{
    let mut r: Vec<Attr> = Vec::new();
    let mut i: usize = 0;
    while i < attrs.len()
        invariant
            i <= attrs.len(),
            view_attrs(r@) == spec_rewrite_attrs(view_attrs(attrs@.subrange(0, i as int))),
        decreases attrs@.len() - i,
    {
        let a = rewrite_attr(&attrs[i]);
        let ghost r0 = r@;
        r.push(a);
        proof {
            let pre = attrs@.subrange(0, i as int);
            let post = attrs@.subrange(0, i + 1 as int);
            assert(post =~= pre.push(attrs@[i as int]));
            assert(view_attrs(post) =~= view_attrs(pre).push(view_attr(attrs@[i as int])));
            assert(spec_rewrite_attrs(view_attrs(post)) =~= spec_rewrite_attrs(
                view_attrs(pre),
            ).push(spec_rewrite_attr(view_attr(attrs@[i as int]))));
            assert(view_attrs(r@) =~= view_attrs(r0).push(view_attr(a)));
            assert(view_attrs(r@) =~= spec_rewrite_attrs(view_attrs(post)));
        }
        i = i + 1;
    }
    proof {
        assert(attrs@.subrange(0, attrs@.len() as int) =~= attrs@);
    }
    r
}

/// Transforms every node in the list, in order.
#[verifier::loop_isolation(false)]
fn transform_nodes(ns: &Vec<MarkupNode>) -> (r: Vec<MarkupNode>)
    ensures
        view_nodes(r@) == spec_transform_nodes(view_nodes(ns@)),
    decreases ns@, 0int,
{
    let mut r: Vec<MarkupNode> = Vec::new();
    let mut i: usize = 0;
    while i < ns.len()
        invariant
            i <= ns.len(),
            view_nodes(r@) == spec_transform_nodes(view_nodes(ns@.subrange(0, i as int))),
        decreases ns@.len() - i,
    {
        let t = transform_node(&ns[i]);
        let ghost r0 = r@;
        r.push(t);
        proof {
            let pre = ns@.subrange(0, i as int);
            let post = ns@.subrange(0, i + 1 as int);
            assert(post =~= pre.push(ns@[i as int]));
            lemma_view_nodes(r0);
            lemma_view_nodes(r@);
            assert(view_nodes(r@) =~= view_nodes(r0).push(view_node(t)));
            lemma_view_nodes(pre);
            lemma_view_nodes(post);
            assert(view_nodes(post) =~= view_nodes(pre).push(view_node(ns@[i as int])));
            lemma_transform_nodes(view_nodes(pre));
            lemma_transform_nodes(view_nodes(post));
            assert(view_nodes(r@) =~= spec_transform_nodes(view_nodes(post)));
        }
        i = i + 1;
    }
    proof {
        assert(ns@.subrange(0, ns@.len() as int) =~= ns@);
    }
    r
}

/// Transforms one element.
#[verifier::loop_isolation(false)]
fn transform_element(e: &Element) -> (r: Element)
    ensures
        view_element(r) == spec_transform_element(view_element(*e)),
    decreases *e, 1int,
{
    Element {
        tag: e.tag.clone(),
        attrs: rewrite_attrs(&e.attrs),
        children: transform_nodes(&e.children),
    }
}

/// Transforms one markup node into the target template dialect.
#[verifier::loop_isolation(false)]
pub fn transform_node(n: &MarkupNode) -> (r: MarkupNode)
    ensures
        view_node(r) == spec_transform_node(view_node(*n)),
    decreases *n, 2int,
{
    match n {
        MarkupNode::Element(e) => MarkupNode::Element(transform_element(e)),
        MarkupNode::TextInterpolation(s) => MarkupNode::TextInterpolation(s.clone()),
        MarkupNode::ConditionalBlock { cond, then } => {
            let mut attrs = rewrite_attrs(&then.attrs);
            let ghost attrs0 = attrs@;
            let guard = Attr {
                name: String::from_str("conditional-attribute"),
                value: AttrValue::Text(cond.clone()),
            };
            proof {
                assert(view_attr(guard) == guard_attr_view(cond@));
            }
            attrs.push(guard);
            let r = MarkupNode::Element(
                Element {
                    tag: then.tag.clone(),
                    attrs,
                    children: transform_nodes(&then.children),
                },
            );
            proof {
                assert(view_attrs(attrs0.push(guard)) =~= view_attrs(attrs0).push(
                    view_attr(guard),
                ));
                assert(view_node(r) =~~= spec_transform_node(view_node(*n)));
            }
            r
        },
        MarkupNode::RawText(s) => MarkupNode::RawText(s.clone()),
    }
}

} // verus!
