//! The output side of the transpiler: serializing the transformed markup
//! tree, assembling the options-object script block, and emitting the final
//! single-file component text.
//!
//! Every emitted string is specified exactly by a spec function over the
//! mathematical views, so the emitted text is a function of the input alone.

use vstd::prelude::*;
use vstd::string::StrSliceExecFns;
use vstd::string::StringExecFns;

use crate::ast::Attr;
use crate::ast::AttrValue;
use crate::ast::AttrValueView;
use crate::ast::AttrView;
use crate::ast::ComponentDescriptor;
use crate::ast::Element;
use crate::ast::MarkupNode;
use crate::ast::MarkupNodeView;
use crate::ast::MethodEntry;
use crate::ast::MethodEntryView;
use crate::ast::StateEntry;
use crate::ast::StateEntryView;
use crate::ast::lemma_view_nodes;
use crate::ast::view_strings;
use crate::ast::view_attr;
use crate::ast::view_method_entry;
use crate::ast::view_node;
use crate::ast::view_nodes;
use crate::ast::view_state_entry;
use crate::text::join_with;
use crate::text::lemma_join_with_push;

verus! {

/// View of a whole attribute list.
pub open spec fn view_attrs(s: Seq<Attr>) -> Seq<AttrView> {
    s.map_values(|a: Attr| view_attr(a))
}

/// The guard attribute that conditional rendering attaches to its element.
pub open spec fn guard_attr_view(cond: Seq<char>) -> AttrView {
    AttrView { name: "conditional-attribute"@, value: AttrValueView::Text(cond) }
}

/// Serialized form of one attribute (without the leading space).
pub open spec fn spec_render_attr(a: AttrView) -> Seq<char> {
    match a.value {
        AttrValueView::Text(v) => a.name + "=\""@ + v + "\""@,
        AttrValueView::ExprBinding(e) => a.name + "={"@ + e + "}"@,
        AttrValueView::Bare => a.name,
    }
}

/// Serialized form of an attribute list: each attribute preceded by one
/// space.
pub open spec fn spec_render_attrs(attrs: Seq<AttrView>) -> Seq<char>
    decreases attrs.len(),
{
    if attrs.len() == 0 {
        Seq::empty()
    } else {
        " "@ + spec_render_attr(attrs[0]) + spec_render_attrs(attrs.drop_first())
    }
}

/// Appending one attribute extends the serialized list on the right.
pub proof fn lemma_render_attrs_push(attrs: Seq<AttrView>, a: AttrView)
    ensures
        spec_render_attrs(attrs.push(a)) == spec_render_attrs(attrs) + " "@ + spec_render_attr(
            a,
        ),
    decreases attrs.len(),
{
    assert(spec_render_attrs(attrs.push(a)) == " "@ + spec_render_attr(attrs.push(a)[0])
        + spec_render_attrs(attrs.push(a).drop_first()));
    if attrs.len() == 0 {
        assert(attrs.push(a).drop_first() =~= Seq::<AttrView>::empty());
        assert(attrs.push(a)[0] == a);
        assert(spec_render_attrs(attrs.push(a)) =~= spec_render_attrs(attrs) + " "@
            + spec_render_attr(a));
    } else {
        assert(attrs.push(a).drop_first() =~= attrs.drop_first().push(a));
        lemma_render_attrs_push(attrs.drop_first(), a);
        assert(attrs.push(a)[0] == attrs[0]);
        assert(spec_render_attrs(attrs.push(a)) =~= spec_render_attrs(attrs) + " "@
            + spec_render_attr(a));
    }
}

/// Serialized form of an element with the given tag, attribute list and
/// children. A fragment (empty tag) renders as `<>…</>` by the same rule.
pub open spec fn spec_render_element_core(
    tag: Seq<char>,
    attrs: Seq<AttrView>,
    children: Seq<MarkupNodeView>,
) -> Seq<char>
    decreases children, 1int,
{
    "<"@ + tag + spec_render_attrs(attrs) + ">"@ + spec_render_nodes(children) + "</"@ + tag
        + ">"@
}

/// Serialized form of a sequence of markup nodes.
pub open spec fn spec_render_nodes(ns: Seq<MarkupNodeView>) -> Seq<char>
    decreases ns, 0int,
{
    if ns.len() == 0 {
        Seq::empty()
    } else {
        spec_render_node(ns[0]) + spec_render_nodes(ns.drop_first())
    }
}

/// Serialized form of one markup node in the target template dialect:
/// interpolations use the double-delimiter syntax, and a conditional block
/// renders as its element with the guard attribute attached.
pub open spec fn spec_render_node(n: MarkupNodeView) -> Seq<char>
    decreases n, 2int,
{
    match n {
        MarkupNodeView::Element(e) => spec_render_element_core(e.tag, e.attrs, e.children),
        MarkupNodeView::TextInterpolation(s) => "{{ "@ + s + " }}"@,
        MarkupNodeView::ConditionalBlock { cond, then } => spec_render_element_core(
            then.tag,
            then.attrs.push(guard_attr_view(cond)),
            then.children,
        ),
        MarkupNodeView::RawText(s) => s,
    }
}

/// Appending one node extends the serialized sequence on the right.
pub proof fn lemma_render_nodes_push(ns: Seq<MarkupNodeView>, x: MarkupNodeView)
    ensures
        spec_render_nodes(ns.push(x)) == spec_render_nodes(ns) + spec_render_node(x),
    decreases ns,
{
    assert(spec_render_nodes(ns.push(x)) == spec_render_node(ns.push(x)[0]) + spec_render_nodes(
        ns.push(x).drop_first(),
    ));
    if ns.len() == 0 {
        assert(ns.push(x).drop_first() =~= Seq::<MarkupNodeView>::empty());
        assert(ns.push(x)[0] == x);
        assert(spec_render_nodes(ns.push(x)) =~= spec_render_nodes(ns) + spec_render_node(x));
    } else {
        assert(ns.push(x).drop_first() =~= ns.drop_first().push(x));
        lemma_render_nodes_push(ns.drop_first(), x);
        assert(ns.push(x)[0] == ns[0]);
        assert(spec_render_nodes(ns.push(x)) =~= spec_render_nodes(ns) + spec_render_node(x));
    }
}

/// Appends the serialized form of one attribute.
#[verifier::loop_isolation(false)]
fn push_attr(a: &Attr, out: &mut String)
    ensures
        final(out)@ == old(out)@ + spec_render_attr(view_attr(*a)),
{
    out.append(a.name.as_str());
    match &a.value {
        AttrValue::Text(v) => {
            out.append("=\"");
            out.append(v.as_str());
            out.append("\"");
        },
        AttrValue::ExprBinding(e) => {
            out.append("={");
            out.append(e.as_str());
            out.append("}");
        },
        AttrValue::Bare => {},
    }
    proof {
        assert(final(out)@ =~= old(out)@ + spec_render_attr(view_attr(*a)));
    }
}

/// Appends the serialized form of an attribute list.
#[verifier::loop_isolation(false)]
fn push_attrs(attrs: &Vec<Attr>, out: &mut String)
    ensures
        final(out)@ == old(out)@ + spec_render_attrs(view_attrs(attrs@)),
{
    let ghost out0: Seq<char> = out@;
    let mut i: usize = 0;
    while i < attrs.len()
        invariant
            i <= attrs.len(),
            out@ == out0 + spec_render_attrs(view_attrs(attrs@.subrange(0, i as int))),
        decreases attrs.len() - i,
    {
        out.append(" ");
        push_attr(&attrs[i], out);
        proof {
            assert(view_attrs(attrs@.subrange(0, i + 1 as int)) =~= view_attrs(
                attrs@.subrange(0, i as int),
            ).push(view_attr(attrs@[i as int])));
            lemma_render_attrs_push(
                view_attrs(attrs@.subrange(0, i as int)),
                view_attr(attrs@[i as int]),
            );
            assert(out@ =~= out0 + spec_render_attrs(view_attrs(attrs@.subrange(0, i + 1 as int))));
        }
        i = i + 1;
    }
    proof {
        assert(attrs@.subrange(0, attrs@.len() as int) =~= attrs@);
    }
}

/// Appends the serialized form of every node in the list, in order.
#[verifier::loop_isolation(false)]
fn push_nodes(ns: &Vec<MarkupNode>, out: &mut String)
    ensures
        final(out)@ == old(out)@ + spec_render_nodes(view_nodes(ns@)),
    decreases ns@, 0int,
{
    let ghost out0: Seq<char> = out@;
    let mut i: usize = 0;
    while i < ns.len()
        invariant
            i <= ns.len(),
            out@ == out0 + spec_render_nodes(view_nodes(ns@.subrange(0, i as int))),
        decreases ns@.len() - i,
    {
        render_node(&ns[i], out);
        proof {
            lemma_view_nodes(ns@.subrange(0, i as int));
            lemma_view_nodes(ns@.subrange(0, i + 1 as int));
            assert(view_nodes(ns@.subrange(0, i + 1 as int)) =~= view_nodes(
                ns@.subrange(0, i as int),
            ).push(view_node(ns@[i as int])));
            lemma_render_nodes_push(
                view_nodes(ns@.subrange(0, i as int)),
                view_node(ns@[i as int]),
            );
            assert(out@ =~= out0 + spec_render_nodes(view_nodes(ns@.subrange(0, i + 1 as int))));
        }
        i = i + 1;
    }
    proof {
        assert(ns@.subrange(0, ns@.len() as int) =~= ns@);
    }
}

/// Appends the serialized form of one markup node in the target template
/// dialect.
#[verifier::loop_isolation(false)]
#[verifier::rlimit(60)]
pub fn render_node(n: &MarkupNode, out: &mut String)
    ensures
        final(out)@ == old(out)@ + spec_render_node(view_node(*n)),
    decreases *n, 2int,
{
    match n {
        MarkupNode::Element(e) => {
            out.append("<");
            out.append(e.tag.as_str());
            push_attrs(&e.attrs, out);
            out.append(">");
            push_nodes(&e.children, out);
            out.append("</");
            out.append(e.tag.as_str());
            out.append(">");
            proof {
                assert(final(out)@ =~= old(out)@ + spec_render_node(view_node(*n)));
            }
        },
        MarkupNode::TextInterpolation(s) => {
            out.append("{{ ");
            out.append(s.as_str());
            out.append(" }}");
            proof {
                assert(final(out)@ =~= old(out)@ + spec_render_node(view_node(*n)));
            }
        },
        MarkupNode::ConditionalBlock { cond, then } => {
            out.append("<");
            out.append(then.tag.as_str());
            push_attrs(&then.attrs, out);
            out.append(" ");
            out.append("conditional-attribute");
            out.append("=\"");
            out.append(cond.as_str());
            out.append("\"");
            out.append(">");
            push_nodes(&then.children, out);
            out.append("</");
            out.append(then.tag.as_str());
            out.append(">");
            proof {
                lemma_render_attrs_push(view_attrs(then.attrs@), guard_attr_view(cond@));
                assert(final(out)@ =~= old(out)@ + spec_render_node(view_node(*n)));
            }
        },
        MarkupNode::RawText(s) => {
            out.append(s.as_str());
        },
    }
}

// ---------------------------------------------------------------------------
// Script assembly
// ---------------------------------------------------------------------------
/// The component name that the script declares: the located function's
/// identifier, or the defensive default for an anonymous or missing one.
pub open spec fn spec_display_name(name: Seq<char>) -> Seq<char> {
    if name.len() == 0 {
        "Component"@
    } else {
        name
    }
}

/// One entry of the props section.
pub open spec fn spec_props_entry(p: Seq<char>) -> Seq<char> {
    p + ": {}"@
}

/// The props section; empty when no prop was recognized.
pub open spec fn spec_props_section(props: Seq<Seq<char>>) -> Seq<char> {
    if props.len() == 0 {
        Seq::empty()
    } else {
        "  props: { "@ + join_with(props.map_values(|p: Seq<char>| spec_props_entry(p)), ", "@)
            + " },\n"@
    }
}

/// One initializer of the data section.
pub open spec fn spec_state_item(s: StateEntryView) -> Seq<char> {
    s.name + ": "@ + s.init
}

/// The state-initializer section; empty when no state was recognized.
pub open spec fn spec_data_section(states: Seq<StateEntryView>) -> Seq<char> {
    if states.len() == 0 {
        Seq::empty()
    } else {
        "  data(){ return { "@ + join_with(
            states.map_values(|s: StateEntryView| spec_state_item(s)),
            ", "@,
        ) + " }; },\n"@
    }
}

/// One entry of the methods section.
pub open spec fn spec_method_item(m: MethodEntryView) -> Seq<char> {
    m.name + ": "@ + m.body
}

/// The methods section; empty when no method was recognized.
pub open spec fn spec_methods_section(methods: Seq<MethodEntryView>) -> Seq<char> {
    if methods.len() == 0 {
        Seq::empty()
    } else {
        "  methods: { "@ + join_with(
            methods.map_values(|m: MethodEntryView| spec_method_item(m)),
            ", "@,
        ) + " },\n"@
    }
}

/// The whole script block: an options object with the name field first and
/// the props, data and methods sections in fixed order, each emitted only
/// when non-empty.
pub open spec fn spec_script(
    name: Seq<char>,
    props: Seq<Seq<char>>,
    states: Seq<StateEntryView>,
    methods: Seq<MethodEntryView>,
) -> Seq<char> {
    "export default {\n"@ + "  name: \""@ + spec_display_name(name) + "\",\n"@
        + spec_props_section(props) + spec_data_section(states) + spec_methods_section(methods)
        + "};"@
}

/// Appends the props section.
#[verifier::loop_isolation(false)]
fn push_props_section(props: &Vec<String>, out: &mut String)
    ensures
        final(out)@ == old(out)@ + spec_props_section(view_strings(props@)),
{
    if props.len() == 0 {
        return ;
    }
    out.append("  props: { ");
    let ghost mid0: Seq<char> = out@;
    let mut i: usize = 0;
    while i < props.len()
        invariant
            i <= props.len(),
            out@ == mid0 + join_with(
                view_strings(props@.subrange(0, i as int)).map_values(
                    |p: Seq<char>| spec_props_entry(p),
                ),
                ", "@,
            ),
        decreases props@.len() - i,
    {
        if i > 0 {
            out.append(", ");
        }
        out.append(props[i].as_str());
        out.append(": {}");
        proof {
            let ghost f = |p: Seq<char>| spec_props_entry(p);
            assert(view_strings(props@.subrange(0, i + 1 as int)).map_values(f) =~= view_strings(
                props@.subrange(0, i as int),
            ).map_values(f).push(spec_props_entry(props@[i as int]@)));
            lemma_join_with_push(
                view_strings(props@.subrange(0, i as int)).map_values(f),
                spec_props_entry(props@[i as int]@),
                ", "@,
            );
            assert(out@ =~= mid0 + join_with(
                view_strings(props@.subrange(0, i + 1 as int)).map_values(f),
                ", "@,
            ));
        }
        i = i + 1;
    }
    out.append(" },\n");
    proof {
        assert(props@.subrange(0, props@.len() as int) =~= props@);
        assert(final(out)@ =~= old(out)@ + spec_props_section(view_strings(props@)));
    }
}

/// Appends the state-initializer section.
#[verifier::loop_isolation(false)]
fn push_data_section(states: &Vec<StateEntry>, out: &mut String)
    ensures
        final(out)@ == old(out)@ + spec_data_section(
            states@.map_values(|s: StateEntry| view_state_entry(s)),
        ),
{
    if states.len() == 0 {
        return ;
    }
    out.append("  data(){ return { ");
    let ghost mid0: Seq<char> = out@;
    let ghost sf = |s: StateEntry| view_state_entry(s);
    let ghost f = |s: StateEntryView| spec_state_item(s);
    let mut i: usize = 0;
    while i < states.len()
        invariant
            i <= states.len(),
            out@ == mid0 + join_with(states@.subrange(0, i as int).map_values(sf).map_values(f), ", "@),
        decreases states@.len() - i,
    {
        if i > 0 {
            out.append(", ");
        }
        out.append(states[i].name.as_str());
        out.append(": ");
        out.append(states[i].init.as_str());
        proof {
            assert(states@.subrange(0, i + 1 as int).map_values(sf).map_values(f)
                =~= states@.subrange(0, i as int).map_values(sf).map_values(f).push(
                spec_state_item(view_state_entry(states@[i as int])),
            ));
            lemma_join_with_push(
                states@.subrange(0, i as int).map_values(sf).map_values(f),
                spec_state_item(view_state_entry(states@[i as int])),
                ", "@,
            );
            assert(out@ =~= mid0 + join_with(
                states@.subrange(0, i + 1 as int).map_values(sf).map_values(f),
                ", "@,
            ));
        }
        i = i + 1;
    }
    out.append(" }; },\n");
    proof {
        assert(states@.subrange(0, states@.len() as int) =~= states@);
        assert(states@.map_values(sf).map_values(f) =~= states@.map_values(sf).map_values(
            |s: StateEntryView| spec_state_item(s),
        ));
        assert(final(out)@ =~= old(out)@ + spec_data_section(states@.map_values(sf)));
    }
}

/// Appends the methods section.
#[verifier::loop_isolation(false)]
fn push_methods_section(methods: &Vec<MethodEntry>, out: &mut String)
    ensures
        final(out)@ == old(out)@ + spec_methods_section(
            methods@.map_values(|m: MethodEntry| view_method_entry(m)),
        ),
{
    if methods.len() == 0 {
        return ;
    }
    out.append("  methods: { ");
    let ghost mid0: Seq<char> = out@;
    let ghost mf = |m: MethodEntry| view_method_entry(m);
    let ghost f = |m: MethodEntryView| spec_method_item(m);
    let mut i: usize = 0;
    while i < methods.len()
        invariant
            i <= methods.len(),
            out@ == mid0 + join_with(
                methods@.subrange(0, i as int).map_values(mf).map_values(f),
                ", "@,
            ),
        decreases methods@.len() - i,
    {
        if i > 0 {
            out.append(", ");
        }
        out.append(methods[i].name.as_str());
        out.append(": ");
        out.append(methods[i].body.as_str());
        proof {
            assert(methods@.subrange(0, i + 1 as int).map_values(mf).map_values(f)
                =~= methods@.subrange(0, i as int).map_values(mf).map_values(f).push(
                spec_method_item(view_method_entry(methods@[i as int])),
            ));
            lemma_join_with_push(
                methods@.subrange(0, i as int).map_values(mf).map_values(f),
                spec_method_item(view_method_entry(methods@[i as int])),
                ", "@,
            );
            assert(out@ =~= mid0 + join_with(
                methods@.subrange(0, i + 1 as int).map_values(mf).map_values(f),
                ", "@,
            ));
        }
        i = i + 1;
    }
    out.append(" },\n");
    proof {
        assert(methods@.subrange(0, methods@.len() as int) =~= methods@);
        assert(methods@.map_values(mf).map_values(f) =~= methods@.map_values(mf).map_values(
            |m: MethodEntryView| spec_method_item(m),
        ));
        assert(final(out)@ =~= old(out)@ + spec_methods_section(methods@.map_values(mf)));
    }
}

/// Builds the script block for the recognized component.
pub fn assemble_script(d: &ComponentDescriptor) -> (r: String)
    ensures
        r@ == spec_script(
            d.name@,
            view_strings(d.prop_names@),
            d.state_entries@.map_values(|s: StateEntry| view_state_entry(s)),
            d.method_entries@.map_values(|m: MethodEntry| view_method_entry(m)),
        ),
{
    let mut out = String::new();
    out.append("export default {\n");
    out.append("  name: \"");
    if d.name.as_str().unicode_len() == 0 {
        out.append("Component");
    } else {
        out.append(d.name.as_str());
    }
    out.append("\",\n");
    push_props_section(&d.prop_names, &mut out);
    push_data_section(&d.state_entries, &mut out);
    push_methods_section(&d.method_entries, &mut out);
    out.append("};");
    proof {
        assert(out@ =~= spec_script(
            d.name@,
            view_strings(d.prop_names@),
            d.state_entries@.map_values(|s: StateEntry| view_state_entry(s)),
            d.method_entries@.map_values(|m: MethodEntry| view_method_entry(m)),
        ));
    }
    out
}

/// The whole component file: the template block around the serialized
/// markup, the script block around the assembled options object, and an
/// empty style block, in fixed order.
pub open spec fn spec_emit_component(d: ComponentDescriptor) -> Seq<char> {
    "<template>\n"@ + (match d.markup_root {
        Some(m) => spec_render_node(view_node(m)) + "\n"@,
        None => Seq::<char>::empty(),
    }) + "</template>\n"@ + "\n"@ + "<script>\n"@ + spec_script(
        d.name@,
        view_strings(d.prop_names@),
        d.state_entries@.map_values(|s: StateEntry| view_state_entry(s)),
        d.method_entries@.map_values(|m: MethodEntry| view_method_entry(m)),
    ) + "\n"@ + "</script>\n"@ + "\n"@ + "<style>\n"@ + "</style>\n"@
}

/// Emits the final single-file component text for the descriptor. Never
/// fails: an empty descriptor yields the minimal valid component file.
pub fn emit_component(d: &ComponentDescriptor) -> (r: String)
    ensures
        r@ == spec_emit_component(*d),
{
    let mut out = String::new();
    out.append("<template>\n");
    match &d.markup_root {
        Some(m) => {
            render_node(m, &mut out);
            out.append("\n");
        },
        None => {},
    }
    out.append("</template>\n");
    out.append("\n");
    out.append("<script>\n");
    let script = assemble_script(d);
    out.append(script.as_str());
    out.append("\n");
    out.append("</script>\n");
    out.append("\n");
    out.append("<style>\n");
    out.append("</style>\n");
    proof {
        assert(out@ =~= spec_emit_component(*d));
    }
    out
}

} // verus!
