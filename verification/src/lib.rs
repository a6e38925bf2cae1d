//! A small verified toolkit built around one core: a component transpiler
//! that turns a functional, markup-extended UI component (props as function
//! parameters, local reactive state via a `useState`-style hook, event
//! handlers as closures, conditional and interpolated rendering inline in the
//! markup) into a single-file component for a template-based dialect (a
//! template block with directive-style bindings and an options object
//! exposing `name`, `props`, `data` and `methods`).
//!
//! The lexing and parsing of raw source text is the job of an outside parser;
//! this crate receives an already-built syntax tree as plain data (see
//! [`ast`]) and everything from that tree to the emitted component text is
//! verified. Beside the transpiler stand the verified decision helpers of
//! the surrounding command-line tool: lock-file cleanup planning,
//! image-type selection, path construction, build-configuration scanning
//! and the staged git sequence policy.

use vstd::prelude::*;

pub mod ast;
pub mod emit;
pub mod extract;
pub mod files;
pub mod locate;
pub mod recognize;
pub mod text;
pub mod transform;

use crate::ast::ComponentDescriptor;
use crate::ast::MethodEntry;
use crate::ast::MethodEntryView;
use crate::ast::StateEntry;
use crate::ast::StateEntryView;
use crate::ast::SyntaxTree;
use crate::ast::view_method_entry;
use crate::ast::view_node;
use crate::ast::view_state_entry;
use crate::ast::view_strings;
use crate::emit::emit_component;
use crate::emit::spec_render_node;
use crate::emit::spec_script;
use crate::extract::extract_markup;
use crate::extract::spec_find_markup;
use crate::locate::locate_component;
use crate::locate::spec_locate;
use crate::recognize::is_setter_for;
use crate::recognize::lemma_dedup_distinct;
use crate::recognize::lemma_setter_never_method;
use crate::recognize::recognize_methods;
use crate::recognize::recognize_props;
use crate::recognize::recognize_state;
use crate::recognize::spec_method_entries;
use crate::recognize::spec_prop_names;
use crate::recognize::spec_state_entries;
use crate::transform::spec_transform_node;
use crate::transform::transform_node;

verus! {

/// What the pipeline promises of the descriptor built for a tree: when a
/// component was located, every field is exactly what the recognizers
/// yield for it (the markup already transformed); otherwise every section
/// is empty and the name falls back at assembly time.
pub open spec fn spec_descriptor_for(tree: SyntaxTree, d: ComponentDescriptor) -> bool {
    match spec_locate(tree.decls@) {
        Some(f) => {
            &&& d.name@ == f.name@
            &&& view_strings(d.prop_names@) == spec_prop_names(f)
            &&& d.state_entries@.map_values(|e: StateEntry| view_state_entry(e))
                == spec_state_entries(f.body@)
            &&& d.method_entries@.map_values(|m: MethodEntry| view_method_entry(m))
                == spec_method_entries(f.body@, spec_state_entries(f.body@))
            &&& (match spec_find_markup(f.body@) {
                Some(m) => d.markup_root is Some && view_node(d.markup_root->0)
                    == spec_transform_node(view_node(m)),
                None => d.markup_root is None,
            })
        },
        None => {
            &&& d.name@ == Seq::<char>::empty()
            &&& d.prop_names@.len() == 0
            &&& d.state_entries@.len() == 0
            &&& d.method_entries@.len() == 0
            &&& d.markup_root is None
        },
    }
}

/// Runs the locator, the recognizers and the transformer over one tree and
/// gathers the component descriptor. Recognition gaps are not errors:
/// every absent part is an empty section. The descriptor's prop names are
/// pairwise distinct, and no method carries a recognized state entry's
/// setter name.
pub fn build_descriptor(tree: &SyntaxTree) -> (d: ComponentDescriptor)
    ensures
        spec_descriptor_for(*tree, d),
        forall|i: int, j: int|
            0 <= i < j < d.prop_names@.len() ==> view_strings(d.prop_names@)[i] != view_strings(
                d.prop_names@,
            )[j],
        forall|k: int, i: int|
            0 <= k < d.method_entries@.len() && 0 <= i < d.state_entries@.len()
                ==> !is_setter_for(
                view_method_entry(#[trigger] d.method_entries@[k]).name,
                view_state_entry(#[trigger] d.state_entries@[i]).name,
            ),
{
    let located = locate_component(tree);
    match located {
        Some(f) => {
            let states = recognize_state(&f.body);
            let props = recognize_props(f);
            let methods = recognize_methods(&f.body, &states);
            let markup = match extract_markup(&f.body) {
                Some(m) => Some(transform_node(m)),
                None => None,
            };
            let d = ComponentDescriptor {
                name: f.name.clone(),
                prop_names: props,
                state_entries: states,
                method_entries: methods,
                markup_root: markup,
            };
            proof {
                let fd = spec_locate(tree.decls@)->0;
                lemma_dedup_distinct(
                    match crate::recognize::spec_param_prop_names(fd.params@) {
                        Some(ns) => ns,
                        None => crate::recognize::spec_body_prop_names(fd.body@),
                    },
                );
                lemma_setter_never_method(fd.body@, spec_state_entries(fd.body@));
                let mv = d.method_entries@.map_values(|m: MethodEntry| view_method_entry(m));
                let sv = d.state_entries@.map_values(|e: StateEntry| view_state_entry(e));
                assert forall|k: int, i: int|
                    0 <= k < d.method_entries@.len() && 0 <= i < d.state_entries@.len()
                        implies !is_setter_for(
                    view_method_entry(#[trigger] d.method_entries@[k]).name,
                    view_state_entry(#[trigger] d.state_entries@[i]).name,
                ) by {
                    assert(mv[k] == view_method_entry(d.method_entries@[k]));
                    assert(sv[i] == view_state_entry(d.state_entries@[i]));
                    assert(!crate::recognize::is_setter_of_some(mv[k].name, sv));
                    if is_setter_for(mv[k].name, sv[i].name) {
                        assert(crate::recognize::is_setter_of_some(mv[k].name, sv));
                    }
                }
            }
            d
        },
        None => {
            let d = ComponentDescriptor {
                name: String::new(),
                prop_names: Vec::new(),
                state_entries: Vec::new(),
                method_entries: Vec::new(),
                markup_root: None,
            };
            d
        },
    }
}

/// The whole component file as a function of its parts: template block,
/// script block, empty style block, in fixed order.
pub open spec fn spec_component_text(
    markup: Option<Seq<char>>,
    name: Seq<char>,
    props: Seq<Seq<char>>,
    states: Seq<StateEntryView>,
    methods: Seq<MethodEntryView>,
) -> Seq<char> {
    "<template>\n"@ + (match markup {
        Some(t) => t + "\n"@,
        None => Seq::<char>::empty(),
    }) + "</template>\n"@ + "\n"@ + "<script>\n"@ + spec_script(name, props, states, methods)
        + "\n"@ + "</script>\n"@ + "\n"@ + "<style>\n"@ + "</style>\n"@
}

/// What transpiling a tree yields: the serialized transformed markup of
/// the located component and its recognized sections, or the minimal file
/// when no component is exported.
pub open spec fn spec_transpile(tree: SyntaxTree) -> Seq<char> {
    match spec_locate(tree.decls@) {
        Some(f) => spec_component_text(
            match spec_find_markup(f.body@) {
                Some(m) => Some(spec_render_node(spec_transform_node(view_node(m)))),
                None => None,
            },
            f.name@,
            spec_prop_names(f),
            spec_state_entries(f.body@),
            spec_method_entries(f.body@, spec_state_entries(f.body@)),
        ),
        None => spec_component_text(
            None,
            Seq::<char>::empty(),
            Seq::<Seq<char>>::empty(),
            Seq::<StateEntryView>::empty(),
            Seq::<MethodEntryView>::empty(),
        ),
    }
}

/// Transpiles one source unit's tree into the single-file component text.
/// Never fails: every degraded condition is absorbed into minimal valid
/// output.
pub fn transpile(tree: &SyntaxTree) -> (r: String)
    ensures
        r@ == spec_transpile(*tree),
{
    let d = build_descriptor(tree);
    let r = emit_component(&d);
    proof {
        assert(r@ =~= spec_transpile(*tree));
    }
    r
}

/// Transpiling is deterministic: the same tree yields byte-identical
/// output, however often it is run.
pub proof fn lemma_transpile_deterministic(a: SyntaxTree, b: SyntaxTree)
    requires
        a == b,
    ensures
        spec_transpile(a) == spec_transpile(b),
{
}

/// Graceful degradation: a tree without an exported function yields the
/// file with an empty template block and a script block holding only the
/// default name field — never an error.
pub proof fn lemma_no_component_minimal(tree: SyntaxTree)
    requires
        spec_locate(tree.decls@) is None,
    ensures
        spec_transpile(tree) == "<template>\n"@ + "</template>\n"@ + "\n"@ + "<script>\n"@
            + "export default {\n"@ + "  name: \""@ + "Component"@ + "\",\n"@ + "};"@ + "\n"@
            + "</script>\n"@ + "\n"@ + "<style>\n"@ + "</style>\n"@,
{
    assert(spec_transpile(tree) =~= "<template>\n"@ + "</template>\n"@ + "\n"@ + "<script>\n"@
        + "export default {\n"@ + "  name: \""@ + "Component"@ + "\",\n"@ + "};"@ + "\n"@
        + "</script>\n"@ + "\n"@ + "<style>\n"@ + "</style>\n"@);
}

} // verus!
