//! The pattern recognizers: independent passes over the component body that
//! collect reactive-state declarations, prop bindings and event-handler
//! methods. Each recognizer tolerates absence (zero or more matches).
//!
//! Disambiguation rule: a binding `name = (…) => …` whose name is, case
//! insensitively, `set` followed by the name of an already recognized state
//! entry is presumed to be the hook-provided setter and is not collected as
//! a method. A genuine user method that happens to carry such a name is
//! swallowed by this rule; that ambiguity is deliberate and left open.

use vstd::prelude::*;
use vstd::string::StrSliceExecFns;
use vstd::string::StringExecFns;

use crate::ast::Expr;
use crate::ast::FnDef;
use crate::ast::MethodEntry;
use crate::ast::MethodEntryView;
use crate::ast::Pat;
use crate::ast::StateEntry;
use crate::ast::StateEntryView;
use crate::ast::Stmt;
use crate::ast::push_joined_names;
use crate::ast::serialize_expr;
use crate::ast::spec_serialize_expr;
use crate::ast::view_state_entry;
use crate::ast::view_strings;
use crate::text::join_with;
use crate::text::lower;
use crate::text::lower_ascii_char;
use crate::text::lower_char;
use crate::text::str_eq;

verus! {

// ---------------------------------------------------------------------------
// The setter naming convention
// ---------------------------------------------------------------------------
/// `setter` is, case insensitively, `set` followed by `value`.
pub open spec fn is_setter_for(setter: Seq<char>, value: Seq<char>) -> bool {
    lower(setter) == lower("set"@ + value)
}

/// Decides the setter naming convention, executable form.
#[verifier::loop_isolation(false)]
pub fn is_setter_name(setter: &str, value: &str) -> (r: bool)
    ensures
        r == is_setter_for(setter@, value@),
{
    proof {
        reveal_strlit("set");
    }
    let slen: usize = setter.unicode_len();
    let vlen: usize = value.unicode_len();
    if slen < 3 || vlen != slen - 3 {
        proof {
            assert(lower(setter@).len() == setter@.len());
            assert(("set"@ + value@).len() == 3 + value@.len());
            assert(lower("set"@ + value@).len() == 3 + value@.len());
        }
        return false;
    }
    let c0 = lower_ascii_char(setter.get_char(0));
    let c1 = lower_ascii_char(setter.get_char(1));
    let c2 = lower_ascii_char(setter.get_char(2));
    if !(c0 == 's' && c1 == 'e' && c2 == 't') {
        proof {
            if lower(setter@) == lower("set"@ + value@) {
                assert(lower(setter@)[0] == lower_char(setter@[0]));
                assert(lower(setter@)[1] == lower_char(setter@[1]));
                assert(lower(setter@)[2] == lower_char(setter@[2]));
                assert(("set"@ + value@)[0] == 's');
                assert(("set"@ + value@)[1] == 'e');
                assert(("set"@ + value@)[2] == 't');
            }
        }
        return false;
    }
    let mut i: usize = 3;
    while i < slen
        invariant
            3 <= i <= slen,
            forall|j: int| 3 <= j < i ==> lower_char(setter@[j]) == lower_char(value@[j - 3]),
        decreases slen - i,
    {
        let a = lower_ascii_char(setter.get_char(i));
        let b = lower_ascii_char(value.get_char(i - 3));
        if a != b {
            proof {
                if lower(setter@) == lower("set"@ + value@) {
                    assert(lower(setter@)[i as int] == lower_char(setter@[i as int]));
                    assert(("set"@ + value@)[i as int] == value@[i - 3]);
                    assert(lower("set"@ + value@)[i as int] == lower_char(value@[i - 3]));
                }
            }
            return false;
        }
        i = i + 1;
    }
    proof {
        assert forall|j: int| 0 <= j < slen implies lower(setter@)[j] == lower(
            "set"@ + value@,
        )[j] by {
            assert(lower(setter@)[j] == lower_char(setter@[j]));
            if j < 3 {
                assert(("set"@ + value@)[j] == "set"@[j]);
            } else {
                assert(("set"@ + value@)[j] == value@[j - 3]);
            }
        }
        assert(lower(setter@) =~= lower("set"@ + value@));
    }
    true
}

// ---------------------------------------------------------------------------
// State recognizer
// ---------------------------------------------------------------------------
/// The state entry a statement contributes, if it has the recognized shape:
/// a two-element array destructure `[value, setter] = call(initial)` whose
/// setter follows the naming convention. Any other binding form is not
/// recognized as state.
pub open spec fn stmt_state_entry(s: Stmt) -> Option<StateEntryView> {
    match s {
        Stmt::VarDecl { pat: Pat::ArrayPat(names), init: Some(Expr::Call { callee, args }) } => {
            if names@.len() == 2 && args@.len() == 1 && is_setter_for(names@[1]@, names@[0]@) {
                Some(
                    StateEntryView { name: names@[0]@, init: spec_serialize_expr(args@[0]) },
                )
            } else {
                None
            }
        },
        _ => None,
    }
}

/// All state entries of a body, in discovery order.
pub open spec fn spec_state_entries(stmts: Seq<Stmt>) -> Seq<StateEntryView>
    decreases stmts.len(),
{
    if stmts.len() == 0 {
        Seq::empty()
    } else {
        (match stmt_state_entry(stmts[0]) {
            Some(e) => seq![e],
            None => Seq::empty(),
        }) + spec_state_entries(stmts.drop_first())
    }
}

/// Collects the reactive-state declarations of the body, in order.
#[verifier::loop_isolation(false)]
pub fn recognize_state(body: &Vec<Stmt>) -> (r: Vec<StateEntry>)
    ensures
        r@.map_values(|e: StateEntry| view_state_entry(e)) == spec_state_entries(body@),
{
    let mut r: Vec<StateEntry> = Vec::new();
    let mut i: usize = 0;
    proof {
        assert(body@.skip(0) =~= body@);
    }
    while i < body.len()
        invariant
            i <= body.len(),
            spec_state_entries(body@) == r@.map_values(|e: StateEntry| view_state_entry(e))
                + spec_state_entries(body@.skip(i as int)),
        decreases body@.len() - i,
    {
        let ghost r0 = r@;
        match &body[i] {
            Stmt::VarDecl { pat: Pat::ArrayPat(names), init: Some(Expr::Call { callee: _, args }) } => {
                if names.len() == 2 && args.len() == 1 {
                    if is_setter_name(names[1].as_str(), names[0].as_str()) {
                        let e = StateEntry { name: names[0].clone(), init: serialize_expr(&args[0]) };
                        r.push(e);
                    }
                }
            },
            _ => {},
        }
        proof {
            let f = |e: StateEntry| view_state_entry(e);
            assert(body@.skip(i as int)[0] == body@[i as int]);
            assert(body@.skip(i as int).drop_first() =~= body@.skip(i + 1 as int));
            if r@.len() > r0.len() {
                assert(r@.map_values(f) =~= r0.map_values(f).push(view_state_entry(r@.last())));
            }
            assert(spec_state_entries(body@) =~= r@.map_values(f) + spec_state_entries(
                body@.skip(i + 1 as int),
            ));
        }
        i = i + 1;
    }
    proof {
        assert(body@.skip(body@.len() as int) =~= Seq::<Stmt>::empty());
        assert(spec_state_entries(body@) =~= r@.map_values(
            |e: StateEntry| view_state_entry(e),
        ));
    }
    r
}

// ---------------------------------------------------------------------------
// Props recognizer
// ---------------------------------------------------------------------------
/// The prop names contributed by the parameter list: those of the first
/// destructured object parameter, if any.
pub open spec fn spec_param_prop_names(params: Seq<Pat>) -> Option<Seq<Seq<char>>>
    decreases params.len(),
{
    if params.len() == 0 {
        None
    } else {
        match params[0] {
            Pat::ObjectPat(names) => Some(view_strings(names@)),
            _ => spec_param_prop_names(params.drop_first()),
        }
    }
}

/// The prop names a body statement contributes: those of a destructuring
/// binding `{ names… } = props`.
pub open spec fn stmt_prop_names(s: Stmt) -> Option<Seq<Seq<char>>> {
    match s {
        Stmt::VarDecl { pat: Pat::ObjectPat(names), init: Some(Expr::Ident(id)) } => {
            if id@ == "props"@ {
                Some(view_strings(names@))
            } else {
                None
            }
        },
        _ => None,
    }
}

/// All prop names contributed by body statements, in order.
pub open spec fn spec_body_prop_names(stmts: Seq<Stmt>) -> Seq<Seq<char>>
    decreases stmts.len(),
{
    if stmts.len() == 0 {
        Seq::empty()
    } else {
        (match stmt_prop_names(stmts[0]) {
            Some(ns) => ns,
            None => Seq::empty(),
        }) + spec_body_prop_names(stmts.drop_first())
    }
}

/// The names with later repetitions removed; the first occurrence keeps
/// its place.
pub open spec fn spec_dedup(ss: Seq<Seq<char>>) -> Seq<Seq<char>>
    decreases ss.len(),
{
    if ss.len() == 0 {
        Seq::empty()
    } else {
        let rest = spec_dedup(ss.drop_last());
        if rest.contains(ss.last()) {
            rest
        } else {
            rest.push(ss.last())
        }
    }
}

/// What the props recognizer yields for the component function: the
/// destructured object parameter when one exists, else the `… = props`
/// bindings of the body — never merged — with repetitions removed.
pub open spec fn spec_prop_names(f: FnDef) -> Seq<Seq<char>> {
    spec_dedup(
        match spec_param_prop_names(f.params@) {
            Some(ns) => ns,
            None => spec_body_prop_names(f.body@),
        },
    )
}

/// The deduplicated names are pairwise distinct.
pub proof fn lemma_dedup_distinct(ss: Seq<Seq<char>>)
    ensures
        forall|i: int, j: int|
            0 <= i < j < spec_dedup(ss).len() ==> #[trigger] spec_dedup(ss)[i] != #[trigger] spec_dedup(ss)[j],
    decreases ss.len(),
{
    if ss.len() > 0 {
        lemma_dedup_distinct(ss.drop_last());
        let rest = spec_dedup(ss.drop_last());
        if !rest.contains(ss.last()) {
            assert forall|i: int, j: int|
                0 <= i < j < spec_dedup(ss).len() implies #[trigger] spec_dedup(ss)[i]
                != #[trigger] spec_dedup(ss)[j] by {
                if j == spec_dedup(ss).len() - 1 {
                    assert(spec_dedup(ss)[j] == ss.last());
                    assert(rest[i] == spec_dedup(ss)[i]);
                    if rest[i] == ss.last() {
                        assert(rest.contains(ss.last()));
                    }
                } else {
                    assert(rest[i] == spec_dedup(ss)[i]);
                    assert(rest[j] == spec_dedup(ss)[j]);
                }
            }
        }
    }
}

/// The list holds a name with these characters.
#[verifier::loop_isolation(false)]
pub fn contains_name(names: &Vec<String>, x: &str) -> (r: bool)
    ensures
        r == view_strings(names@).contains(x@),
{
    let mut i: usize = 0;
    while i < names.len()
        invariant
            i <= names.len(),
            forall|j: int| 0 <= j < i ==> view_strings(names@)[j] != x@,
        decreases names@.len() - i,
    {
        if str_eq(names[i].as_str(), x) {
            proof {
                assert(view_strings(names@)[i as int] == x@);
            }
            return true;
        }
        i = i + 1;
    }
    false
}

/// Copies the names, dropping later repetitions.
#[verifier::loop_isolation(false)]
fn dedup_names(names: &Vec<String>) -> (r: Vec<String>)
    ensures
        view_strings(r@) == spec_dedup(view_strings(names@)),
{
    let mut r: Vec<String> = Vec::new();
    let mut i: usize = 0;
    while i < names.len()
        invariant
            i <= names.len(),
            view_strings(r@) == spec_dedup(view_strings(names@.subrange(0, i as int))),
        decreases names@.len() - i,
    {
        let ghost r0 = r@;
        if !contains_name(&r, names[i].as_str()) {
            r.push(names[i].clone());
        }
        proof {
            let pre = view_strings(names@.subrange(0, i as int));
            let post = view_strings(names@.subrange(0, i + 1 as int));
            assert(post.drop_last() =~= pre);
            assert(post.last() == names@[i as int]@);
            if !spec_dedup(pre).contains(names@[i as int]@) {
                assert(view_strings(r@) =~= view_strings(r0).push(names@[i as int]@));
            }
            assert(view_strings(r@) =~= spec_dedup(post));
        }
        i = i + 1;
    }
    proof {
        assert(names@.subrange(0, names@.len() as int) =~= names@);
    }
    r
}

/// Collects the prop names of the component function: a destructured
/// object parameter takes precedence over `… = props` bindings in the
/// body; the two are never merged.
#[verifier::loop_isolation(false)]
pub fn recognize_props(f: &FnDef) -> (r: Vec<String>)
    ensures
        view_strings(r@) == spec_prop_names(*f),
{
    let mut i: usize = 0;
    proof {
        assert(f.params@.skip(0) =~= f.params@);
    }
    while i < f.params.len()
        invariant
            i <= f.params.len(),
            spec_param_prop_names(f.params@) == spec_param_prop_names(f.params@.skip(i as int)),
        decreases f.params@.len() - i,
    {
        let found: bool = match &f.params[i] {
            Pat::ObjectPat(names) => true,
            _ => false,
        };
        proof {
            assert(f.params@.skip(i as int)[0] == f.params@[i as int]);
            assert(f.params@.skip(i as int).drop_first() =~= f.params@.skip(i + 1 as int));
        }
        if found {
            match &f.params[i] {
                Pat::ObjectPat(names) => {
                    return dedup_names(names);
                },
                _ => {},
            }
        }
        i = i + 1;
    }
    proof {
        assert(f.params@.skip(f.params@.len() as int) =~= Seq::<Pat>::empty());
    }
    let mut collected: Vec<String> = Vec::new();
    let mut k: usize = 0;
    proof {
        assert(f.body@.skip(0) =~= f.body@);
    }
    while k < f.body.len()
        invariant
            k <= f.body.len(),
            spec_param_prop_names(f.params@) is None,
            spec_body_prop_names(f.body@) == view_strings(collected@) + spec_body_prop_names(
                f.body@.skip(k as int),
            ),
        decreases f.body@.len() - k,
    {
        proof {
            assert(f.body@.skip(k as int)[0] == f.body@[k as int]);
            assert(f.body@.skip(k as int).drop_first() =~= f.body@.skip(k + 1 as int));
        }
        match &f.body[k] {
            Stmt::VarDecl { pat: Pat::ObjectPat(names), init: Some(Expr::Ident(id)) } => {
                if str_eq(id.as_str(), "props") {
                    let mut j: usize = 0;
                    let ghost c0 = collected@;
                    while j < names.len()
                        invariant
                            j <= names.len(),
                            view_strings(collected@) =~= view_strings(c0) + view_strings(
                                names@.subrange(0, j as int),
                            ),
                        decreases names@.len() - j,
                    {
                        let ghost c1 = collected@;
                        collected.push(names[j].clone());
                        proof {
                            assert(view_strings(collected@) =~= view_strings(c1).push(
                                names@[j as int]@,
                            ));
                            assert(view_strings(names@.subrange(0, j + 1 as int)) =~= view_strings(
                                names@.subrange(0, j as int),
                            ).push(names@[j as int]@));
                        }
                        j = j + 1;
                    }
                    proof {
                        assert(names@.subrange(0, names@.len() as int) =~= names@);
                        assert(view_strings(collected@) =~= view_strings(c0) + view_strings(
                            names@,
                        ));
                    }
                }
            },
            _ => {},
        }
        proof {
            assert(spec_body_prop_names(f.body@) =~= view_strings(collected@)
                + spec_body_prop_names(f.body@.skip(k + 1 as int)));
        }
        k = k + 1;
    }
    proof {
        assert(f.body@.skip(f.body@.len() as int) =~= Seq::<Stmt>::empty());
        assert(view_strings(collected@) =~= spec_body_prop_names(f.body@));
    }
    dedup_names(&collected)
}

// ---------------------------------------------------------------------------
// Method recognizer
// ---------------------------------------------------------------------------
/// The serialized function expression a recognized closure is kept as.
pub open spec fn spec_method_body(params: Seq<String>, body: Seq<char>) -> Seq<char> {
    "function("@ + join_with(view_strings(params), ", "@) + ") "@ + body
}

/// The method a statement contributes, before the setter exclusion: a
/// binding of a closure to a name.
pub open spec fn stmt_method_entry(s: Stmt) -> Option<MethodEntryView> {
    match s {
        Stmt::VarDecl { pat: Pat::Ident(name), init: Some(Expr::Arrow { params, body }) } => Some(
            MethodEntryView { name: name@, body: spec_method_body(params@, body@) },
        ),
        _ => None,
    }
}

/// The name is, case insensitively, `set` followed by the name of one of
/// the given state entries.
pub open spec fn is_setter_of_some(name: Seq<char>, states: Seq<StateEntryView>) -> bool {
    exists|i: int| 0 <= i < states.len() && is_setter_for(name, #[trigger] states[i].name)
}

/// All methods of a body, in discovery order, with presumed hook setters
/// excluded.
pub open spec fn spec_method_entries(stmts: Seq<Stmt>, states: Seq<StateEntryView>) -> Seq<
    MethodEntryView,
>
    decreases stmts.len(),
{
    if stmts.len() == 0 {
        Seq::empty()
    } else {
        (match stmt_method_entry(stmts[0]) {
            Some(m) => if is_setter_of_some(m.name, states) {
                Seq::empty()
            } else {
                seq![m]
            },
            None => Seq::empty(),
        }) + spec_method_entries(stmts.drop_first(), states)
    }
}

/// The name matches the setter convention for one of the recognized state
/// entries, executable form.
#[verifier::loop_isolation(false)]
fn has_state_setter(name: &str, states: &Vec<StateEntry>) -> (r: bool)
    ensures
        r == is_setter_of_some(
            name@,
            states@.map_values(|e: StateEntry| view_state_entry(e)),
        ),
{
    let ghost sv = states@.map_values(|e: StateEntry| view_state_entry(e));
    let mut i: usize = 0;
    while i < states.len()
        invariant
            i <= states.len(),
            forall|j: int| 0 <= j < i ==> !is_setter_for(name@, sv[j].name),
        decreases states@.len() - i,
    {
        if is_setter_name(name, states[i].name.as_str()) {
            proof {
                assert(is_setter_for(name@, sv[i as int].name));
            }
            return true;
        }
        i = i + 1;
    }
    false
}

/// Collects the methods of the body, in order, excluding presumed hook
/// setters for the given state entries.
#[verifier::loop_isolation(false)]
pub fn recognize_methods(body: &Vec<Stmt>, states: &Vec<StateEntry>) -> (r: Vec<MethodEntry>)
    ensures
        r@.map_values(|m: MethodEntry| crate::ast::view_method_entry(m)) == spec_method_entries(
            body@,
            states@.map_values(|e: StateEntry| view_state_entry(e)),
        ),
{
    let ghost sv = states@.map_values(|e: StateEntry| view_state_entry(e));
    let ghost f = |m: MethodEntry| crate::ast::view_method_entry(m);
    let mut r: Vec<MethodEntry> = Vec::new();
    let mut i: usize = 0;
    proof {
        assert(body@.skip(0) =~= body@);
    }
    while i < body.len()
        invariant
            i <= body.len(),
            spec_method_entries(body@, sv) == r@.map_values(f) + spec_method_entries(
                body@.skip(i as int),
                sv,
            ),
        decreases body@.len() - i,
    {
        let ghost r0 = r@;
        match &body[i] {
            Stmt::VarDecl { pat: Pat::Ident(name), init: Some(Expr::Arrow { params, body: ab }) } => {
                if !has_state_setter(name.as_str(), states) {
                    let mut text = String::from_str("function(");
                    push_joined_names(params, &mut text);
                    text.append(") ");
                    text.append(ab.as_str());
                    let m = MethodEntry { name: name.clone(), body: text };
                    r.push(m);
                }
            },
            _ => {},
        }
        proof {
            assert(body@.skip(i as int)[0] == body@[i as int]);
            assert(body@.skip(i as int).drop_first() =~= body@.skip(i + 1 as int));
            if r@.len() > r0.len() {
                assert(r@.map_values(f) =~= r0.map_values(f).push(
                    crate::ast::view_method_entry(r@.last()),
                ));
            }
            assert(spec_method_entries(body@, sv) =~= r@.map_values(f) + spec_method_entries(
                body@.skip(i + 1 as int),
                sv,
            ));
        }
        i = i + 1;
    }
    proof {
        assert(body@.skip(body@.len() as int) =~= Seq::<Stmt>::empty());
        assert(spec_method_entries(body@, sv) =~= r@.map_values(f));
    }
    r
}

// ---------------------------------------------------------------------------
// Laws of the recognizers
// ---------------------------------------------------------------------------
/// No collected method is named, case insensitively, `set` followed by a
/// recognized state name: the presumed hook setter never appears as a
/// standalone method.
pub proof fn lemma_setter_never_method(stmts: Seq<Stmt>, states: Seq<StateEntryView>)
    ensures
        forall|k: int|
            0 <= k < spec_method_entries(stmts, states).len() ==> !is_setter_of_some(
                #[trigger] spec_method_entries(stmts, states)[k].name,
                states,
            ),
    decreases stmts.len(),
{
    if stmts.len() > 0 {
        lemma_setter_never_method(stmts.drop_first(), states);
        let head = match stmt_method_entry(stmts[0]) {
            Some(m) => if is_setter_of_some(m.name, states) {
                Seq::<MethodEntryView>::empty()
            } else {
                seq![m]
            },
            None => Seq::<MethodEntryView>::empty(),
        };
        let rest = spec_method_entries(stmts.drop_first(), states);
        assert(spec_method_entries(stmts, states) == head + rest);
        assert forall|k: int|
            0 <= k < spec_method_entries(stmts, states).len() implies !is_setter_of_some(
            #[trigger] spec_method_entries(stmts, states)[k].name,
            states,
        ) by {
            if k < head.len() {
                assert(spec_method_entries(stmts, states)[k] == head[0]);
            } else {
                assert(spec_method_entries(stmts, states)[k] == rest[k - head.len()]);
            }
        }
    }
}

/// Every statement of the recognized state shape contributes its entry to
/// the collected state, so a declaration `[value, setValue] = call(init)`
/// is always carried into the data section.
pub proof fn lemma_state_recognized(stmts: Seq<Stmt>, k: int)
    requires
        0 <= k < stmts.len(),
        stmt_state_entry(stmts[k]) is Some,
    ensures
        spec_state_entries(stmts).contains(stmt_state_entry(stmts[k])->0),
    decreases k,
{
    let e = stmt_state_entry(stmts[k])->0;
    if k == 0 {
        assert(spec_state_entries(stmts)[0] == e);
        assert(spec_state_entries(stmts).contains(e));
    } else {
        assert(stmts.drop_first()[k - 1] == stmts[k]);
        lemma_state_recognized(stmts.drop_first(), k - 1);
        let rest = spec_state_entries(stmts.drop_first());
        let j = choose|j: int| 0 <= j < rest.len() && rest[j] == e;
        let head = match stmt_state_entry(stmts[0]) {
            Some(h) => seq![h],
            None => Seq::<StateEntryView>::empty(),
        };
        assert(spec_state_entries(stmts) == head + rest);
        assert(spec_state_entries(stmts)[head.len() + j] == e);
        assert(spec_state_entries(stmts).contains(e));
    }
}

} // verus!
