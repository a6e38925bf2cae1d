//! The component locator: scans the top-level declarations in source order
//! and yields the first exported function declaration. A non-exported
//! function is never matched, whatever its name; later exported functions
//! are silently ignored (a documented limitation, not an error).

use vstd::prelude::*;

use crate::ast::Declaration;
use crate::ast::FnDef;
use crate::ast::SyntaxTree;

verus! {

/// The first exported function declaration, in source order.
pub open spec fn spec_locate(decls: Seq<Declaration>) -> Option<FnDef>
    decreases decls.len(),
{
    if decls.len() == 0 {
        None
    } else {
        match decls[0] {
            Declaration::ExportedFn(f) => Some(f),
            _ => spec_locate(decls.drop_first()),
        }
    }
}

/// Finds the component definition: the first top-level exported function.
/// Yields nothing when the unit exports no function.
#[verifier::loop_isolation(false)]
pub fn locate_component(tree: &SyntaxTree) -> (r: Option<&FnDef>)
    ensures
        (match r {
            Some(f) => spec_locate(tree.decls@) == Some(*f),
            None => spec_locate(tree.decls@) is None,
        }),
{
    let mut i: usize = 0;
    proof {
        assert(tree.decls@.skip(0) =~= tree.decls@);
    }
    while i < tree.decls.len()
        invariant
            i <= tree.decls.len(),
            spec_locate(tree.decls@) == spec_locate(tree.decls@.skip(i as int)),
        decreases tree.decls@.len() - i,
    {
        proof {
            assert(tree.decls@.skip(i as int)[0] == tree.decls@[i as int]);
            assert(tree.decls@.skip(i as int).drop_first() =~= tree.decls@.skip(i + 1 as int));
        }
        match &tree.decls[i] {
            Declaration::ExportedFn(f) => {
                return Some(f);
            },
            _ => {},
        }
        i = i + 1;
    }
    proof {
        assert(tree.decls@.skip(tree.decls@.len() as int) =~= Seq::<Declaration>::empty());
    }
    None
}

} // verus!
