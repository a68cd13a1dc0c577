//! What a catalog promises: nothing that is declared is missing from it, and
//! nothing that was in it is lost.

use crate::codegen::catalog::{functions_added, CatalogView};
use crate::codegen::mir::MirFunctionDef;
use crate::codegen::symbol::{claimed, owner_of};
use crate::hir::HirId;
use vstd::prelude::*;

verus! {

/// Whether a catalog holds all that another does, in the same places.
pub open spec fn holds_all(after: CatalogView, before: CatalogView) -> bool {
    &&& before.functions.len() <= after.functions.len()
    &&& before.globals.len() <= after.globals.len()
    &&& before.claims.len() <= after.claims.len()
    &&& forall|i: int|
        0 <= i < before.functions.len() ==> #[trigger] after.functions[i] == before.functions[i]
    &&& forall|i: int|
        0 <= i < before.globals.len() ==> #[trigger] after.globals[i] == before.globals[i]
    &&& forall|i: int|
        0 <= i < before.claims.len() ==> #[trigger] after.claims[i] == before.claims[i]
}

/// Defined functions are catalogued one behind the other, each under its own
/// identity and symbol, and each symbol is its function's alone.
pub proof fn law_functions_are_catalogued(catalog: CatalogView, functions: Seq<MirFunctionDef>)
    requires
        functions_added(catalog, functions) is Ok,
    ensures
        ({
            let after = functions_added(catalog, functions)->Ok_0;
            &&& holds_all(after, catalog)
            &&& after.functions.len() == catalog.functions.len() + functions.len()
            &&& after.globals == catalog.globals
            &&& forall|i: int|
                0 <= i < functions.len() ==> {
                    let entry = after.functions[catalog.functions.len() + i];
                    &&& entry.id == (#[trigger] functions[i]).id
                    &&& entry.symbol == functions[i].symbol@
                    &&& entry.fn_type == *functions[i].fn_type
                    &&& owner_of(after.claims, functions[i].symbol@) == Some(functions[i].id)
                }
        }),
    decreases functions.len(),
{
    if functions.len() > 0 {
        let front = functions.drop_last();
        law_functions_are_catalogued(catalog, front);
        let before = functions_added(catalog, front)->Ok_0;
        let after = functions_added(catalog, functions)->Ok_0;
        let last = functions.len() - 1;
        assert forall|i: int| 0 <= i < functions.len() implies {
            let entry = after.functions[catalog.functions.len() + i];
            &&& entry.id == (#[trigger] functions[i]).id
            &&& entry.symbol == functions[i].symbol@
            &&& entry.fn_type == *functions[i].fn_type
            &&& owner_of(after.claims, functions[i].symbol@) == Some(functions[i].id)
        } by {
            if i < last {
                assert(front[i] == functions[i]);
                if after.claims != before.claims {
                    assert(after.claims.drop_last() =~= before.claims);
                }
                lemma_owner_stays(before.claims, after.claims, functions[i].symbol@);
            } else {
                lemma_claimant_owns(before.claims, after.claims, functions[i]);
            }
        }
    }
}

proof fn lemma_owner_stays(
    before: Seq<(Seq<char>, HirId)>,
    after: Seq<(Seq<char>, HirId)>,
    symbol: Seq<char>,
)
    requires
        owner_of(before, symbol) is Some,
        after == before || after.len() > 0 && after.drop_last() == before,
    ensures
        owner_of(after, symbol) == owner_of(before, symbol),
{
}

proof fn lemma_claimant_owns(
    before: Seq<(Seq<char>, HirId)>,
    after: Seq<(Seq<char>, HirId)>,
    function: MirFunctionDef,
)
    requires
        claimed(before, function.symbol@, function.id) == Some(after),
    ensures
        owner_of(after, function.symbol@) == Some(function.id),
{
    if owner_of(before, function.symbol@) is None {
        assert(after.drop_last() =~= before);
    }
}

} // verus!
