//! Linker symbols and the definitions that claim them.

use crate::hir::HirId;
use crate::text::same_text;
use vstd::prelude::*;

verus! {

/// The definition that claimed `symbol` first.
pub open spec fn owner_of(claims: Seq<(Seq<char>, HirId)>, symbol: Seq<char>) -> Option<HirId>
    decreases claims.len(),
{
    if claims.len() == 0 {
        None
    } else {
        match owner_of(claims.drop_last(), symbol) {
            Some(id) => Some(id),
            None => if claims.last().0 == symbol {
                Some(claims.last().1)
            } else {
                None
            },
        }
    }
}

/// The claims once `id` has claimed `symbol`, unless another definition did.
pub open spec fn claimed(claims: Seq<(Seq<char>, HirId)>, symbol: Seq<char>, id: HirId) -> Option<
    Seq<(Seq<char>, HirId)>,
> {
    match owner_of(claims, symbol) {
        Some(owner) => if owner == id {
            Some(claims)
        } else {
            None
        },
        None => Some(claims.push((symbol, id))),
    }
}

/// What is said of two definitions of one symbol.
pub open spec fn collision_text(symbol: Seq<char>) -> Seq<char> {
    "two different definitions both produce the linker symbol '"@ + symbol
        + "'; give one of them a different name"@
}

/// What is said of two functions with one symbol.
pub open spec fn function_collision_text(symbol: Seq<char>) -> Seq<char> {
    "two different functions both produce the linker symbol '"@ + symbol
        + "' -- this can happen when '@mangling(disabled)' is used on more than one function with the same name, or when '@mangling(force = \"...\")' gives two different functions the same forced name; give one of them a different name, or re-enable mangling"@
}

/// The symbols claimed so far, each with the definition that claimed it.
#[derive(Debug)]
pub struct SymbolRegistry {
    pub claims: Vec<(String, HirId)>,
}

impl View for SymbolRegistry {
    type V = Seq<(Seq<char>, HirId)>;

    open spec fn view(&self) -> Seq<(Seq<char>, HirId)> {
        self.claims@.map_values(|claim: (String, HirId)| (claim.0@, claim.1))
    }
}

impl Default for SymbolRegistry {
    fn default() -> (registry: Self)
        ensures
            registry@ == Seq::<(Seq<char>, HirId)>::empty(),
    {
        let registry = SymbolRegistry { claims: Vec::new() };
        assert(registry@ =~= Seq::empty());
        registry
    }
}

proof fn lemma_owner_stays(claims: Seq<(Seq<char>, HirId)>, n: int, symbol: Seq<char>)
    requires
        0 <= n <= claims.len(),
        owner_of(claims.take(n), symbol) is Some,
    ensures
        owner_of(claims, symbol) == owner_of(claims.take(n), symbol),
    decreases claims.len(),
{
    if n == claims.len() {
        assert(claims.take(n) =~= claims);
    } else {
        assert(claims.drop_last().take(n) =~= claims.take(n));
        lemma_owner_stays(claims.drop_last(), n, symbol);
    }
}

impl SymbolRegistry {
    fn find(&self, symbol: &str) -> (owner: Option<HirId>)
        ensures
            owner == owner_of(self@, symbol@),
    {
        let mut i: usize = 0;
        while i < self.claims.len()
            invariant
                i <= self.claims@.len(),
                owner_of(self@.take(i as int), symbol@) is None,
            decreases self.claims.len() - i,
        {
            assert(self@.take(i as int + 1).drop_last() =~= self@.take(i as int));
            if same_text(self.claims[i].0.as_str(), symbol) {
                proof {
                    lemma_owner_stays(self@, i as int + 1, symbol@);
                }
                return Some(self.claims[i].1);
            }
            i = i + 1;
        }
        assert(self@.take(i as int) =~= self@);
        None
    }

    fn claim(&mut self, symbol: &str, id: HirId) -> (granted: bool)
        ensures
            match claimed(old(self)@, symbol@, id) {
                Some(claims) => granted && final(self)@ == claims,
                None => !granted && final(self)@ == old(self)@,
            },
    {
        match self.find(symbol) {
            Some(owner) => owner == id,
            None => {
                self.claims.push((symbol.to_owned(), id));
                assert(self@ =~= old(self)@.push((symbol@, id)));
                true
            },
        }
    }

    /// Claims a symbol for a definition. Two definitions that force the same
    /// linker symbol are rejected.
    pub fn register(&mut self, symbol: &str, id: HirId) -> (result: Result<(), String>)
        ensures
            match claimed(old(self)@, symbol@, id) {
                Some(claims) => result is Ok && final(self)@ == claims,
                None => {
                    &&& result is Err
                    &&& result->Err_0@ == collision_text(symbol@)
                    &&& final(self)@ == old(self)@
                },
            },
    {
        if self.claim(symbol, id) {
            Ok(())
        } else {
            let mut text: String = "two different definitions both produce the linker symbol '".to_owned();
            text.append(symbol);
            text.append("'; give one of them a different name");
            Err(text)
        }
    }

    /// Claims a symbol for a function.
    pub fn register_function(&mut self, symbol: &str, id: HirId) -> (result: Result<(), String>)
        ensures
            match claimed(old(self)@, symbol@, id) {
                Some(claims) => result is Ok && final(self)@ == claims,
                None => {
                    &&& result is Err
                    &&& result->Err_0@ == function_collision_text(symbol@)
                    &&& final(self)@ == old(self)@
                },
            },
    {
        if self.claim(symbol, id) {
            Ok(())
        } else {
            let mut text: String = "two different functions both produce the linker symbol '".to_owned();
            text.append(symbol);
            text.append("' -- this can happen when '@mangling(disabled)' is used on more than one function with the same name, or when '@mangling(force = \"...\")' gives two different functions the same forced name; give one of them a different name, or re-enable mangling");
            Err(text)
        }
    }
}

/// Whether no symbol is claimed by two definitions.
pub open spec fn uncontested(claims: Seq<(Seq<char>, HirId)>) -> bool {
    forall|i: int, j: int|
        0 <= i < claims.len() && 0 <= j < claims.len() && (#[trigger] claims[i]).0 == (
        #[trigger] claims[j]).0 ==> claims[i].1 == claims[j].1
}

proof fn lemma_unowned(claims: Seq<(Seq<char>, HirId)>, symbol: Seq<char>)
    requires
        owner_of(claims, symbol) is None,
    ensures
        forall|i: int| 0 <= i < claims.len() ==> (#[trigger] claims[i]).0 != symbol,
    decreases claims.len(),
{
    if claims.len() > 0 {
        lemma_unowned(claims.drop_last(), symbol);
        assert forall|i: int| 0 <= i < claims.len() implies (#[trigger] claims[i]).0 != symbol by {
            if i < claims.len() - 1 {
                assert(claims.drop_last()[i] == claims[i]);
            }
        }
    }
}

/// Granting claims never lets two definitions share a symbol.
pub proof fn law_granted_claims_stay_uncontested(
    claims: Seq<(Seq<char>, HirId)>,
    symbol: Seq<char>,
    id: HirId,
)
    requires
        uncontested(claims),
        claimed(claims, symbol, id) is Some,
    ensures
        uncontested(claimed(claims, symbol, id)->0),
{
    if owner_of(claims, symbol) is None {
        lemma_unowned(claims, symbol);
    }
}

} // verus!
