//! The leader's discrete decision vector: which products are offered and
//! which design alternatives are active.

use vstd::prelude::*;

verus! {

use crate::relation::{Alternative, Module, Product, Relation};
use crate::relation::{AlternativeMap, ProductMap};
use crate::relation::{alternative_ids, firsts_of, lemma_firsts_of_entry};

#[derive(Clone)]
pub struct Decision {
    pub product: ProductMap<bool>,
    pub alternative: AlternativeMap<bool>,
}

impl Decision {
    /// Every product and every alternative starts active.
    pub fn new(relation: &Relation) -> (r: Self)
        ensures
            r.product@.len() == relation.spec_product_count(),
            r.alternative@.len() == relation.spec_alternative_count(),
            forall|i: int| 0 <= i < r.product@.len() ==> r.product@[i],
            forall|i: int| 0 <= i < r.alternative@.len() ==> r.alternative@[i],
    {
        // the generic constructor promises only the shape (the seed is
        // replicated by cloning, of which nothing is known for a general
        // type), so each flag is written again to pin the contents
        let mut product = ProductMap::new(relation, true);
        let mut alternative = AlternativeMap::new(relation, true);
        let np = product.len();
        for i in 0..np
            invariant
                product@.len() == np,
                forall|j: int| 0 <= j < i ==> product@[j],
        {
            product.set(Product { id: i }, true);
        }
        let na = alternative.len();
        for i in 0..na
            invariant
                alternative@.len() == na,
                forall|j: int| 0 <= j < i ==> alternative@[j],
        {
            alternative.set(Alternative { id: i }, true);
        }
        Decision { product, alternative }
    }

    /// Replaces the product activation flags by the given ones.
    pub fn input(&mut self, relation: &Relation, data: &[bool])
        requires
            old(self).product@.len() == relation.spec_product_count(),
            data@.len() >= relation.spec_product_count(),
        ensures
            final(self).product@.len() == old(self).product@.len(),
            forall|i: int|
                0 <= i < final(self).product@.len() ==> final(self).product@[i] == data@[i],
            final(self).alternative == old(self).alternative,
    {
        let n = self.product.len();
        for i in 0..n
            invariant
                self.product@.len() == n,
                n <= data@.len(),
                forall|j: int| 0 <= j < i ==> self.product@[j] == data@[j],
                self.alternative == old(self).alternative,
        {
            self.product.set(Product { id: i }, data[i]);
        }
    }

    /// Whether any alternative of the given module is active: the module is
    /// produced exactly when one of its alternatives is.
    pub fn module_active(&self, relation: &Relation, module: Module) -> (r: bool)
        requires
            forall|i: int|
                0 <= i < relation.alternative_module_seq().len() ==> (
                #[trigger] relation.alternative_module_seq()[i]).0 < self.alternative@.len(),
        ensures
            r == exists|i: int|
                0 <= i < firsts_of(relation.alternative_module_seq(), module.id).len()
                    && self.alternative@[firsts_of(relation.alternative_module_seq(), module.id)[i] as int],
    {
        let ks = relation.alternatives_of_module(module);
        proof {
            assert forall|j: int|
                0 <= j < ks@.len() implies (#[trigger] ks@[j]).id < self.alternative@.len() by {
                assert(alternative_ids(ks@)[j] == ks@[j].id);
                let w = lemma_firsts_of_entry(relation.alternative_module_seq(), module.id, j);
            }
        }
        let n = ks.len();
        for i in 0..n
            invariant
                n == ks@.len(),
                alternative_ids(ks@) == firsts_of(relation.alternative_module_seq(), module.id),
                forall|j: int|
                    0 <= j < ks@.len() ==> (#[trigger] ks@[j]).id < self.alternative@.len(),
                forall|j: int| 0 <= j < i ==> !self.alternative@[(#[trigger] ks@[j]).id as int],
        {
            if *self.alternative.get(ks[i]) {
                proof {
                    let k = i as int;
                    assert(alternative_ids(ks@)[k] == ks@[k].id);
                    assert(self.alternative@[firsts_of(
                        relation.alternative_module_seq(),
                        module.id,
                    )[k] as int]);
                }
                return true;
            }
        }
        proof {
            assert forall|i: int|
                0 <= i < firsts_of(relation.alternative_module_seq(), module.id).len()
                    implies !self.alternative@[firsts_of(
                relation.alternative_module_seq(),
                module.id,
            )[i] as int] by {
                assert(alternative_ids(ks@)[i] == ks@[i].id);
            }
        }
        false
    }
}

} // verus!
