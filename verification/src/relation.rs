//! Relational topology of the supply chain: which suppliers carry which
//! materials, which retailers sell which products, which alternatives realise
//! which modules and products. All entity identifiers are dense integers
//! `0..count`; the counts are fixed when the pair lists are loaded.

use vstd::prelude::*;

verus! {

use crate::mrgame::Decision;

#[derive(Copy, Clone)]
pub struct Supplier {
    pub id: usize,
}

#[derive(Copy, Clone)]
pub struct Material {
    pub id: usize,
}

#[derive(Copy, Clone)]
pub struct Alternative {
    pub id: usize,
}

#[derive(Copy, Clone)]
pub struct Module {
    pub id: usize,
}

#[derive(Copy, Clone)]
pub struct Product {
    pub id: usize,
}

#[derive(Copy, Clone)]
pub struct Retailer {
    pub id: usize,
}

/// The second components of the pairs whose first component is `a`,
/// in the order the pairs were given.
pub open spec fn seconds_of(pairs: Seq<(usize, usize)>, a: usize) -> Seq<usize>
    decreases pairs.len(),
{
    if pairs.len() == 0 {
        Seq::empty()
    } else {
        let rest = seconds_of(pairs.drop_last(), a);
        if pairs.last().0 == a {
            rest.push(pairs.last().1)
        } else {
            rest
        }
    }
}

/// The first components of the pairs whose second component is `b`,
/// in the order the pairs were given.
pub open spec fn firsts_of(pairs: Seq<(usize, usize)>, b: usize) -> Seq<usize>
    decreases pairs.len(),
{
    if pairs.len() == 0 {
        Seq::empty()
    } else {
        let rest = firsts_of(pairs.drop_last(), b);
        if pairs.last().1 == b {
            rest.push(pairs.last().0)
        } else {
            rest
        }
    }
}

/// Like `seconds_of`, but keeping only the second components whose
/// activation flag is set.
pub open spec fn active_seconds_of(pairs: Seq<(usize, usize)>, a: usize, flags: Seq<bool>) -> Seq<
    usize,
>
    decreases pairs.len(),
{
    if pairs.len() == 0 {
        Seq::empty()
    } else {
        let rest = active_seconds_of(pairs.drop_last(), a, flags);
        let p = pairs.last();
        if p.0 == a && p.1 < flags.len() && flags[p.1 as int] {
            rest.push(p.1)
        } else {
            rest
        }
    }
}

/// Whether some pair has `a` as its first component.
pub open spec fn has_first(pairs: Seq<(usize, usize)>, a: usize) -> bool {
    exists|i: int| 0 <= i < pairs.len() && pairs[i].0 == a
}

/// The second component of the first pair whose first component is `a`
/// (zero if there is none).
pub open spec fn first_second_of(pairs: Seq<(usize, usize)>, a: usize) -> usize
    decreases pairs.len(),
{
    if pairs.len() == 0 {
        0
    } else if pairs[0].0 == a {
        pairs[0].1
    } else {
        first_second_of(pairs.drop_first(), a)
    }
}

/// The largest first component, with zero as the base for the empty list.
pub open spec fn max_first(pairs: Seq<(usize, usize)>) -> usize
    decreases pairs.len(),
{
    if pairs.len() == 0 {
        0
    } else {
        let rest = max_first(pairs.drop_last());
        if pairs.last().0 > rest {
            pairs.last().0
        } else {
            rest
        }
    }
}

/// The largest second component, with zero as the base for the empty list.
pub open spec fn max_second(pairs: Seq<(usize, usize)>) -> usize
    decreases pairs.len(),
{
    if pairs.len() == 0 {
        0
    } else {
        let rest = max_second(pairs.drop_last());
        if pairs.last().1 > rest {
            pairs.last().1
        } else {
            rest
        }
    }
}

/// Every pair's components lie below the given bounds.
pub open spec fn pairs_bounded(pairs: Seq<(usize, usize)>, a: usize, b: usize) -> bool {
    forall|i: int| 0 <= i < pairs.len() ==> (#[trigger] pairs[i]).0 < a && pairs[i].1 < b
}

pub open spec fn supplier_ids(s: Seq<Supplier>) -> Seq<usize> {
    s.map_values(|e: Supplier| e.id)
}

pub open spec fn material_ids(s: Seq<Material>) -> Seq<usize> {
    s.map_values(|e: Material| e.id)
}

pub open spec fn alternative_ids(s: Seq<Alternative>) -> Seq<usize> {
    s.map_values(|e: Alternative| e.id)
}

pub open spec fn product_ids(s: Seq<Product>) -> Seq<usize> {
    s.map_values(|e: Product| e.id)
}

pub open spec fn retailer_ids(s: Seq<Retailer>) -> Seq<usize> {
    s.map_values(|e: Retailer| e.id)
}

pub struct Relation {
    supplier_count: usize,
    material_count: usize,
    product_count: usize,
    retailer_count: usize,
    alternative_count: usize,
    module_count: usize,
    supplier_materials: Vec<(usize, usize)>,
    retailer_products: Vec<(usize, usize)>,
    alternative_modules: Vec<(usize, usize)>,
    material_alternatives: Vec<(usize, usize)>,
    alternative_products: Vec<(usize, usize)>,
}

impl Relation {
    pub closed spec fn spec_supplier_count(&self) -> usize {
        self.supplier_count
    }

    pub closed spec fn spec_material_count(&self) -> usize {
        self.material_count
    }

    pub closed spec fn spec_product_count(&self) -> usize {
        self.product_count
    }

    pub closed spec fn spec_retailer_count(&self) -> usize {
        self.retailer_count
    }

    pub closed spec fn spec_alternative_count(&self) -> usize {
        self.alternative_count
    }

    pub closed spec fn spec_module_count(&self) -> usize {
        self.module_count
    }

    pub closed spec fn supplier_material_seq(&self) -> Seq<(usize, usize)> {
        self.supplier_materials@
    }

    pub closed spec fn retailer_product_seq(&self) -> Seq<(usize, usize)> {
        self.retailer_products@
    }

    pub closed spec fn alternative_module_seq(&self) -> Seq<(usize, usize)> {
        self.alternative_modules@
    }

    pub closed spec fn material_alternative_seq(&self) -> Seq<(usize, usize)> {
        self.material_alternatives@
    }

    pub closed spec fn alternative_product_seq(&self) -> Seq<(usize, usize)> {
        self.alternative_products@
    }

    pub fn new() -> (r: Self)
        ensures
            r.spec_supplier_count() == 0,
            r.spec_material_count() == 0,
            r.spec_product_count() == 0,
            r.spec_retailer_count() == 0,
            r.spec_alternative_count() == 0,
            r.spec_module_count() == 0,
            r.supplier_material_seq() == Seq::<(usize, usize)>::empty(),
            r.retailer_product_seq() == Seq::<(usize, usize)>::empty(),
            r.alternative_module_seq() == Seq::<(usize, usize)>::empty(),
            r.material_alternative_seq() == Seq::<(usize, usize)>::empty(),
            r.alternative_product_seq() == Seq::<(usize, usize)>::empty(),
    {
        let r = Relation {
            supplier_count: 0,
            material_count: 0,
            product_count: 0,
            retailer_count: 0,
            alternative_count: 0,
            module_count: 0,
            supplier_materials: Vec::new(),
            retailer_products: Vec::new(),
            alternative_modules: Vec::new(),
            material_alternatives: Vec::new(),
            alternative_products: Vec::new(),
        };
        proof {
            assert(r.supplier_materials@ =~= Seq::<(usize, usize)>::empty());
            assert(r.retailer_products@ =~= Seq::<(usize, usize)>::empty());
            assert(r.alternative_modules@ =~= Seq::<(usize, usize)>::empty());
            assert(r.material_alternatives@ =~= Seq::<(usize, usize)>::empty());
            assert(r.alternative_products@ =~= Seq::<(usize, usize)>::empty());
        }
        r
    }
}

proof fn lemma_seconds_of_step(pairs: Seq<(usize, usize)>, a: usize, i: int)
    requires
        0 <= i < pairs.len(),
    ensures
        seconds_of(pairs.take(i + 1), a) == (if pairs[i].0 == a {
            seconds_of(pairs.take(i), a).push(pairs[i].1)
        } else {
            seconds_of(pairs.take(i), a)
        }),
{
    let t = pairs.take(i + 1);
    assert(t.drop_last() =~= pairs.take(i));
    assert(t.last() == pairs[i]);
}

proof fn lemma_firsts_of_step(pairs: Seq<(usize, usize)>, b: usize, i: int)
    requires
        0 <= i < pairs.len(),
    ensures
        firsts_of(pairs.take(i + 1), b) == (if pairs[i].1 == b {
            firsts_of(pairs.take(i), b).push(pairs[i].0)
        } else {
            firsts_of(pairs.take(i), b)
        }),
{
    let t = pairs.take(i + 1);
    assert(t.drop_last() =~= pairs.take(i));
    assert(t.last() == pairs[i]);
}

proof fn lemma_active_seconds_of_step(pairs: Seq<(usize, usize)>, a: usize, flags: Seq<bool>, i: int)
    requires
        0 <= i < pairs.len(),
    ensures
        active_seconds_of(pairs.take(i + 1), a, flags) == (if pairs[i].0 == a && pairs[i].1
            < flags.len() && flags[pairs[i].1 as int] {
            active_seconds_of(pairs.take(i), a, flags).push(pairs[i].1)
        } else {
            active_seconds_of(pairs.take(i), a, flags)
        }),
{
    let t = pairs.take(i + 1);
    assert(t.drop_last() =~= pairs.take(i));
    assert(t.last() == pairs[i]);
}

proof fn lemma_max_step(pairs: Seq<(usize, usize)>, i: int)
    requires
        0 <= i < pairs.len(),
    ensures
        max_first(pairs.take(i + 1)) == (if pairs[i].0 > max_first(pairs.take(i)) {
            pairs[i].0
        } else {
            max_first(pairs.take(i))
        }),
        max_second(pairs.take(i + 1)) == (if pairs[i].1 > max_second(pairs.take(i)) {
            pairs[i].1
        } else {
            max_second(pairs.take(i))
        }),
{
    let t = pairs.take(i + 1);
    assert(t.drop_last() =~= pairs.take(i));
    assert(t.last() == pairs[i]);
}

proof fn lemma_max_bounds(pairs: Seq<(usize, usize)>)
    ensures
        forall|i: int|
            0 <= i < pairs.len() ==> (#[trigger] pairs[i]).0 <= max_first(pairs) && pairs[i].1
                <= max_second(pairs),
    decreases pairs.len(),
{
    if pairs.len() > 0 {
        let prev = pairs.drop_last();
        lemma_max_bounds(prev);
        assert forall|i: int|
            0 <= i < pairs.len() implies (#[trigger] pairs[i]).0 <= max_first(pairs) && pairs[i].1
            <= max_second(pairs) by {
            if i < pairs.len() - 1 {
                assert(prev[i] == pairs[i]);
            }
        }
    }
}

proof fn lemma_first_second_at(pairs: Seq<(usize, usize)>, a: usize, i: int)
    requires
        0 <= i < pairs.len(),
        pairs[i].0 == a,
        forall|j: int| 0 <= j < i ==> (#[trigger] pairs[j]).0 != a,
    ensures
        first_second_of(pairs, a) == pairs[i].1,
    decreases i,
{
    if i > 0 {
        let rest = pairs.drop_first();
        assert(forall|j: int| 0 <= j < i - 1 ==> (#[trigger] rest[j]).0 != a);
        lemma_first_second_at(rest, a, i - 1);
    }
}

/// Every entry of `firsts_of(pairs, b)` is the first component of some pair
/// whose second component is `b`; returns the index of such a pair.
pub proof fn lemma_firsts_of_entry(pairs: Seq<(usize, usize)>, b: usize, i: int) -> (j: int)
    requires
        0 <= i < firsts_of(pairs, b).len(),
    ensures
        0 <= j < pairs.len(),
        pairs[j].1 == b,
        pairs[j].0 == firsts_of(pairs, b)[i],
    decreases pairs.len(),
{
    if pairs.len() == 0 {
        0
    } else {
        let prev = pairs.drop_last();
        if i < firsts_of(prev, b).len() {
            let j = lemma_firsts_of_entry(prev, b, i);
            assert(firsts_of(pairs, b)[i] == firsts_of(prev, b)[i]);
            j
        } else {
            assert(pairs.last().1 == b);
            pairs.len() - 1
        }
    }
}

impl Relation {
    /// Loads the supplier-material membership and fixes the supplier and
    /// material counts from the largest ids that occur.
    pub fn supplier_material_pairs(&mut self, pairs: &[(usize, usize)])
        requires
            pairs@.len() > 0,
            forall|i: int|
                0 <= i < pairs@.len() ==> (#[trigger] pairs@[i]).0 < usize::MAX && pairs@[i].1
                    < usize::MAX,
        ensures
            final(self).supplier_material_seq() == pairs@,
            final(self).spec_supplier_count() == max_first(pairs@) + 1,
            final(self).spec_material_count() == max_second(pairs@) + 1,
            pairs_bounded(
                pairs@,
                final(self).spec_supplier_count(),
                final(self).spec_material_count(),
            ),
            final(self).spec_product_count() == old(self).spec_product_count(),
            final(self).spec_retailer_count() == old(self).spec_retailer_count(),
            final(self).spec_alternative_count() == old(self).spec_alternative_count(),
            final(self).spec_module_count() == old(self).spec_module_count(),
            final(self).retailer_product_seq() == old(self).retailer_product_seq(),
            final(self).alternative_module_seq() == old(self).alternative_module_seq(),
            final(self).material_alternative_seq() == old(self).material_alternative_seq(),
            final(self).alternative_product_seq() == old(self).alternative_product_seq(),
    {
        proof {
            lemma_max_bounds(pairs@);
        }
        let (mx_first, mx_second, stored) = copy_pairs_with_maxima(pairs);
        self.supplier_count = mx_first + 1;
        self.material_count = mx_second + 1;
        self.supplier_materials = stored;
    }

    /// Loads the retailer-product membership and fixes the retailer and
    /// product counts from the largest ids that occur.
    pub fn retailer_product_pairs(&mut self, pairs: &[(usize, usize)])
        requires
            pairs@.len() > 0,
            forall|i: int|
                0 <= i < pairs@.len() ==> (#[trigger] pairs@[i]).0 < usize::MAX && pairs@[i].1
                    < usize::MAX,
        ensures
            final(self).retailer_product_seq() == pairs@,
            final(self).spec_retailer_count() == max_first(pairs@) + 1,
            final(self).spec_product_count() == max_second(pairs@) + 1,
            pairs_bounded(
                pairs@,
                final(self).spec_retailer_count(),
                final(self).spec_product_count(),
            ),
            final(self).spec_supplier_count() == old(self).spec_supplier_count(),
            final(self).spec_material_count() == old(self).spec_material_count(),
            final(self).spec_alternative_count() == old(self).spec_alternative_count(),
            final(self).spec_module_count() == old(self).spec_module_count(),
            final(self).supplier_material_seq() == old(self).supplier_material_seq(),
            final(self).alternative_module_seq() == old(self).alternative_module_seq(),
            final(self).material_alternative_seq() == old(self).material_alternative_seq(),
            final(self).alternative_product_seq() == old(self).alternative_product_seq(),
    {
        proof {
            lemma_max_bounds(pairs@);
        }
        let (mx_first, mx_second, stored) = copy_pairs_with_maxima(pairs);
        self.retailer_count = mx_first + 1;
        self.product_count = mx_second + 1;
        self.retailer_products = stored;
    }

    /// Loads the alternative-module assignment and fixes the alternative and
    /// module counts from the largest ids that occur.
    pub fn alternative_module_pairs(&mut self, pairs: &[(usize, usize)])
        requires
            pairs@.len() > 0,
            forall|i: int|
                0 <= i < pairs@.len() ==> (#[trigger] pairs@[i]).0 < usize::MAX && pairs@[i].1
                    < usize::MAX,
        ensures
            final(self).alternative_module_seq() == pairs@,
            final(self).spec_alternative_count() == max_first(pairs@) + 1,
            final(self).spec_module_count() == max_second(pairs@) + 1,
            pairs_bounded(
                pairs@,
                final(self).spec_alternative_count(),
                final(self).spec_module_count(),
            ),
            final(self).spec_supplier_count() == old(self).spec_supplier_count(),
            final(self).spec_material_count() == old(self).spec_material_count(),
            final(self).spec_product_count() == old(self).spec_product_count(),
            final(self).spec_retailer_count() == old(self).spec_retailer_count(),
            final(self).supplier_material_seq() == old(self).supplier_material_seq(),
            final(self).retailer_product_seq() == old(self).retailer_product_seq(),
            final(self).material_alternative_seq() == old(self).material_alternative_seq(),
            final(self).alternative_product_seq() == old(self).alternative_product_seq(),
    {
        proof {
            lemma_max_bounds(pairs@);
        }
        let (mx_first, mx_second, stored) = copy_pairs_with_maxima(pairs);
        self.alternative_count = mx_first + 1;
        self.module_count = mx_second + 1;
        self.alternative_modules = stored;
    }

    /// Loads the bill-of-materials membership between materials and
    /// alternatives; the counts are fixed by the other loaders.
    pub fn material_alternative_pairs(&mut self, pairs: &[(usize, usize)])
        ensures
            final(self).material_alternative_seq() == pairs@,
            final(self).spec_supplier_count() == old(self).spec_supplier_count(),
            final(self).spec_material_count() == old(self).spec_material_count(),
            final(self).spec_product_count() == old(self).spec_product_count(),
            final(self).spec_retailer_count() == old(self).spec_retailer_count(),
            final(self).spec_alternative_count() == old(self).spec_alternative_count(),
            final(self).spec_module_count() == old(self).spec_module_count(),
            final(self).supplier_material_seq() == old(self).supplier_material_seq(),
            final(self).retailer_product_seq() == old(self).retailer_product_seq(),
            final(self).alternative_module_seq() == old(self).alternative_module_seq(),
            final(self).alternative_product_seq() == old(self).alternative_product_seq(),
    {
        self.material_alternatives = copy_pairs(pairs);
    }

    /// Loads the membership between alternatives and the products they
    /// realise; the counts are fixed by the other loaders.
    pub fn alternative_product_pairs(&mut self, pairs: &[(usize, usize)])
        ensures
            final(self).alternative_product_seq() == pairs@,
            final(self).spec_supplier_count() == old(self).spec_supplier_count(),
            final(self).spec_material_count() == old(self).spec_material_count(),
            final(self).spec_product_count() == old(self).spec_product_count(),
            final(self).spec_retailer_count() == old(self).spec_retailer_count(),
            final(self).spec_alternative_count() == old(self).spec_alternative_count(),
            final(self).spec_module_count() == old(self).spec_module_count(),
            final(self).supplier_material_seq() == old(self).supplier_material_seq(),
            final(self).retailer_product_seq() == old(self).retailer_product_seq(),
            final(self).alternative_module_seq() == old(self).alternative_module_seq(),
            final(self).material_alternative_seq() == old(self).material_alternative_seq(),
    {
        self.alternative_products = copy_pairs(pairs);
    }

    /// All products a retailer sells, before any activation decision.
    pub fn initial_products(&self, retailer: Retailer) -> (r: Vec<Product>)
        ensures
            product_ids(r@) == seconds_of(self.retailer_product_seq(), retailer.id),
    {
        let pairs = &self.retailer_products;
        let n = pairs.len();
        let mut r: Vec<Product> = Vec::new();
        for i in 0..n
            invariant
                n == pairs@.len(),
                product_ids(r@) == seconds_of(pairs@.take(i as int), retailer.id),
        {
            proof {
                lemma_seconds_of_step(pairs@, retailer.id, i as int);
            }
            let ghost prev = r@;
            let p = pairs[i];
            if p.0 == retailer.id {
                r.push(Product { id: p.1 });
                proof {
                    assert(product_ids(r@) =~= product_ids(prev).push(p.1));
                }
            }
        }
        proof {
            assert(pairs@.take(n as int) =~= pairs@);
        }
        r
    }

    /// The products a retailer sells under the leader's activation decision.
    pub fn products(&self, retailer: Retailer, decision: &Decision) -> (r: Vec<Product>)
        requires
            forall|i: int|
                0 <= i < self.retailer_product_seq().len() ==> (
                #[trigger] self.retailer_product_seq()[i]).1 < decision.product@.len(),
        ensures
            product_ids(r@) == active_seconds_of(
                self.retailer_product_seq(),
                retailer.id,
                decision.product@,
            ),
    {
        let pairs = &self.retailer_products;
        proof {
            assert forall|j: int|
                0 <= j < pairs@.len() implies (#[trigger] pairs@[j]).1 < decision.product@.len() by {
                assert(self.retailer_product_seq()[j] == pairs@[j]);
            }
        }
        let n = pairs.len();
        let mut r: Vec<Product> = Vec::new();
        for i in 0..n
            invariant
                n == pairs@.len(),
                forall|j: int| 0 <= j < n ==> (#[trigger] pairs@[j]).1 < decision.product@.len(),
                product_ids(r@) == active_seconds_of(
                    pairs@.take(i as int),
                    retailer.id,
                    decision.product@,
                ),
        {
            proof {
                lemma_active_seconds_of_step(pairs@, retailer.id, decision.product@, i as int);
            }
            let ghost prev = r@;
            let p = pairs[i];
            if p.0 == retailer.id && *decision.product.get(Product { id: p.1 }) {
                r.push(Product { id: p.1 });
                proof {
                    assert(product_ids(r@) =~= product_ids(prev).push(p.1));
                }
            }
        }
        proof {
            assert(pairs@.take(n as int) =~= pairs@);
        }
        r
    }

    /// Every product id, in increasing order.
    pub fn all_products(&self) -> (r: Vec<Product>)
        ensures
            r@.len() == self.spec_product_count(),
            forall|i: int| 0 <= i < r@.len() ==> (#[trigger] r@[i]).id == i,
    {
        let n = self.product_count;
        let mut r: Vec<Product> = Vec::new();
        for i in 0..n
            invariant
                r@.len() == i,
                forall|j: int| 0 <= j < i ==> (#[trigger] r@[j]).id == j,
        {
            r.push(Product { id: i });
        }
        r
    }

    /// Every retailer id, in increasing order.
    pub fn initial_retailers(&self) -> (r: Vec<Retailer>)
        ensures
            r@.len() == self.spec_retailer_count(),
            forall|i: int| 0 <= i < r@.len() ==> (#[trigger] r@[i]).id == i,
    {
        let n = self.retailer_count;
        let mut r: Vec<Retailer> = Vec::new();
        for i in 0..n
            invariant
                r@.len() == i,
                forall|j: int| 0 <= j < i ==> (#[trigger] r@[j]).id == j,
        {
            r.push(Retailer { id: i });
        }
        r
    }

    /// Every supplier id, in increasing order.
    pub fn all_suppliers(&self) -> (r: Vec<Supplier>)
        ensures
            r@.len() == self.spec_supplier_count(),
            forall|i: int| 0 <= i < r@.len() ==> (#[trigger] r@[i]).id == i,
    {
        let n = self.supplier_count;
        let mut r: Vec<Supplier> = Vec::new();
        for i in 0..n
            invariant
                r@.len() == i,
                forall|j: int| 0 <= j < i ==> (#[trigger] r@[j]).id == j,
        {
            r.push(Supplier { id: i });
        }
        r
    }

    /// Every material id, in increasing order.
    pub fn all_materials(&self) -> (r: Vec<Material>)
        ensures
            r@.len() == self.spec_material_count(),
            forall|i: int| 0 <= i < r@.len() ==> (#[trigger] r@[i]).id == i,
    {
        let n = self.material_count;
        let mut r: Vec<Material> = Vec::new();
        for i in 0..n
            invariant
                r@.len() == i,
                forall|j: int| 0 <= j < i ==> (#[trigger] r@[j]).id == j,
        {
            r.push(Material { id: i });
        }
        r
    }

    /// Every alternative id, in increasing order.
    pub fn all_alternatives(&self) -> (r: Vec<Alternative>)
        ensures
            r@.len() == self.spec_alternative_count(),
            forall|i: int| 0 <= i < r@.len() ==> (#[trigger] r@[i]).id == i,
    {
        let n = self.alternative_count;
        let mut r: Vec<Alternative> = Vec::new();
        for i in 0..n
            invariant
                r@.len() == i,
                forall|j: int| 0 <= j < i ==> (#[trigger] r@[j]).id == j,
        {
            r.push(Alternative { id: i });
        }
        r
    }

    /// Every module id, in increasing order.
    pub fn all_modules(&self) -> (r: Vec<Module>)
        ensures
            r@.len() == self.spec_module_count(),
            forall|i: int| 0 <= i < r@.len() ==> (#[trigger] r@[i]).id == i,
    {
        let n = self.module_count;
        let mut r: Vec<Module> = Vec::new();
        for i in 0..n
            invariant
                r@.len() == i,
                forall|j: int| 0 <= j < i ==> (#[trigger] r@[j]).id == j,
        {
            r.push(Module { id: i });
        }
        r
    }

    /// The materials a supplier carries.
    pub fn materials(&self, supplier: Supplier) -> (r: Vec<Material>)
        ensures
            material_ids(r@) == seconds_of(self.supplier_material_seq(), supplier.id),
    {
        let pairs = &self.supplier_materials;
        let n = pairs.len();
        let mut r: Vec<Material> = Vec::new();
        for i in 0..n
            invariant
                n == pairs@.len(),
                material_ids(r@) == seconds_of(pairs@.take(i as int), supplier.id),
        {
            proof {
                lemma_seconds_of_step(pairs@, supplier.id, i as int);
            }
            let ghost prev = r@;
            let p = pairs[i];
            if p.0 == supplier.id {
                r.push(Material { id: p.1 });
                proof {
                    assert(material_ids(r@) =~= material_ids(prev).push(p.1));
                }
            }
        }
        proof {
            assert(pairs@.take(n as int) =~= pairs@);
        }
        r
    }

    /// The module an alternative belongs to: the first assignment recorded
    /// for it. Every alternative must have one.
    pub fn module(&self, alternative: Alternative) -> (r: Module)
        requires
            has_first(self.alternative_module_seq(), alternative.id),
        ensures
            r.id == first_second_of(self.alternative_module_seq(), alternative.id),
    {
        let pairs = &self.alternative_modules;
        let n = pairs.len();
        let mut i: usize = 0;
        while i < n
            invariant
                n == pairs@.len(),
                i <= n,
                pairs@ == self.alternative_module_seq(),
                forall|j: int| 0 <= j < i ==> (#[trigger] pairs@[j]).0 != alternative.id,
                has_first(pairs@, alternative.id),
            decreases n - i,
        {
            if pairs[i].0 == alternative.id {
                proof {
                    lemma_first_second_at(pairs@, alternative.id, i as int);
                }
                return Module { id: pairs[i].1 };
            }
            i += 1;
        }
        proof {
            let j = choose|j: int| 0 <= j < pairs@.len() && pairs@[j].0 == alternative.id;
            assert(false);
        }
        unreached()
    }

    /// The alternatives that belong to a module.
    pub fn alternatives_of_module(&self, module: Module) -> (r: Vec<Alternative>)
        ensures
            alternative_ids(r@) == firsts_of(self.alternative_module_seq(), module.id),
    {
        let pairs = &self.alternative_modules;
        let n = pairs.len();
        let mut r: Vec<Alternative> = Vec::new();
        for i in 0..n
            invariant
                n == pairs@.len(),
                alternative_ids(r@) == firsts_of(pairs@.take(i as int), module.id),
        {
            proof {
                lemma_firsts_of_step(pairs@, module.id, i as int);
            }
            let ghost prev = r@;
            let p = pairs[i];
            if p.1 == module.id {
                r.push(Alternative { id: p.0 });
                proof {
                    assert(alternative_ids(r@) =~= alternative_ids(prev).push(p.0));
                }
            }
        }
        proof {
            assert(pairs@.take(n as int) =~= pairs@);
        }
        r
    }

    /// The products an alternative realises, restricted to the products the
    /// leader's decision keeps active.
    pub fn products_for_alternative(&self, alternative: Alternative, decision: &Decision) -> (r:
        Vec<Product>)
        requires
            forall|i: int|
                0 <= i < self.alternative_product_seq().len() ==> (
                #[trigger] self.alternative_product_seq()[i]).1 < decision.product@.len(),
        ensures
            product_ids(r@) == active_seconds_of(
                self.alternative_product_seq(),
                alternative.id,
                decision.product@,
            ),
    {
        let pairs = &self.alternative_products;
        proof {
            assert forall|j: int|
                0 <= j < pairs@.len() implies (#[trigger] pairs@[j]).1 < decision.product@.len() by {
                assert(self.alternative_product_seq()[j] == pairs@[j]);
            }
        }
        let n = pairs.len();
        let mut r: Vec<Product> = Vec::new();
        for i in 0..n
            invariant
                n == pairs@.len(),
                forall|j: int| 0 <= j < n ==> (#[trigger] pairs@[j]).1 < decision.product@.len(),
                product_ids(r@) == active_seconds_of(
                    pairs@.take(i as int),
                    alternative.id,
                    decision.product@,
                ),
        {
            proof {
                lemma_active_seconds_of_step(pairs@, alternative.id, decision.product@, i as int);
            }
            let ghost prev = r@;
            let p = pairs[i];
            if p.0 == alternative.id && *decision.product.get(Product { id: p.1 }) {
                r.push(Product { id: p.1 });
                proof {
                    assert(product_ids(r@) =~= product_ids(prev).push(p.1));
                }
            }
        }
        proof {
            assert(pairs@.take(n as int) =~= pairs@);
        }
        r
    }

    /// The retailers that sell a product.
    pub fn retailers(&self, product: Product) -> (r: Vec<Retailer>)
        ensures
            retailer_ids(r@) == firsts_of(self.retailer_product_seq(), product.id),
    {
        let pairs = &self.retailer_products;
        let n = pairs.len();
        let mut r: Vec<Retailer> = Vec::new();
        for i in 0..n
            invariant
                n == pairs@.len(),
                retailer_ids(r@) == firsts_of(pairs@.take(i as int), product.id),
        {
            proof {
                lemma_firsts_of_step(pairs@, product.id, i as int);
            }
            let ghost prev = r@;
            let p = pairs[i];
            if p.1 == product.id {
                r.push(Retailer { id: p.0 });
                proof {
                    assert(retailer_ids(r@) =~= retailer_ids(prev).push(p.0));
                }
            }
        }
        proof {
            assert(pairs@.take(n as int) =~= pairs@);
        }
        r
    }

    /// Well-formedness of the topology: every id that occurs in a pair list
    /// lies below the count of its entity set. The loaders that fix the
    /// counts guarantee it for their own lists; the bill-of-materials and
    /// alternative-product lists mention counts fixed elsewhere, so a
    /// mismatched scenario can break it.
    pub open spec fn wf(&self) -> bool {
        &&& pairs_bounded(
            self.supplier_material_seq(),
            self.spec_supplier_count(),
            self.spec_material_count(),
        )
        &&& pairs_bounded(
            self.retailer_product_seq(),
            self.spec_retailer_count(),
            self.spec_product_count(),
        )
        &&& pairs_bounded(
            self.alternative_module_seq(),
            self.spec_alternative_count(),
            self.spec_module_count(),
        )
        &&& pairs_bounded(
            self.material_alternative_seq(),
            self.spec_material_count(),
            self.spec_alternative_count(),
        )
        &&& pairs_bounded(
            self.alternative_product_seq(),
            self.spec_alternative_count(),
            self.spec_product_count(),
        )
    }

    /// Decides well-formedness: a shape mismatch between a loaded pair list
    /// and the entity counts is fatal at construction time, never later.
    pub fn check_well_formed(&self) -> (b: bool)
        ensures
            b == self.wf(),
    {
        let ok = pairs_within(&self.supplier_materials, self.supplier_count, self.material_count)
            && pairs_within(&self.retailer_products, self.retailer_count, self.product_count)
            && pairs_within(&self.alternative_modules, self.alternative_count, self.module_count)
            && pairs_within(
            &self.material_alternatives,
            self.material_count,
            self.alternative_count,
        ) && pairs_within(&self.alternative_products, self.alternative_count, self.product_count);
        ok
    }

    /// The suppliers that carry a material, provided the material is
    /// consumed by at least one alternative; a material no alternative
    /// reaches has no feasible supplier.
    pub fn suppliers_for_material(&self, material: Material) -> (r: Vec<Supplier>)
        ensures
            has_first(self.material_alternative_seq(), material.id) ==> supplier_ids(r@)
                == firsts_of(self.supplier_material_seq(), material.id),
            !has_first(self.material_alternative_seq(), material.id) ==> r@.len() == 0,
    {
        let ma = &self.material_alternatives;
        let na = ma.len();
        let mut reachable = false;
        let mut i: usize = 0;
        while i < na && !reachable
            invariant
                na == ma@.len(),
                i <= na,
                reachable ==> has_first(ma@, material.id),
                !reachable ==> forall|j: int| 0 <= j < i ==> (#[trigger] ma@[j]).0 != material.id,
            decreases na - i,
        {
            if ma[i].0 == material.id {
                reachable = true;
            }
            i += 1;
        }
        if !reachable {
            let r: Vec<Supplier> = Vec::new();
            return r;
        }
        let pairs = &self.supplier_materials;
        let n = pairs.len();
        let mut r: Vec<Supplier> = Vec::new();
        for i in 0..n
            invariant
                n == pairs@.len(),
                supplier_ids(r@) == firsts_of(pairs@.take(i as int), material.id),
        {
            proof {
                lemma_firsts_of_step(pairs@, material.id, i as int);
            }
            let ghost prev = r@;
            let p = pairs[i];
            if p.1 == material.id {
                r.push(Supplier { id: p.0 });
                proof {
                    assert(supplier_ids(r@) =~= supplier_ids(prev).push(p.0));
                }
            }
        }
        proof {
            assert(pairs@.take(n as int) =~= pairs@);
        }
        r
    }
}

/// Decides whether every pair's components lie below the given bounds.
fn pairs_within(pairs: &Vec<(usize, usize)>, first_bound: usize, second_bound: usize) -> (b: bool)
    ensures
        b == pairs_bounded(pairs@, first_bound, second_bound),
{
    let n = pairs.len();
    for i in 0..n
        invariant
            n == pairs@.len(),
            forall|j: int|
                0 <= j < i ==> (#[trigger] pairs@[j]).0 < first_bound && pairs@[j].1 < second_bound,
    {
        let p = pairs[i];
        if p.0 >= first_bound || p.1 >= second_bound {
            proof {
                assert(!(pairs@[i as int].0 < first_bound && pairs@[i as int].1 < second_bound));
            }
            return false;
        }
    }
    true
}

/// Copies a pair list into owned storage.
fn copy_pairs(pairs: &[(usize, usize)]) -> (r: Vec<(usize, usize)>)
    ensures
        r@ == pairs@,
{
    let n = pairs.len();
    let mut stored: Vec<(usize, usize)> = Vec::new();
    for i in 0..n
        invariant
            n == pairs@.len(),
            stored@ == pairs@.take(i as int),
    {
        stored.push(pairs[i]);
        proof {
            assert(stored@ =~= pairs@.take(i + 1));
        }
    }
    proof {
        assert(pairs@.take(n as int) =~= pairs@);
    }
    stored
}

/// Copies a pair list and computes the largest first and second components.
fn copy_pairs_with_maxima(pairs: &[(usize, usize)]) -> (r: (usize, usize, Vec<(usize, usize)>))
    requires
        forall|i: int|
            0 <= i < pairs@.len() ==> (#[trigger] pairs@[i]).0 < usize::MAX && pairs@[i].1
                < usize::MAX,
    ensures
        r.0 == max_first(pairs@),
        r.1 == max_second(pairs@),
        r.0 < usize::MAX,
        r.1 < usize::MAX,
        r.2@ == pairs@,
{
    let n = pairs.len();
    let mut mx_first: usize = 0;
    let mut mx_second: usize = 0;
    let mut stored: Vec<(usize, usize)> = Vec::new();
    for i in 0..n
        invariant
            n == pairs@.len(),
            forall|j: int|
                0 <= j < n ==> (#[trigger] pairs@[j]).0 < usize::MAX && pairs@[j].1 < usize::MAX,
            mx_first == max_first(pairs@.take(i as int)),
            mx_second == max_second(pairs@.take(i as int)),
            mx_first < usize::MAX,
            mx_second < usize::MAX,
            stored@ == pairs@.take(i as int),
    {
        proof {
            lemma_max_step(pairs@, i as int);
        }
        let p = pairs[i];
        if p.0 > mx_first {
            mx_first = p.0;
        }
        if p.1 > mx_second {
            mx_second = p.1;
        }
        stored.push(p);
        proof {
            assert(stored@ =~= pairs@.take(i + 1));
        }
    }
    proof {
        assert(pairs@.take(n as int) =~= pairs@);
    }
    (mx_first, mx_second, stored)
}

/// Builds the backing store of a dense map: `count` clones of `v`.
fn filled<T: Clone>(count: usize, v: &T) -> (r: Vec<T>)
    ensures
        r@.len() == count,
{
    let mut data: Vec<T> = Vec::new();
    for i in 0..count
        invariant
            data@.len() == i,
    {
        data.push(v.clone());
    }
    data
}

#[derive(Clone)]
pub struct RetailerMap<T: Clone> {
    data: Vec<T>,
}

impl<T: Clone> View for RetailerMap<T> {
    type V = Seq<T>;

    closed spec fn view(&self) -> Seq<T> {
        self.data@
    }
}

impl<T: Clone> RetailerMap<T> {
    /// One slot per retailer, each filled with a clone of `v`.
    pub fn new(relation: &Relation, v: T) -> (r: Self)
        ensures
            r@.len() == relation.spec_retailer_count(),
    {
        Self { data: filled(relation.retailer_count, &v) }
    }

    pub fn get(&self, i: Retailer) -> (r: &T)
        requires
            i.id < self@.len(),
        ensures
            *r == self@[i.id as int],
    {
        &self.data[i.id]
    }

    pub fn set(&mut self, i: Retailer, v: T)
        requires
            i.id < old(self)@.len(),
        ensures
            final(self)@ == old(self)@.update(i.id as int, v),
    {
        self.data[i.id] = v;
    }

    pub fn len(&self) -> (n: usize)
        ensures
            n == self@.len(),
    {
        self.data.len()
    }
}

#[derive(Clone)]
pub struct ProductMap<T: Clone> {
    data: Vec<T>,
}

impl<T: Clone> View for ProductMap<T> {
    type V = Seq<T>;

    closed spec fn view(&self) -> Seq<T> {
        self.data@
    }
}

impl<T: Clone> ProductMap<T> {
    /// One slot per product, each filled with a clone of `v`.
    pub fn new(relation: &Relation, v: T) -> (r: Self)
        ensures
            r@.len() == relation.spec_product_count(),
    {
        Self { data: filled(relation.product_count, &v) }
    }

    pub fn get(&self, i: Product) -> (r: &T)
        requires
            i.id < self@.len(),
        ensures
            *r == self@[i.id as int],
    {
        &self.data[i.id]
    }

    pub fn set(&mut self, i: Product, v: T)
        requires
            i.id < old(self)@.len(),
        ensures
            final(self)@ == old(self)@.update(i.id as int, v),
    {
        self.data[i.id] = v;
    }

    pub fn len(&self) -> (n: usize)
        ensures
            n == self@.len(),
    {
        self.data.len()
    }
}

#[derive(Clone)]
pub struct SupplierMap<T: Clone> {
    data: Vec<T>,
}

impl<T: Clone> View for SupplierMap<T> {
    type V = Seq<T>;

    closed spec fn view(&self) -> Seq<T> {
        self.data@
    }
}

impl<T: Clone> SupplierMap<T> {
    /// One slot per supplier, each filled with a clone of `v`.
    pub fn new(relation: &Relation, v: T) -> (r: Self)
        ensures
            r@.len() == relation.spec_supplier_count(),
    {
        Self { data: filled(relation.supplier_count, &v) }
    }

    pub fn get(&self, i: Supplier) -> (r: &T)
        requires
            i.id < self@.len(),
        ensures
            *r == self@[i.id as int],
    {
        &self.data[i.id]
    }

    pub fn set(&mut self, i: Supplier, v: T)
        requires
            i.id < old(self)@.len(),
        ensures
            final(self)@ == old(self)@.update(i.id as int, v),
    {
        self.data[i.id] = v;
    }

    pub fn len(&self) -> (n: usize)
        ensures
            n == self@.len(),
    {
        self.data.len()
    }
}

#[derive(Clone)]
pub struct MaterialMap<T: Clone> {
    data: Vec<T>,
}

impl<T: Clone> View for MaterialMap<T> {
    type V = Seq<T>;

    closed spec fn view(&self) -> Seq<T> {
        self.data@
    }
}

impl<T: Clone> MaterialMap<T> {
    /// One slot per material, each filled with a clone of `v`.
    pub fn new(relation: &Relation, v: T) -> (r: Self)
        ensures
            r@.len() == relation.spec_material_count(),
    {
        Self { data: filled(relation.material_count, &v) }
    }

    pub fn get(&self, i: Material) -> (r: &T)
        requires
            i.id < self@.len(),
        ensures
            *r == self@[i.id as int],
    {
        &self.data[i.id]
    }

    pub fn set(&mut self, i: Material, v: T)
        requires
            i.id < old(self)@.len(),
        ensures
            final(self)@ == old(self)@.update(i.id as int, v),
    {
        self.data[i.id] = v;
    }

    pub fn len(&self) -> (n: usize)
        ensures
            n == self@.len(),
    {
        self.data.len()
    }
}

#[derive(Clone)]
pub struct AlternativeMap<T: Clone> {
    data: Vec<T>,
}

impl<T: Clone> View for AlternativeMap<T> {
    type V = Seq<T>;

    closed spec fn view(&self) -> Seq<T> {
        self.data@
    }
}

impl<T: Clone> AlternativeMap<T> {
    /// One slot per alternative, each filled with a clone of `v`.
    pub fn new(relation: &Relation, v: T) -> (r: Self)
        ensures
            r@.len() == relation.spec_alternative_count(),
    {
        Self { data: filled(relation.alternative_count, &v) }
    }

    pub fn get(&self, i: Alternative) -> (r: &T)
        requires
            i.id < self@.len(),
        ensures
            *r == self@[i.id as int],
    {
        &self.data[i.id]
    }

    pub fn set(&mut self, i: Alternative, v: T)
        requires
            i.id < old(self)@.len(),
        ensures
            final(self)@ == old(self)@.update(i.id as int, v),
    {
        self.data[i.id] = v;
    }

    pub fn len(&self) -> (n: usize)
        ensures
            n == self@.len(),
    {
        self.data.len()
    }
}

#[derive(Clone)]
pub struct ModuleMap<T: Clone> {
    data: Vec<T>,
}

impl<T: Clone> View for ModuleMap<T> {
    type V = Seq<T>;

    closed spec fn view(&self) -> Seq<T> {
        self.data@
    }
}

impl<T: Clone> ModuleMap<T> {
    /// One slot per module, each filled with a clone of `v`.
    pub fn new(relation: &Relation, v: T) -> (r: Self)
        ensures
            r@.len() == relation.spec_module_count(),
    {
        Self { data: filled(relation.module_count, &v) }
    }

    pub fn get(&self, i: Module) -> (r: &T)
        requires
            i.id < self@.len(),
        ensures
            *r == self@[i.id as int],
    {
        &self.data[i.id]
    }

    pub fn set(&mut self, i: Module, v: T)
        requires
            i.id < old(self)@.len(),
        ensures
            final(self)@ == old(self)@.update(i.id as int, v),
    {
        self.data[i.id] = v;
    }

    pub fn len(&self) -> (n: usize)
        ensures
            n == self@.len(),
    {
        self.data.len()
    }
}

} // verus!
