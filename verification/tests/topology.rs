use stackelberg::mrgame::Decision;
use stackelberg::relation::{Alternative, Material, Module, Product, Relation, Retailer, Supplier};

/// The canonical small scenario: 3 suppliers, 3 materials, 2 retailers,
/// 4 products, 6 alternatives, 2 modules.
fn canonical_relation() -> Relation {
    let mut relation = Relation::new();
    relation.supplier_material_pairs(&[(0, 0), (0, 1), (0, 2), (1, 0), (1, 2), (2, 0), (2, 1)]);
    relation.retailer_product_pairs(&[(0, 0), (0, 1), (0, 2), (0, 3), (1, 0), (1, 3)]);
    relation.alternative_module_pairs(&[(0, 0), (1, 0), (2, 0), (3, 1), (4, 1), (5, 1)]);
    relation.material_alternative_pairs(&[
        (0, 0),
        (1, 0),
        (0, 1),
        (1, 1),
        (0, 2),
        (1, 2),
        (0, 3),
        (1, 4),
        (2, 5),
    ]);
    relation.alternative_product_pairs(&[
        (0, 0),
        (3, 0),
        (1, 1),
        (4, 1),
        (2, 2),
        (3, 2),
        (2, 3),
        (5, 3),
    ]);
    relation
}

fn ids_of_products(v: &Vec<Product>) -> Vec<usize> {
    let mut r = Vec::new();
    for p in v.iter() {
        r.push(p.id);
    }
    r
}

#[test]
fn counts_follow_largest_ids() {
    let relation = canonical_relation();
    assert_eq!(relation.all_suppliers().len(), 3);
    assert_eq!(relation.all_materials().len(), 3);
    assert_eq!(relation.all_products().len(), 4);
    assert_eq!(relation.initial_retailers().len(), 2);
    assert_eq!(relation.all_alternatives().len(), 6);
    assert_eq!(relation.all_modules().len(), 2);
}

#[test]
fn counts_of_single_pair() {
    let mut relation = Relation::new();
    relation.supplier_material_pairs(&[(0, 0)]);
    assert_eq!(relation.all_suppliers().len(), 1);
    assert_eq!(relation.all_materials().len(), 1);
    assert_eq!(relation.all_products().len(), 0);
}

#[test]
fn dense_ids_are_increasing() {
    let relation = canonical_relation();
    let products = relation.all_products();
    for (i, g) in products.iter().enumerate() {
        assert_eq!(g.id, i);
    }
    let retailers = relation.initial_retailers();
    assert_eq!(retailers[0].id, 0);
    assert_eq!(retailers[1].id, 1);
}

#[test]
fn initial_products_per_retailer() {
    let relation = canonical_relation();
    let p0 = ids_of_products(&relation.initial_products(Retailer { id: 0 }));
    let p1 = ids_of_products(&relation.initial_products(Retailer { id: 1 }));
    assert_eq!(p0, vec![0, 1, 2, 3]);
    assert_eq!(p1, vec![0, 3]);
}

#[test]
fn products_with_all_active() {
    let relation = canonical_relation();
    let decision = Decision::new(&relation);
    let p0 = ids_of_products(&relation.products(Retailer { id: 0 }, &decision));
    let p1 = ids_of_products(&relation.products(Retailer { id: 1 }, &decision));
    assert_eq!(p0, vec![0, 1, 2, 3]);
    assert_eq!(p1, vec![0, 3]);
}

#[test]
fn disabling_a_product_removes_it_everywhere() {
    let relation = canonical_relation();
    let mut decision = Decision::new(&relation);
    decision.input(&relation, &[true, true, false, true]);
    let p0 = ids_of_products(&relation.products(Retailer { id: 0 }, &decision));
    let p1 = ids_of_products(&relation.products(Retailer { id: 1 }, &decision));
    assert_eq!(p0, vec![0, 1, 3]);
    assert_eq!(p1, vec![0, 3]);
    // the alternatives realising product 2 lose it as well
    let a2 = ids_of_products(&relation.products_for_alternative(Alternative { id: 2 }, &decision));
    let a3 = ids_of_products(&relation.products_for_alternative(Alternative { id: 3 }, &decision));
    assert_eq!(a2, vec![3]);
    assert_eq!(a3, vec![0]);
}

#[test]
fn module_of_each_alternative() {
    let relation = canonical_relation();
    let expected = [0, 0, 0, 1, 1, 1];
    for k in 0..6 {
        assert_eq!(relation.module(Alternative { id: k }).id, expected[k]);
    }
}

#[test]
fn alternatives_of_each_module() {
    let relation = canonical_relation();
    let m0: Vec<usize> = relation
        .alternatives_of_module(Module { id: 0 })
        .iter()
        .map(|k| k.id)
        .collect();
    let m1: Vec<usize> = relation
        .alternatives_of_module(Module { id: 1 })
        .iter()
        .map(|k| k.id)
        .collect();
    assert_eq!(m0, vec![0, 1, 2]);
    assert_eq!(m1, vec![3, 4, 5]);
}

#[test]
fn retailers_of_each_product() {
    let relation = canonical_relation();
    let g0: Vec<usize> = relation.retailers(Product { id: 0 }).iter().map(|m| m.id).collect();
    let g1: Vec<usize> = relation.retailers(Product { id: 1 }).iter().map(|m| m.id).collect();
    let g3: Vec<usize> = relation.retailers(Product { id: 3 }).iter().map(|m| m.id).collect();
    assert_eq!(g0, vec![0, 1]);
    assert_eq!(g1, vec![0]);
    assert_eq!(g3, vec![0, 1]);
}

#[test]
fn materials_of_each_supplier() {
    let relation = canonical_relation();
    let s0: Vec<usize> = relation.materials(Supplier { id: 0 }).iter().map(|l| l.id).collect();
    let s1: Vec<usize> = relation.materials(Supplier { id: 1 }).iter().map(|l| l.id).collect();
    let s2: Vec<usize> = relation.materials(Supplier { id: 2 }).iter().map(|l| l.id).collect();
    assert_eq!(s0, vec![0, 1, 2]);
    assert_eq!(s1, vec![0, 2]);
    assert_eq!(s2, vec![0, 1]);
}

#[test]
fn suppliers_for_each_material() {
    let relation = canonical_relation();
    let l0: Vec<usize> =
        relation.suppliers_for_material(Material { id: 0 }).iter().map(|s| s.id).collect();
    let l1: Vec<usize> =
        relation.suppliers_for_material(Material { id: 1 }).iter().map(|s| s.id).collect();
    let l2: Vec<usize> =
        relation.suppliers_for_material(Material { id: 2 }).iter().map(|s| s.id).collect();
    assert_eq!(l0, vec![0, 1, 2]);
    assert_eq!(l1, vec![0, 2]);
    assert_eq!(l2, vec![0, 1]);
}

#[test]
fn unreachable_material_has_no_supplier() {
    let mut relation = Relation::new();
    relation.supplier_material_pairs(&[(0, 0), (0, 1), (1, 1)]);
    relation.alternative_module_pairs(&[(0, 0)]);
    // only material 0 is consumed by an alternative
    relation.material_alternative_pairs(&[(0, 0)]);
    let l0 = relation.suppliers_for_material(Material { id: 0 });
    let l1 = relation.suppliers_for_material(Material { id: 1 });
    assert_eq!(l0.len(), 1);
    assert_eq!(l1.len(), 0);
}

#[test]
fn canonical_topology_is_well_formed() {
    let relation = canonical_relation();
    assert!(relation.check_well_formed());
}

#[test]
fn out_of_range_ids_fail_the_shape_check() {
    let mut relation = Relation::new();
    relation.supplier_material_pairs(&[(0, 0)]);
    // material 5 exceeds the material count fixed above
    relation.material_alternative_pairs(&[(5, 0)]);
    assert!(!relation.check_well_formed());
}

#[test]
fn decision_starts_fully_active() {
    let relation = canonical_relation();
    let decision = Decision::new(&relation);
    for g in relation.all_products() {
        assert!(*decision.product.get(g));
    }
    for k in relation.all_alternatives() {
        assert!(*decision.alternative.get(k));
    }
}

#[test]
fn module_activity_follows_its_alternatives() {
    let relation = canonical_relation();
    let mut decision = Decision::new(&relation);
    assert!(decision.module_active(&relation, Module { id: 0 }));
    assert!(decision.module_active(&relation, Module { id: 1 }));
    // switch off every alternative of module 0
    decision.alternative.set(Alternative { id: 0 }, false);
    decision.alternative.set(Alternative { id: 1 }, false);
    decision.alternative.set(Alternative { id: 2 }, false);
    assert!(!decision.module_active(&relation, Module { id: 0 }));
    assert!(decision.module_active(&relation, Module { id: 1 }));
}
