use stackelberg::relation::{
    AlternativeMap, Material, MaterialMap, Module, ModuleMap, Product, ProductMap, Relation,
    Retailer, RetailerMap, Supplier, SupplierMap,
};

fn canonical_relation() -> Relation {
    let mut relation = Relation::new();
    relation.supplier_material_pairs(&[(0, 0), (0, 1), (0, 2), (1, 0), (1, 2), (2, 0), (2, 1)]);
    relation.retailer_product_pairs(&[(0, 0), (0, 1), (0, 2), (0, 3), (1, 0), (1, 3)]);
    relation.alternative_module_pairs(&[(0, 0), (1, 0), (2, 0), (3, 1), (4, 1), (5, 1)]);
    relation
}

#[test]
fn map_shapes_follow_the_topology() {
    let relation = canonical_relation();
    assert_eq!(RetailerMap::new(&relation, 0u64).len(), 2);
    assert_eq!(ProductMap::new(&relation, 0u64).len(), 4);
    assert_eq!(SupplierMap::new(&relation, 0u64).len(), 3);
    assert_eq!(MaterialMap::new(&relation, 0u64).len(), 3);
    assert_eq!(AlternativeMap::new(&relation, 0u64).len(), 6);
    assert_eq!(ModuleMap::new(&relation, 0u64).len(), 2);
}

#[test]
fn maps_are_filled_with_the_seed_value() {
    let relation = canonical_relation();
    let m = ProductMap::new(&relation, 7u64);
    for g in relation.all_products() {
        assert_eq!(*m.get(g), 7);
    }
}

#[test]
fn set_changes_one_slot_only() {
    let relation = canonical_relation();
    let mut m = RetailerMap::new(&relation, 1.5f64);
    m.set(Retailer { id: 1 }, 4.25);
    assert_eq!(*m.get(Retailer { id: 0 }), 1.5);
    assert_eq!(*m.get(Retailer { id: 1 }), 4.25);
}

#[test]
fn nested_maps_copy_by_value() {
    let relation = canonical_relation();
    let inner = MaterialMap::new(&relation, 0.0f64);
    let mut outer = SupplierMap::new(&relation, inner);
    let mut row = outer.get(Supplier { id: 2 }).clone();
    row.set(Material { id: 1 }, 9.5);
    outer.set(Supplier { id: 2 }, row);
    assert_eq!(*outer.get(Supplier { id: 2 }).get(Material { id: 1 }), 9.5);
    assert_eq!(*outer.get(Supplier { id: 0 }).get(Material { id: 1 }), 0.0);
    assert_eq!(*outer.get(Supplier { id: 2 }).get(Material { id: 0 }), 0.0);
}

#[test]
fn typed_keys_index_their_own_maps() {
    let relation = canonical_relation();
    let mut am = AlternativeMap::new(&relation, false);
    let mut mm = ModuleMap::new(&relation, false);
    am.set(stackelberg::relation::Alternative { id: 5 }, true);
    mm.set(Module { id: 1 }, true);
    assert!(*am.get(stackelberg::relation::Alternative { id: 5 }));
    assert!(!*am.get(stackelberg::relation::Alternative { id: 4 }));
    assert!(*mm.get(Module { id: 1 }));
    assert!(!*mm.get(Module { id: 0 }));
}

#[test]
fn product_map_holds_prices() {
    let relation = canonical_relation();
    let mut p = ProductMap::new(&relation, 0.0f64);
    p.set(Product { id: 0 }, 36.0);
    p.set(Product { id: 3 }, 39.0);
    assert_eq!(*p.get(Product { id: 0 }), 36.0);
    assert_eq!(*p.get(Product { id: 1 }), 0.0);
    assert_eq!(*p.get(Product { id: 3 }), 39.0);
}
