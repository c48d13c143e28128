use food_orders::catalog::present_dish;
use food_orders::models::Base;
use food_orders::models::Dish;
use food_orders::models::Paytype;
use food_orders::models::Product;
use food_orders::models::Structure;
use food_orders::models::StoreError;
use food_orders::models::Type;
use food_orders::store::Store;

fn dish(name: &str, type_id: i32, base_id: i32, image: &str) -> Dish {
    Dish {
        dish_id: 0,
        dish_name: String::from(name),
        dish_type_id: type_id,
        dish_base_id: base_id,
        dish_image: String::from(image),
    }
}

/// A store with one dish type and one dish base, both with id 1.
fn store_with_refs() -> Store {
    let mut s = Store::new();
    s.create_type(Type { type_id: 0, name: String::from("soup") });
    s.create_base(Base { base_id: 0, base_name: String::from("broth"), base_exit: 250 });
    s
}

#[test]
fn dish_with_empty_image_gets_placeholder() {
    let mut s = store_with_refs();
    s.create_dish(dish("borscht", 1, 1, "")).unwrap();
    s.create_dish(dish("solyanka", 1, 1, "solyanka.png")).unwrap();
    let listed = s.list_dishes();
    assert_eq!(listed.len(), 2);
    assert_eq!(listed[0].dish_image, "default.png");
    assert_eq!(listed[0].dish_name, "borscht");
    assert_eq!(listed[1].dish_image, "solyanka.png");
}

#[test]
fn present_dish_keeps_nonempty_image() {
    let d = present_dish(dish("kasha", 1, 1, "kasha.png"));
    assert_eq!(d.dish_image, "kasha.png");
    let d = present_dish(dish("kasha", 1, 1, ""));
    assert_eq!(d.dish_image, "default.png");
}

#[test]
fn list_dishes_is_idempotent() {
    let mut s = store_with_refs();
    s.create_dish(dish("borscht", 1, 1, "")).unwrap();
    s.create_dish(dish("kasha", 1, 1, "kasha.png")).unwrap();
    let first = s.list_dishes();
    let second = s.list_dishes();
    assert_eq!(first, second);
}

#[test]
fn create_dish_generates_ascending_ids() {
    let mut s = store_with_refs();
    let a = s.create_dish(dish("one", 1, 1, "")).unwrap();
    let b = s.create_dish(dish("two", 1, 1, "")).unwrap();
    assert_eq!(a, 1);
    assert_eq!(b, 2);
}

#[test]
fn create_dish_rejects_dangling_refs() {
    let mut s = store_with_refs();
    let r = s.create_dish(dish("ghost", 9, 1, ""));
    assert_eq!(r, Err(StoreError::ReferentialIntegrity));
    let r = s.create_dish(dish("ghost", 1, 9, ""));
    assert_eq!(r, Err(StoreError::ReferentialIntegrity));
    assert_eq!(s.list_dishes().len(), 0);
}

#[test]
fn update_dish_reports_affected_rows() {
    let mut s = store_with_refs();
    let id = s.create_dish(dish("old", 1, 1, "old.png")).unwrap();
    let mut changed = dish("new", 1, 1, "new.png");
    changed.dish_id = id;
    assert_eq!(s.update_dish(changed), Ok(1));
    let listed = s.list_dishes();
    assert_eq!(listed[0].dish_name, "new");
    assert_eq!(listed[0].dish_image, "new.png");

    let mut missing = dish("none", 1, 1, "x.png");
    missing.dish_id = 42;
    assert_eq!(s.update_dish(missing), Ok(0));
    assert_eq!(s.list_dishes().len(), 1);
}

#[test]
fn update_dish_rejects_dangling_refs() {
    let mut s = store_with_refs();
    let id = s.create_dish(dish("solid", 1, 1, "a.png")).unwrap();
    let mut bad = dish("solid", 7, 1, "a.png");
    bad.dish_id = id;
    assert_eq!(s.update_dish(bad), Err(StoreError::ReferentialIntegrity));
    assert_eq!(s.list_dishes()[0].dish_name, "solid");
}

#[test]
fn delete_dish_reports_affected_rows() {
    let mut s = store_with_refs();
    let a = s.create_dish(dish("stays", 1, 1, "s.png")).unwrap();
    let b = s.create_dish(dish("goes", 1, 1, "g.png")).unwrap();
    assert_eq!(s.delete_dish(b), 1);
    assert_eq!(s.delete_dish(b), 0);
    let listed = s.list_dishes();
    assert_eq!(listed.len(), 1);
    assert_eq!(listed[0].dish_id, a);
}

#[test]
fn structure_rows_filter_by_dish() {
    let mut s = store_with_refs();
    let d1 = s.create_dish(dish("one", 1, 1, "")).unwrap();
    let d2 = s.create_dish(dish("two", 1, 1, "")).unwrap();
    s.create_structure_row(Structure { struct_dish_id: d1, struct_product_id: 1, struct_weight: 100 });
    s.create_structure_row(Structure { struct_dish_id: d2, struct_product_id: 2, struct_weight: 50 });
    s.create_structure_row(Structure { struct_dish_id: d1, struct_product_id: 3, struct_weight: 30 });
    let rows = s.get_structure_by_dish(d1);
    assert_eq!(rows.len(), 2);
    assert_eq!(rows[0].struct_product_id, 1);
    assert_eq!(rows[0].struct_weight, 100);
    assert_eq!(rows[1].struct_product_id, 3);
    assert_eq!(s.get_structure_by_dish(77).len(), 0);
}

#[test]
fn lists_return_rows_in_id_order() {
    let mut s = Store::new();
    s.create_type(Type { type_id: 0, name: String::from("soup") });
    s.create_type(Type { type_id: 0, name: String::from("grill") });
    s.create_base(Base { base_id: 0, base_name: String::from("broth"), base_exit: 250 });
    s.create_product(Product {
        prod_id: 0,
        prod_name: String::from("beet"),
        prod_protein: 2,
        prod_fats: 0,
        prod_carboh: 9,
    });
    s.create_product(Product {
        prod_id: 0,
        prod_name: String::from("carrot"),
        prod_protein: 1,
        prod_fats: 0,
        prod_carboh: 7,
    });
    s.create_paytype(Paytype { type_id: 0, name: String::from("cash") });

    let types = s.list_types();
    assert_eq!(types.len(), 2);
    assert_eq!(types[0].type_id, 1);
    assert_eq!(types[0].name, "soup");
    assert_eq!(types[1].type_id, 2);

    let bases = s.list_bases();
    assert_eq!(bases.len(), 1);
    assert_eq!(bases[0].base_exit, 250);

    let products = s.list_products();
    assert_eq!(products.len(), 2);
    assert_eq!(products[0].prod_name, "beet");
    assert_eq!(products[1].prod_id, 2);

    assert_eq!(s.list_users().len(), 0);
    assert_eq!(s.list_paytypes().len(), 1);
}
