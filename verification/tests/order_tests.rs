use food_orders::date::Date;
use food_orders::models::CartItemDraft;
use food_orders::models::OrderDraft;
use food_orders::models::Paytype;
use food_orders::models::Product;
use food_orders::models::StoreError;
use food_orders::models::User;
use food_orders::store::Store;

fn plain_user() -> User {
    User {
        user_id: 0,
        user_firstname: String::from("Ann"),
        user_lastname: String::from("Lee"),
        user_patronymic: String::new(),
        user_birthday: Date { year: 1990, month: 5, day: 20 },
        user_login: String::from("ann"),
        user_password: String::from("SECRET-REDACTED"),
        user_phone: String::from("555-0100"),
        user_address: String::from("1 First St"),
        user_role_id: 1,
    }
}

fn plain_product(name: &str) -> Product {
    Product {
        prod_id: 0,
        prod_name: String::from(name),
        prod_protein: 10,
        prod_fats: 5,
        prod_carboh: 20,
    }
}

/// A store with the given numbers of users, payment types and products, so
/// that any id up to each count exists.
fn seeded(n_users: i32, n_paytypes: i32, n_products: i32) -> Store {
    let mut s = Store::new();
    for _ in 0..n_users {
        s.create_user(plain_user());
    }
    for k in 0..n_paytypes {
        s.create_paytype(Paytype { type_id: 0, name: format!("pay{}", k) });
    }
    for k in 0..n_products {
        s.create_product(plain_product(&format!("prod{}", k)));
    }
    s
}

fn draft(user_id: i32, address: &str, paytype_id: i32) -> OrderDraft {
    OrderDraft {
        user_id,
        address: String::from(address),
        date: Date { year: 2024, month: 3, day: 14 },
        paytype_id,
    }
}

#[test]
fn place_order_scenario() {
    let mut s = seeded(7, 2, 9);
    let items = vec![
        CartItemDraft { product_id: 3, quantity: 2 },
        CartItemDraft { product_id: 9, quantity: 1 },
    ];
    let r = s.place_order(draft(7, "12 Main St", 2), &items);
    let id = r.expect("a valid order must be placed");

    let cart = s.get_cart_by_order(id);
    assert_eq!(cart.len(), 2);
    assert_eq!(cart[0].cart_order_id, id);
    assert_eq!(cart[0].cart_prod_id, 3);
    assert_eq!(cart[0].cart_prod_count, 2);
    assert_eq!(cart[1].cart_order_id, id);
    assert_eq!(cart[1].cart_prod_id, 9);
    assert_eq!(cart[1].cart_prod_count, 1);

    let orders = s.get_orders_by_user(7);
    assert!(orders.iter().any(|o| o.order_id == id));
    assert_eq!(orders[0].order_address, "12 Main St");
    assert_eq!(orders[0].order_paytype_id, 2);
}

#[test]
fn place_order_empty_cart_rejected() {
    let mut s = seeded(1, 1, 1);
    let items: Vec<CartItemDraft> = Vec::new();
    let r = s.place_order(draft(1, "2 Side St", 1), &items);
    assert_eq!(r, Err(StoreError::Validation));
    assert_eq!(s.get_orders_by_user(1).len(), 0);
    assert_eq!(s.orders.len(), 0);
    assert_eq!(s.cart.len(), 0);
}

#[test]
fn place_order_missing_product_rolls_back() {
    let mut s = seeded(1, 1, 2);
    let items = vec![
        CartItemDraft { product_id: 1, quantity: 1 },
        CartItemDraft { product_id: 99, quantity: 1 },
    ];
    let r = s.place_order(draft(1, "3 Back St", 1), &items);
    assert_eq!(r, Err(StoreError::ReferentialIntegrity));
    assert_eq!(s.orders.len(), 0, "no order row may remain after the failed call");
    assert_eq!(s.cart.len(), 0, "no cart line may remain after the failed call");
}

#[test]
fn place_order_missing_user_rolls_back() {
    let mut s = seeded(1, 1, 1);
    let items = vec![CartItemDraft { product_id: 1, quantity: 1 }];
    let r = s.place_order(draft(8, "4 High St", 1), &items);
    assert_eq!(r, Err(StoreError::ReferentialIntegrity));
    assert_eq!(s.orders.len(), 0);
    assert_eq!(s.cart.len(), 0);
}

#[test]
fn place_order_nonpositive_quantity_rejected() {
    let mut s = seeded(1, 1, 2);
    let items = vec![
        CartItemDraft { product_id: 1, quantity: 1 },
        CartItemDraft { product_id: 2, quantity: 0 },
    ];
    let r = s.place_order(draft(1, "5 Low St", 1), &items);
    assert_eq!(r, Err(StoreError::Validation));
    assert_eq!(s.orders.len(), 0);
    assert_eq!(s.cart.len(), 0);
}

#[test]
fn place_order_invalid_date_rejected() {
    let mut s = seeded(1, 1, 1);
    let items = vec![CartItemDraft { product_id: 1, quantity: 1 }];
    let mut d = draft(1, "6 New St", 1);
    d.date = Date { year: 2023, month: 2, day: 29 };
    let r = s.place_order(d, &items);
    assert_eq!(r, Err(StoreError::Validation));
}

#[test]
fn place_order_empty_address_rejected() {
    let mut s = seeded(1, 1, 1);
    let items = vec![CartItemDraft { product_id: 1, quantity: 1 }];
    let r = s.place_order(draft(1, "", 1), &items);
    assert_eq!(r, Err(StoreError::Validation));
}

#[test]
fn place_order_row_counts() {
    let mut s = seeded(2, 1, 5);
    let items = vec![
        CartItemDraft { product_id: 1, quantity: 1 },
        CartItemDraft { product_id: 2, quantity: 2 },
        CartItemDraft { product_id: 3, quantity: 3 },
    ];
    let id = s.place_order(draft(2, "7 Long St", 1), &items).unwrap();
    assert_eq!(s.orders.len(), 1);
    assert_eq!(s.cart.len(), 3);
    assert!(s.cart.iter().all(|c| c.cart_order_id == id));
}

#[test]
fn order_ids_ascend_per_user() {
    let mut s = seeded(2, 1, 1);
    let items = vec![CartItemDraft { product_id: 1, quantity: 1 }];
    let a = s.place_order(draft(1, "8 One St", 1), &items).unwrap();
    let b = s.place_order(draft(2, "9 Two St", 1), &items).unwrap();
    let c = s.place_order(draft(1, "10 Three St", 1), &items).unwrap();
    assert!(a < b && b < c);
    let mine = s.get_orders_by_user(1);
    assert_eq!(mine.len(), 2);
    assert_eq!(mine[0].order_id, a);
    assert_eq!(mine[1].order_id, c);
    let cart_b = s.get_cart_by_order(b);
    assert_eq!(cart_b.len(), 1);
    assert_eq!(cart_b[0].cart_order_id, b);
}

#[test]
fn cart_of_unknown_order_is_empty() {
    let s = seeded(1, 1, 1);
    assert_eq!(s.get_cart_by_order(5).len(), 0);
}

#[test]
fn check_order_request_agrees_with_placement() {
    let s_items = vec![CartItemDraft { product_id: 1, quantity: 1 }];
    let good = draft(1, "11 Good St", 1);
    assert!(food_orders::orders::check_order_request(&good, &s_items));
    let empty: Vec<CartItemDraft> = Vec::new();
    assert!(!food_orders::orders::check_order_request(&good, &empty));
    let bad_qty = vec![CartItemDraft { product_id: 1, quantity: -2 }];
    assert!(!food_orders::orders::check_order_request(&good, &bad_qty));
}

#[test]
fn list_paytypes_in_id_order() {
    let mut s = Store::new();
    let a = s.create_paytype(Paytype { type_id: 0, name: String::from("cash") });
    let b = s.create_paytype(Paytype { type_id: 0, name: String::from("card") });
    let listed = s.list_paytypes();
    assert_eq!(listed.len(), 2);
    assert_eq!(listed[0].type_id, a);
    assert_eq!(listed[0].name, "cash");
    assert_eq!(listed[1].type_id, b);
    assert_eq!(listed[1].name, "card");
}

#[test]
fn date_validity_rules() {
    assert!(Date { year: 2024, month: 2, day: 29 }.is_valid());
    assert!(!Date { year: 2023, month: 2, day: 29 }.is_valid());
    assert!(!Date { year: 1900, month: 2, day: 29 }.is_valid());
    assert!(Date { year: 2000, month: 2, day: 29 }.is_valid());
    assert!(!Date { year: 2024, month: 13, day: 1 }.is_valid());
    assert!(!Date { year: 2024, month: 4, day: 31 }.is_valid());
    assert!(Date { year: 2024, month: 12, day: 31 }.is_valid());
    assert!(!Date { year: 0, month: 1, day: 1 }.is_valid());
}
