//! The in-memory store: one value holding every table of the service.
//!
//! `Store` stands for the database the service owns. Each entity table is a
//! vector of rows; tables keyed by a single identifier are kept strictly
//! ascending in that identifier, and inserts assign the next free one, as the
//! database's serial columns do. The well-formedness predicate [`Store::wf`]
//! carries the referential-integrity rules the store enforces: a dish
//! references an existing type and base, an order an existing user and payment
//! type, and a cart line an existing order and product with a positive
//! quantity.

use vstd::prelude::*;
use crate::models::{
    Base, Dish, Order, OrderCart, Paytype, Product, Structure, Type, User,
};

verus! {

/// A sequence is strictly ascending in the given key.
pub open spec fn sorted_by_key<A>(s: Seq<A>, key: spec_fn(A) -> int) -> bool {
    forall|i: int, j: int|
        #![trigger s[i], s[j]]
        0 <= i < j < s.len() ==> key(s[i]) < key(s[j])
}

/// Some row of the sequence carries the given key.
pub open spec fn has_key<A>(s: Seq<A>, key: spec_fn(A) -> int, k: int) -> bool {
    exists|i: int| 0 <= i < s.len() && key(#[trigger] s[i]) == k
}

/// The key the store hands to the next row of a table: one past the last
/// row's key, or 1 for an empty table.
pub open spec fn next_key<A>(s: Seq<A>, key: spec_fn(A) -> int) -> int {
    if s.len() == 0 {
        1
    } else {
        key(s.last()) + 1
    }
}

/// Appending a row carrying the next free key keeps a table strictly
/// ascending, keeps every present key present, and adds the new one.
pub proof fn lemma_push_next_key<A>(s: Seq<A>, key: spec_fn(A) -> int, x: A)
    requires
        sorted_by_key(s, key),
        key(x) == next_key(s, key),
    ensures
        sorted_by_key(s.push(x), key),
        !has_key(s, key, key(x)),
        has_key(s.push(x), key, key(x)),
        forall|k: int| #[trigger] has_key(s, key, k) ==> has_key(s.push(x), key, k),
{
    let t = s.push(x);
    assert forall|i: int| 0 <= i < s.len() implies key(s[i]) < key(x) by {
        if i < s.len() - 1 {
            assert(key(s[i]) < key(s[s.len() - 1]));
        }
    };
    assert forall|i: int, j: int|
        #![trigger t[i], t[j]]
        0 <= i < j < t.len() implies key(t[i]) < key(t[j]) by {
        if j < s.len() {
            assert(t[i] == s[i] && t[j] == s[j]);
        } else {
            assert(t[i] == s[i] && t[j] == x);
        }
    };
    assert(t[s.len() as int] == x);
    assert forall|k: int| #[trigger] has_key(s, key, k) implies has_key(t, key, k) by {
        let w = choose|i: int| 0 <= i < s.len() && key(#[trigger] s[i]) == k;
        assert(t[w] == s[w]);
    };
}

pub open spec fn dish_key() -> spec_fn(Dish) -> int {
    |d: Dish| d.dish_id as int
}

pub open spec fn type_key() -> spec_fn(Type) -> int {
    |t: Type| t.type_id as int
}

pub open spec fn base_key() -> spec_fn(Base) -> int {
    |b: Base| b.base_id as int
}

pub open spec fn product_key() -> spec_fn(Product) -> int {
    |p: Product| p.prod_id as int
}

pub open spec fn user_key() -> spec_fn(User) -> int {
    |u: User| u.user_id as int
}

pub open spec fn paytype_key() -> spec_fn(Paytype) -> int {
    |p: Paytype| p.type_id as int
}

pub open spec fn order_key() -> spec_fn(Order) -> int {
    |o: Order| o.order_id as int
}

/// Every table of the service, held in memory.
pub struct Store {
    pub dishes: Vec<Dish>,
    pub dish_types: Vec<Type>,
    pub dish_bases: Vec<Base>,
    pub products: Vec<Product>,
    pub structure_rows: Vec<Structure>,
    pub users: Vec<User>,
    pub paytypes: Vec<Paytype>,
    pub orders: Vec<Order>,
    pub cart: Vec<OrderCart>,
}

impl Store {
    /// A dish's type and base references identify existing rows.
    pub open spec fn dish_refs_ok(self, d: Dish) -> bool {
        &&& has_key(self.dish_types@, type_key(), d.dish_type_id as int)
        &&& has_key(self.dish_bases@, base_key(), d.dish_base_id as int)
    }

    /// An order's user and payment-type references identify existing rows.
    pub open spec fn order_refs_ok(self, o: Order) -> bool {
        &&& has_key(self.users@, user_key(), o.order_user_id as int)
        &&& has_key(self.paytypes@, paytype_key(), o.order_paytype_id as int)
    }

    /// A cart line references an existing order and product and carries a
    /// positive quantity.
    pub open spec fn cart_row_ok(self, c: OrderCart) -> bool {
        &&& has_key(self.orders@, order_key(), c.cart_order_id as int)
        &&& has_key(self.products@, product_key(), c.cart_prod_id as int)
        &&& c.cart_prod_count > 0
    }

    /// Well-formedness: id-keyed tables strictly ascending, and every
    /// reference between tables resolved.
    pub open spec fn wf(self) -> bool {
        &&& sorted_by_key(self.dishes@, dish_key())
        &&& sorted_by_key(self.dish_types@, type_key())
        &&& sorted_by_key(self.dish_bases@, base_key())
        &&& sorted_by_key(self.products@, product_key())
        &&& sorted_by_key(self.users@, user_key())
        &&& sorted_by_key(self.paytypes@, paytype_key())
        &&& sorted_by_key(self.orders@, order_key())
        &&& forall|i: int|
            0 <= i < self.dishes@.len() ==> self.dish_refs_ok(#[trigger] self.dishes@[i])
        &&& forall|i: int|
            0 <= i < self.orders@.len() ==> self.order_refs_ok(#[trigger] self.orders@[i])
        &&& forall|i: int| 0 <= i < self.cart@.len() ==> self.cart_row_ok(#[trigger] self.cart@[i])
    }

    pub open spec fn spec_next_dish_id(self) -> int {
        next_key(self.dishes@, dish_key())
    }

    pub open spec fn spec_next_type_id(self) -> int {
        next_key(self.dish_types@, type_key())
    }

    pub open spec fn spec_next_base_id(self) -> int {
        next_key(self.dish_bases@, base_key())
    }

    pub open spec fn spec_next_product_id(self) -> int {
        next_key(self.products@, product_key())
    }

    pub open spec fn spec_next_user_id(self) -> int {
        next_key(self.users@, user_key())
    }

    pub open spec fn spec_next_paytype_id(self) -> int {
        next_key(self.paytypes@, paytype_key())
    }

    pub open spec fn spec_next_order_id(self) -> int {
        next_key(self.orders@, order_key())
    }

    /// An empty store: no rows in any table.
    pub fn new() -> (s: Store)
        ensures
            s.wf(),
            s.dishes@ =~= Seq::<Dish>::empty(),
            s.dish_types@ =~= Seq::<Type>::empty(),
            s.dish_bases@ =~= Seq::<Base>::empty(),
            s.products@ =~= Seq::<Product>::empty(),
            s.structure_rows@ =~= Seq::<Structure>::empty(),
            s.users@ =~= Seq::<User>::empty(),
            s.paytypes@ =~= Seq::<Paytype>::empty(),
            s.orders@ =~= Seq::<Order>::empty(),
            s.cart@ =~= Seq::<OrderCart>::empty(),
    {
        Store {
            dishes: Vec::new(),
            dish_types: Vec::new(),
            dish_bases: Vec::new(),
            products: Vec::new(),
            structure_rows: Vec::new(),
            users: Vec::new(),
            paytypes: Vec::new(),
            orders: Vec::new(),
            cart: Vec::new(),
        }
    }

    /// Whether a dish type row with this id exists.
    pub fn types_contain(&self, id: i32) -> (r: bool)
        ensures
            r == has_key(self.dish_types@, type_key(), id as int),
    {
        let n = self.dish_types.len();
        let mut k: usize = 0;
        while k < n
            invariant
                k <= n,
                n == self.dish_types@.len(),
                forall|i: int| 0 <= i < k ==> (#[trigger] self.dish_types@[i]).type_id != id,
            decreases n - k,
        {
            if self.dish_types[k].type_id == id {
                assert(type_key()(self.dish_types@[k as int]) == id as int);
                return true;
            }
            k += 1;
        }
        false
    }

    /// Whether a dish base row with this id exists.
    pub fn bases_contain(&self, id: i32) -> (r: bool)
        ensures
            r == has_key(self.dish_bases@, base_key(), id as int),
    {
        let n = self.dish_bases.len();
        let mut k: usize = 0;
        while k < n
            invariant
                k <= n,
                n == self.dish_bases@.len(),
                forall|i: int| 0 <= i < k ==> (#[trigger] self.dish_bases@[i]).base_id != id,
            decreases n - k,
        {
            if self.dish_bases[k].base_id == id {
                assert(base_key()(self.dish_bases@[k as int]) == id as int);
                return true;
            }
            k += 1;
        }
        false
    }

    /// Whether a product row with this id exists.
    pub fn products_contain(&self, id: i32) -> (r: bool)
        ensures
            r == has_key(self.products@, product_key(), id as int),
    {
        let n = self.products.len();
        let mut k: usize = 0;
        while k < n
            invariant
                k <= n,
                n == self.products@.len(),
                forall|i: int| 0 <= i < k ==> (#[trigger] self.products@[i]).prod_id != id,
            decreases n - k,
        {
            if self.products[k].prod_id == id {
                assert(product_key()(self.products@[k as int]) == id as int);
                return true;
            }
            k += 1;
        }
        false
    }

    /// Whether a user row with this id exists.
    pub fn users_contain(&self, id: i32) -> (r: bool)
        ensures
            r == has_key(self.users@, user_key(), id as int),
    {
        let n = self.users.len();
        let mut k: usize = 0;
        while k < n
            invariant
                k <= n,
                n == self.users@.len(),
                forall|i: int| 0 <= i < k ==> (#[trigger] self.users@[i]).user_id != id,
            decreases n - k,
        {
            if self.users[k].user_id == id {
                assert(user_key()(self.users@[k as int]) == id as int);
                return true;
            }
            k += 1;
        }
        false
    }

    /// Whether a payment-type row with this id exists.
    pub fn paytypes_contain(&self, id: i32) -> (r: bool)
        ensures
            r == has_key(self.paytypes@, paytype_key(), id as int),
    {
        let n = self.paytypes.len();
        let mut k: usize = 0;
        while k < n
            invariant
                k <= n,
                n == self.paytypes@.len(),
                forall|i: int| 0 <= i < k ==> (#[trigger] self.paytypes@[i]).type_id != id,
            decreases n - k,
        {
            if self.paytypes[k].type_id == id {
                assert(paytype_key()(self.paytypes@[k as int]) == id as int);
                return true;
            }
            k += 1;
        }
        false
    }
}

} // verus!
