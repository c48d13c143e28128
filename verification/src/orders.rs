//! Order placement and the order read views.
//!
//! `place_order` is the one composite write of the service: it validates the
//! request, lets the store's referential-integrity rules pass judgment on
//! every reference, and only then appends the order row and all of its cart
//! lines — so a rejected request leaves the store exactly as it was, and a
//! successful one makes the order and its whole cart visible together.

use vstd::prelude::*;
use crate::models::{CartItemDraft, Order, OrderCart, OrderDraft, StoreError};
use crate::store::{
    has_key, lemma_push_next_key, order_key, paytype_key, product_key, sorted_by_key, user_key,
    Store,
};

verus! {

/// A submitted cart is valid when it is non-empty and every line asks for a
/// positive quantity.
pub open spec fn items_valid(items: Seq<CartItemDraft>) -> bool {
    &&& items.len() > 0
    &&& forall|i: int| 0 <= i < items.len() ==> (#[trigger] items[i]).quantity > 0
}

/// A draft is well formed when it carries a non-empty delivery address and a
/// real calendar date.
pub open spec fn draft_valid(d: OrderDraft) -> bool {
    &&& d.address@.len() > 0
    &&& d.date.spec_valid()
}

/// What validation accepts, before any store access.
pub open spec fn request_valid(d: OrderDraft, items: Seq<CartItemDraft>) -> bool {
    draft_valid(d) && items_valid(items)
}

/// The references a placement carries all resolve in the store: the user, the
/// payment type, and every line's product.
pub open spec fn order_refs_ok_for(s: Store, d: OrderDraft, items: Seq<CartItemDraft>) -> bool {
    &&& has_key(s.users@, user_key(), d.user_id as int)
    &&& has_key(s.paytypes@, paytype_key(), d.paytype_id as int)
    &&& forall|i: int|
        0 <= i < items.len() ==> has_key(
            s.products@,
            product_key(),
            (#[trigger] items[i]).product_id as int,
        )
}

/// The order row a draft becomes once the store assigns it an id.
pub open spec fn order_row(id: i32, d: OrderDraft) -> Order {
    Order {
        order_id: id,
        order_user_id: d.user_id,
        order_address: d.address,
        order_date: d.date,
        order_paytype_id: d.paytype_id,
    }
}

/// The cart row a submitted line becomes under a given order id.
pub open spec fn cart_row(id: i32, it: CartItemDraft) -> OrderCart {
    OrderCart { cart_order_id: id, cart_prod_id: it.product_id, cart_prod_count: it.quantity }
}

/// The whole submitted cart as rows of the given order, in submission order.
pub open spec fn cart_rows_of(id: i32, items: Seq<CartItemDraft>) -> Seq<OrderCart> {
    items.map_values(|it: CartItemDraft| cart_row(id, it))
}

/// The catalog and user tables are untouched between two store states.
pub open spec fn catalog_unchanged(pre: Store, post: Store) -> bool {
    &&& post.dishes@ == pre.dishes@
    &&& post.dish_types@ == pre.dish_types@
    &&& post.dish_bases@ == pre.dish_bases@
    &&& post.products@ == pre.products@
    &&& post.structure_rows@ == pre.structure_rows@
    &&& post.users@ == pre.users@
    &&& post.paytypes@ == pre.paytypes@
}

/// Everything a successful placement did: the request was valid, all its
/// references resolved, the store assigned the next free order id, appended
/// exactly that order row and exactly the submitted cart lines under it, and
/// touched nothing else.
pub open spec fn place_order_ok(
    pre: Store,
    d: OrderDraft,
    items: Seq<CartItemDraft>,
    post: Store,
    id: i32,
) -> bool {
    &&& request_valid(d, items)
    &&& order_refs_ok_for(pre, d, items)
    &&& id as int == pre.spec_next_order_id()
    &&& post.orders@ == pre.orders@.push(order_row(id, d))
    &&& post.cart@ == pre.cart@ + cart_rows_of(id, items)
    &&& catalog_unchanged(pre, post)
}

/// Decides validation exactly as `request_valid` states it; safe to run
/// before any store access.
pub fn check_order_request(draft: &OrderDraft, items: &Vec<CartItemDraft>) -> (r: bool)
    ensures
        r == request_valid(*draft, items@),
{
    if draft.address.as_str().is_empty() {
        return false;
    }
    if !draft.date.is_valid() {
        return false;
    }
    if items.len() == 0 {
        return false;
    }
    let n = items.len();
    let mut k: usize = 0;
    while k < n
        invariant
            k <= n,
            n == items@.len(),
            forall|i: int| 0 <= i < k ==> (#[trigger] items@[i]).quantity > 0,
        decreases n - k,
    {
        if items[k].quantity <= 0 {
            return false;
        }
        k += 1;
    }
    true
}

/// Selects the orders of one user.
pub open spec fn order_user_pred(user_id: i32) -> spec_fn(Order) -> bool {
    |o: Order| o.order_user_id == user_id
}

/// Selects the order row carrying one id.
pub open spec fn order_key_pred(id: i32) -> spec_fn(Order) -> bool {
    |o: Order| o.order_id == id
}

/// Selects the cart lines of one order.
pub open spec fn cart_order_pred(order_id: i32) -> spec_fn(OrderCart) -> bool {
    |c: OrderCart| c.cart_order_id == order_id
}

/// Keeping only some rows of a strictly ascending table leaves a strictly
/// ascending table.
pub proof fn lemma_filter_sorted<A>(s: Seq<A>, key: spec_fn(A) -> int, pred: spec_fn(A) -> bool)
    requires
        sorted_by_key(s, key),
    ensures
        sorted_by_key(s.filter(pred), key),
    decreases s.len(),
{
    reveal(Seq::filter);
    if s.len() > 0 {
        let rest = s.drop_last();
        assert(sorted_by_key(rest, key));
        lemma_filter_sorted(rest, key, pred);
        if pred(s.last()) {
            let f = rest.filter(pred);
            let out = f.push(s.last());
            assert forall|i: int| 0 <= i < f.len() implies key(f[i]) < key(s.last()) by {
                assert(f.contains(f[i]));
                rest.lemma_filter_contains_rev(pred, f[i]);
                let j = choose|j: int| 0 <= j < rest.len() && rest[j] == f[i];
                assert(key(s[j]) < key(s[s.len() - 1]));
            };
            assert forall|a: int, b: int|
                #![trigger out[a], out[b]]
                0 <= a < b < out.len() implies key(out[a]) < key(out[b]) by {
                if b < f.len() {
                    assert(out[a] == f[a] && out[b] == f[b]);
                } else {
                    assert(out[a] == f[a] && out[b] == s.last());
                }
            };
        }
    }
}

impl Store {
    /// Every product referenced by the submitted lines exists.
    fn cart_products_exist(&self, items: &Vec<CartItemDraft>) -> (r: bool)
        ensures
            r == forall|i: int|
                0 <= i < items@.len() ==> has_key(
                    self.products@,
                    product_key(),
                    (#[trigger] items@[i]).product_id as int,
                ),
    {
        let n = items.len();
        let mut k: usize = 0;
        while k < n
            invariant
                k <= n,
                n == items@.len(),
                forall|i: int|
                    0 <= i < k ==> has_key(
                        self.products@,
                        product_key(),
                        (#[trigger] items@[i]).product_id as int,
                    ),
            decreases n - k,
        {
            if !self.products_contain(items[k].product_id) {
                return false;
            }
            k += 1;
        }
        true
    }

    /// Place one order with its cart lines as one atomic unit.
    ///
    /// Validation rejects an empty cart, a non-positive quantity or a
    /// malformed draft before any row is touched; a reference to a missing
    /// user, payment type or product is a referential-integrity failure. On
    /// any failure the store is exactly as it was — no order row and no cart
    /// line of this call remains. On success the store holds one new order
    /// row under the returned generated id and one cart row per submitted
    /// line, visible together.
    pub fn place_order(&mut self, draft: OrderDraft, items: &Vec<CartItemDraft>) -> (r: Result<
        i32,
        StoreError,
    >)
        requires
            old(self).wf(),
            old(self).spec_next_order_id() <= i32::MAX as int,
        ensures
            final(self).wf(),
            r is Ok <==> request_valid(draft, items@) && order_refs_ok_for(
                *old(self),
                draft,
                items@,
            ),
            (match r {
                Ok(id) => place_order_ok(*old(self), draft, items@, *final(self), id),
                Err(e) => {
                    &&& *final(self) == *old(self)
                    &&& (e == StoreError::Validation <==> !request_valid(draft, items@))
                    &&& (e == StoreError::ReferentialIntegrity <==> request_valid(draft, items@)
                        && !order_refs_ok_for(*old(self), draft, items@))
                },
            }),
    {
        let ghost d0 = draft;
        if !check_order_request(&draft, items) {
            return Err(StoreError::Validation);
        }
        if !self.users_contain(draft.user_id) || !self.paytypes_contain(draft.paytype_id)
            || !self.cart_products_exist(items) {
            return Err(StoreError::ReferentialIntegrity);
        }
        let n_orders = self.orders.len();
        let id: i32 = if n_orders == 0 {
            1
        } else {
            self.orders[n_orders - 1].order_id + 1
        };
        let mut rows: Vec<OrderCart> = Vec::new();
        let n = items.len();
        let mut k: usize = 0;
        while k < n
            invariant
                k <= n,
                n == items@.len(),
                rows@ == cart_rows_of(id, items@.take(k as int)),
            decreases n - k,
        {
            let it = items[k];
            rows.push(
                OrderCart {
                    cart_order_id: id,
                    cart_prod_id: it.product_id,
                    cart_prod_count: it.quantity,
                },
            );
            proof {
                assert(items@.take(k + 1) =~= items@.take(k as int).push(items@[k as int]));
                assert(cart_rows_of(id, items@.take(k + 1)) =~= rows@);
            }
            k += 1;
        }
        proof {
            assert(items@.take(n as int) =~= items@);
        }
        let row = Order {
            order_id: id,
            order_user_id: draft.user_id,
            order_address: draft.address,
            order_date: draft.date,
            order_paytype_id: draft.paytype_id,
        };
        proof {
            lemma_push_next_key(self.orders@, order_key(), row);
        }
        self.orders.push(row);
        self.cart.append(&mut rows);
        proof {
            assert(self.orders@ == old(self).orders@.push(order_row(id, d0)));
            assert(self.cart@ == old(self).cart@ + cart_rows_of(id, items@));
            assert forall|i: int| 0 <= i < self.orders@.len() implies self.order_refs_ok(
                #[trigger] self.orders@[i],
            ) by {
                if i < self.orders@.len() - 1 {
                    assert(self.orders@[i] == old(self).orders@[i]);
                    assert(old(self).order_refs_ok(old(self).orders@[i]));
                }
            };
            assert forall|i: int| 0 <= i < self.cart@.len() implies self.cart_row_ok(
                #[trigger] self.cart@[i],
            ) by {
                let pre_len = old(self).cart@.len() as int;
                if i < pre_len {
                    assert(self.cart@[i] == old(self).cart@[i]);
                    assert(old(self).cart_row_ok(old(self).cart@[i]));
                } else {
                    assert(self.cart@[i] == cart_rows_of(id, items@)[i - pre_len]);
                    assert(self.cart@[i] == cart_row(id, items@[i - pre_len]));
                    assert(has_key(self.orders@, order_key(), id as int));
                }
            };
        }
        Ok(id)
    }

    /// All orders of one user, in ascending order-id order.
    pub fn get_orders_by_user(&self, user_id: i32) -> (r: Vec<Order>)
        requires
            sorted_by_key(self.orders@, order_key()),
        ensures
            r@ == self.orders@.filter(order_user_pred(user_id)),
            sorted_by_key(r@, order_key()),
    {
        let mut r: Vec<Order> = Vec::new();
        let n = self.orders.len();
        let mut k: usize = 0;
        while k < n
            invariant
                k <= n,
                n == self.orders@.len(),
                r@ == self.orders@.take(k as int).filter(order_user_pred(user_id)),
            decreases n - k,
        {
            if self.orders[k].order_user_id == user_id {
                r.push(self.orders[k].clone());
            }
            proof {
                self.orders@.lemma_take_succ_push(k as int);
                self.orders@.take(k as int).lemma_filter_push(
                    self.orders@[k as int],
                    order_user_pred(user_id),
                );
            }
            k += 1;
        }
        proof {
            assert(self.orders@.take(n as int) =~= self.orders@);
            lemma_filter_sorted(self.orders@, order_key(), order_user_pred(user_id));
        }
        r
    }

    /// All cart lines of one order, in insertion order; empty when the order
    /// has none or does not exist.
    pub fn get_cart_by_order(&self, order_id: i32) -> (r: Vec<OrderCart>)
        ensures
            r@ == self.cart@.filter(cart_order_pred(order_id)),
    {
        let mut r: Vec<OrderCart> = Vec::new();
        let n = self.cart.len();
        let mut k: usize = 0;
        while k < n
            invariant
                k <= n,
                n == self.cart@.len(),
                r@ == self.cart@.take(k as int).filter(cart_order_pred(order_id)),
            decreases n - k,
        {
            let row = self.cart[k];
            if row.cart_order_id == order_id {
                r.push(row);
            }
            proof {
                self.cart@.lemma_take_succ_push(k as int);
                self.cart@.take(k as int).lemma_filter_push(
                    self.cart@[k as int],
                    cart_order_pred(order_id),
                );
            }
            k += 1;
        }
        proof {
            assert(self.cart@.take(n as int) =~= self.cart@);
        }
        r
    }
}

} // verus!
