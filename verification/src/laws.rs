//! Laws of the store: properties that relate several operations, each proved
//! once and for all over the contracts the operations themselves carry.

use vstd::prelude::*;
use crate::models::{CartItemDraft, Dish, Order, OrderCart, OrderDraft};
use crate::catalog::{dish_presented, dishes_presented};
use crate::orders::{
    cart_order_pred, cart_row, cart_rows_of, order_key_pred, order_row, place_order_ok,
};
use crate::store::{order_key, Store};

verus! {

/// Filtering keeps everything when every row satisfies the predicate.
pub proof fn lemma_filter_all<A>(s: Seq<A>, pred: spec_fn(A) -> bool)
    requires
        forall|i: int| 0 <= i < s.len() ==> pred(#[trigger] s[i]),
    ensures
        s.filter(pred) == s,
    decreases s.len(),
{
    reveal(Seq::filter);
    if s.len() > 0 {
        let rest = s.drop_last();
        lemma_filter_all(rest, pred);
        assert(s.filter(pred) =~= s);
    }
}

/// No cart line of a well-formed store carries an order id at or past the
/// next free one, so none carries the id a placement is about to assign.
proof fn lemma_old_cart_misses_new_id(pre: Store, id: i32)
    requires
        pre.wf(),
        id as int == pre.spec_next_order_id(),
    ensures
        pre.cart@.filter(cart_order_pred(id)).len() == 0,
{
    assert forall|i: int| 0 <= i < pre.cart@.len() implies !(cart_order_pred(id)(
        #[trigger] pre.cart@[i],
    )) by {
        assert(pre.cart_row_ok(pre.cart@[i]));
        let j = choose|j: int|
            0 <= j < pre.orders@.len() && order_key()(#[trigger] pre.orders@[j])
                == pre.cart@[i].cart_order_id as int;
        if j < pre.orders@.len() - 1 {
            assert(order_key()(pre.orders@[j]) < order_key()(pre.orders@[pre.orders@.len() - 1]));
        }
    };
    pre.cart@.lemma_all_neg_filter_empty(cart_order_pred(id));
}

/// Law: after a successful placement, the cart lines carrying the generated
/// order id are exactly the submitted items — same products, same
/// quantities, in submission order — and nothing that was in the cart table
/// before carries that id.
pub proof fn lemma_cart_matches_submission(
    pre: Store,
    d: OrderDraft,
    items: Seq<CartItemDraft>,
    post: Store,
    id: i32,
)
    requires
        pre.wf(),
        place_order_ok(pre, d, items, post, id),
    ensures
        post.cart@.filter(cart_order_pred(id)) == cart_rows_of(id, items),
        post.cart@.filter(cart_order_pred(id)).len() == items.len(),
        forall|i: int|
            0 <= i < items.len() ==> (#[trigger] post.cart@.filter(cart_order_pred(id))[i])
                == cart_row(id, items[i]),
{
    let pred = cart_order_pred(id);
    let rows = cart_rows_of(id, items);
    lemma_old_cart_misses_new_id(pre, id);
    assert(pre.cart@.filter(pred) =~= Seq::<OrderCart>::empty());
    assert forall|i: int| 0 <= i < rows.len() implies pred(#[trigger] rows[i]) by {
        assert(rows[i] == cart_row(id, items[i]));
    };
    lemma_filter_all(rows, pred);
    Seq::filter_distributes_over_add(pre.cart@, rows, pred);
    assert(post.cart@.filter(pred) =~= rows);
}

/// Law: a successful placement adds exactly one order row — the drafted one
/// under the generated id, and no other row carries that id — and exactly
/// one cart row per submitted item.
pub proof fn lemma_place_order_counts(
    pre: Store,
    d: OrderDraft,
    items: Seq<CartItemDraft>,
    post: Store,
    id: i32,
)
    requires
        pre.wf(),
        place_order_ok(pre, d, items, post, id),
    ensures
        post.orders@.len() == pre.orders@.len() + 1,
        post.orders@.last() == order_row(id, d),
        post.orders@.filter(order_key_pred(id)) == seq![order_row(id, d)],
        post.cart@.len() == pre.cart@.len() + items.len(),
        post.cart@.filter(cart_order_pred(id)).len() == items.len(),
{
    let pred = order_key_pred(id);
    assert forall|i: int| 0 <= i < pre.orders@.len() implies !(pred(
        #[trigger] pre.orders@[i],
    )) by {
        if i < pre.orders@.len() - 1 {
            assert(order_key()(pre.orders@[i]) < order_key()(pre.orders@[pre.orders@.len() - 1]));
        }
    };
    pre.orders@.lemma_all_neg_filter_empty(pred);
    assert(pre.orders@.filter(pred) =~= Seq::<Order>::empty());
    pre.orders@.lemma_filter_push(order_row(id, d), pred);
    assert(post.orders@.filter(pred) =~= seq![order_row(id, d)]);
    lemma_cart_matches_submission(pre, d, items, post, id);
}

/// Law: listing dishes is idempotent. The listing reads the store through a
/// shared borrow, so it cannot write; and any two listings of the same store
/// state agree row for row — same identifiers, names and references, and the
/// same image reference character for character.
pub proof fn lemma_list_dishes_idempotent(s: Store, r1: Seq<Dish>, r2: Seq<Dish>)
    requires
        dishes_presented(s.dishes@, r1),
        dishes_presented(s.dishes@, r2),
    ensures
        r1.len() == r2.len(),
        forall|i: int|
            0 <= i < r1.len() ==> {
                &&& (#[trigger] r1[i]).dish_id == r2[i].dish_id
                &&& r1[i].dish_name == r2[i].dish_name
                &&& r1[i].dish_type_id == r2[i].dish_type_id
                &&& r1[i].dish_base_id == r2[i].dish_base_id
                &&& r1[i].dish_image@ == r2[i].dish_image@
            },
{
    assert forall|i: int|
        0 <= i < r1.len() implies {
        &&& (#[trigger] r1[i]).dish_id == r2[i].dish_id
        &&& r1[i].dish_name == r2[i].dish_name
        &&& r1[i].dish_type_id == r2[i].dish_type_id
        &&& r1[i].dish_base_id == r2[i].dish_base_id
        &&& r1[i].dish_image@ == r2[i].dish_image@
    } by {
        assert(dish_presented(s.dishes@[i], r1[i]));
        assert(dish_presented(s.dishes@[i], r2[i]));
    };
}

} // verus!
