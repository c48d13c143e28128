//! Catalog operations: single-row writes and full-table reads over the
//! reference entities, each a method on [`Store`].
//!
//! Creates assign the next free identifier, as the database's serial columns
//! do, and reject a row whose references do not resolve. Reads return the
//! whole table in ascending id order.

use vstd::prelude::*;
use crate::models::{Base, Dish, Paytype, Product, Structure, StoreError, Type, User};
use crate::store::{
    base_key, dish_key, has_key, lemma_push_next_key, paytype_key, product_key, type_key,
    user_key, Store,
};

verus! {

impl Store {
    /// Insert a dish type row; the given row's id is replaced by the
    /// store-generated one, which is returned.
    pub fn create_type(&mut self, t: Type) -> (id: i32)
        requires
            old(self).wf(),
            old(self).spec_next_type_id() <= i32::MAX as int,
        ensures
            final(self).wf(),
            id as int == old(self).spec_next_type_id(),
            has_key(final(self).dish_types@, type_key(), id as int),
            final(self).dish_types@ == old(self).dish_types@.push(
                (Type { type_id: id, name: t.name }),
            ),
            final(self).dishes@ == old(self).dishes@,
            final(self).dish_bases@ == old(self).dish_bases@,
            final(self).products@ == old(self).products@,
            final(self).structure_rows@ == old(self).structure_rows@,
            final(self).users@ == old(self).users@,
            final(self).paytypes@ == old(self).paytypes@,
            final(self).orders@ == old(self).orders@,
            final(self).cart@ == old(self).cart@,
    {
        let n = self.dish_types.len();
        let id: i32 = if n == 0 {
            1
        } else {
            self.dish_types[n - 1].type_id + 1
        };
        let row = Type { type_id: id, name: t.name };
        proof {
            lemma_push_next_key(self.dish_types@, type_key(), row);
        }
        self.dish_types.push(row);
        proof {
            assert forall|i: int| 0 <= i < self.dishes@.len() implies self.dish_refs_ok(
                #[trigger] self.dishes@[i],
            ) by {
                assert(old(self).dish_refs_ok(old(self).dishes@[i]));
            };
        }
        id
    }

    /// Insert a dish base row; returns the store-generated id.
    pub fn create_base(&mut self, b: Base) -> (id: i32)
        requires
            old(self).wf(),
            old(self).spec_next_base_id() <= i32::MAX as int,
        ensures
            final(self).wf(),
            id as int == old(self).spec_next_base_id(),
            has_key(final(self).dish_bases@, base_key(), id as int),
            final(self).dish_bases@ == old(self).dish_bases@.push(
                (Base { base_id: id, base_name: b.base_name, base_exit: b.base_exit }),
            ),
            final(self).dishes@ == old(self).dishes@,
            final(self).dish_types@ == old(self).dish_types@,
            final(self).products@ == old(self).products@,
            final(self).structure_rows@ == old(self).structure_rows@,
            final(self).users@ == old(self).users@,
            final(self).paytypes@ == old(self).paytypes@,
            final(self).orders@ == old(self).orders@,
            final(self).cart@ == old(self).cart@,
    {
        let n = self.dish_bases.len();
        let id: i32 = if n == 0 {
            1
        } else {
            self.dish_bases[n - 1].base_id + 1
        };
        let row = Base { base_id: id, base_name: b.base_name, base_exit: b.base_exit };
        proof {
            lemma_push_next_key(self.dish_bases@, base_key(), row);
        }
        self.dish_bases.push(row);
        proof {
            assert forall|i: int| 0 <= i < self.dishes@.len() implies self.dish_refs_ok(
                #[trigger] self.dishes@[i],
            ) by {
                assert(old(self).dish_refs_ok(old(self).dishes@[i]));
            };
        }
        id
    }

    /// Insert a product row; returns the store-generated id.
    pub fn create_product(&mut self, p: Product) -> (id: i32)
        requires
            old(self).wf(),
            old(self).spec_next_product_id() <= i32::MAX as int,
        ensures
            final(self).wf(),
            id as int == old(self).spec_next_product_id(),
            has_key(final(self).products@, product_key(), id as int),
            final(self).products@ == old(self).products@.push(
                (Product {
                    prod_id: id,
                    prod_name: p.prod_name,
                    prod_protein: p.prod_protein,
                    prod_fats: p.prod_fats,
                    prod_carboh: p.prod_carboh,
                }),
            ),
            final(self).dishes@ == old(self).dishes@,
            final(self).dish_types@ == old(self).dish_types@,
            final(self).dish_bases@ == old(self).dish_bases@,
            final(self).structure_rows@ == old(self).structure_rows@,
            final(self).users@ == old(self).users@,
            final(self).paytypes@ == old(self).paytypes@,
            final(self).orders@ == old(self).orders@,
            final(self).cart@ == old(self).cart@,
    {
        let n = self.products.len();
        let id: i32 = if n == 0 {
            1
        } else {
            self.products[n - 1].prod_id + 1
        };
        let row = Product {
            prod_id: id,
            prod_name: p.prod_name,
            prod_protein: p.prod_protein,
            prod_fats: p.prod_fats,
            prod_carboh: p.prod_carboh,
        };
        proof {
            lemma_push_next_key(self.products@, product_key(), row);
        }
        self.products.push(row);
        proof {
            assert forall|i: int| 0 <= i < self.cart@.len() implies self.cart_row_ok(
                #[trigger] self.cart@[i],
            ) by {
                assert(old(self).cart_row_ok(old(self).cart@[i]));
            };
        }
        id
    }

    /// Insert a user row; returns the store-generated id.
    pub fn create_user(&mut self, u: User) -> (id: i32)
        requires
            old(self).wf(),
            old(self).spec_next_user_id() <= i32::MAX as int,
        ensures
            final(self).wf(),
            id as int == old(self).spec_next_user_id(),
            has_key(final(self).users@, user_key(), id as int),
            final(self).users@ == old(self).users@.push(
                (User {
                    user_id: id,
                    user_firstname: u.user_firstname,
                    user_lastname: u.user_lastname,
                    user_patronymic: u.user_patronymic,
                    user_birthday: u.user_birthday,
                    user_login: u.user_login,
                    user_password: u.user_password,
                    user_phone: u.user_phone,
                    user_address: u.user_address,
                    user_role_id: u.user_role_id,
                }),
            ),
            final(self).dishes@ == old(self).dishes@,
            final(self).dish_types@ == old(self).dish_types@,
            final(self).dish_bases@ == old(self).dish_bases@,
            final(self).products@ == old(self).products@,
            final(self).structure_rows@ == old(self).structure_rows@,
            final(self).paytypes@ == old(self).paytypes@,
            final(self).orders@ == old(self).orders@,
            final(self).cart@ == old(self).cart@,
    {
        let n = self.users.len();
        let id: i32 = if n == 0 {
            1
        } else {
            self.users[n - 1].user_id + 1
        };
        let row = User {
            user_id: id,
            user_firstname: u.user_firstname,
            user_lastname: u.user_lastname,
            user_patronymic: u.user_patronymic,
            user_birthday: u.user_birthday,
            user_login: u.user_login,
            user_password: u.user_password,
            user_phone: u.user_phone,
            user_address: u.user_address,
            user_role_id: u.user_role_id,
        };
        proof {
            lemma_push_next_key(self.users@, user_key(), row);
        }
        self.users.push(row);
        proof {
            assert forall|i: int| 0 <= i < self.orders@.len() implies self.order_refs_ok(
                #[trigger] self.orders@[i],
            ) by {
                assert(old(self).order_refs_ok(old(self).orders@[i]));
            };
        }
        id
    }

    /// Insert a payment-type row; returns the store-generated id.
    pub fn create_paytype(&mut self, p: Paytype) -> (id: i32)
        requires
            old(self).wf(),
            old(self).spec_next_paytype_id() <= i32::MAX as int,
        ensures
            final(self).wf(),
            id as int == old(self).spec_next_paytype_id(),
            has_key(final(self).paytypes@, paytype_key(), id as int),
            final(self).paytypes@ == old(self).paytypes@.push(
                (Paytype { type_id: id, name: p.name }),
            ),
            final(self).dishes@ == old(self).dishes@,
            final(self).dish_types@ == old(self).dish_types@,
            final(self).dish_bases@ == old(self).dish_bases@,
            final(self).products@ == old(self).products@,
            final(self).structure_rows@ == old(self).structure_rows@,
            final(self).users@ == old(self).users@,
            final(self).orders@ == old(self).orders@,
            final(self).cart@ == old(self).cart@,
    {
        let n = self.paytypes.len();
        let id: i32 = if n == 0 {
            1
        } else {
            self.paytypes[n - 1].type_id + 1
        };
        let row = Paytype { type_id: id, name: p.name };
        proof {
            lemma_push_next_key(self.paytypes@, paytype_key(), row);
        }
        self.paytypes.push(row);
        proof {
            assert forall|i: int| 0 <= i < self.orders@.len() implies self.order_refs_ok(
                #[trigger] self.orders@[i],
            ) by {
                assert(old(self).order_refs_ok(old(self).orders@[i]));
            };
        }
        id
    }

    /// Insert one composition row of a dish.
    pub fn create_structure_row(&mut self, s: Structure)
        requires
            old(self).wf(),
        ensures
            final(self).wf(),
            final(self).structure_rows@ == old(self).structure_rows@.push(s),
            final(self).dishes@ == old(self).dishes@,
            final(self).dish_types@ == old(self).dish_types@,
            final(self).dish_bases@ == old(self).dish_bases@,
            final(self).products@ == old(self).products@,
            final(self).users@ == old(self).users@,
            final(self).paytypes@ == old(self).paytypes@,
            final(self).orders@ == old(self).orders@,
            final(self).cart@ == old(self).cart@,
    {
        self.structure_rows.push(s);
    }
}

/// The placeholder image name a dish is presented with when its stored image
/// reference is empty.
pub open spec fn default_image() -> Seq<char> {
    "default.png"@
}

/// How a stored dish row relates to the dish handed out: fields are kept,
/// except that an empty image reference becomes the default placeholder.
pub open spec fn dish_presented(src: Dish, out: Dish) -> bool {
    &&& out.dish_id == src.dish_id
    &&& out.dish_name == src.dish_name
    &&& out.dish_type_id == src.dish_type_id
    &&& out.dish_base_id == src.dish_base_id
    &&& if src.dish_image@.len() == 0 {
        out.dish_image@ == default_image()
    } else {
        out.dish_image == src.dish_image
    }
}

/// A whole listing presented row for row, in table order.
pub open spec fn dishes_presented(src: Seq<Dish>, out: Seq<Dish>) -> bool {
    &&& out.len() == src.len()
    &&& forall|i: int| 0 <= i < src.len() ==> dish_presented(src[i], #[trigger] out[i])
}

/// Apply the presentation default to one dish row.
pub fn present_dish(d: Dish) -> (r: Dish)
    ensures
        dish_presented(d, r),
{
    if d.dish_image.as_str().is_empty() {
        Dish {
            dish_id: d.dish_id,
            dish_name: d.dish_name,
            dish_type_id: d.dish_type_id,
            dish_base_id: d.dish_base_id,
            dish_image: String::from_str("default.png"),
        }
    } else {
        d
    }
}

/// Selects the composition rows of one dish.
pub open spec fn structure_dish_pred(dish_id: i32) -> spec_fn(Structure) -> bool {
    |s: Structure| s.struct_dish_id == dish_id
}

impl Store {
    /// Every dish row in ascending id order, presented: an empty stored image
    /// reference is handed out as the default placeholder, anything else
    /// unchanged.
    pub fn list_dishes(&self) -> (r: Vec<Dish>)
        ensures
            dishes_presented(self.dishes@, r@),
    {
        let mut r: Vec<Dish> = Vec::new();
        let n = self.dishes.len();
        let mut k: usize = 0;
        while k < n
            invariant
                k <= n,
                n == self.dishes@.len(),
                r@.len() == k,
                forall|i: int| 0 <= i < k ==> dish_presented(self.dishes@[i], #[trigger] r@[i]),
            decreases n - k,
        {
            let d = self.dishes[k].clone();
            r.push(present_dish(d));
            k += 1;
        }
        r
    }

    /// Every dish type row, in ascending id order.
    pub fn list_types(&self) -> (r: Vec<Type>)
        ensures
            r@ == self.dish_types@,
    {
        let mut r: Vec<Type> = Vec::new();
        let n = self.dish_types.len();
        let mut k: usize = 0;
        while k < n
            invariant
                k <= n,
                n == self.dish_types@.len(),
                r@ == self.dish_types@.take(k as int),
            decreases n - k,
        {
            r.push(self.dish_types[k].clone());
            proof {
                assert(self.dish_types@.take(k + 1) =~= self.dish_types@.take(k as int).push(
                    self.dish_types@[k as int],
                ));
            }
            k += 1;
        }
        proof {
            assert(self.dish_types@.take(n as int) =~= self.dish_types@);
        }
        r
    }

    /// Every dish base row, in ascending id order.
    pub fn list_bases(&self) -> (r: Vec<Base>)
        ensures
            r@ == self.dish_bases@,
    {
        let mut r: Vec<Base> = Vec::new();
        let n = self.dish_bases.len();
        let mut k: usize = 0;
        while k < n
            invariant
                k <= n,
                n == self.dish_bases@.len(),
                r@ == self.dish_bases@.take(k as int),
            decreases n - k,
        {
            r.push(self.dish_bases[k].clone());
            proof {
                assert(self.dish_bases@.take(k + 1) =~= self.dish_bases@.take(k as int).push(
                    self.dish_bases@[k as int],
                ));
            }
            k += 1;
        }
        proof {
            assert(self.dish_bases@.take(n as int) =~= self.dish_bases@);
        }
        r
    }

    /// Every product row, in ascending id order.
    pub fn list_products(&self) -> (r: Vec<Product>)
        ensures
            r@ == self.products@,
    {
        let mut r: Vec<Product> = Vec::new();
        let n = self.products.len();
        let mut k: usize = 0;
        while k < n
            invariant
                k <= n,
                n == self.products@.len(),
                r@ == self.products@.take(k as int),
            decreases n - k,
        {
            r.push(self.products[k].clone());
            proof {
                assert(self.products@.take(k + 1) =~= self.products@.take(k as int).push(
                    self.products@[k as int],
                ));
            }
            k += 1;
        }
        proof {
            assert(self.products@.take(n as int) =~= self.products@);
        }
        r
    }

    /// Every user row, in ascending id order.
    pub fn list_users(&self) -> (r: Vec<User>)
        ensures
            r@ == self.users@,
    {
        let mut r: Vec<User> = Vec::new();
        let n = self.users.len();
        let mut k: usize = 0;
        while k < n
            invariant
                k <= n,
                n == self.users@.len(),
                r@ == self.users@.take(k as int),
            decreases n - k,
        {
            r.push(self.users[k].clone());
            proof {
                assert(self.users@.take(k + 1) =~= self.users@.take(k as int).push(
                    self.users@[k as int],
                ));
            }
            k += 1;
        }
        proof {
            assert(self.users@.take(n as int) =~= self.users@);
        }
        r
    }

    /// All composition rows of the given dish, in table order; empty when the
    /// dish has none or does not exist.
    pub fn get_structure_by_dish(&self, dish_id: i32) -> (r: Vec<Structure>)
        ensures
            r@ == self.structure_rows@.filter(structure_dish_pred(dish_id)),
    {
        let mut r: Vec<Structure> = Vec::new();
        let n = self.structure_rows.len();
        let mut k: usize = 0;
        while k < n
            invariant
                k <= n,
                n == self.structure_rows@.len(),
                r@ == self.structure_rows@.take(k as int).filter(structure_dish_pred(dish_id)),
            decreases n - k,
        {
            let row = self.structure_rows[k];
            if row.struct_dish_id == dish_id {
                r.push(row);
            }
            proof {
                self.structure_rows@.lemma_take_succ_push(k as int);
                self.structure_rows@.take(k as int).lemma_filter_push(
                    self.structure_rows@[k as int],
                    structure_dish_pred(dish_id),
                );
            }
            k += 1;
        }
        proof {
            assert(self.structure_rows@.take(n as int) =~= self.structure_rows@);
        }
        r
    }

    /// Insert a dish row with the next free id, provided its type and base
    /// references resolve; on a dangling reference nothing is written.
    pub fn create_dish(&mut self, d: Dish) -> (r: Result<i32, StoreError>)
        requires
            old(self).wf(),
            old(self).spec_next_dish_id() <= i32::MAX as int,
        ensures
            final(self).wf(),
            final(self).dish_types@ == old(self).dish_types@,
            final(self).dish_bases@ == old(self).dish_bases@,
            final(self).products@ == old(self).products@,
            final(self).structure_rows@ == old(self).structure_rows@,
            final(self).users@ == old(self).users@,
            final(self).paytypes@ == old(self).paytypes@,
            final(self).orders@ == old(self).orders@,
            final(self).cart@ == old(self).cart@,
            r is Ok <==> old(self).dish_refs_ok(d),
            (match r {
                Ok(id) => {
                    &&& id as int == old(self).spec_next_dish_id()
                    &&& has_key(final(self).dishes@, dish_key(), id as int)
                    &&& final(self).dishes@ == old(self).dishes@.push(
                        (Dish {
                            dish_id: id,
                            dish_name: d.dish_name,
                            dish_type_id: d.dish_type_id,
                            dish_base_id: d.dish_base_id,
                            dish_image: d.dish_image,
                        }),
                    )
                },
                Err(e) => {
                    &&& e == StoreError::ReferentialIntegrity
                    &&& final(self).dishes@ == old(self).dishes@
                },
            }),
    {
        if !self.types_contain(d.dish_type_id) || !self.bases_contain(d.dish_base_id) {
            return Err(StoreError::ReferentialIntegrity);
        }
        let n = self.dishes.len();
        let id: i32 = if n == 0 {
            1
        } else {
            self.dishes[n - 1].dish_id + 1
        };
        let row = Dish {
            dish_id: id,
            dish_name: d.dish_name,
            dish_type_id: d.dish_type_id,
            dish_base_id: d.dish_base_id,
            dish_image: d.dish_image,
        };
        proof {
            lemma_push_next_key(self.dishes@, dish_key(), row);
        }
        self.dishes.push(row);
        proof {
            assert forall|i: int| 0 <= i < self.dishes@.len() implies self.dish_refs_ok(
                #[trigger] self.dishes@[i],
            ) by {
                if i < self.dishes@.len() - 1 {
                    assert(self.dishes@[i] == old(self).dishes@[i]);
                    assert(old(self).dish_refs_ok(old(self).dishes@[i]));
                }
            };
        }
        Ok(id)
    }

    /// Update the dish row carrying the given row's id with its fields.
    /// Returns how many rows were affected: zero when no row has that id, as
    /// the store reports it, without error. A dangling type or base reference
    /// on an existing row leaves the store unchanged.
    pub fn update_dish(&mut self, d: Dish) -> (r: Result<usize, StoreError>)
        requires
            old(self).wf(),
        ensures
            final(self).wf(),
            final(self).dish_types@ == old(self).dish_types@,
            final(self).dish_bases@ == old(self).dish_bases@,
            final(self).products@ == old(self).products@,
            final(self).structure_rows@ == old(self).structure_rows@,
            final(self).users@ == old(self).users@,
            final(self).paytypes@ == old(self).paytypes@,
            final(self).orders@ == old(self).orders@,
            final(self).cart@ == old(self).cart@,
            r is Ok <==> (!has_key(old(self).dishes@, dish_key(), d.dish_id as int) || old(
                self,
            ).dish_refs_ok(d)),
            (match r {
                Ok(count) => {
                    &&& (count == 1 <==> has_key(old(self).dishes@, dish_key(), d.dish_id as int))
                    &&& count <= 1
                    &&& (count == 0 ==> final(self).dishes@ == old(self).dishes@)
                    &&& (count == 1 ==> exists|j: int|
                        0 <= j < old(self).dishes@.len() && (#[trigger] old(self).dishes@[j]).dish_id
                            == d.dish_id && final(self).dishes@ == old(self).dishes@.update(j, d))
                },
                Err(e) => {
                    &&& e == StoreError::ReferentialIntegrity
                    &&& has_key(old(self).dishes@, dish_key(), d.dish_id as int)
                    &&& !old(self).dish_refs_ok(d)
                    &&& final(self).dishes@ == old(self).dishes@
                },
            }),
    {
        let n = self.dishes.len();
        let mut k: usize = 0;
        while k < n
            invariant
                old(self).wf(),
                *self == *old(self),
                k <= n,
                n == self.dishes@.len(),
                forall|i: int| 0 <= i < k ==> (#[trigger] self.dishes@[i]).dish_id != d.dish_id,
            decreases n - k,
        {
            if self.dishes[k].dish_id == d.dish_id {
                if !self.types_contain(d.dish_type_id) || !self.bases_contain(d.dish_base_id) {
                    proof {
                        assert(dish_key()(self.dishes@[k as int]) == d.dish_id as int);
                    }
                    return Err(StoreError::ReferentialIntegrity);
                }
                proof {
                    assert(dish_key()(self.dishes@[k as int]) == d.dish_id as int);
                }
                self.dishes.set(k, d);
                proof {
                    let nd = self.dishes@;
                    let od = old(self).dishes@;
                    assert forall|a: int, b: int|
                        #![trigger nd[a], nd[b]]
                        0 <= a < b < nd.len() implies dish_key()(nd[a]) < dish_key()(nd[b]) by {
                        assert(od[k as int].dish_id == d.dish_id);
                        if a == k as int {
                            assert(nd[a] == d);
                        } else {
                            assert(nd[a] == od[a]);
                        }
                        if b == k as int {
                            assert(nd[b] == d);
                        } else {
                            assert(nd[b] == od[b]);
                        }
                    };
                    assert forall|i: int| 0 <= i < nd.len() implies self.dish_refs_ok(
                        #[trigger] nd[i],
                    ) by {
                        if i != k as int {
                            assert(nd[i] == od[i]);
                            assert(old(self).dish_refs_ok(od[i]));
                        }
                    };
                }
                return Ok(1);
            }
            k += 1;
        }
        Ok(0)
    }

    /// Delete the dish row with the given id. Returns how many rows were
    /// affected: zero when no row has that id.
    pub fn delete_dish(&mut self, dish_id: i32) -> (count: usize)
        requires
            old(self).wf(),
        ensures
            final(self).wf(),
            final(self).dish_types@ == old(self).dish_types@,
            final(self).dish_bases@ == old(self).dish_bases@,
            final(self).products@ == old(self).products@,
            final(self).structure_rows@ == old(self).structure_rows@,
            final(self).users@ == old(self).users@,
            final(self).paytypes@ == old(self).paytypes@,
            final(self).orders@ == old(self).orders@,
            final(self).cart@ == old(self).cart@,
            count <= 1,
            count == 1 <==> has_key(old(self).dishes@, dish_key(), dish_id as int),
            count == 0 ==> final(self).dishes@ == old(self).dishes@,
            count == 1 ==> exists|j: int|
                0 <= j < old(self).dishes@.len() && (#[trigger] old(self).dishes@[j]).dish_id
                    == dish_id && final(self).dishes@ == old(self).dishes@.remove(j),
    {
        let n = self.dishes.len();
        let mut k: usize = 0;
        while k < n
            invariant
                old(self).wf(),
                *self == *old(self),
                k <= n,
                n == self.dishes@.len(),
                forall|i: int| 0 <= i < k ==> (#[trigger] self.dishes@[i]).dish_id != dish_id,
            decreases n - k,
        {
            if self.dishes[k].dish_id == dish_id {
                proof {
                    assert(dish_key()(self.dishes@[k as int]) == dish_id as int);
                    old(self).dishes@.remove_ensures(k as int);
                }
                self.dishes.remove(k);
                proof {
                    let nd = self.dishes@;
                    let od = old(self).dishes@;
                    assert forall|a: int, b: int|
                        #![trigger nd[a], nd[b]]
                        0 <= a < b < nd.len() implies dish_key()(nd[a]) < dish_key()(nd[b]) by {
                        if b < k as int {
                            assert(nd[a] == od[a] && nd[b] == od[b]);
                        } else if a < k as int {
                            assert(nd[a] == od[a] && nd[b] == od[b + 1]);
                        } else {
                            assert(nd[a] == od[a + 1] && nd[b] == od[b + 1]);
                        }
                    };
                    assert forall|i: int| 0 <= i < nd.len() implies self.dish_refs_ok(
                        #[trigger] nd[i],
                    ) by {
                        if i < k as int {
                            assert(nd[i] == od[i]);
                            assert(old(self).dish_refs_ok(od[i]));
                        } else {
                            assert(nd[i] == od[i + 1]);
                            assert(old(self).dish_refs_ok(od[i + 1]));
                        }
                    };
                }
                return 1;
            }
            k += 1;
        }
        0
    }

    /// Every payment-type row, in ascending id order.
    pub fn list_paytypes(&self) -> (r: Vec<Paytype>)
        ensures
            r@ == self.paytypes@,
    {
        let mut r: Vec<Paytype> = Vec::new();
        let n = self.paytypes.len();
        let mut k: usize = 0;
        while k < n
            invariant
                k <= n,
                n == self.paytypes@.len(),
                r@ == self.paytypes@.take(k as int),
            decreases n - k,
        {
            r.push(self.paytypes[k].clone());
            proof {
                assert(self.paytypes@.take(k + 1) =~= self.paytypes@.take(k as int).push(
                    self.paytypes@[k as int],
                ));
            }
            k += 1;
        }
        proof {
            assert(self.paytypes@.take(n as int) =~= self.paytypes@);
        }
        r
    }
}

} // verus!
