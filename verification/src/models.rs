//! Record types for the catalog, user, order and cart tables.
//!
//! Every identifier is a plain `i32`, as the store's integer key columns hold
//! it. Types that carry a `String` implement `Clone` by hand so that verified
//! code knows a clone equals its source.

use vstd::prelude::*;
use crate::date::Date;

verus! {

/// A menu item, referencing a dish type and a dish base.
#[derive(Debug, PartialEq, Eq)]
pub struct Dish {
    pub dish_id: i32,
    pub dish_name: String,
    pub dish_type_id: i32,
    pub dish_base_id: i32,
    pub dish_image: String,
}

impl Clone for Dish {
    fn clone(&self) -> (r: Self)
        ensures
            r == *self,
    {
        Dish {
            dish_id: self.dish_id,
            dish_name: self.dish_name.clone(),
            dish_type_id: self.dish_type_id,
            dish_base_id: self.dish_base_id,
            dish_image: self.dish_image.clone(),
        }
    }
}

/// A registered user of the service.
#[derive(Debug, PartialEq, Eq)]
pub struct User {
    pub user_id: i32,
    pub user_firstname: String,
    pub user_lastname: String,
    pub user_patronymic: String,
    pub user_birthday: Date,
    pub user_login: String,
    pub user_password: String,
    pub user_phone: String,
    pub user_address: String,
    pub user_role_id: i32,
}

impl Clone for User {
    fn clone(&self) -> (r: Self)
        ensures
            r == *self,
    {
        User {
            user_id: self.user_id,
            user_firstname: self.user_firstname.clone(),
            user_lastname: self.user_lastname.clone(),
            user_patronymic: self.user_patronymic.clone(),
            user_birthday: self.user_birthday,
            user_login: self.user_login.clone(),
            user_password: self.user_password.clone(),
            user_phone: self.user_phone.clone(),
            user_address: self.user_address.clone(),
            user_role_id: self.user_role_id,
        }
    }
}

/// A user role.
#[derive(Debug, PartialEq, Eq)]
pub struct Role {
    pub role_id: i32,
    pub role_name: String,
}

impl Clone for Role {
    fn clone(&self) -> (r: Self)
        ensures
            r == *self,
    {
        Role { role_id: self.role_id, role_name: self.role_name.clone() }
    }
}

/// Identity-document details of a user.
#[derive(Debug, PartialEq, Eq)]
pub struct UserData {
    pub user_id: i32,
    pub user_passport_ser: i32,
    pub user_passport_num: i32,
    pub user_who_issued: String,
    pub user_issue_date: Date,
    pub user_email: String,
}

impl Clone for UserData {
    fn clone(&self) -> (r: Self)
        ensures
            r == *self,
    {
        UserData {
            user_id: self.user_id,
            user_passport_ser: self.user_passport_ser,
            user_passport_num: self.user_passport_num,
            user_who_issued: self.user_who_issued.clone(),
            user_issue_date: self.user_issue_date,
            user_email: self.user_email.clone(),
        }
    }
}

/// A dish type: id and name.
#[derive(Debug, PartialEq, Eq)]
pub struct Type {
    pub type_id: i32,
    pub name: String,
}

impl Clone for Type {
    fn clone(&self) -> (r: Self)
        ensures
            r == *self,
    {
        Type { type_id: self.type_id, name: self.name.clone() }
    }
}

/// A dish base: id, name and yield quantity.
#[derive(Debug, PartialEq, Eq)]
pub struct Base {
    pub base_id: i32,
    pub base_name: String,
    pub base_exit: i32,
}

impl Clone for Base {
    fn clone(&self) -> (r: Self)
        ensures
            r == *self,
    {
        Base { base_id: self.base_id, base_name: self.base_name.clone(), base_exit: self.base_exit }
    }
}

/// A product with its macronutrient content in integer units.
#[derive(Debug, PartialEq, Eq)]
pub struct Product {
    pub prod_id: i32,
    pub prod_name: String,
    pub prod_protein: i32,
    pub prod_fats: i32,
    pub prod_carboh: i32,
}

impl Clone for Product {
    fn clone(&self) -> (r: Self)
        ensures
            r == *self,
    {
        Product {
            prod_id: self.prod_id,
            prod_name: self.prod_name.clone(),
            prod_protein: self.prod_protein,
            prod_fats: self.prod_fats,
            prod_carboh: self.prod_carboh,
        }
    }
}

/// One composition row of a dish: which product it uses and at what weight.
#[derive(Clone, Copy, PartialEq, Eq, Structural, Debug)]
pub struct Structure {
    pub struct_dish_id: i32,
    pub struct_product_id: i32,
    pub struct_weight: i32,
}

/// A payment method selectable on an order.
#[derive(Debug, PartialEq, Eq)]
pub struct Paytype {
    pub type_id: i32,
    pub name: String,
}

impl Clone for Paytype {
    fn clone(&self) -> (r: Self)
        ensures
            r == *self,
    {
        Paytype { type_id: self.type_id, name: self.name.clone() }
    }
}

/// A placed order row. The id is generated by the store on insert.
#[derive(Debug, PartialEq, Eq)]
pub struct Order {
    pub order_id: i32,
    pub order_user_id: i32,
    pub order_address: String,
    pub order_date: Date,
    pub order_paytype_id: i32,
}

impl Clone for Order {
    fn clone(&self) -> (r: Self)
        ensures
            r == *self,
    {
        Order {
            order_id: self.order_id,
            order_user_id: self.order_user_id,
            order_address: self.order_address.clone(),
            order_date: self.order_date,
            order_paytype_id: self.order_paytype_id,
        }
    }
}

/// One cart line of a placed order.
#[derive(Clone, Copy, PartialEq, Eq, Structural, Debug)]
pub struct OrderCart {
    pub cart_order_id: i32,
    pub cart_prod_id: i32,
    pub cart_prod_count: i32,
}

/// An order as a client submits it, before the store assigns it an id.
#[derive(Debug, PartialEq, Eq)]
pub struct OrderDraft {
    pub user_id: i32,
    pub address: String,
    pub date: Date,
    pub paytype_id: i32,
}

impl Clone for OrderDraft {
    fn clone(&self) -> (r: Self)
        ensures
            r == *self,
    {
        OrderDraft {
            user_id: self.user_id,
            address: self.address.clone(),
            date: self.date,
            paytype_id: self.paytype_id,
        }
    }
}

/// One submitted cart line, before the store assigns the order id.
#[derive(Clone, Copy, PartialEq, Eq, Structural, Debug)]
pub struct CartItemDraft {
    pub product_id: i32,
    pub quantity: i32,
}

/// How a store operation can fail.
///
/// `Validation` rejects a request before any row is touched; a
/// `ReferentialIntegrity` failure means a write referenced a missing row, and
/// the store keeps none of the request's rows.
#[derive(Clone, Copy, PartialEq, Eq, Structural, Debug)]
pub enum StoreError {
    Validation,
    ReferentialIntegrity,
}

} // verus!
