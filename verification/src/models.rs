//! The records of the shop: products, orders, order lines, and the bodies of
//! the requests that create or change them.
//!
//! Times are microseconds since the Unix epoch. Order identifiers are the
//! 128-bit values of UUIDs.

use crate::money::{Decimal, Money};
use crate::status::OrderStatus;
use vstd::prelude::*;
use vstd::string::*;

verus! {

/// The characters of an optional text.
pub open spec fn opt_text(text: Option<String>) -> Option<Seq<char>> {
    match text {
        Some(t) => Some(t@),
        None => None,
    }
}

/// A copy of an optional text.
pub fn copy_opt_text(text: &Option<String>) -> (copy: Option<String>)
    ensures
        opt_text(copy) == opt_text(*text),
{
    match text {
        Some(t) => Some(t.clone()),
        None => None,
    }
}

/// An administrator account.
#[derive(Debug, Clone)]
pub struct Admin {
    pub id: i32,
    pub email: String,
    pub password_hash: String,
    pub created_at: i64,
}

/// A catalog entry.
#[derive(Debug, Clone, PartialEq, Eq)]
pub struct Product {
    pub id: i32,
    pub name: String,
    pub description: Option<String>,
    pub price: Money,
    pub image_url: Option<String>,
    pub stock_quantity: i32,
    pub is_active: bool,
    pub created_at: i64,
    pub updated_at: i64,
}

/// Mathematical content of a [`Product`].
pub struct ProductView {
    pub id: int,
    pub name: Seq<char>,
    pub description: Option<Seq<char>>,
    pub price: Decimal,
    pub image_url: Option<Seq<char>>,
    pub stock_quantity: int,
    pub is_active: bool,
    pub created_at: int,
    pub updated_at: int,
}

impl View for Product {
    type V = ProductView;

    open spec fn view(&self) -> ProductView {
        ProductView {
            id: self.id as int,
            name: self.name@,
            description: opt_text(self.description),
            price: self.price@,
            image_url: opt_text(self.image_url),
            stock_quantity: self.stock_quantity as int,
            is_active: self.is_active,
            created_at: self.created_at as int,
            updated_at: self.updated_at as int,
        }
    }
}

impl Product {
    /// A copy of the product.
    pub fn duplicate(&self) -> (copy: Product)
        ensures
            copy@ == self@,
    {
        Product {
            id: self.id,
            name: self.name.clone(),
            description: copy_opt_text(&self.description),
            price: self.price,
            image_url: copy_opt_text(&self.image_url),
            stock_quantity: self.stock_quantity,
            is_active: self.is_active,
            created_at: self.created_at,
            updated_at: self.updated_at,
        }
    }
}

/// The body of a request that adds a product to the catalog.
#[derive(Debug)]
pub struct CreateProductRequest {
    pub name: String,
    pub description: Option<String>,
    pub price: Money,
    pub stock_quantity: i32,
}

/// Mathematical content of a [`CreateProductRequest`].
pub struct ProductDraft {
    pub name: Seq<char>,
    pub description: Option<Seq<char>>,
    pub price: Decimal,
    pub stock_quantity: int,
}

impl View for CreateProductRequest {
    type V = ProductDraft;

    open spec fn view(&self) -> ProductDraft {
        ProductDraft {
            name: self.name@,
            description: opt_text(self.description),
            price: self.price@,
            stock_quantity: self.stock_quantity as int,
        }
    }
}

/// The body of a request that changes a product: each field that is
/// present replaces the stored one, each absent field leaves it as it is.
#[derive(Debug)]
pub struct UpdateProductRequest {
    pub name: Option<String>,
    pub description: Option<String>,
    pub price: Option<Money>,
    pub stock_quantity: Option<i32>,
    pub is_active: Option<bool>,
}

/// Mathematical content of an [`UpdateProductRequest`].
pub struct ProductPatch {
    pub name: Option<Seq<char>>,
    pub description: Option<Seq<char>>,
    pub price: Option<Decimal>,
    pub stock_quantity: Option<int>,
    pub is_active: Option<bool>,
}

impl View for UpdateProductRequest {
    type V = ProductPatch;

    open spec fn view(&self) -> ProductPatch {
        ProductPatch {
            name: opt_text(self.name),
            description: opt_text(self.description),
            price: match self.price {
                Some(p) => Some(p@),
                None => None,
            },
            stock_quantity: match self.stock_quantity {
                Some(q) => Some(q as int),
                None => None,
            },
            is_active: self.is_active,
        }
    }
}

impl ProductPatch {
    /// Whether the patch changes nothing: no field is present.
    pub open spec fn is_empty(self) -> bool {
        &&& self.name is None
        &&& self.description is None
        &&& self.price is None
        &&& self.stock_quantity is None
        &&& self.is_active is None
    }

    /// The product after the patch: every field that is present replaces
    /// the product's, every other field stays.
    pub open spec fn applied(self, p: ProductView) -> ProductView {
        ProductView {
            name: match self.name {
                Some(name) => name,
                None => p.name,
            },
            description: match self.description {
                Some(description) => Some(description),
                None => p.description,
            },
            price: match self.price {
                Some(price) => price,
                None => p.price,
            },
            stock_quantity: match self.stock_quantity {
                Some(stock_quantity) => stock_quantity,
                None => p.stock_quantity,
            },
            is_active: match self.is_active {
                Some(is_active) => is_active,
                None => p.is_active,
            },
            ..p
        }
    }
}

impl UpdateProductRequest {
    /// Whether no field is present.
    pub fn is_empty(&self) -> (empty: bool)
        ensures
            empty == self@.is_empty(),
    {
        self.name.is_none() && self.description.is_none() && self.price.is_none()
            && self.stock_quantity.is_none() && self.is_active.is_none()
    }

    /// Applies the patch to a product: every field that is present
    /// replaces the product's, every other field stays.
    pub fn apply(&self, product: &Product) -> (patched: Product)
        ensures
            patched@ == self@.applied(product@),
    {
        Product {
            id: product.id,
            name: match &self.name {
                Some(name) => name.clone(),
                None => product.name.clone(),
            },
            description: match &self.description {
                Some(description) => Some(description.clone()),
                None => copy_opt_text(&product.description),
            },
            price: match self.price {
                Some(price) => price,
                None => product.price,
            },
            image_url: copy_opt_text(&product.image_url),
            stock_quantity: match self.stock_quantity {
                Some(stock_quantity) => stock_quantity,
                None => product.stock_quantity,
            },
            is_active: match self.is_active {
                Some(is_active) => is_active,
                None => product.is_active,
            },
            created_at: product.created_at,
            updated_at: product.updated_at,
        }
    }
}

/// A committed order.
#[derive(Debug, Clone, PartialEq, Eq)]
pub struct Order {
    pub id: u128,
    pub customer_name: String,
    pub customer_email: String,
    pub customer_phone: String,
    pub delivery_address: String,
    pub delivery_city: String,
    pub delivery_postal_code: Option<String>,
    pub total_amount: Money,
    pub status: OrderStatus,
    pub notes: Option<String>,
    pub created_at: i64,
    pub updated_at: i64,
}

/// Mathematical content of an [`Order`].
pub struct OrderView {
    pub id: int,
    pub customer_name: Seq<char>,
    pub customer_email: Seq<char>,
    pub customer_phone: Seq<char>,
    pub delivery_address: Seq<char>,
    pub delivery_city: Seq<char>,
    pub delivery_postal_code: Option<Seq<char>>,
    pub total_amount: Decimal,
    pub status: OrderStatus,
    pub notes: Option<Seq<char>>,
    pub created_at: int,
    pub updated_at: int,
}

impl View for Order {
    type V = OrderView;

    open spec fn view(&self) -> OrderView {
        OrderView {
            id: self.id as int,
            customer_name: self.customer_name@,
            customer_email: self.customer_email@,
            customer_phone: self.customer_phone@,
            delivery_address: self.delivery_address@,
            delivery_city: self.delivery_city@,
            delivery_postal_code: opt_text(self.delivery_postal_code),
            total_amount: self.total_amount@,
            status: self.status,
            notes: opt_text(self.notes),
            created_at: self.created_at as int,
            updated_at: self.updated_at as int,
        }
    }
}

impl Order {
    /// A copy of the order.
    pub fn duplicate(&self) -> (copy: Order)
        ensures
            copy@ == self@,
    {
        Order {
            id: self.id,
            customer_name: self.customer_name.clone(),
            customer_email: self.customer_email.clone(),
            customer_phone: self.customer_phone.clone(),
            delivery_address: self.delivery_address.clone(),
            delivery_city: self.delivery_city.clone(),
            delivery_postal_code: copy_opt_text(&self.delivery_postal_code),
            total_amount: self.total_amount,
            status: self.status,
            notes: copy_opt_text(&self.notes),
            created_at: self.created_at,
            updated_at: self.updated_at,
        }
    }
}

/// One line of a committed order. Name, price, quantity and subtotal are
/// the values taken when the order was created; the product reference is
/// absent once the product has been deleted.
#[derive(Debug, Clone, PartialEq, Eq)]
pub struct OrderItem {
    pub id: i32,
    pub order_id: u128,
    pub product_id: Option<i32>,
    pub product_name: String,
    pub product_price: Money,
    pub quantity: i32,
    pub subtotal: Money,
    pub created_at: i64,
}

/// Mathematical content of an [`OrderItem`].
pub struct OrderItemView {
    pub id: int,
    pub order_id: int,
    pub product_id: Option<int>,
    pub product_name: Seq<char>,
    pub product_price: Decimal,
    pub quantity: int,
    pub subtotal: Decimal,
    pub created_at: int,
}

impl View for OrderItem {
    type V = OrderItemView;

    open spec fn view(&self) -> OrderItemView {
        OrderItemView {
            id: self.id as int,
            order_id: self.order_id as int,
            product_id: match self.product_id {
                Some(id) => Some(id as int),
                None => None,
            },
            product_name: self.product_name@,
            product_price: self.product_price@,
            quantity: self.quantity as int,
            subtotal: self.subtotal@,
            created_at: self.created_at as int,
        }
    }
}

impl OrderItem {
    /// A copy of the order line.
    pub fn duplicate(&self) -> (copy: OrderItem)
        ensures
            copy@ == self@,
    {
        OrderItem {
            id: self.id,
            order_id: self.order_id,
            product_id: self.product_id,
            product_name: self.product_name.clone(),
            product_price: self.product_price,
            quantity: self.quantity,
            subtotal: self.subtotal,
            created_at: self.created_at,
        }
    }
}

/// One requested line of a cart.
#[derive(Debug, Clone, Copy, PartialEq, Eq, Structural)]
pub struct OrderItemRequest {
    pub product_id: i32,
    pub quantity: i32,
}

/// The body of a checkout request.
#[derive(Debug)]
pub struct CreateOrderRequest {
    pub customer_name: String,
    pub customer_email: String,
    pub customer_phone: String,
    pub delivery_address: String,
    pub delivery_city: String,
    pub delivery_postal_code: Option<String>,
    pub notes: Option<String>,
    pub items: Vec<OrderItemRequest>,
}

/// Mathematical content of a [`CreateOrderRequest`].
pub struct Checkout {
    pub customer_name: Seq<char>,
    pub customer_email: Seq<char>,
    pub customer_phone: Seq<char>,
    pub delivery_address: Seq<char>,
    pub delivery_city: Seq<char>,
    pub delivery_postal_code: Option<Seq<char>>,
    pub notes: Option<Seq<char>>,
    pub items: Seq<OrderItemRequest>,
}

impl View for CreateOrderRequest {
    type V = Checkout;

    open spec fn view(&self) -> Checkout {
        Checkout {
            customer_name: self.customer_name@,
            customer_email: self.customer_email@,
            customer_phone: self.customer_phone@,
            delivery_address: self.delivery_address@,
            delivery_city: self.delivery_city@,
            delivery_postal_code: opt_text(self.delivery_postal_code),
            notes: opt_text(self.notes),
            items: self.items@,
        }
    }
}

/// The body of a request that sets an order's status.
#[derive(Debug)]
pub struct UpdateOrderStatusRequest {
    pub status: String,
}

/// The body of a login request.
#[derive(Debug)]
pub struct LoginRequest {
    pub email: String,
    pub password: String,
}

/// The administrator as shown to the client: without the password hash.
#[derive(Debug, PartialEq, Eq)]
pub struct AdminResponse {
    pub id: i32,
    pub email: String,
}

/// The answer to a successful login.
#[derive(Debug, PartialEq, Eq)]
pub struct LoginResponse {
    pub token: String,
    pub admin: AdminResponse,
}

} // verus!
