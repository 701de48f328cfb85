//! The tables of the shop as mathematics: the rows, the constraints, what
//! each storage action does to them, and the unit of work that creates an
//! order.

use crate::assembler::{assemble, Line};
use crate::catalog::{distinct_ids, lookup, lookup_active, replaced, stocked, taken, without};
use crate::error::Failure;
use crate::models::{Checkout, OrderItemView, OrderView, ProductDraft, ProductPatch, ProductView};
use crate::status::{checked_status, OrderStatus};
use crate::workflow::{empty_rejection, item_draft, order_draft, ItemDraft, Move, OrderDraft, Reply};
use vstd::prelude::*;

verus! {

/// The rows of the tables, in the order in which they were inserted, and
/// the next identifiers that the tables hand out. This is the mathematical
/// content of a `Store`.
pub struct Tables {
    pub products: Seq<ProductView>,
    pub orders: Seq<OrderView>,
    pub items: Seq<OrderItemView>,
    pub next_product_id: int,
    pub next_item_id: int,
}

/// Whether the orders hold one with this identifier.
pub open spec fn has_order(orders: Seq<OrderView>, id: int) -> bool {
    exists|k: int| 0 <= k < orders.len() && (#[trigger] orders[k]).id == id
}

/// No two orders share an identifier.
pub open spec fn distinct_orders(orders: Seq<OrderView>) -> bool {
    forall|i: int, j: int|
        0 <= i < j < orders.len() ==> (#[trigger] orders[i]).id != (#[trigger] orders[j]).id
}

/// An order that is stored stays stored when another is appended, and the
/// appended one is stored.
pub proof fn lemma_has_order_push(orders: Seq<OrderView>, order: OrderView, id: int)
    ensures
        has_order(orders, id) ==> has_order(orders.push(order), id),
        has_order(orders.push(order), order.id),
{
    let pushed = orders.push(order);
    assert(pushed[orders.len() as int].id == order.id);
    if has_order(orders, id) {
        let k = choose|k: int| 0 <= k < orders.len() && (#[trigger] orders[k]).id == id;
        assert(pushed[k].id == id);
    }
}

impl Tables {
    /// The constraints of the tables: identifiers are unique and below
    /// the next one handed out, stock is in range, order lines have
    /// positive quantities and belong to stored orders.
    pub open spec fn wf(self) -> bool {
        &&& distinct_ids(self.products)
        &&& stocked(self.products)
        &&& distinct_orders(self.orders)
        &&& forall|k: int|
            0 <= k < self.products.len() ==> (#[trigger] self.products[k]).id < self.next_product_id
        &&& forall|k: int| 0 <= k < self.items.len() ==> (#[trigger] self.items[k]).id < self.next_item_id
        &&& forall|k: int| 0 <= k < self.items.len() ==> (#[trigger] self.items[k]).quantity > 0
        &&& forall|k: int|
            0 <= k < self.items.len() ==> has_order(self.orders, (#[trigger] self.items[k]).order_id)
        &&& 1 <= self.next_product_id <= i32::MAX + 1
        &&& 1 <= self.next_item_id <= i32::MAX + 1
    }
}

/// The order row as stored at time `now`.
pub open spec fn stored_order(draft: OrderDraft, now: int) -> OrderView {
    OrderView {
        id: draft.id,
        customer_name: draft.customer_name,
        customer_email: draft.customer_email,
        customer_phone: draft.customer_phone,
        delivery_address: draft.delivery_address,
        delivery_city: draft.delivery_city,
        delivery_postal_code: draft.delivery_postal_code,
        total_amount: draft.total_amount,
        status: draft.status,
        notes: draft.notes,
        created_at: now,
        updated_at: now,
    }
}

/// The order line row as stored under identifier `id` at time `now`.
pub open spec fn stored_item(draft: ItemDraft, id: int, now: int) -> OrderItemView {
    OrderItemView {
        id,
        order_id: draft.order_id,
        product_id: Some(draft.product_id),
        product_name: draft.product_name,
        product_price: draft.product_price,
        quantity: draft.quantity,
        subtotal: draft.subtotal,
        created_at: now,
    }
}

/// The detail of the fault for a stock that would leave its range.
pub open spec fn stock_fault() -> Seq<char> {
    "stock_quantity out of range"@
}

/// The detail of the fault for an order identifier that is taken.
pub open spec fn duplicate_order_fault() -> Seq<char> {
    "duplicate order id"@
}

/// The detail of the fault for an order line that cannot be stored: the
/// identifiers are used up, the quantity is not positive, or its order is
/// not stored.
pub open spec fn item_fault() -> Seq<char> {
    "order item out of range"@
}

/// The detail of the fault for an action that is no storage work.
pub open spec fn action_fault() -> Seq<char> {
    "not a storage action"@
}

/// What a storage action does to the tables at time `now`, and what it
/// answers.
///
/// Locking reads the active product with the identifier. Decrementing
/// changes the stock of the product with the identifier, if there is one,
/// and faults if the stock would leave the range from zero to the largest
/// count. Inserting an order faults on an identifier that is taken.
/// Inserting an order line hands out the next line identifier, and faults
/// if none is left, the quantity is not positive, or the order is not
/// stored.
pub open spec fn performed(t: Tables, m: Move, now: int) -> (Tables, Reply) {
    match m {
        Move::Begin => (t, Reply::Started),
        Move::LockProduct { product_id } => (t, Reply::Product(lookup_active(t.products, product_id))),
        Move::DecrementStock { product_id, quantity } => match lookup(t.products, product_id) {
            None => (t, Reply::StockUpdated),
            Some(p) => if 0 <= p.stock_quantity - quantity <= i32::MAX {
                (Tables { products: taken(t.products, product_id, quantity), ..t }, Reply::StockUpdated)
            } else {
                (t, Reply::Fault(stock_fault()))
            },
        },
        Move::InsertOrder(draft) => if has_order(t.orders, draft.id) {
            (t, Reply::Fault(duplicate_order_fault()))
        } else {
            (
                Tables { orders: t.orders.push(stored_order(draft, now)), ..t },
                Reply::OrderInserted(stored_order(draft, now)),
            )
        },
        Move::InsertItem(draft) => if t.next_item_id > i32::MAX || draft.quantity <= 0 || !has_order(
            t.orders,
            draft.order_id,
        ) {
            (t, Reply::Fault(item_fault()))
        } else {
            (
                Tables {
                    items: t.items.push(stored_item(draft, t.next_item_id, now)),
                    next_item_id: t.next_item_id + 1,
                    ..t
                },
                Reply::ItemInserted,
            )
        },
        Move::Commit => (t, Reply::Committed),
        Move::Respond(_) => (t, Reply::Fault(action_fault())),
        Move::Reject(_) => (t, Reply::Fault(action_fault())),
    }
}

/// The lines of the order with this identifier, in the order in which they
/// were stored.
pub open spec fn items_of(items: Seq<OrderItemView>, order_id: int) -> Seq<OrderItemView>
    decreases items.len(),
{
    if items.len() == 0 {
        Seq::empty()
    } else {
        let rest = items_of(items.drop_last(), order_id);
        if items.last().order_id == order_id {
            rest.push(items.last())
        } else {
            rest
        }
    }
}

/// The order line rows for the priced lines of one order, with
/// consecutive identifiers from `first_id`.
pub open spec fn item_rows(order_id: int, lines: Seq<Line>, first_id: int, now: int) -> Seq<
    OrderItemView,
> {
    Seq::new(lines.len(), |j: int| stored_item(item_draft(order_id, lines[j]), first_id + j, now))
}

/// The unit of work that creates an order, as one step from tables to
/// tables.
///
/// A request without lines is rejected. Otherwise the lines are assembled
/// against the products; if that fails, or the order identifier is taken,
/// or the line identifiers run out, the tables stay exactly as they were.
/// If all succeeds, the assembled stock replaces the old one, the order
/// row is appended with the total of the lines, and one row for each line
/// is appended.
pub open spec fn placed(t: Tables, checkout: Checkout, order_id: int, now: int) -> (
    Tables,
    Result<OrderView, Failure>,
) {
    if checkout.items.len() == 0 {
        (t, Err(empty_rejection()))
    } else {
        match assemble(t.products, checkout.items) {
            Err(e) => (t, Err(e)),
            Ok(a) => {
                let order = stored_order(order_draft(checkout, order_id, a.total), now);
                if has_order(t.orders, order_id) {
                    (t, Err(Failure::DatabaseError(duplicate_order_fault())))
                } else if t.next_item_id + a.lines.len() - 1 > i32::MAX {
                    (t, Err(Failure::DatabaseError(item_fault())))
                } else {
                    (
                        Tables {
                            products: a.catalog,
                            orders: t.orders.push(order),
                            items: t.items + item_rows(order_id, a.lines, t.next_item_id, now),
                            next_item_id: t.next_item_id + a.lines.len(),
                            ..t
                        },
                        Ok(order),
                    )
                }
            },
        }
    }
}

/// The rejection of a request for a product that is not there.
pub open spec fn product_not_found() -> Failure {
    Failure::NotFound("Product not found"@)
}

/// The rejection of a request for an order that is not there.
pub open spec fn order_not_found() -> Failure {
    Failure::NotFound("Order not found"@)
}

/// The detail of the fault when the product identifiers are used up.
pub open spec fn product_id_fault() -> Seq<char> {
    "product id out of range"@
}

/// The order with this identifier, if one is stored.
pub open spec fn lookup_order(orders: Seq<OrderView>, id: int) -> Option<OrderView> {
    if has_order(orders, id) {
        Some(orders[choose|k: int| 0 <= k < orders.len() && (#[trigger] orders[k]).id == id])
    } else {
        None
    }
}

/// Adding a product at time `now`: it gets the next identifier, is
/// active and has no image. A negative stock is a fault, and so is
/// running out of identifiers.
pub open spec fn product_added(t: Tables, draft: ProductDraft, now: int) -> (
    Tables,
    Result<ProductView, Failure>,
) {
    let p = ProductView {
        id: t.next_product_id,
        name: draft.name,
        description: draft.description,
        price: draft.price,
        image_url: None,
        stock_quantity: draft.stock_quantity,
        is_active: true,
        created_at: now,
        updated_at: now,
    };
    if t.next_product_id > i32::MAX {
        (t, Err(Failure::DatabaseError(product_id_fault())))
    } else if !(0 <= draft.stock_quantity <= i32::MAX) {
        (t, Err(Failure::DatabaseError(stock_fault())))
    } else {
        (Tables { products: t.products.push(p), next_product_id: t.next_product_id + 1, ..t }, Ok(p))
    }
}

/// Changing the product with this identifier by a patch. A stock that
/// would leave its range is a fault.
pub open spec fn product_updated(t: Tables, id: int, patch: ProductPatch) -> (
    Tables,
    Result<ProductView, Failure>,
) {
    match lookup(t.products, id) {
        None => (t, Err(product_not_found())),
        Some(p) => {
            let q = patch.applied(p);
            if !(0 <= q.stock_quantity <= i32::MAX) {
                (t, Err(Failure::DatabaseError(stock_fault())))
            } else {
                (Tables { products: replaced(t.products, id, q), ..t }, Ok(q))
            }
        },
    }
}

/// Giving the product with this identifier an image.
pub open spec fn image_set(t: Tables, id: int, image_url: Seq<char>) -> (
    Tables,
    Result<ProductView, Failure>,
) {
    match lookup(t.products, id) {
        None => (t, Err(product_not_found())),
        Some(p) => {
            let q = ProductView { image_url: Some(image_url), ..p };
            (Tables { products: replaced(t.products, id, q), ..t }, Ok(q))
        },
    }
}

/// The order lines after the product with this identifier is gone: the
/// lines that referred to it refer to no product, and keep everything
/// else.
pub open spec fn released(items: Seq<OrderItemView>, product_id: int) -> Seq<OrderItemView> {
    items.map_values(
        |i: OrderItemView|
            if i.product_id == Some(product_id) {
                OrderItemView { product_id: None, ..i }
            } else {
                i
            },
    )
}

/// Deleting the product with this identifier.
pub open spec fn product_deleted(t: Tables, id: int) -> (Tables, Result<(), Failure>) {
    match lookup(t.products, id) {
        None => (t, Err(product_not_found())),
        Some(_) => (
            Tables { products: without(t.products, id), items: released(t.items, id), ..t },
            Ok(()),
        ),
    }
}

/// The active products, in the order of the catalog.
pub open spec fn active_products(catalog: Seq<ProductView>) -> Seq<ProductView>
    decreases catalog.len(),
{
    if catalog.len() == 0 {
        Seq::empty()
    } else {
        let rest = active_products(catalog.drop_last());
        if catalog.last().is_active {
            rest.push(catalog.last())
        } else {
            rest
        }
    }
}

/// Whether `listing` lists exactly the products `rows`, each as often as
/// it is there, and none before a newer one.
pub open spec fn lists_products(listing: Seq<ProductView>, rows: Seq<ProductView>) -> bool {
    &&& listing.to_multiset() == rows.to_multiset()
    &&& forall|a: int, b: int|
        0 <= a < b < listing.len() ==> (#[trigger] listing[a]).created_at >= (
        #[trigger] listing[b]).created_at
}

/// Whether `listing` lists exactly the orders `rows`, each as often as it
/// is there, and none before a newer one.
pub open spec fn lists_orders(listing: Seq<OrderView>, rows: Seq<OrderView>) -> bool {
    &&& listing.to_multiset() == rows.to_multiset()
    &&& forall|a: int, b: int|
        0 <= a < b < listing.len() ==> (#[trigger] listing[a]).created_at >= (
        #[trigger] listing[b]).created_at
}

/// Showing the product with this identifier to a customer: only an
/// active product is shown.
pub open spec fn product_shown(t: Tables, id: int) -> Result<ProductView, Failure> {
    match lookup_active(t.products, id) {
        Some(p) => Ok(p),
        None => Err(product_not_found()),
    }
}

/// Showing the order with this identifier, together with its lines.
pub open spec fn order_shown(t: Tables, id: int) -> Result<(OrderView, Seq<OrderItemView>), Failure> {
    match lookup_order(t.orders, id) {
        Some(order) => Ok((order, items_of(t.items, id))),
        None => Err(order_not_found()),
    }
}

/// The orders with `status` as the status of the order with this
/// identifier.
pub open spec fn with_status(orders: Seq<OrderView>, id: int, status: OrderStatus) -> Seq<OrderView> {
    orders.map_values(
        |o: OrderView|
            if o.id == id {
                OrderView { status, ..o }
            } else {
                o
            },
    )
}

/// Setting the status of the order with this identifier to the status
/// that `text` names. A text that names no status is rejected before the
/// order is looked for; any status may follow any other.
pub open spec fn status_set(t: Tables, id: int, text: Seq<char>) -> (Tables, Result<OrderView, Failure>) {
    match checked_status(text) {
        Err(e) => (t, Err(e)),
        Ok(status) => match lookup_order(t.orders, id) {
            None => (t, Err(order_not_found())),
            Some(order) => (
                Tables { orders: with_status(t.orders, id, status), ..t },
                Ok(OrderView { status, ..order }),
            ),
        },
    }
}

} // verus!
