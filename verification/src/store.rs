//! The tables of the shop, held in memory.
//!
//! A [`Store`] keeps products, orders and order lines with the constraints
//! of the tables: identifiers are unique, stock is never negative, an order
//! line has a positive quantity and belongs to a stored order. Whoever
//! holds the store exclusively holds every lock there is, so units of work
//! on one store run one after the other.

use crate::catalog::{
    has_product, lemma_lookup_at, lemma_taken, lemma_taken_stocked, lookup_active, replaced, taken,
    without,
};
use crate::error::{AppError, Failure};
use crate::ids::is_random_uuid;
use crate::listing::{insert_by_date, newest_first, Dated};
use crate::models::{
    Checkout, CreateOrderRequest, CreateProductRequest, Order, OrderItem, OrderItemView, OrderView,
    Product, ProductView, UpdateOrderStatusRequest, UpdateProductRequest,
};
use crate::status::validate_status;
use crate::tables::{
    active_products, distinct_orders, has_order, image_set, items_of, lemma_has_order_push,
    lists_orders, lists_products, lookup_order, order_shown, performed, placed, product_added,
    product_deleted, product_shown, product_updated, released, status_set, with_status, Tables,
};
use crate::transaction::{lemma_keeps_track, lemma_start, on_track, rank};
use crate::workflow::{
    opened, Action, Move, NewOrder, NewOrderItem, OrderWorkflow, Reply, StoreReply,
};
use vstd::prelude::*;
use vstd::seq_lib::{to_multiset_build, to_multiset_insert};
use vstd::string::*;

verus! {

/// The mathematical content of a list of products.
pub open spec fn product_views(products: Seq<Product>) -> Seq<ProductView> {
    products.map_values(|p: Product| p@)
}

/// The mathematical content of a list of orders.
pub open spec fn order_views(orders: Seq<Order>) -> Seq<OrderView> {
    orders.map_values(|o: Order| o@)
}

/// The mathematical content of a list of order lines.
pub open spec fn item_views(items: Seq<OrderItem>) -> Seq<OrderItemView> {
    items.map_values(|i: OrderItem| i@)
}

/// The mathematical content of the outcome of creating an order.
pub open spec fn order_outcome(r: Result<Order, AppError>) -> Result<OrderView, Failure> {
    match r {
        Ok(order) => Ok(order@),
        Err(e) => Err(e@),
    }
}

/// The mathematical content of an outcome that holds a product.
pub open spec fn product_outcome(r: Result<Product, AppError>) -> Result<ProductView, Failure> {
    match r {
        Ok(product) => Ok(product@),
        Err(e) => Err(e@),
    }
}

/// The mathematical content of an outcome that holds nothing.
pub open spec fn unit_outcome(r: Result<(), AppError>) -> Result<(), Failure> {
    match r {
        Ok(_) => Ok(()),
        Err(e) => Err(e@),
    }
}

/// The mathematical content of an outcome that holds an order and its
/// lines.
pub open spec fn order_items_outcome(r: Result<(Order, Vec<OrderItem>), AppError>) -> Result<
    (OrderView, Seq<OrderItemView>),
    Failure,
> {
    match r {
        Ok((order, items)) => Ok((order@, item_views(items@))),
        Err(e) => Err(e@),
    }
}

fn product_not_found_error() -> (e: AppError)
    ensures
        e@ == crate::tables::product_not_found(),
{
    AppError::NotFound("Product not found".to_owned())
}

fn order_not_found_error() -> (e: AppError)
    ensures
        e@ == crate::tables::order_not_found(),
{
    AppError::NotFound("Order not found".to_owned())
}

fn stock_fault_error() -> (e: AppError)
    ensures
        e@ == Failure::DatabaseError(crate::tables::stock_fault()),
{
    AppError::DatabaseError("stock_quantity out of range".to_owned())
}

/// Takes the product reference from every line that refers to the
/// product with this identifier.
fn release_items(items: &mut Vec<OrderItem>, product_id: i32)
    ensures
        item_views(final(items)@) == released(item_views(old(items)@), product_id as int),
{
    let ghost before = item_views(items@);
    let mut k: usize = 0;
    while k < items.len()
        invariant
            k <= items.len(),
            items.len() == before.len(),
            forall|j: int| 0 <= j < k ==> items[j]@ == released(before, product_id as int)[j],
            forall|j: int| k <= j < items.len() ==> items[j]@ == before[j],
        decreases items.len() - k,
    {
        let refers = match items[k].product_id {
            Some(id) => id == product_id,
            None => false,
        };
        if refers {
            let mut changed = items[k].duplicate();
            changed.product_id = None;
            items.set(k, changed);
        }
        k += 1;
    }
    assert(item_views(items@) =~= released(before, product_id as int));
}

fn copy_products(products: &Vec<Product>) -> (copy: Vec<Product>)
    ensures
        product_views(copy@) == product_views(products@),
{
    let mut copy: Vec<Product> = Vec::new();
    let mut k: usize = 0;
    while k < products.len()
        invariant
            k <= products.len(),
            copy.len() == k,
            forall|j: int| 0 <= j < k ==> copy[j]@ == products[j]@,
        decreases products.len() - k,
    {
        copy.push(products[k].duplicate());
        k += 1;
    }
    assert(product_views(copy@) =~= product_views(products@));
    copy
}

fn copy_orders(orders: &Vec<Order>) -> (copy: Vec<Order>)
    ensures
        order_views(copy@) == order_views(orders@),
{
    let mut copy: Vec<Order> = Vec::new();
    let mut k: usize = 0;
    while k < orders.len()
        invariant
            k <= orders.len(),
            copy.len() == k,
            forall|j: int| 0 <= j < k ==> copy[j]@ == orders[j]@,
        decreases orders.len() - k,
    {
        copy.push(orders[k].duplicate());
        k += 1;
    }
    assert(order_views(copy@) =~= order_views(orders@));
    copy
}

fn copy_items(items: &Vec<OrderItem>) -> (copy: Vec<OrderItem>)
    ensures
        item_views(copy@) == item_views(items@),
{
    let mut copy: Vec<OrderItem> = Vec::new();
    let mut k: usize = 0;
    while k < items.len()
        invariant
            k <= items.len(),
            copy.len() == k,
            forall|j: int| 0 <= j < k ==> copy[j]@ == items[j]@,
        decreases items.len() - k,
    {
        copy.push(items[k].duplicate());
        k += 1;
    }
    assert(item_views(copy@) =~= item_views(items@));
    copy
}

/// The tables of the shop, held in memory.
#[derive(Debug)]
pub struct Store {
    products: Vec<Product>,
    orders: Vec<Order>,
    items: Vec<OrderItem>,
    next_product_id: i64,
    next_item_id: i64,
}

impl View for Store {
    type V = Tables;

    closed spec fn view(&self) -> Tables {
        Tables {
            products: product_views(self.products@),
            orders: order_views(self.orders@),
            items: item_views(self.items@),
            next_product_id: self.next_product_id as int,
            next_item_id: self.next_item_id as int,
        }
    }
}

impl Store {
    /// The constraints of the tables hold of this store.
    pub open spec fn wf(self) -> bool {
        self@.wf()
    }

    /// A store with empty tables, whose first identifiers are 1.
    pub fn new() -> (store: Store)
        ensures
            store.wf(),
            store@ == (Tables {
                products: Seq::empty(),
                orders: Seq::empty(),
                items: Seq::empty(),
                next_product_id: 1,
                next_item_id: 1,
            }),
    {
        let store = Store {
            products: Vec::new(),
            orders: Vec::new(),
            items: Vec::new(),
            next_product_id: 1,
            next_item_id: 1,
        };
        assert(store@.products =~= Seq::empty());
        assert(store@.orders =~= Seq::empty());
        assert(store@.items =~= Seq::empty());
        store
    }

    /// A copy of the tables, for a unit of work to change.
    fn snapshot(&self) -> (copy: Store)
        ensures
            copy@ == self@,
    {
        Store {
            products: copy_products(&self.products),
            orders: copy_orders(&self.orders),
            items: copy_items(&self.items),
            next_product_id: self.next_product_id,
            next_item_id: self.next_item_id,
        }
    }

    /// Creates an order under a freshly drawn random identifier, as one
    /// unit of work at time `now`: either the order, its lines and every
    /// stock decrement are stored together, or the tables stay exactly as
    /// they were.
    pub fn create_order(&mut self, request: CreateOrderRequest, now: i64) -> (r: Result<Order, AppError>)
        requires
            old(self).wf(),
        ensures
            final(self).wf(),
            exists|order_id: u128|
                is_random_uuid(order_id) && #[trigger] placed(
                    old(self)@,
                    request@,
                    order_id as int,
                    now as int,
                ) == (final(self)@, order_outcome(r)),
    {
        let (workflow, action) = OrderWorkflow::begin(request);
        let order_id = workflow.order_id();
        let r = self.run(workflow, action, now, Ghost(request@));
        assert(placed(old(self)@, request@, order_id as int, now as int) == (self@, order_outcome(r)));
        r
    }

    /// Creates an order under the given identifier, as one unit of work at
    /// time `now`: either the order, its lines and every stock decrement
    /// are stored together, or the tables stay exactly as they were.
    pub fn create_order_with_id(&mut self, request: CreateOrderRequest, order_id: u128, now: i64) -> (r:
        Result<Order, AppError>)
        requires
            old(self).wf(),
        ensures
            final(self).wf(),
            (final(self)@, order_outcome(r)) == placed(old(self)@, request@, order_id as int, now as int),
    {
        let (workflow, action) = OrderWorkflow::start(request, order_id);
        self.run(workflow, action, now, Ghost(request@))
    }

    /// Drives a workflow that has just started to its end: performs each
    /// action on a copy of the tables, and puts the copy in place of the
    /// tables when the workflow commits.
    fn run(&mut self, started: OrderWorkflow, first: Action, now: i64, Ghost(checkout): Ghost<Checkout>) -> (r:
        Result<Order, AppError>)
        requires
            old(self).wf(),
            (started@, first@) == opened(checkout, started@.order_id),
        ensures
            final(self).wf(),
            (final(self)@, order_outcome(r)) == placed(old(self)@, checkout, started@.order_id, now as int),
    {
        let ghost t0 = self@;
        let ghost order_id = started@.order_id;
        let mut work = self.snapshot();
        let mut workflow = started;
        let mut action = first;
        proof {
            lemma_start(t0, checkout, order_id, now as int);
        }
        loop
            invariant
                t0 == old(self)@,
                order_id == started@.order_id,
                t0.wf(),
                self.wf(),
                work.wf(),
                on_track(t0, checkout, order_id, now as int, self@, work@, workflow@, action@),
            decreases rank(workflow@),
        {
            match action {
                Action::Respond(order) => {
                    return Ok(order);
                },
                Action::Reject(e) => {
                    return Err(e);
                },
                Action::Commit => {
                    proof {
                        lemma_keeps_track(t0, checkout, order_id, now as int, work@, workflow@, Move::Commit);
                    }
                    core::mem::swap(self, &mut work);
                    let next = workflow.step(StoreReply::Committed);
                    workflow = next.0;
                    action = next.1;
                },
                other => {
                    proof {
                        lemma_keeps_track(t0, checkout, order_id, now as int, work@, workflow@, other@);
                    }
                    let reply = work.perform(other, now);
                    let next = workflow.step(reply);
                    workflow = next.0;
                    action = next.1;
                },
            }
        }
    }

    /// Adds a product to the catalog at time `now`. The product gets the
    /// next identifier, is active and has no image.
    pub fn create_product(&mut self, request: CreateProductRequest, now: i64) -> (r: Result<Product, AppError>)
        requires
            old(self).wf(),
        ensures
            final(self).wf(),
            (final(self)@, product_outcome(r)) == product_added(old(self)@, request@, now as int),
    {
        if self.next_product_id > i32::MAX as i64 {
            Err(AppError::DatabaseError("product id out of range".to_owned()))
        } else if request.stock_quantity < 0 {
            Err(stock_fault_error())
        } else {
            let product = Product {
                id: self.next_product_id as i32,
                name: request.name,
                description: request.description,
                price: request.price,
                image_url: None,
                stock_quantity: request.stock_quantity,
                is_active: true,
                created_at: now,
                updated_at: now,
            };
            let copy = product.duplicate();
            self.products.push(product);
            self.next_product_id = self.next_product_id + 1;
            proof {
                let before = old(self)@.products;
                let after = self@.products;
                assert(after =~= before.push(product@));
                assert forall|i: int, j: int| 0 <= i < j < after.len() implies (#[trigger] after[i]).id != (
                #[trigger] after[j]).id by {
                    assert(before[i].id < old(self)@.next_product_id);
                    if j < before.len() {
                        assert(before[i].id != before[j].id);
                    }
                }
                assert forall|k: int| 0 <= k < after.len() implies 0 <= (#[trigger] after[k]).stock_quantity
                    <= i32::MAX && after[k].id < self@.next_product_id by {
                    if k < before.len() {
                        assert(0 <= before[k].stock_quantity <= i32::MAX);
                        assert(before[k].id < old(self)@.next_product_id);
                    }
                }
            }
            Ok(copy)
        }
    }

    /// Puts `changed` in the place `k`, where a product with the same
    /// identifier stands.
    fn put_product(&mut self, k: usize, changed: Product)
        requires
            old(self).wf(),
            k < old(self).products.len(),
            changed.id == old(self).products[k as int].id,
            0 <= changed.stock_quantity,
        ensures
            final(self).wf(),
            final(self)@ == (Tables {
                products: replaced(old(self)@.products, changed.id as int, changed@),
                ..old(self)@
            }),
    {
        self.products.set(k, changed);
        proof {
            let id = changed.id as int;
            let before = old(self)@.products;
            let after = replaced(before, id, changed@);
            assert forall|j: int| 0 <= j < before.len() implies self@.products[j] == after[j] by {
                if j != k {
                    if before[j].id == id {
                        if j < k {
                            assert(before[j].id != before[k as int].id);
                        } else {
                            assert(before[k as int].id != before[j].id);
                        }
                    }
                }
            }
            assert(self@.products =~= after);
            assert forall|j: int| 0 <= j < after.len() implies (#[trigger] after[j]).id == before[j].id by {}
            assert forall|i: int, j: int| 0 <= i < j < after.len() implies (#[trigger] after[i]).id != (
            #[trigger] after[j]).id by {
                assert(before[i].id != before[j].id);
            }
            assert forall|j: int| 0 <= j < after.len() implies 0 <= (#[trigger] after[j]).stock_quantity
                <= i32::MAX && after[j].id < self@.next_product_id by {
                assert(0 <= before[j].stock_quantity <= i32::MAX);
                assert(before[j].id < old(self)@.next_product_id);
            }
        }
    }

    /// Changes the product with this identifier: every field that is
    /// present in the patch replaces the stored one.
    pub fn update_product(&mut self, id: i32, patch: &UpdateProductRequest) -> (r: Result<Product, AppError>)
        requires
            old(self).wf(),
        ensures
            final(self).wf(),
            (final(self)@, product_outcome(r)) == product_updated(old(self)@, id as int, patch@),
    {
        match self.find_product(id) {
            None => Err(product_not_found_error()),
            Some(k) => {
                proof {
                    lemma_lookup_at(self@.products, k as int);
                }
                let changed = patch.apply(&self.products[k]);
                if changed.stock_quantity < 0 {
                    Err(stock_fault_error())
                } else {
                    let copy = changed.duplicate();
                    self.put_product(k, changed);
                    Ok(copy)
                }
            },
        }
    }

    /// Gives the product with this identifier an image.
    pub fn set_product_image(&mut self, id: i32, image_url: String) -> (r: Result<Product, AppError>)
        requires
            old(self).wf(),
        ensures
            final(self).wf(),
            (final(self)@, product_outcome(r)) == image_set(old(self)@, id as int, image_url@),
    {
        match self.find_product(id) {
            None => Err(product_not_found_error()),
            Some(k) => {
                proof {
                    lemma_lookup_at(self@.products, k as int);
                    assert(0 <= self@.products[k as int].stock_quantity);
                }
                let mut changed = self.products[k].duplicate();
                changed.image_url = Some(image_url);
                let copy = changed.duplicate();
                self.put_product(k, changed);
                Ok(copy)
            },
        }
    }

    /// Deletes the product with this identifier. Order lines that
    /// referred to it keep their name, price, quantity and subtotal, and
    /// refer to no product any more.
    pub fn delete_product(&mut self, id: i32) -> (r: Result<(), AppError>)
        requires
            old(self).wf(),
        ensures
            final(self).wf(),
            (final(self)@, unit_outcome(r)) == product_deleted(old(self)@, id as int),
    {
        match self.find_product(id) {
            None => Err(product_not_found_error()),
            Some(k) => {
                proof {
                    lemma_lookup_at(self@.products, k as int);
                }
                self.products.remove(k);
                release_items(&mut self.items, id);
                proof {
                    let before = old(self)@.products;
                    let after = without(before, id as int);
                    assert(self@.products =~= after);
                    assert forall|i: int, j: int| 0 <= i < j < after.len() implies (#[trigger] after[i]).id
                        != (#[trigger] after[j]).id by {
                        let i0 = if i < k { i } else { i + 1 };
                        let j0 = if j < k { j } else { j + 1 };
                        assert(before[i0].id != before[j0].id);
                    }
                    assert forall|j: int| 0 <= j < after.len() implies 0 <= (#[trigger] after[j]).stock_quantity
                        <= i32::MAX && after[j].id < self@.next_product_id by {
                        let j0 = if j < k { j } else { j + 1 };
                        assert(0 <= before[j0].stock_quantity <= i32::MAX);
                        assert(before[j0].id < old(self)@.next_product_id);
                    }
                    let items = old(self)@.items;
                    assert forall|j: int| 0 <= j < self@.items.len() implies {
                        &&& (#[trigger] self@.items[j]).id < self@.next_item_id
                        &&& self@.items[j].quantity > 0
                        &&& has_order(self@.orders, self@.items[j].order_id)
                    } by {
                        assert(items[j].id < old(self)@.next_item_id);
                        assert(items[j].quantity > 0);
                        assert(has_order(old(self)@.orders, items[j].order_id));
                    }
                }
                Ok(())
            },
        }
    }

    /// Shows the product with this identifier to a customer: only an
    /// active product is shown.
    pub fn get_product(&self, id: i32) -> (r: Result<Product, AppError>)
        requires
            self.wf(),
        ensures
            product_outcome(r) == product_shown(self@, id as int),
    {
        match self.find_product(id) {
            None => Err(product_not_found_error()),
            Some(k) => {
                proof {
                    lemma_lookup_at(self@.products, k as int);
                }
                if self.products[k].is_active {
                    Ok(self.products[k].duplicate())
                } else {
                    Err(product_not_found_error())
                }
            },
        }
    }

    /// Lists the products for customers: the active ones, newest first.
    pub fn list_products(&self) -> (listing: Vec<Product>)
        ensures
            lists_products(product_views(listing@), active_products(self@.products)),
    {
        self.listed_products(true)
    }

    /// Lists all products, newest first.
    pub fn list_all_products(&self) -> (listing: Vec<Product>)
        ensures
            lists_products(product_views(listing@), self@.products),
    {
        self.listed_products(false)
    }

    fn listed_products(&self, only_active: bool) -> (listing: Vec<Product>)
        ensures
            lists_products(
                product_views(listing@),
                if only_active {
                    active_products(self@.products)
                } else {
                    self@.products
                },
            ),
    {
        let mut listing: Vec<Product> = Vec::new();
        let mut k: usize = 0;
        let ghost all = self@.products;
        assert(all.take(0) =~= Seq::<ProductView>::empty());
        assert(product_views(listing@) =~= Seq::<ProductView>::empty());
        while k < self.products.len()
            invariant
                k <= self.products.len(),
                all == self@.products,
                newest_first(listing@),
                product_views(listing@).to_multiset() == (if only_active {
                    active_products(all.take(k as int))
                } else {
                    all.take(k as int)
                }).to_multiset(),
            decreases self.products.len() - k,
        {
            proof {
                assert(all.take(k + 1).drop_last() =~= all.take(k as int));
                assert(all.take(k + 1).last() == self.products[k as int]@);
                assert(all.take(k + 1) =~= all.take(k as int).push(self.products[k as int]@));
            }
            if !only_active || self.products[k].is_active {
                let ghost before = listing@;
                let copy = self.products[k].duplicate();
                let place = insert_by_date(&mut listing, copy);
                proof {
                    assert(product_views(listing@) =~= product_views(before).insert(place as int, copy@));
                    to_multiset_insert(product_views(before), place as int, copy@);
                    to_multiset_build(active_products(all.take(k as int)), copy@);
                    to_multiset_build(all.take(k as int), copy@);
                }
            }
            k += 1;
        }
        proof {
            assert(all.take(k as int) =~= all);
            let views = product_views(listing@);
            assert forall|a: int, b: int| 0 <= a < b < views.len() implies (#[trigger] views[a]).created_at
                >= (#[trigger] views[b]).created_at by {
                assert(listing@[a].stamp() >= listing@[b].stamp());
            }
        }
        listing
    }

    /// Lists all orders, newest first.
    pub fn list_orders(&self) -> (listing: Vec<Order>)
        ensures
            lists_orders(order_views(listing@), self@.orders),
    {
        let mut listing: Vec<Order> = Vec::new();
        let mut k: usize = 0;
        let ghost all = self@.orders;
        assert(all.take(0) =~= Seq::<OrderView>::empty());
        assert(order_views(listing@) =~= Seq::<OrderView>::empty());
        while k < self.orders.len()
            invariant
                k <= self.orders.len(),
                all == self@.orders,
                newest_first(listing@),
                order_views(listing@).to_multiset() == all.take(k as int).to_multiset(),
            decreases self.orders.len() - k,
        {
            let ghost before = listing@;
            let copy = self.orders[k].duplicate();
            let place = insert_by_date(&mut listing, copy);
            proof {
                assert(all.take(k + 1) =~= all.take(k as int).push(self.orders[k as int]@));
                assert(order_views(listing@) =~= order_views(before).insert(place as int, copy@));
                to_multiset_insert(order_views(before), place as int, copy@);
                to_multiset_build(all.take(k as int), copy@);
            }
            k += 1;
        }
        proof {
            assert(all.take(k as int) =~= all);
            let views = order_views(listing@);
            assert forall|a: int, b: int| 0 <= a < b < views.len() implies (#[trigger] views[a]).created_at
                >= (#[trigger] views[b]).created_at by {
                assert(listing@[a].stamp() >= listing@[b].stamp());
            }
        }
        listing
    }

    /// Shows the order with this identifier together with its lines, in
    /// the order in which the lines were stored.
    pub fn get_order(&self, id: u128) -> (r: Result<(Order, Vec<OrderItem>), AppError>)
        requires
            self.wf(),
        ensures
            order_items_outcome(r) == order_shown(self@, id as int),
    {
        match self.find_order(id) {
            None => Err(order_not_found_error()),
            Some(k) => {
                proof {
                    self.lemma_order_at(k as int);
                }
                let mut lines: Vec<OrderItem> = Vec::new();
                let mut j: usize = 0;
                assert(self@.items.take(0) =~= Seq::<OrderItemView>::empty());
                assert(item_views(lines@) =~= Seq::<OrderItemView>::empty());
                while j < self.items.len()
                    invariant
                        j <= self.items.len(),
                        item_views(lines@) == items_of(self@.items.take(j as int), id as int),
                    decreases self.items.len() - j,
                {
                    proof {
                        assert(self@.items.take(j + 1).drop_last() =~= self@.items.take(j as int));
                        assert(self@.items.take(j + 1).last() == self.items[j as int]@);
                    }
                    if self.items[j].order_id == id {
                        let ghost shorter = lines@;
                        lines.push(self.items[j].duplicate());
                        assert(item_views(lines@) =~= item_views(shorter).push(self.items[j as int]@));
                    }
                    j += 1;
                }
                assert(self@.items.take(j as int) =~= self@.items);
                Ok((self.orders[k].duplicate(), lines))
            },
        }
    }

    /// Sets the status of the order with this identifier. Any status of
    /// the register is accepted, whatever the current status is; a text
    /// that names no status is rejected with a message that lists the
    /// register.
    pub fn update_order_status(&mut self, id: u128, request: &UpdateOrderStatusRequest) -> (r: Result<
        Order,
        AppError,
    >)
        requires
            old(self).wf(),
        ensures
            final(self).wf(),
            (final(self)@, order_outcome(r)) == status_set(old(self)@, id as int, request.status@),
    {
        match validate_status(request.status.as_str()) {
            Err(e) => Err(e),
            Ok(status) => match self.find_order(id) {
                None => Err(order_not_found_error()),
                Some(k) => {
                    proof {
                        self.lemma_order_at(k as int);
                    }
                    let mut changed = self.orders[k].duplicate();
                    changed.status = status;
                    let copy = changed.duplicate();
                    self.orders.set(k, changed);
                    proof {
                        let before = old(self)@.orders;
                        let after = with_status(before, id as int, status);
                        assert forall|j: int| 0 <= j < before.len() implies self@.orders[j] == after[j] by {
                            if j != k {
                                if before[j].id == id as int {
                                    if j < k {
                                        assert(before[j].id != before[k as int].id);
                                    } else {
                                        assert(before[k as int].id != before[j].id);
                                    }
                                }
                            }
                        }
                        assert(self@.orders =~= after);
                        assert forall|j: int| 0 <= j < after.len() implies (#[trigger] after[j]).id
                            == before[j].id by {}
                        assert forall|i: int, j: int| 0 <= i < j < after.len() implies (#[trigger] after[i]).id
                            != (#[trigger] after[j]).id by {
                            assert(before[i].id != before[j].id);
                        }
                        assert forall|j: int| 0 <= j < self@.items.len() implies has_order(
                            after,
                            (#[trigger] self@.items[j]).order_id,
                        ) by {
                            let wanted = self@.items[j].order_id;
                            assert(has_order(before, wanted));
                            let c = choose|c: int| 0 <= c < before.len() && (#[trigger] before[c]).id == wanted;
                            assert(after[c].id == wanted);
                        }
                    }
                    Ok(copy)
                },
            },
        }
    }

    /// In a store that meets its constraints, an order found at any place
    /// is the order found by its identifier.
    proof fn lemma_order_at(&self, k: int)
        requires
            self.wf(),
            0 <= k < self@.orders.len(),
        ensures
            lookup_order(self@.orders, self@.orders[k].id) == Some(self@.orders[k]),
    {
        let orders = self@.orders;
        let id = orders[k].id;
        assert(has_order(orders, id));
        let c = choose|c: int| 0 <= c < orders.len() && (#[trigger] orders[c]).id == id;
        if c < k {
            assert(orders[c].id != orders[k].id);
        } else if k < c {
            assert(orders[k].id != orders[c].id);
        }
    }

    /// Performs one storage action at time `now` and answers it.
    pub fn perform(&mut self, action: Action, now: i64) -> (reply: StoreReply)
        requires
            old(self).wf(),
        ensures
            final(self).wf(),
            (final(self)@, reply@) == performed(old(self)@, action@, now as int),
    {
        match action {
            Action::Begin => StoreReply::Started,
            Action::LockProduct { product_id } => self.lock_product(product_id),
            Action::DecrementStock { product_id, quantity } => self.decrement_stock(product_id, quantity),
            Action::InsertOrder(draft) => self.insert_order(draft, now),
            Action::InsertItem(draft) => self.insert_item(draft, now),
            Action::Commit => StoreReply::Committed,
            Action::Respond(_) => StoreReply::Fault("not a storage action".to_owned()),
            Action::Reject(_) => StoreReply::Fault("not a storage action".to_owned()),
        }
    }

    fn lock_product(&self, product_id: i32) -> (reply: StoreReply)
        requires
            self.wf(),
        ensures
            reply@ == Reply::Product(lookup_active(self@.products, product_id as int)),
    {
        match self.find_product(product_id) {
            Some(k) => {
                proof {
                    lemma_lookup_at(self@.products, k as int);
                }
                if self.products[k].is_active {
                    StoreReply::Product(Some(self.products[k].duplicate()))
                } else {
                    StoreReply::Product(None)
                }
            },
            None => StoreReply::Product(None),
        }
    }

    fn decrement_stock(&mut self, product_id: i32, quantity: i32) -> (reply: StoreReply)
        requires
            old(self).wf(),
        ensures
            final(self).wf(),
            (final(self)@, reply@) == performed(
                old(self)@,
                Move::DecrementStock { product_id: product_id as int, quantity: quantity as int },
                0,
            ),
    {
        match self.find_product(product_id) {
            None => StoreReply::StockUpdated,
            Some(k) => {
                proof {
                    lemma_lookup_at(self@.products, k as int);
                }
                let stock: i64 = self.products[k].stock_quantity as i64 - quantity as i64;
                if 0 <= stock && stock <= i32::MAX as i64 {
                    let mut changed = self.products[k].duplicate();
                    changed.stock_quantity = stock as i32;
                    self.products.set(k, changed);
                    proof {
                        let before = old(self)@.products;
                        let after = taken(before, product_id as int, quantity as int);
                        assert forall|j: int| 0 <= j < before.len() implies self@.products[j] == after[j] by {
                            if j != k {
                                if before[j].id == product_id as int {
                                    if j < k {
                                        assert(before[j].id != before[k as int].id);
                                    } else {
                                        assert(before[k as int].id != before[j].id);
                                    }
                                }
                            }
                        }
                        assert(self@.products =~= after);
                        lemma_taken(before, product_id as int, quantity as int, product_id as int);
                        lemma_taken_stocked(before, product_id as int, quantity as int);
                        assert forall|j: int| 0 <= j < after.len() implies (#[trigger] after[j]).id
                            < self@.next_product_id by {
                            assert(before[j].id < old(self)@.next_product_id);
                        }
                    }
                    StoreReply::StockUpdated
                } else {
                    StoreReply::Fault("stock_quantity out of range".to_owned())
                }
            },
        }
    }

    fn insert_order(&mut self, draft: NewOrder, now: i64) -> (reply: StoreReply)
        requires
            old(self).wf(),
        ensures
            final(self).wf(),
            (final(self)@, reply@) == performed(old(self)@, Move::InsertOrder(draft@), now as int),
    {
        match self.find_order(draft.id) {
            Some(k) => {
                assert(old(self)@.orders[k as int].id == draft@.id);
                StoreReply::Fault("duplicate order id".to_owned())
            },
            None => {
                let order = Order {
                    id: draft.id,
                    customer_name: draft.customer_name,
                    customer_email: draft.customer_email,
                    customer_phone: draft.customer_phone,
                    delivery_address: draft.delivery_address,
                    delivery_city: draft.delivery_city,
                    delivery_postal_code: draft.delivery_postal_code,
                    total_amount: draft.total_amount,
                    status: draft.status,
                    notes: draft.notes,
                    created_at: now,
                    updated_at: now,
                };
                let copy = order.duplicate();
                self.orders.push(order);
                proof {
                    assert(self@.orders =~= old(self)@.orders.push(order@));
                    assert forall|k: int| 0 <= k < self@.items.len() implies has_order(
                        self@.orders,
                        (#[trigger] self@.items[k]).order_id,
                    ) by {
                        lemma_has_order_push(old(self)@.orders, order@, self@.items[k].order_id);
                    }
                    assert(distinct_orders(self@.orders)) by {
                        assert forall|i: int, j: int| 0 <= i < j < self@.orders.len() implies (
                        #[trigger] self@.orders[i]).id != (#[trigger] self@.orders[j]).id by {
                            if j == old(self)@.orders.len() {
                                assert(old(self)@.orders[i].id != draft@.id);
                            } else {
                                assert(old(self)@.orders[i].id != old(self)@.orders[j].id);
                            }
                        }
                    }
                }
                StoreReply::OrderInserted(copy)
            },
        }
    }

    fn insert_item(&mut self, draft: NewOrderItem, now: i64) -> (reply: StoreReply)
        requires
            old(self).wf(),
        ensures
            final(self).wf(),
            (final(self)@, reply@) == performed(old(self)@, Move::InsertItem(draft@), now as int),
    {
        let order_place = self.find_order(draft.order_id);
        if self.next_item_id > i32::MAX as i64 || draft.quantity <= 0 || order_place.is_none() {
            StoreReply::Fault("order item out of range".to_owned())
        } else {
            assert(has_order(old(self)@.orders, draft@.order_id)) by {
                assert(old(self)@.orders[order_place->0 as int].id == draft@.order_id);
            }
            let item = OrderItem {
                id: self.next_item_id as i32,
                order_id: draft.order_id,
                product_id: Some(draft.product_id),
                product_name: draft.product_name,
                product_price: draft.product_price,
                quantity: draft.quantity,
                subtotal: draft.subtotal,
                created_at: now,
            };
            self.items.push(item);
            self.next_item_id = self.next_item_id + 1;
            proof {
                assert(self@.items =~= old(self)@.items.push(item@));
                assert forall|k: int| 0 <= k < self@.items.len() implies (#[trigger] self@.items[k]).id
                    < self@.next_item_id && self@.items[k].quantity > 0 && has_order(
                    self@.orders,
                    self@.items[k].order_id,
                ) by {
                    if k < old(self)@.items.len() {
                        assert(old(self)@.items[k].id < old(self)@.next_item_id);
                        assert(old(self)@.items[k].quantity > 0);
                        assert(has_order(old(self)@.orders, old(self)@.items[k].order_id));
                    }
                }
            }
            StoreReply::ItemInserted
        }
    }

    /// The place of the product with this identifier.
    fn find_product(&self, id: i32) -> (place: Option<usize>)
        ensures
            place matches Some(k) ==> k < self.products.len() && self.products[k as int].id == id,
            place is None ==> !has_product(self@.products, id as int),
    {
        let mut k: usize = 0;
        while k < self.products.len()
            invariant
                k <= self.products.len(),
                forall|j: int| 0 <= j < k ==> self.products[j].id != id,
            decreases self.products.len() - k,
        {
            if self.products[k].id == id {
                return Some(k);
            }
            k += 1;
        }
        assert(!has_product(self@.products, id as int)) by {
            if has_product(self@.products, id as int) {
                let j = choose|j: int|
                    0 <= j < self@.products.len() && (#[trigger] self@.products[j]).id == id as int;
                assert(self.products[j].id != id);
            }
        }
        None
    }

    /// Whether an order with this identifier is stored.
    fn find_order(&self, id: u128) -> (place: Option<usize>)
        ensures
            place matches Some(k) ==> k < self.orders.len() && self.orders[k as int].id == id,
            place is None ==> !has_order(self@.orders, id as int),
    {
        let mut k: usize = 0;
        while k < self.orders.len()
            invariant
                k <= self.orders.len(),
                forall|j: int| 0 <= j < k ==> self.orders[j].id != id,
            decreases self.orders.len() - k,
        {
            if self.orders[k].id == id {
                return Some(k);
            }
            k += 1;
        }
        assert(!has_order(self@.orders, id as int)) by {
            if has_order(self@.orders, id as int) {
                let j = choose|j: int|
                    0 <= j < self@.orders.len() && (#[trigger] self@.orders[j]).id == id as int;
                assert(self.orders[j].id != id);
            }
        }
        None
    }
}

} // verus!
