//! The order transaction coordinator, as a protocol.
//!
//! Creating an order alternates decisions with storage work: open a unit of
//! work, lock and price each product in request order, decrement its stock,
//! insert the order, insert its lines, commit. The decisions live here: an
//! [`OrderWorkflow`] takes the reply to the last storage action and says
//! what to do next. Whoever drives it performs the action on the storage
//! and hands back the reply; on [`Action::Reject`] the unit of work is
//! abandoned.

use crate::assembler::{price_line, priced, quantity_rejection, reject_quantity, Line, PricedLine};
use crate::error::{AppError, Failure};
use crate::ids::{fresh_uuid, is_random_uuid};
use crate::models::{
    copy_opt_text, opt_text, Checkout, CreateOrderRequest, Order, OrderView, Product, ProductView,
};
use crate::money::{Decimal, Money};
use crate::status::OrderStatus;
use vstd::prelude::*;
use vstd::string::*;

verus! {

/// The order row to insert. Its times are set by the storage.
#[derive(Debug, Clone, PartialEq, Eq)]
pub struct NewOrder {
    pub id: u128,
    pub customer_name: String,
    pub customer_email: String,
    pub customer_phone: String,
    pub delivery_address: String,
    pub delivery_city: String,
    pub delivery_postal_code: Option<String>,
    pub total_amount: Money,
    pub status: OrderStatus,
    pub notes: Option<String>,
}

/// Mathematical content of a [`NewOrder`].
pub struct OrderDraft {
    pub id: int,
    pub customer_name: Seq<char>,
    pub customer_email: Seq<char>,
    pub customer_phone: Seq<char>,
    pub delivery_address: Seq<char>,
    pub delivery_city: Seq<char>,
    pub delivery_postal_code: Option<Seq<char>>,
    pub total_amount: Decimal,
    pub status: OrderStatus,
    pub notes: Option<Seq<char>>,
}

impl View for NewOrder {
    type V = OrderDraft;

    open spec fn view(&self) -> OrderDraft {
        OrderDraft {
            id: self.id as int,
            customer_name: self.customer_name@,
            customer_email: self.customer_email@,
            customer_phone: self.customer_phone@,
            delivery_address: self.delivery_address@,
            delivery_city: self.delivery_city@,
            delivery_postal_code: opt_text(self.delivery_postal_code),
            total_amount: self.total_amount@,
            status: self.status,
            notes: opt_text(self.notes),
        }
    }
}

/// The order line row to insert. Its identifier and time are set by the
/// storage.
#[derive(Debug, Clone, PartialEq, Eq)]
pub struct NewOrderItem {
    pub order_id: u128,
    pub product_id: i32,
    pub product_name: String,
    pub product_price: Money,
    pub quantity: i32,
    pub subtotal: Money,
}

/// Mathematical content of a [`NewOrderItem`].
pub struct ItemDraft {
    pub order_id: int,
    pub product_id: int,
    pub product_name: Seq<char>,
    pub product_price: Decimal,
    pub quantity: int,
    pub subtotal: Decimal,
}

impl View for NewOrderItem {
    type V = ItemDraft;

    open spec fn view(&self) -> ItemDraft {
        ItemDraft {
            order_id: self.order_id as int,
            product_id: self.product_id as int,
            product_name: self.product_name@,
            product_price: self.product_price@,
            quantity: self.quantity as int,
            subtotal: self.subtotal@,
        }
    }
}

/// What the storage answers to an action.
#[derive(Debug)]
pub enum StoreReply {
    /// The unit of work is open.
    Started,
    /// The active product with the requested identifier, now locked for
    /// this unit of work; `None` if there is none.
    Product(Option<Product>),
    /// The stock was decremented.
    StockUpdated,
    /// The order row as stored.
    OrderInserted(Order),
    /// The order line was stored.
    ItemInserted,
    /// The unit of work is committed.
    Committed,
    /// The storage failed; the text is the detail of the fault.
    Fault(String),
}

/// Mathematical content of a [`StoreReply`].
pub enum Reply {
    Started,
    Product(Option<ProductView>),
    StockUpdated,
    OrderInserted(OrderView),
    ItemInserted,
    Committed,
    Fault(Seq<char>),
}

impl View for StoreReply {
    type V = Reply;

    open spec fn view(&self) -> Reply {
        match self {
            StoreReply::Started => Reply::Started,
            StoreReply::Product(found) => Reply::Product(
                match found {
                    Some(p) => Some(p@),
                    None => None,
                },
            ),
            StoreReply::StockUpdated => Reply::StockUpdated,
            StoreReply::OrderInserted(order) => Reply::OrderInserted(order@),
            StoreReply::ItemInserted => Reply::ItemInserted,
            StoreReply::Committed => Reply::Committed,
            StoreReply::Fault(detail) => Reply::Fault(detail@),
        }
    }
}

/// What to do next.
#[derive(Debug)]
pub enum Action {
    /// Open the unit of work.
    Begin,
    /// Fetch the active product with this identifier under an exclusive
    /// lock held until the unit of work ends.
    LockProduct { product_id: i32 },
    /// Decrement the stock of the product by the quantity.
    DecrementStock { product_id: i32, quantity: i32 },
    /// Insert the order row.
    InsertOrder(NewOrder),
    /// Insert one order line row.
    InsertItem(NewOrderItem),
    /// Commit the unit of work.
    Commit,
    /// Done: the order was created.
    Respond(Order),
    /// Done: abandon the unit of work, if one is open, and answer with the
    /// failure.
    Reject(AppError),
}

/// Mathematical content of an [`Action`].
pub enum Move {
    Begin,
    LockProduct { product_id: int },
    DecrementStock { product_id: int, quantity: int },
    InsertOrder(OrderDraft),
    InsertItem(ItemDraft),
    Commit,
    Respond(OrderView),
    Reject(Failure),
}

impl View for Action {
    type V = Move;

    open spec fn view(&self) -> Move {
        match self {
            Action::Begin => Move::Begin,
            Action::LockProduct { product_id } => Move::LockProduct { product_id: *product_id as int },
            Action::DecrementStock { product_id, quantity } => Move::DecrementStock {
                product_id: *product_id as int,
                quantity: *quantity as int,
            },
            Action::InsertOrder(order) => Move::InsertOrder(order@),
            Action::InsertItem(item) => Move::InsertItem(item@),
            Action::Commit => Move::Commit,
            Action::Respond(order) => Move::Respond(order@),
            Action::Reject(e) => Move::Reject(e@),
        }
    }
}

/// Where a workflow stands: which reply it waits for.
#[derive(Debug, Clone, Copy, PartialEq, Eq, Structural)]
pub enum Phase {
    /// Waiting for the unit of work to open.
    Opening,
    /// Waiting for the product of the current line.
    Locking,
    /// Waiting for the stock decrement of the current line.
    Decrementing,
    /// Waiting for the order row.
    InsertingOrder,
    /// Waiting for the current order line row.
    InsertingItems,
    /// Waiting for the commit.
    Committing,
    /// Done, with an order or a rejection.
    Finished,
}

/// Mathematical content of an [`OrderWorkflow`].
pub struct WorkflowState {
    /// The request being served.
    pub checkout: Checkout,
    /// The identifier of the order to create.
    pub order_id: int,
    pub phase: Phase,
    /// The requested line being priced, or the order line being inserted.
    pub cursor: int,
    /// The lines priced so far, in request order.
    pub lines: Seq<Line>,
    /// The total of the lines priced so far.
    pub total: Decimal,
    /// The order row as stored, once it is.
    pub order: Option<OrderView>,
}

/// The rejection of a request without lines.
pub open spec fn empty_rejection() -> Failure {
    Failure::BadRequest("Order must contain at least one item"@)
}

/// The failure reported when a reply does not answer the pending action.
pub open spec fn protocol_rejection() -> Failure {
    Failure::InternalServerError("Unexpected storage reply"@)
}

/// The state after the workflow has ended.
pub open spec fn finished(s: WorkflowState) -> WorkflowState {
    WorkflowState { phase: Phase::Finished, order: None, ..s }
}

/// The order row for a request whose lines are all priced: the customer's
/// fields as requested, the total of the lines, and the initial status.
pub open spec fn order_draft(checkout: Checkout, order_id: int, total: Decimal) -> OrderDraft {
    OrderDraft {
        id: order_id,
        customer_name: checkout.customer_name,
        customer_email: checkout.customer_email,
        customer_phone: checkout.customer_phone,
        delivery_address: checkout.delivery_address,
        delivery_city: checkout.delivery_city,
        delivery_postal_code: checkout.delivery_postal_code,
        total_amount: total,
        status: OrderStatus::Pending,
        notes: checkout.notes,
    }
}

/// The order line row for a priced line.
pub open spec fn item_draft(order_id: int, line: Line) -> ItemDraft {
    ItemDraft {
        order_id,
        product_id: line.product_id,
        product_name: line.product_name,
        product_price: line.product_price,
        quantity: line.quantity,
        subtotal: line.subtotal,
    }
}

/// Turning to the requested line under the cursor: after the last line the
/// order row is inserted; a line whose quantity is not positive is
/// rejected before anything is locked for it; any other line has its
/// product locked.
pub open spec fn enter_line(s: WorkflowState) -> (WorkflowState, Move) {
    if s.cursor >= s.checkout.items.len() {
        (
            WorkflowState { phase: Phase::InsertingOrder, ..s },
            Move::InsertOrder(order_draft(s.checkout, s.order_id, s.total)),
        )
    } else if s.checkout.items[s.cursor].quantity <= 0 {
        (finished(s), Move::Reject(quantity_rejection()))
    } else {
        (
            WorkflowState { phase: Phase::Locking, ..s },
            Move::LockProduct { product_id: s.checkout.items[s.cursor].product_id as int },
        )
    }
}

/// Turning to the priced line under the cursor: it is inserted as an order
/// line; after the last one the unit of work is committed.
pub open spec fn enter_item(s: WorkflowState) -> (WorkflowState, Move) {
    if s.cursor >= s.lines.len() {
        (WorkflowState { phase: Phase::Committing, ..s }, Move::Commit)
    } else {
        (
            WorkflowState { phase: Phase::InsertingItems, ..s },
            Move::InsertItem(item_draft(s.order_id, s.lines[s.cursor])),
        )
    }
}

/// The first state and action for a request: a request without lines is
/// rejected before any unit of work is opened.
pub open spec fn opened(checkout: Checkout, order_id: int) -> (WorkflowState, Move) {
    let s = WorkflowState {
        checkout,
        order_id,
        phase: Phase::Opening,
        cursor: 0,
        lines: Seq::empty(),
        total: Decimal::zero(),
        order: None,
    };
    if checkout.items.len() == 0 {
        (finished(s), Move::Reject(empty_rejection()))
    } else {
        (s, Move::Begin)
    }
}

/// The next state and action, given the reply to the last action.
///
/// A storage fault ends the workflow with that fault. A reply that does
/// not answer the pending action ends it with an internal error.
pub open spec fn advance(s: WorkflowState, reply: Reply) -> (WorkflowState, Move) {
    match (s.phase, reply) {
        (Phase::Finished, _) => (finished(s), Move::Reject(protocol_rejection())),
        (_, Reply::Fault(detail)) => (finished(s), Move::Reject(Failure::DatabaseError(detail))),
        (Phase::Opening, Reply::Started) => enter_line(s),
        (Phase::Locking, Reply::Product(found)) => {
            let item = s.checkout.items[s.cursor];
            match priced(found, item, s.total) {
                Err(e) => (finished(s), Move::Reject(e)),
                Ok((line, total)) => (
                    WorkflowState { phase: Phase::Decrementing, lines: s.lines.push(line), total, ..s },
                    Move::DecrementStock {
                        product_id: item.product_id as int,
                        quantity: item.quantity as int,
                    },
                ),
            }
        },
        (Phase::Decrementing, Reply::StockUpdated) => enter_line(
            WorkflowState { cursor: s.cursor + 1, ..s },
        ),
        (Phase::InsertingOrder, Reply::OrderInserted(order)) => enter_item(
            WorkflowState { cursor: 0, order: Some(order), ..s },
        ),
        (Phase::InsertingItems, Reply::ItemInserted) => enter_item(
            WorkflowState { cursor: s.cursor + 1, ..s },
        ),
        (Phase::Committing, Reply::Committed) => match s.order {
            Some(order) => (finished(s), Move::Respond(order)),
            None => (finished(s), Move::Reject(protocol_rejection())),
        },
        _ => (finished(s), Move::Reject(protocol_rejection())),
    }
}

/// The mathematical content of a list of priced lines.
pub open spec fn line_views(lines: Seq<PricedLine>) -> Seq<Line> {
    lines.map_values(|l: PricedLine| l@)
}

/// The mathematical content of an optional order.
pub open spec fn opt_order_view(order: Option<Order>) -> Option<OrderView> {
    match order {
        Some(o) => Some(o@),
        None => None,
    }
}

/// Appending a line to a list appends its content to the list's content.
pub proof fn lemma_line_views_push(lines: Seq<PricedLine>, line: PricedLine)
    ensures
        line_views(lines.push(line)) == line_views(lines).push(line@),
{
    assert(line_views(lines.push(line)) =~= line_views(lines).push(line@));
}

/// The decisions of one order creation, between storage actions.
#[derive(Debug)]
pub struct OrderWorkflow {
    request: CreateOrderRequest,
    order_id: u128,
    phase: Phase,
    cursor: usize,
    lines: Vec<PricedLine>,
    total: Money,
    order: Option<Order>,
}

impl View for OrderWorkflow {
    type V = WorkflowState;

    closed spec fn view(&self) -> WorkflowState {
        WorkflowState {
            checkout: self.request@,
            order_id: self.order_id as int,
            phase: self.phase,
            cursor: self.cursor as int,
            lines: line_views(self.lines@),
            total: self.total@,
            order: opt_order_view(self.order),
        }
    }
}

impl OrderWorkflow {
    #[verifier::type_invariant]
    spec fn coherent(self) -> bool {
        &&& (self.phase == Phase::Locking || self.phase == Phase::Decrementing) ==> self.cursor
            < self.request.items.len()
        &&& self.phase == Phase::InsertingItems ==> self.cursor < self.lines.len()
    }

    /// Starts the creation of an order under a freshly drawn random
    /// identifier.
    pub fn begin(request: CreateOrderRequest) -> (next: (OrderWorkflow, Action))
        ensures
            (next.0@, next.1@) == opened(request@, next.0@.order_id),
            0 <= next.0@.order_id <= u128::MAX,
            is_random_uuid(next.0@.order_id as u128),
    {
        let order_id = fresh_uuid();
        OrderWorkflow::start(request, order_id)
    }

    /// Starts the creation of an order under the given identifier.
    pub fn start(request: CreateOrderRequest, order_id: u128) -> (next: (OrderWorkflow, Action))
        ensures
            (next.0@, next.1@) == opened(request@, order_id as int),
    {
        let lines: Vec<PricedLine> = Vec::new();
        assert(line_views(lines@) =~= Seq::<Line>::empty());
        if request.items.len() == 0 {
            let error = AppError::BadRequest("Order must contain at least one item".to_owned());
            OrderWorkflow::halt(request, order_id, 0, lines, Money::zero(), error)
        } else {
            let workflow = OrderWorkflow {
                request,
                order_id,
                phase: Phase::Opening,
                cursor: 0,
                lines,
                total: Money::zero(),
                order: None,
            };
            (workflow, Action::Begin)
        }
    }

    /// The identifier of the order being created.
    pub fn order_id(&self) -> (id: u128)
        ensures
            id == self@.order_id,
    {
        self.order_id
    }

    /// Which reply the workflow waits for.
    pub fn phase(&self) -> (phase: Phase)
        ensures
            phase == self@.phase,
    {
        self.phase
    }

    /// Takes the reply to the last action and decides the next one.
    pub fn step(self, reply: StoreReply) -> (next: (OrderWorkflow, Action))
        ensures
            (next.0@, next.1@) == advance(self@, reply@),
    {
        proof {
            use_type_invariant(&self);
        }
        let ghost before = self@;
        let OrderWorkflow { request, order_id, phase, cursor, lines, total, order } = self;
        match phase {
            Phase::Finished => OrderWorkflow::halt(
                request,
                order_id,
                cursor,
                lines,
                total,
                OrderWorkflow::protocol_error(),
            ),
            _ => match reply {
                StoreReply::Fault(detail) => OrderWorkflow::halt(
                    request,
                    order_id,
                    cursor,
                    lines,
                    total,
                    AppError::DatabaseError(detail),
                ),
                StoreReply::Started => match phase {
                    Phase::Opening => OrderWorkflow::to_line(request, order_id, cursor, lines, total, order),
                    _ => OrderWorkflow::halt(
                        request,
                        order_id,
                        cursor,
                        lines,
                        total,
                        OrderWorkflow::protocol_error(),
                    ),
                },
                StoreReply::Product(found) => match phase {
                    Phase::Locking => {
                        let item = request.items[cursor];
                        match price_line(found, item, total) {
                            Err(e) => OrderWorkflow::halt(request, order_id, cursor, lines, total, e),
                            Ok((line, new_total)) => {
                                let mut lines = lines;
                                proof {
                                    lemma_line_views_push(lines@, line);
                                }
                                lines.push(line);
                                let workflow = OrderWorkflow {
                                    request,
                                    order_id,
                                    phase: Phase::Decrementing,
                                    cursor,
                                    lines,
                                    total: new_total,
                                    order,
                                };
                                (
                                    workflow,
                                    Action::DecrementStock {
                                        product_id: item.product_id,
                                        quantity: item.quantity,
                                    },
                                )
                            },
                        }
                    },
                    _ => OrderWorkflow::halt(
                        request,
                        order_id,
                        cursor,
                        lines,
                        total,
                        OrderWorkflow::protocol_error(),
                    ),
                },
                StoreReply::StockUpdated => match phase {
                    Phase::Decrementing => OrderWorkflow::to_line(
                        request,
                        order_id,
                        cursor + 1,
                        lines,
                        total,
                        order,
                    ),
                    _ => OrderWorkflow::halt(
                        request,
                        order_id,
                        cursor,
                        lines,
                        total,
                        OrderWorkflow::protocol_error(),
                    ),
                },
                StoreReply::OrderInserted(stored) => match phase {
                    Phase::InsertingOrder => OrderWorkflow::to_item(
                        request,
                        order_id,
                        0,
                        lines,
                        total,
                        Some(stored),
                    ),
                    _ => OrderWorkflow::halt(
                        request,
                        order_id,
                        cursor,
                        lines,
                        total,
                        OrderWorkflow::protocol_error(),
                    ),
                },
                StoreReply::ItemInserted => match phase {
                    Phase::InsertingItems => OrderWorkflow::to_item(
                        request,
                        order_id,
                        cursor + 1,
                        lines,
                        total,
                        order,
                    ),
                    _ => OrderWorkflow::halt(
                        request,
                        order_id,
                        cursor,
                        lines,
                        total,
                        OrderWorkflow::protocol_error(),
                    ),
                },
                StoreReply::Committed => match phase {
                    Phase::Committing => match order {
                        Some(stored) => {
                            let workflow = OrderWorkflow {
                                request,
                                order_id,
                                phase: Phase::Finished,
                                cursor,
                                lines,
                                total,
                                order: None,
                            };
                            (workflow, Action::Respond(stored))
                        },
                        None => OrderWorkflow::halt(
                            request,
                            order_id,
                            cursor,
                            lines,
                            total,
                            OrderWorkflow::protocol_error(),
                        ),
                    },
                    _ => OrderWorkflow::halt(
                        request,
                        order_id,
                        cursor,
                        lines,
                        total,
                        OrderWorkflow::protocol_error(),
                    ),
                },
            },
        }
    }

    fn protocol_error() -> (e: AppError)
        ensures
            e@ == protocol_rejection(),
    {
        AppError::InternalServerError("Unexpected storage reply".to_owned())
    }

    fn halt(
        request: CreateOrderRequest,
        order_id: u128,
        cursor: usize,
        lines: Vec<PricedLine>,
        total: Money,
        error: AppError,
    ) -> (next: (OrderWorkflow, Action))
        ensures
            next.0@ == (WorkflowState {
                checkout: request@,
                order_id: order_id as int,
                phase: Phase::Finished,
                cursor: cursor as int,
                lines: line_views(lines@),
                total: total@,
                order: None,
            }),
            next.1@ == Move::Reject(error@),
    {
        let workflow = OrderWorkflow {
            request,
            order_id,
            phase: Phase::Finished,
            cursor,
            lines,
            total,
            order: None,
        };
        (workflow, Action::Reject(error))
    }

    fn to_line(
        request: CreateOrderRequest,
        order_id: u128,
        cursor: usize,
        lines: Vec<PricedLine>,
        total: Money,
        order: Option<Order>,
    ) -> (next: (OrderWorkflow, Action))
        ensures
            (next.0@, next.1@) == enter_line(
                WorkflowState {
                    checkout: request@,
                    order_id: order_id as int,
                    phase: Phase::Opening,
                    cursor: cursor as int,
                    lines: line_views(lines@),
                    total: total@,
                    order: opt_order_view(order),
                },
            ),
    {
        if cursor >= request.items.len() {
            let draft = NewOrder {
                id: order_id,
                customer_name: request.customer_name.clone(),
                customer_email: request.customer_email.clone(),
                customer_phone: request.customer_phone.clone(),
                delivery_address: request.delivery_address.clone(),
                delivery_city: request.delivery_city.clone(),
                delivery_postal_code: copy_opt_text(&request.delivery_postal_code),
                total_amount: total,
                status: OrderStatus::initial(),
                notes: copy_opt_text(&request.notes),
            };
            let workflow = OrderWorkflow {
                request,
                order_id,
                phase: Phase::InsertingOrder,
                cursor,
                lines,
                total,
                order,
            };
            (workflow, Action::InsertOrder(draft))
        } else if request.items[cursor].quantity <= 0 {
            OrderWorkflow::halt(request, order_id, cursor, lines, total, reject_quantity())
        } else {
            let product_id = request.items[cursor].product_id;
            let workflow = OrderWorkflow {
                request,
                order_id,
                phase: Phase::Locking,
                cursor,
                lines,
                total,
                order,
            };
            (workflow, Action::LockProduct { product_id })
        }
    }

    fn to_item(
        request: CreateOrderRequest,
        order_id: u128,
        cursor: usize,
        lines: Vec<PricedLine>,
        total: Money,
        order: Option<Order>,
    ) -> (next: (OrderWorkflow, Action))
        ensures
            (next.0@, next.1@) == enter_item(
                WorkflowState {
                    checkout: request@,
                    order_id: order_id as int,
                    phase: Phase::Opening,
                    cursor: cursor as int,
                    lines: line_views(lines@),
                    total: total@,
                    order: opt_order_view(order),
                },
            ),
    {
        if cursor >= lines.len() {
            let workflow = OrderWorkflow {
                request,
                order_id,
                phase: Phase::Committing,
                cursor,
                lines,
                total,
                order,
            };
            (workflow, Action::Commit)
        } else {
            let draft = NewOrderItem {
                order_id,
                product_id: lines[cursor].product_id,
                product_name: lines[cursor].product_name.clone(),
                product_price: lines[cursor].product_price,
                quantity: lines[cursor].quantity,
                subtotal: lines[cursor].subtotal,
            };
            let workflow = OrderWorkflow {
                request,
                order_id,
                phase: Phase::InsertingItems,
                cursor,
                lines,
                total,
                order,
            };
            (workflow, Action::InsertItem(draft))
        }
    }
}

} // verus!
