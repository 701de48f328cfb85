//! What holds of every unit of work that creates an order: stock is
//! conserved, a failed attempt leaves no trace, and an order's total is the
//! sum of the subtotals of its lines.

use crate::assembler::{assemble, lemma_assemble_shape, lemma_priced_line, Line};
use crate::catalog::{
    distinct_ids, has_product, lemma_lookup_found, lemma_taken, lookup_active, stock_of, stocked,
    taken,
};
use crate::error::Failure;
use crate::models::{
    Checkout, OrderItemRequest, OrderItemView, OrderView, ProductDraft, ProductPatch, ProductView,
};
use crate::money::{product, sum, Decimal, MAX_MANTISSA, MAX_SCALE};
use crate::status::OrderStatus;
use crate::tables::{
    has_order, image_set, item_rows, items_of, lookup_order, placed, product_added, product_deleted,
    product_updated, released, status_set, Tables,
};
use crate::workflow::{advance, finished, Move, Phase, Reply, WorkflowState};
use vstd::prelude::*;

verus! {

/// The units of the product with this identifier that some priced lines
/// ask for.
pub open spec fn line_quantity(lines: Seq<Line>, product_id: int) -> int
    decreases lines.len(),
{
    if lines.len() == 0 {
        0
    } else {
        line_quantity(lines.drop_last(), product_id) + if lines.last().product_id == product_id {
            lines.last().quantity
        } else {
            0
        }
    }
}

/// The units of the product with this identifier that the stored order
/// lines account for.
pub open spec fn ordered_quantity(items: Seq<OrderItemView>, product_id: int) -> int
    decreases items.len(),
{
    if items.len() == 0 {
        0
    } else {
        ordered_quantity(items.drop_last(), product_id) + if items.last().product_id == Some(
            product_id,
        ) {
            items.last().quantity
        } else {
            0
        }
    }
}

/// One attempt to create an order: the request, the identifier drawn for
/// the order, and the time.
pub struct Attempt {
    pub checkout: Checkout,
    pub order_id: int,
    pub now: int,
}

/// The tables after a series of attempts to create orders, each one a
/// unit of work of its own, in the order in which they got hold of the
/// tables.
pub open spec fn after_attempts(t: Tables, attempts: Seq<Attempt>) -> Tables
    decreases attempts.len(),
{
    if attempts.len() == 0 {
        t
    } else {
        let attempt = attempts.last();
        placed(
            after_attempts(t, attempts.drop_last()),
            attempt.checkout,
            attempt.order_id,
            attempt.now,
        ).0
    }
}

/// Atomicity. A unit of work that fails, for whatever reason, leaves the
/// tables exactly as they were: no stock decrement, no order and no order
/// line of the attempt remains.
pub proof fn law_atomicity(t: Tables, checkout: Checkout, order_id: int, now: int)
    ensures
        placed(t, checkout, order_id, now).1 is Err ==> placed(t, checkout, order_id, now).0 == t,
{
}

/// A storage fault at any point of the protocol ends the workflow with
/// that fault: it asks for nothing more, and in particular never for a
/// commit.
pub proof fn law_fault_ends_workflow(w: WorkflowState, detail: Seq<char>)
    requires
        w.phase != Phase::Finished,
    ensures
        advance(w, Reply::Fault(detail)) == (finished(w), Move::Reject(Failure::DatabaseError(detail))),
{
}

/// The workflow announces a created order only on the reply to its
/// commit, and a rejection never follows a commit that succeeded.
pub proof fn law_respond_follows_commit(w: WorkflowState, reply: Reply)
    ensures
        advance(w, reply).1 is Respond ==> w.phase == Phase::Committing && reply == Reply::Committed,
        w.phase == Phase::Committing && reply == Reply::Committed && w.order is Some ==> advance(
            w,
            reply,
        ).1 is Respond,
{
}

/// Assembling takes from each product's stock exactly the units that the
/// priced lines ask of it.
pub proof fn lemma_assembly_conserves(
    catalog: Seq<ProductView>,
    items: Seq<OrderItemRequest>,
    product_id: int,
)
    requires
        distinct_ids(catalog),
        stocked(catalog),
        assemble(catalog, items) is Ok,
    ensures
        has_product(assemble(catalog, items)->Ok_0.catalog, product_id) == has_product(catalog, product_id),
        stock_of(assemble(catalog, items)->Ok_0.catalog, product_id) == stock_of(catalog, product_id)
            - line_quantity(assemble(catalog, items)->Ok_0.lines, product_id),
    decreases items.len(),
{
    if items.len() > 0 {
        let before = assemble(catalog, items.drop_last());
        assert(before is Ok);
        let acc = before->Ok_0;
        lemma_assembly_conserves(catalog, items.drop_last(), product_id);
        lemma_assemble_shape(catalog, items.drop_last());
        let item = items.last();
        let id = item.product_id as int;
        let found = lookup_active(acc.catalog, id);
        lemma_priced_line(found, item, acc.total);
        let k = lemma_lookup_found(acc.catalog, id);
        lemma_taken(acc.catalog, id, item.quantity as int, product_id);
        let after = assemble(catalog, items)->Ok_0;
        assert(after.lines.drop_last() =~= acc.lines);
        assert(after.lines.last().product_id == id);
        assert(after.lines.last().quantity == item.quantity);
    }
}

/// The order line rows of some priced lines account for exactly the units
/// that the lines ask for.
pub proof fn lemma_rows_quantity(
    items: Seq<OrderItemView>,
    order_id: int,
    lines: Seq<Line>,
    first_id: int,
    now: int,
    product_id: int,
)
    ensures
        ordered_quantity(items + item_rows(order_id, lines, first_id, now), product_id) == ordered_quantity(
            items,
            product_id,
        ) + line_quantity(lines, product_id),
    decreases lines.len(),
{
    let rows = item_rows(order_id, lines, first_id, now);
    if lines.len() == 0 {
        assert(items + rows =~= items);
    } else {
        lemma_rows_quantity(items, order_id, lines.drop_last(), first_id, now, product_id);
        let shorter = item_rows(order_id, lines.drop_last(), first_id, now);
        assert((items + rows).drop_last() =~= items + shorter);
        assert((items + rows).last() == rows[lines.len() - 1]);
    }
}

/// Conservation, for one unit of work. Whether it succeeds or fails, the
/// stock that a product loses is exactly the quantity that the order
/// lines stored by it account for; no stock is negative afterwards, and
/// the constraints of the tables still hold.
pub proof fn law_order_conserves_stock(
    t: Tables,
    checkout: Checkout,
    order_id: int,
    now: int,
    product_id: int,
)
    requires
        t.wf(),
    ensures
        ({
            let after = placed(t, checkout, order_id, now).0;
            &&& after.wf()
            &&& has_product(after.products, product_id) == has_product(t.products, product_id)
            &&& stock_of(t.products, product_id) - stock_of(after.products, product_id) == ordered_quantity(
                after.items,
                product_id,
            ) - ordered_quantity(t.items, product_id)
            &&& stock_of(after.products, product_id) >= 0
        }),
{
    lemma_placed_wf(t, checkout, order_id, now);
    let after = placed(t, checkout, order_id, now).0;
    if placed(t, checkout, order_id, now).1 is Ok {
        let a = assemble(t.products, checkout.items)->Ok_0;
        lemma_assembly_conserves(t.products, checkout.items, product_id);
        lemma_rows_quantity(t.items, order_id, a.lines, t.next_item_id, now, product_id);
    }
    if has_product(after.products, product_id) {
        let k = lemma_lookup_found(after.products, product_id);
    }
}

/// A unit of work keeps the constraints of the tables.
pub proof fn lemma_placed_wf(t: Tables, checkout: Checkout, order_id: int, now: int)
    requires
        t.wf(),
    ensures
        placed(t, checkout, order_id, now).0.wf(),
{
    if placed(t, checkout, order_id, now).1 is Ok {
        let a = assemble(t.products, checkout.items)->Ok_0;
        lemma_assemble_shape(t.products, checkout.items);
        let after = placed(t, checkout, order_id, now).0;
        let order = after.orders.last();
        let rows = item_rows(order_id, a.lines, t.next_item_id, now);
        crate::tables::lemma_has_order_push(t.orders, order, order_id);
        assert forall|k: int| 0 <= k < after.items.len() implies {
            &&& (#[trigger] after.items[k]).id < after.next_item_id
            &&& after.items[k].quantity > 0
            &&& has_order(after.orders, after.items[k].order_id)
        } by {
            if k < t.items.len() {
                assert(after.items[k] == t.items[k]);
                crate::tables::lemma_has_order_push(t.orders, order, t.items[k].order_id);
            } else {
                assert(after.items[k] == rows[k - t.items.len()]);
                assert(a.lines[k - t.items.len()].quantity > 0);
            }
        }
        assert forall|i: int, j: int| 0 <= i < j < after.orders.len() implies (#[trigger] after.orders[i]).id
            != (#[trigger] after.orders[j]).id by {
            if j == t.orders.len() {
                assert(t.orders[i].id != order_id);
            } else {
                assert(t.orders[i].id != t.orders[j].id);
            }
        }
        assert forall|k: int| 0 <= k < after.products.len() implies (#[trigger] after.products[k]).id
            < after.next_product_id by {
            assert(t.products[k].id < t.next_product_id);
        }
    }
}

/// Conservation. After any series of attempts to create orders, for every
/// product, the stock at the start minus the stock at the end equals the
/// quantity that the order lines stored in between account for, and the
/// stock is not negative.
pub proof fn law_conservation(t: Tables, attempts: Seq<Attempt>, product_id: int)
    requires
        t.wf(),
    ensures
        ({
            let after = after_attempts(t, attempts);
            &&& after.wf()
            &&& has_product(after.products, product_id) == has_product(t.products, product_id)
            &&& stock_of(t.products, product_id) - stock_of(after.products, product_id) == ordered_quantity(
                after.items,
                product_id,
            ) - ordered_quantity(t.items, product_id)
            &&& stock_of(after.products, product_id) >= 0
        }),
    decreases attempts.len(),
{
    if attempts.len() > 0 {
        law_conservation(t, attempts.drop_last(), product_id);
        let before = after_attempts(t, attempts.drop_last());
        let attempt = attempts.last();
        law_order_conserves_stock(before, attempt.checkout, attempt.order_id, attempt.now, product_id);
    } else {
        if has_product(t.products, product_id) {
            let k = lemma_lookup_found(t.products, product_id);
        }
    }
}

/// The sum of some amounts, added up in order from zero; `None` if an
/// addition overflows.
pub open spec fn total_of(amounts: Seq<Decimal>) -> Option<Decimal>
    decreases amounts.len(),
{
    if amounts.len() == 0 {
        Some(Decimal::zero())
    } else {
        match total_of(amounts.drop_last()) {
            Some(t) => sum(t, amounts.last()),
            None => None,
        }
    }
}

/// The subtotals of some priced lines.
pub open spec fn line_subtotals(lines: Seq<Line>) -> Seq<Decimal> {
    lines.map_values(|l: Line| l.subtotal)
}

/// The subtotals of some order lines.
pub open spec fn item_subtotals(items: Seq<OrderItemView>) -> Seq<Decimal> {
    items.map_values(|i: OrderItemView| i.subtotal)
}

/// Every order's total is the sum of the subtotals of its lines.
pub open spec fn totals_consistent(t: Tables) -> bool {
    forall|k: int|
        0 <= k < t.orders.len() ==> total_of(item_subtotals(items_of(t.items, (#[trigger] t.orders[k]).id)))
            == Some(t.orders[k].total_amount)
}

/// The total of an assembly is the sum of the subtotals of its lines, and
/// each subtotal is the product of the line's price and quantity.
pub proof fn lemma_assembly_total(catalog: Seq<ProductView>, items: Seq<OrderItemRequest>)
    requires
        assemble(catalog, items) is Ok,
    ensures
        total_of(line_subtotals(assemble(catalog, items)->Ok_0.lines)) == Some(
            assemble(catalog, items)->Ok_0.total,
        ),
        forall|j: int|
            0 <= j < assemble(catalog, items)->Ok_0.lines.len() ==> {
                let line = #[trigger] assemble(catalog, items)->Ok_0.lines[j];
                product(line.product_price, Decimal::whole(line.quantity)) == Some(line.subtotal)
            },
    decreases items.len(),
{
    let a = assemble(catalog, items)->Ok_0;
    if items.len() == 0 {
        assert(line_subtotals(a.lines) =~= Seq::<Decimal>::empty());
    } else {
        let before = assemble(catalog, items.drop_last());
        assert(before is Ok);
        let acc = before->Ok_0;
        lemma_assembly_total(catalog, items.drop_last());
        let item = items.last();
        let found = lookup_active(acc.catalog, item.product_id as int);
        lemma_priced_line(found, item, acc.total);
        assert(line_subtotals(a.lines).drop_last() =~= line_subtotals(acc.lines));
        assert(line_subtotals(a.lines).last() == a.lines.last().subtotal);
        assert forall|j: int| 0 <= j < a.lines.len() implies {
            let line = #[trigger] a.lines[j];
            product(line.product_price, Decimal::whole(line.quantity)) == Some(line.subtotal)
        } by {
            if j < acc.lines.len() {
                assert(a.lines[j] == acc.lines[j]);
            }
        }
    }
}

/// The rows stored for the lines of one order are lines of that order,
/// and of no other.
pub proof fn lemma_items_of_rows(
    items: Seq<OrderItemView>,
    order_id: int,
    lines: Seq<Line>,
    first_id: int,
    now: int,
    other: int,
)
    ensures
        items_of(items + item_rows(order_id, lines, first_id, now), other) == if other == order_id {
            items_of(items, other) + item_rows(order_id, lines, first_id, now)
        } else {
            items_of(items, other)
        },
    decreases lines.len(),
{
    let rows = item_rows(order_id, lines, first_id, now);
    if lines.len() == 0 {
        assert(items + rows =~= items);
        assert(items_of(items, other) + rows =~= items_of(items, other));
    } else {
        lemma_items_of_rows(items, order_id, lines.drop_last(), first_id, now, other);
        let shorter = item_rows(order_id, lines.drop_last(), first_id, now);
        assert((items + rows).drop_last() =~= items + shorter);
        assert((items + rows).last() == rows[lines.len() - 1]);
        assert((items_of(items, other) + shorter).push(rows[lines.len() - 1]) =~= items_of(items, other)
            + rows);
    }
}

/// An order that is not stored has no lines.
pub proof fn lemma_no_items_without_order(t: Tables, order_id: int)
    requires
        t.wf(),
        !has_order(t.orders, order_id),
    ensures
        items_of(t.items, order_id) == Seq::<OrderItemView>::empty(),
{
    lemma_items_of_none(t.items, order_id);
}

/// Lines that all belong to other orders hold no line of this one.
pub proof fn lemma_items_of_none(items: Seq<OrderItemView>, order_id: int)
    requires
        forall|k: int| 0 <= k < items.len() ==> (#[trigger] items[k]).order_id != order_id,
    ensures
        items_of(items, order_id) == Seq::<OrderItemView>::empty(),
    decreases items.len(),
{
    if items.len() > 0 {
        assert(items.last() == items[items.len() - 1]);
        assert forall|k: int| 0 <= k < items.drop_last().len() implies (
        #[trigger] items.drop_last()[k]).order_id != order_id by {
            assert(items.drop_last()[k] == items[k]);
        }
        lemma_items_of_none(items.drop_last(), order_id);
    }
}

/// Total correctness, at creation time. The order that a unit of work
/// stores has exactly one line for each requested line; its total is the
/// sum of the subtotals of these lines, added up in request order; and
/// each subtotal is the product of the line's price and quantity.
pub proof fn law_order_total(t: Tables, checkout: Checkout, order_id: int, now: int)
    requires
        t.wf(),
        placed(t, checkout, order_id, now).1 is Ok,
    ensures
        ({
            let after = placed(t, checkout, order_id, now).0;
            let order = placed(t, checkout, order_id, now).1->Ok_0;
            let lines = items_of(after.items, order.id);
            &&& order.id == order_id
            &&& after.orders == t.orders.push(order)
            &&& lines.len() == checkout.items.len()
            &&& total_of(item_subtotals(lines)) == Some(order.total_amount)
            &&& forall|j: int|
                0 <= j < lines.len() ==> product(
                    (#[trigger] lines[j]).product_price,
                    Decimal::whole(lines[j].quantity),
                ) == Some(lines[j].subtotal)
        }),
{
    let a = assemble(t.products, checkout.items)->Ok_0;
    let after = placed(t, checkout, order_id, now).0;
    let rows = item_rows(order_id, a.lines, t.next_item_id, now);
    lemma_assemble_shape(t.products, checkout.items);
    lemma_assembly_total(t.products, checkout.items);
    lemma_no_items_without_order(t, order_id);
    lemma_items_of_rows(t.items, order_id, a.lines, t.next_item_id, now, order_id);
    assert(items_of(after.items, order_id) =~= rows);
    assert(item_subtotals(rows) =~= line_subtotals(a.lines));
    assert forall|j: int| 0 <= j < rows.len() implies product(
        (#[trigger] rows[j]).product_price,
        Decimal::whole(rows[j].quantity),
    ) == Some(rows[j].subtotal) by {
        assert(product(a.lines[j].product_price, Decimal::whole(a.lines[j].quantity)) == Some(
            a.lines[j].subtotal,
        ));
    }
}

/// Total correctness, for one unit of work. If every stored order's total
/// is the sum of the subtotals of its lines, this still holds after an
/// attempt to create an order.
pub proof fn law_totals_stay_consistent(t: Tables, checkout: Checkout, order_id: int, now: int)
    requires
        t.wf(),
        totals_consistent(t),
    ensures
        totals_consistent(placed(t, checkout, order_id, now).0),
{
    if placed(t, checkout, order_id, now).1 is Ok {
        let a = assemble(t.products, checkout.items)->Ok_0;
        let after = placed(t, checkout, order_id, now).0;
        law_order_total(t, checkout, order_id, now);
        assert forall|k: int| 0 <= k < after.orders.len() implies total_of(
            item_subtotals(items_of(after.items, (#[trigger] after.orders[k]).id)),
        ) == Some(after.orders[k].total_amount) by {
            if k < t.orders.len() {
                assert(after.orders[k] == t.orders[k]);
                assert(t.orders[k].id != order_id);
                lemma_items_of_rows(t.items, order_id, a.lines, t.next_item_id, now, t.orders[k].id);
            }
        }
    }
}

/// Total correctness. Starting from tables in which every order's total
/// is the sum of the subtotals of its lines (empty tables, for one), this
/// holds after any series of attempts to create orders.
pub proof fn law_total_correctness(t: Tables, attempts: Seq<Attempt>)
    requires
        t.wf(),
        totals_consistent(t),
    ensures
        after_attempts(t, attempts).wf(),
        totals_consistent(after_attempts(t, attempts)),
    decreases attempts.len(),
{
    if attempts.len() > 0 {
        law_total_correctness(t, attempts.drop_last());
        let before = after_attempts(t, attempts.drop_last());
        let attempt = attempts.last();
        lemma_placed_wf(before, attempt.checkout, attempt.order_id, attempt.now);
        law_totals_stay_consistent(before, attempt.checkout, attempt.order_id, attempt.now);
    }
}

/// Snapshot immutability, for changes to the catalog. Adding a product,
/// changing one (its name, price, stock, anything), or giving it an image
/// changes no order and no order line.
pub proof fn law_product_change_keeps_orders(
    t: Tables,
    id: int,
    patch: ProductPatch,
    image_url: Seq<char>,
    draft: ProductDraft,
    now: int,
)
    ensures
        product_updated(t, id, patch).0.orders == t.orders,
        product_updated(t, id, patch).0.items == t.items,
        image_set(t, id, image_url).0.orders == t.orders,
        image_set(t, id, image_url).0.items == t.items,
        product_added(t, draft, now).0.orders == t.orders,
        product_added(t, draft, now).0.items == t.items,
{
}

/// Releasing a product's lines commutes with picking the lines of one
/// order.
pub proof fn lemma_released_items_of(items: Seq<OrderItemView>, product_id: int, order_id: int)
    ensures
        items_of(released(items, product_id), order_id) == released(items_of(items, order_id), product_id),
    decreases items.len(),
{
    let after = released(items, product_id);
    if items.len() == 0 {
        assert(released(items_of(items, order_id), product_id) =~= Seq::<OrderItemView>::empty());
    } else {
        lemma_released_items_of(items.drop_last(), product_id, order_id);
        assert(after.drop_last() =~= released(items.drop_last(), product_id));
        assert(after.last().order_id == items.last().order_id);
        if items.last().order_id == order_id {
            assert(released(items_of(items.drop_last(), order_id).push(items.last()), product_id)
                =~= released(items_of(items.drop_last(), order_id), product_id).push(after.last()));
        }
    }
}

/// Snapshot immutability, for the deletion of a product. No order
/// changes. Every order line stays in its place and keeps its order,
/// name, price, quantity and subtotal; only the reference to the deleted
/// product is taken from the lines that had it. So every order still has
/// the same lines with the same amounts, and every total still is the sum
/// of its subtotals if it was before.
pub proof fn law_product_deletion_keeps_snapshots(t: Tables, id: int, order_id: int)
    ensures
        ({
            let after = product_deleted(t, id).0;
            &&& after.orders == t.orders
            &&& after.items.len() == t.items.len()
            &&& forall|k: int|
                0 <= k < t.items.len() ==> #[trigger] after.items[k] == (OrderItemView {
                    product_id: after.items[k].product_id,
                    ..t.items[k]
                })
            &&& items_of(after.items, order_id).len() == items_of(t.items, order_id).len()
            &&& item_subtotals(items_of(after.items, order_id)) == item_subtotals(items_of(t.items, order_id))
            &&& totals_consistent(t) ==> totals_consistent(after)
        }),
{
    let after = product_deleted(t, id).0;
    if product_deleted(t, id).1 is Ok {
        lemma_released_items_of(t.items, id, order_id);
        assert(item_subtotals(released(items_of(t.items, order_id), id)) =~= item_subtotals(
            items_of(t.items, order_id),
        ));
        if totals_consistent(t) {
            assert forall|k: int| 0 <= k < after.orders.len() implies total_of(
                item_subtotals(items_of(after.items, (#[trigger] after.orders[k]).id)),
            ) == Some(after.orders[k].total_amount) by {
                let oid = t.orders[k].id;
                lemma_released_items_of(t.items, id, oid);
                assert(item_subtotals(released(items_of(t.items, oid), id)) =~= item_subtotals(
                    items_of(t.items, oid),
                ));
            }
        }
    }
}

/// The status register is unconstrained. For a stored order, setting any
/// status of the register succeeds, whatever the order's status was, and
/// changes nothing but that order's status: no order line, no product and
/// no other order.
pub proof fn law_any_status_follows_any(t: Tables, id: int, status: OrderStatus)
    requires
        t.wf(),
        has_order(t.orders, id),
    ensures
        ({
            let (after, outcome) = status_set(t, id, status.name());
            &&& outcome is Ok
            &&& outcome->Ok_0.status == status
            &&& lookup_order(t.orders, id) matches Some(order) && outcome->Ok_0 == (OrderView {
                status,
                ..order
            })
            &&& after.items == t.items
            &&& after.products == t.products
            &&& after.orders.len() == t.orders.len()
            &&& forall|k: int|
                0 <= k < t.orders.len() ==> #[trigger] after.orders[k] == if t.orders[k].id == id {
                    OrderView { status, ..t.orders[k] }
                } else {
                    t.orders[k]
                }
        }),
{
    status.lemma_name_round_trip();
}

/// The sum of the mantissas of some amounts.
pub open spec fn mantissa_sum(amounts: Seq<Decimal>) -> int
    decreases amounts.len(),
{
    if amounts.len() == 0 {
        0
    } else {
        mantissa_sum(amounts.drop_last()) + amounts.last().mantissa
    }
}

/// A subtotal is exact whenever the product of the price's mantissa and
/// the quantity fits in 96 bits: it is that product at the price's scale
/// (or the plain zero, if it is zero).
pub proof fn law_subtotal_is_exact(price: Decimal, quantity: int)
    requires
        price.scale <= MAX_SCALE,
        -MAX_MANTISSA <= price.mantissa * quantity <= MAX_MANTISSA,
    ensures
        product(price, Decimal::whole(quantity)) == Some(
            if price.mantissa == 0 || quantity == 0 {
                Decimal::zero()
            } else {
                Decimal { mantissa: price.mantissa * quantity, scale: price.scale }
            },
        ),
{
}

/// A total is exact whenever the amounts that are not zero share one
/// scale and every partial sum of the mantissas fits in 96 bits: its
/// mantissa is the sum of the mantissas, at the common scale.
pub proof fn law_total_is_exact(amounts: Seq<Decimal>, scale: nat)
    requires
        scale <= MAX_SCALE,
        forall|j: int|
            0 <= j < amounts.len() && (#[trigger] amounts[j]).mantissa != 0 ==> amounts[j].scale == scale,
        forall|k: int|
            0 <= k <= amounts.len() ==> -MAX_MANTISSA <= #[trigger] mantissa_sum(amounts.take(k))
                <= MAX_MANTISSA,
    ensures
        total_of(amounts) is Some,
        total_of(amounts)->0.mantissa == mantissa_sum(amounts),
        total_of(amounts)->0.mantissa != 0 ==> total_of(amounts)->0.scale == scale,
    decreases amounts.len(),
{
    if amounts.len() > 0 {
        let shorter = amounts.drop_last();
        assert forall|k: int| 0 <= k <= shorter.len() implies -MAX_MANTISSA <= #[trigger] mantissa_sum(
            shorter.take(k),
        ) <= MAX_MANTISSA by {
            assert(shorter.take(k) =~= amounts.take(k));
        }
        assert forall|j: int|
            0 <= j < shorter.len() && (#[trigger] shorter[j]).mantissa != 0 implies shorter[j].scale
            == scale by {
            assert(shorter[j] == amounts[j]);
        }
        law_total_is_exact(shorter, scale);
        let t = total_of(shorter)->0;
        let a = amounts.last();
        assert(amounts.take(amounts.len() as int) =~= amounts);
        assert(-MAX_MANTISSA <= mantissa_sum(amounts.take(amounts.len() as int)) <= MAX_MANTISSA);
        assert(a == amounts[amounts.len() - 1]);
        assert(mantissa_sum(amounts) == t.mantissa + a.mantissa);
        if t.mantissa != 0 && a.mantissa != 0 {
            assert(a.scale == t.scale);
            assert(crate::money::exact_sum(t, a) == Some(
                Decimal { mantissa: t.mantissa + a.mantissa, scale: t.scale },
            ));
        }
    }
}

} // verus!
