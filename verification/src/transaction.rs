//! Why running the order workflow against the tables is the unit of work
//! `placed`: the invariant of the run, and the proof that every storage
//! action and the decision that follows it keep it.

use crate::assembler::{
    assemble, lemma_assemble_fails, lemma_assemble_next, lemma_assemble_shape, lemma_priced_line,
    priced, Assembly,
};
use crate::catalog::{
    lemma_lookup_found, lemma_taken, lemma_taken_stocked, lookup, lookup_active, taken,
};
use crate::error::Failure;
use crate::models::{Checkout, OrderView};
use crate::tables::{
    has_order, item_rows, lemma_has_order_push, performed, placed, stored_item, stored_order,
    Tables,
};
use crate::workflow::{
    advance, enter_line, item_draft, opened, order_draft, Move, Phase, Reply, WorkflowState,
};
use vstd::prelude::*;

verus! {

/// An upper bound on the number of storage actions that a workflow still
/// asks for.
pub open spec fn rank(w: WorkflowState) -> int {
    let n = w.checkout.items.len() as int;
    match w.phase {
        Phase::Opening => 3 * n + 4,
        Phase::Locking => 3 * n + 3 - 2 * w.cursor,
        Phase::Decrementing => 3 * n + 2 - 2 * w.cursor,
        Phase::InsertingOrder => n + 3,
        Phase::InsertingItems => n + 2 - w.cursor,
        Phase::Committing => 1,
        Phase::Finished => 0,
    }
}

/// The invariant of a unit of work that started on the tables `t0`:
/// `committed` are the tables as everyone else sees them, `work` the tables
/// as the unit of work sees them, `w` the state of the workflow and `m`
/// the action it asked for last.
pub open spec fn on_track(
    t0: Tables,
    checkout: Checkout,
    order_id: int,
    now: int,
    committed: Tables,
    work: Tables,
    w: WorkflowState,
    m: Move,
) -> bool {
    let items = checkout.items;
    let order = stored_order(order_draft(checkout, order_id, w.total), now);
    &&& w.checkout == checkout
    &&& w.order_id == order_id
    &&& match m {
        Move::Begin => {
            &&& committed == t0
            &&& work == t0
            &&& items.len() > 0
            &&& w == opened(checkout, order_id).0
        },
        Move::LockProduct { product_id } => {
            &&& committed == t0
            &&& w.phase == Phase::Locking
            &&& 0 <= w.cursor < items.len()
            &&& items[w.cursor].quantity > 0
            &&& product_id == items[w.cursor].product_id
            &&& work == Tables { products: work.products, ..t0 }
            &&& assemble(t0.products, items.take(w.cursor)) == Ok::<Assembly, Failure>(
                Assembly { lines: w.lines, total: w.total, catalog: work.products },
            )
        },
        Move::DecrementStock { product_id, quantity } => {
            &&& committed == t0
            &&& w.phase == Phase::Decrementing
            &&& 0 <= w.cursor < items.len()
            &&& items[w.cursor].quantity > 0
            &&& product_id == items[w.cursor].product_id
            &&& quantity == items[w.cursor].quantity
            &&& work == Tables { products: work.products, ..t0 }
            &&& lookup(work.products, product_id) matches Some(p) && p.stock_quantity >= quantity
            &&& assemble(t0.products, items.take(w.cursor + 1)) == Ok::<Assembly, Failure>(
                Assembly {
                    lines: w.lines,
                    total: w.total,
                    catalog: taken(work.products, product_id, quantity),
                },
            )
        },
        Move::InsertOrder(draft) => {
            &&& committed == t0
            &&& w.phase == Phase::InsertingOrder
            &&& items.len() > 0
            &&& w.cursor == items.len()
            &&& work == Tables { products: work.products, ..t0 }
            &&& assemble(t0.products, items) == Ok::<Assembly, Failure>(
                Assembly { lines: w.lines, total: w.total, catalog: work.products },
            )
            &&& draft == order_draft(checkout, order_id, w.total)
        },
        Move::InsertItem(draft) => {
            &&& committed == t0
            &&& w.phase == Phase::InsertingItems
            &&& 0 <= w.cursor < w.lines.len()
            &&& w.lines.len() == items.len()
            &&& assemble(t0.products, items) == Ok::<Assembly, Failure>(
                Assembly { lines: w.lines, total: w.total, catalog: work.products },
            )
            &&& !has_order(t0.orders, order_id)
            &&& w.order == Some(order)
            &&& t0.next_item_id + w.cursor - 1 <= i32::MAX
            &&& work == Tables {
                products: work.products,
                orders: t0.orders.push(order),
                items: t0.items + item_rows(order_id, w.lines, t0.next_item_id, now).take(w.cursor),
                next_item_id: t0.next_item_id + w.cursor,
                ..t0
            }
            &&& draft == item_draft(order_id, w.lines[w.cursor])
        },
        Move::Commit => {
            &&& committed == t0
            &&& w.phase == Phase::Committing
            &&& w.order is Some
            &&& placed(t0, checkout, order_id, now) == (work, Ok::<OrderView, Failure>(w.order->0))
        },
        Move::Respond(stored) => {
            &&& w.phase == Phase::Finished
            &&& placed(t0, checkout, order_id, now) == (committed, Ok::<OrderView, Failure>(stored))
        },
        Move::Reject(e) => {
            &&& committed == t0
            &&& w.phase == Phase::Finished
            &&& placed(t0, checkout, order_id, now) == (t0, Err::<OrderView, Failure>(e))
        },
    }
}

/// A unit of work starts on track.
pub proof fn lemma_start(t0: Tables, checkout: Checkout, order_id: int, now: int)
    ensures
        on_track(
            t0,
            checkout,
            order_id,
            now,
            t0,
            t0,
            opened(checkout, order_id).0,
            opened(checkout, order_id).1,
        ),
{
}

/// What follows a storage action: the tables after it, and the state and
/// the action that the workflow decides on its reply.
pub open spec fn followed(work: Tables, w: WorkflowState, m: Move, now: int) -> (
    Tables,
    WorkflowState,
    Move,
) {
    let (work2, reply) = performed(work, m, now);
    let (w2, m2) = advance(w, reply);
    (work2, w2, m2)
}

/// Turning to a requested line keeps the unit of work on track.
proof fn lemma_enter_line(
    t0: Tables,
    checkout: Checkout,
    order_id: int,
    now: int,
    work: Tables,
    w: WorkflowState,
)
    requires
        t0.wf(),
        w.checkout == checkout,
        w.order_id == order_id,
        checkout.items.len() > 0,
        0 <= w.cursor <= checkout.items.len(),
        work == (Tables { products: work.products, ..t0 }),
        assemble(t0.products, checkout.items.take(w.cursor)) == Ok::<Assembly, Failure>(
            Assembly { lines: w.lines, total: w.total, catalog: work.products },
        ),
    ensures
        on_track(t0, checkout, order_id, now, t0, work, enter_line(w).0, enter_line(w).1),
        enter_line(w).0.phase == Phase::InsertingOrder ==> w.cursor == checkout.items.len(),
{
    let items = checkout.items;
    if w.cursor >= items.len() {
        assert(items.take(w.cursor) =~= items);
    } else if items[w.cursor].quantity <= 0 {
        lemma_assemble_next(t0.products, items, w.cursor);
        lemma_assemble_fails(t0.products, items, w.cursor + 1);
    } else {
    }
}

/// Opening the unit of work keeps it on track.
proof fn lemma_after_begin(
    t0: Tables,
    checkout: Checkout,
    order_id: int,
    now: int,
    work: Tables,
    w: WorkflowState,
)
    requires
        t0.wf(),
        work.wf(),
        on_track(t0, checkout, order_id, now, t0, work, w, Move::Begin),
    ensures
        ({
            let (work2, w2, m2) = followed(work, w, Move::Begin, now);
            &&& work2.wf()
            &&& on_track(t0, checkout, order_id, now, t0, work2, w2, m2)
            &&& 0 <= rank(w2) < rank(w)
        }),
{
    assert(checkout.items.take(0) =~= Seq::empty());
    lemma_enter_line(t0, checkout, order_id, now, work, w);
}

/// Locking a product and pricing its line keeps the unit of work on track.
proof fn lemma_after_lock(
    t0: Tables,
    checkout: Checkout,
    order_id: int,
    now: int,
    work: Tables,
    w: WorkflowState,
    product_id: int,
)
    requires
        t0.wf(),
        work.wf(),
        on_track(t0, checkout, order_id, now, t0, work, w, Move::LockProduct { product_id }),
    ensures
        ({
            let (work2, w2, m2) = followed(work, w, Move::LockProduct { product_id }, now);
            &&& work2.wf()
            &&& on_track(t0, checkout, order_id, now, t0, work2, w2, m2)
            &&& 0 <= rank(w2) < rank(w)
        }),
{
    let items = checkout.items;
    let item = items[w.cursor];
    let found = lookup_active(work.products, product_id);
    lemma_assemble_next(t0.products, items, w.cursor);
    match priced(found, item, w.total) {
        Err(e) => {
            lemma_assemble_fails(t0.products, items, w.cursor + 1);
        },
        Ok((line, total)) => {
            lemma_priced_line(found, item, w.total);
        },
    }
}

/// Decrementing the stock and turning to the next line keeps the unit of
/// work on track.
proof fn lemma_after_decrement(
    t0: Tables,
    checkout: Checkout,
    order_id: int,
    now: int,
    work: Tables,
    w: WorkflowState,
    product_id: int,
    quantity: int,
)
    requires
        t0.wf(),
        work.wf(),
        on_track(t0, checkout, order_id, now, t0, work, w, Move::DecrementStock { product_id, quantity }),
    ensures
        ({
            let (work2, w2, m2) = followed(work, w, Move::DecrementStock { product_id, quantity }, now);
            &&& work2.wf()
            &&& on_track(t0, checkout, order_id, now, t0, work2, w2, m2)
            &&& 0 <= rank(w2) < rank(w)
        }),
{
    let k = lemma_lookup_found(work.products, product_id);
    assert(0 <= work.products[k].stock_quantity <= i32::MAX);
    lemma_taken(work.products, product_id, quantity, product_id);
    lemma_taken_stocked(work.products, product_id, quantity);
    let after = taken(work.products, product_id, quantity);
    let work2 = Tables { products: after, ..work };
    assert(performed(work, Move::DecrementStock { product_id, quantity }, now) == (
        work2,
        Reply::StockUpdated,
    ));
    assert forall|j: int| 0 <= j < after.len() implies (#[trigger] after[j]).id < work2.next_product_id by {
        assert(work.products[j].id < work.next_product_id);
    }
    let w1 = WorkflowState { cursor: w.cursor + 1, ..w };
    lemma_enter_line(t0, checkout, order_id, now, work2, w1);
}

/// Inserting the order row and turning to the first order line keeps the
/// unit of work on track.
proof fn lemma_after_order(
    t0: Tables,
    checkout: Checkout,
    order_id: int,
    now: int,
    work: Tables,
    w: WorkflowState,
    draft: crate::workflow::OrderDraft,
)
    requires
        t0.wf(),
        work.wf(),
        on_track(t0, checkout, order_id, now, t0, work, w, Move::InsertOrder(draft)),
    ensures
        ({
            let (work2, w2, m2) = followed(work, w, Move::InsertOrder(draft), now);
            &&& work2.wf()
            &&& on_track(t0, checkout, order_id, now, t0, work2, w2, m2)
            &&& 0 <= rank(w2) < rank(w)
        }),
{
    lemma_assemble_shape(t0.products, checkout.items);
    if !has_order(work.orders, draft.id) {
        let order = stored_order(draft, now);
        let orders = work.orders.push(order);
        let work2 = Tables { orders, ..work };
        assert(crate::tables::distinct_orders(orders)) by {
            assert forall|i: int, j: int| 0 <= i < j < orders.len() implies (#[trigger] orders[i]).id != (
            #[trigger] orders[j]).id by {
                if j == work.orders.len() {
                    assert(work.orders[i].id != draft.id);
                } else {
                    assert(work.orders[i].id != work.orders[j].id);
                }
            }
        }
        assert forall|k: int| 0 <= k < work2.items.len() implies has_order(
            orders,
            (#[trigger] work2.items[k]).order_id,
        ) by {
            lemma_has_order_push(work.orders, order, work.items[k].order_id);
        }
        let rows = item_rows(order_id, w.lines, t0.next_item_id, now);
        assert(t0.items + rows.take(0) =~= t0.items);
    }
}

/// Inserting an order line and turning to the next keeps the unit of work
/// on track.
proof fn lemma_after_item(
    t0: Tables,
    checkout: Checkout,
    order_id: int,
    now: int,
    work: Tables,
    w: WorkflowState,
    draft: crate::workflow::ItemDraft,
)
    requires
        t0.wf(),
        work.wf(),
        on_track(t0, checkout, order_id, now, t0, work, w, Move::InsertItem(draft)),
    ensures
        ({
            let (work2, w2, m2) = followed(work, w, Move::InsertItem(draft), now);
            &&& work2.wf()
            &&& on_track(t0, checkout, order_id, now, t0, work2, w2, m2)
            &&& 0 <= rank(w2) < rank(w)
        }),
{
    lemma_assemble_shape(t0.products, checkout.items);
    let rows = item_rows(order_id, w.lines, t0.next_item_id, now);
    let j = w.cursor;
    assert(w.lines[j].quantity > 0);
    lemma_has_order_push(t0.orders, stored_order(order_draft(checkout, order_id, w.total), now), order_id);
    if work.next_item_id <= i32::MAX {
        let row = stored_item(draft, work.next_item_id, now);
        assert(row == rows[j]);
        let items2 = work.items.push(row);
        assert(items2 =~= t0.items + rows.take(j + 1));
        assert forall|k: int| 0 <= k < items2.len() implies (#[trigger] items2[k]).id < work.next_item_id + 1
            && items2[k].quantity > 0 && has_order(work.orders, items2[k].order_id) by {
            if k < work.items.len() {
                assert(work.items[k].id < work.next_item_id);
                assert(work.items[k].quantity > 0);
                assert(has_order(work.orders, work.items[k].order_id));
            }
        }
        if j + 1 >= w.lines.len() {
            assert(rows.take(j + 1) =~= rows);
        }
    }
}

/// Every storage action, together with the decision that the workflow
/// takes on its reply, keeps the unit of work on track, keeps the
/// constraints of the tables, and brings the workflow nearer to its end. A
/// commit makes the tables of the unit of work the committed ones.
pub proof fn lemma_keeps_track(
    t0: Tables,
    checkout: Checkout,
    order_id: int,
    now: int,
    work: Tables,
    w: WorkflowState,
    m: Move,
)
    requires
        t0.wf(),
        work.wf(),
        on_track(t0, checkout, order_id, now, t0, work, w, m),
        m !is Respond,
        m !is Reject,
    ensures
        ({
            let (work2, w2, m2) = followed(work, w, m, now);
            &&& work2.wf()
            &&& on_track(
                t0,
                checkout,
                order_id,
                now,
                if m is Commit {
                    work
                } else {
                    t0
                },
                work2,
                w2,
                m2,
            )
            &&& 0 <= rank(w2) < rank(w)
        }),
{
    match m {
        Move::Begin => lemma_after_begin(t0, checkout, order_id, now, work, w),
        Move::LockProduct { product_id } => lemma_after_lock(t0, checkout, order_id, now, work, w, product_id),
        Move::DecrementStock { product_id, quantity } => lemma_after_decrement(
            t0,
            checkout,
            order_id,
            now,
            work,
            w,
            product_id,
            quantity,
        ),
        Move::InsertOrder(draft) => lemma_after_order(t0, checkout, order_id, now, work, w, draft),
        Move::InsertItem(draft) => lemma_after_item(t0, checkout, order_id, now, work, w, draft),
        Move::Commit => {},
        _ => {},
    }
}

} // verus!
