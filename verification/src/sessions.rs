//! Units of work side by side.
//!
//! Several orders may be in the making at one time. Each one locks the row
//! of a product before it reads the stock, and keeps the lock until it
//! ends; a product that is locked by one unit of work cannot be locked by
//! another. This module describes such a shop, and proves that whatever
//! way the units of work take turns, the tables are always what they
//! would be had the finished ones run one after the other, in the order in
//! which they finished.

use crate::assembler::{assemble, lemma_assemble_next, lemma_assemble_shape};
use crate::catalog::{
    distinct_ids, has_product, lemma_taken, lookup, lookup_active, stock_of, stocked,
};
use crate::error::Failure;
use crate::laws::{after_attempts, law_conservation, ordered_quantity, Attempt};
use crate::models::{OrderItemRequest, OrderView, ProductView};
use crate::tables::{placed, Tables};
use crate::transaction::{followed, lemma_keeps_track, lemma_start, on_track, rank};
use crate::workflow::{opened, Move, WorkflowState};
use vstd::prelude::*;

verus! {

/// Assembling leaves alone every product that no line asks for.
pub proof fn lemma_assemble_untouched(
    catalog: Seq<ProductView>,
    items: Seq<OrderItemRequest>,
    id: int,
)
    requires
        distinct_ids(catalog),
        stocked(catalog),
        assemble(catalog, items) is Ok,
        forall|j: int| 0 <= j < items.len() ==> (#[trigger] items[j]).product_id != id,
    ensures
        lookup(assemble(catalog, items)->Ok_0.catalog, id) == lookup(catalog, id),
    decreases items.len(),
{
    if items.len() > 0 {
        let shorter = items.drop_last();
        let acc = assemble(catalog, shorter)->Ok_0;
        assert forall|j: int| 0 <= j < shorter.len() implies (#[trigger] shorter[j]).product_id != id by {
            assert(shorter[j] == items[j]);
        }
        lemma_assemble_untouched(catalog, shorter, id);
        lemma_assemble_shape(catalog, shorter);
        let item = items.last();
        assert(item == items[items.len() - 1]);
        lemma_taken(acc.catalog, item.product_id as int, item.quantity as int, id);
    }
}

/// Assembling looks at the products that the lines ask for, and at no
/// others. On two catalogs that hold the same for each of these products,
/// the same lines are priced, with the same total; and a product on which
/// the catalogs agreed before is one on which they agree afterwards.
pub proof fn lemma_assemble_local(
    catalog: Seq<ProductView>,
    other: Seq<ProductView>,
    items: Seq<OrderItemRequest>,
    id: int,
)
    requires
        distinct_ids(catalog),
        stocked(catalog),
        distinct_ids(other),
        stocked(other),
        assemble(catalog, items) is Ok,
        forall|j: int|
            0 <= j < items.len() ==> lookup(catalog, (#[trigger] items[j]).product_id as int) == lookup(
                other,
                items[j].product_id as int,
            ),
    ensures
        assemble(other, items) is Ok,
        assemble(other, items)->Ok_0.lines == assemble(catalog, items)->Ok_0.lines,
        assemble(other, items)->Ok_0.total == assemble(catalog, items)->Ok_0.total,
        lookup(catalog, id) == lookup(other, id) ==> lookup(assemble(catalog, items)->Ok_0.catalog, id)
            == lookup(assemble(other, items)->Ok_0.catalog, id),
    decreases items.len(),
{
    if items.len() > 0 {
        let shorter = items.drop_last();
        let item = items.last();
        let q = item.product_id as int;
        assert(item == items[items.len() - 1]);
        assert forall|j: int| 0 <= j < shorter.len() implies lookup(
            catalog,
            (#[trigger] shorter[j]).product_id as int,
        ) == lookup(other, shorter[j].product_id as int) by {
            assert(shorter[j] == items[j]);
        }
        lemma_assemble_local(catalog, other, shorter, q);
        lemma_assemble_local(catalog, other, shorter, id);
        lemma_assemble_shape(catalog, shorter);
        lemma_assemble_shape(other, shorter);
        let acc = assemble(catalog, shorter)->Ok_0;
        let acc2 = assemble(other, shorter)->Ok_0;
        assert(lookup_active(acc.catalog, q) == lookup_active(acc2.catalog, q));
        lemma_taken(acc.catalog, q, item.quantity as int, id);
        lemma_taken(acc2.catalog, q, item.quantity as int, id);
    }
}

/// One unit of work in progress.
pub struct Session {
    /// The request it serves, the identifier of its order, and its time.
    pub attempt: Attempt,
    /// The state of its workflow.
    pub state: WorkflowState,
    /// The storage action that its workflow asked for last, and that the
    /// storage has not performed yet.
    pub pending: Move,
    /// The identifiers of the products whose rows it has locked.
    pub held: Set<int>,
}

/// A shop with units of work in progress.
pub struct Shop {
    /// The tables as committed: what a unit of work sees of the others.
    pub committed: Tables,
    /// The units of work in progress, each under a name of its own.
    pub sessions: Map<int, Session>,
    /// The attempts that have come to their end by themselves, in the
    /// order in which they did.
    pub history: Seq<Attempt>,
    /// How each of these attempts ended.
    pub outcomes: Seq<Result<OrderView, Failure>>,
}

/// What can happen next in a shop.
pub enum Turn {
    /// A request arrives, and a unit of work opens for it under a name.
    Open { session: int, attempt: Attempt },
    /// The storage performs what a session asked for last, and the
    /// session's workflow decides on the reply. A lock that another
    /// session holds makes the session wait. Once all lines are priced,
    /// the rows are inserted and the unit of work is committed in one
    /// turn.
    Run { session: int },
    /// The storage fails a session, as it does to end a deadlock: the
    /// unit of work is abandoned.
    Fail { session: int },
}

/// The tables as a unit of work sees them before it inserts its rows: the
/// committed tables, with the stock of its lines so far taken.
pub open spec fn seen(committed: Tables, w: WorkflowState) -> Tables {
    match assemble(committed.products, w.checkout.items.take(w.cursor)) {
        Ok(a) => Tables { products: a.catalog, ..committed },
        Err(_) => committed,
    }
}

/// Whether a session holds the lock on the product with this identifier.
pub open spec fn holds(g: Shop, session: int, id: int) -> bool {
    g.sessions.contains_key(session) && g.sessions[session].held.contains(id)
}

/// Whether another session holds the lock on the product with this
/// identifier.
pub open spec fn locked_by_other(g: Shop, session: int, id: int) -> bool {
    exists|other: int| other != session && #[trigger] holds(g, other, id)
}

/// A unit of work run to its end without a break: the committed tables
/// afterwards, and the last word of the workflow. The tables of the unit of
/// work become the committed ones when it commits.
pub open spec fn driven(
    committed: Tables,
    work: Tables,
    w: WorkflowState,
    m: Move,
    now: int,
    steps: nat,
) -> (Tables, Move)
    decreases steps,
{
    if m is Respond || m is Reject || steps == 0 {
        (committed, m)
    } else {
        let (work2, w2, m2) = followed(work, w, m, now);
        driven(
            if m is Commit {
                work
            } else {
                committed
            },
            work2,
            w2,
            m2,
            now,
            (steps - 1) as nat,
        )
    }
}

/// The shop after a session has come to its end by itself: it is gone,
/// and its attempt and outcome are on record.
pub open spec fn ended(
    g: Shop,
    session: int,
    committed: Tables,
    outcome: Result<OrderView, Failure>,
) -> Shop {
    Shop {
        committed,
        sessions: g.sessions.remove(session),
        history: g.history.push(g.sessions[session].attempt),
        outcomes: g.outcomes.push(outcome),
    }
}

/// The shop after a session has taken a step: it goes on under its name,
/// or, if its workflow rejected the request, it has come to its end.
pub open spec fn moved(g: Shop, session: int, s: Session) -> Shop {
    let named = Shop { sessions: g.sessions.insert(session, s), ..g };
    match s.pending {
        Move::Reject(e) => ended(named, session, g.committed, Err(e)),
        _ => named,
    }
}

/// The shop after a turn. A turn that cannot be taken leaves the shop as
/// it is.
pub open spec fn turn(g: Shop, t: Turn) -> Shop {
    match t {
        Turn::Open { session, attempt } => if g.sessions.contains_key(session) {
            g
        } else {
            let (w, m) = opened(attempt.checkout, attempt.order_id);
            moved(g, session, Session { attempt, state: w, pending: m, held: Set::empty() })
        },
        Turn::Run { session } => if !g.sessions.contains_key(session) {
            g
        } else {
            let s = g.sessions[session];
            let work = seen(g.committed, s.state);
            let (_, w2, m2) = followed(work, s.state, s.pending, s.attempt.now);
            match s.pending {
                Move::LockProduct { product_id } => if locked_by_other(g, session, product_id) {
                    g
                } else {
                    moved(
                        g,
                        session,
                        Session { state: w2, pending: m2, held: s.held.insert(product_id), ..s },
                    )
                },
                Move::InsertOrder(_) => {
                    let (committed, last) = driven(
                        g.committed,
                        work,
                        s.state,
                        s.pending,
                        s.attempt.now,
                        rank(s.state) as nat,
                    );
                    match last {
                        Move::Respond(order) => ended(g, session, committed, Ok(order)),
                        Move::Reject(e) => ended(g, session, committed, Err(e)),
                        _ => g,
                    }
                },
                _ => moved(g, session, Session { state: w2, pending: m2, ..s }),
            }
        },
        Turn::Fail { session } => Shop { sessions: g.sessions.remove(session), ..g },
    }
}

/// The shop after a series of turns.
pub open spec fn after_turns(g: Shop, turns: Seq<Turn>) -> Shop
    decreases turns.len(),
{
    if turns.len() == 0 {
        g
    } else {
        turn(after_turns(g, turns.drop_last()), turns.last())
    }
}

/// A shop in which nothing is in progress and nothing has happened yet.
pub open spec fn quiet(t: Tables) -> Shop {
    Shop { committed: t, sessions: Map::empty(), history: Seq::empty(), outcomes: Seq::empty() }
}

/// The number of requested lines whose products a session must hold the
/// locks of.
pub open spec fn locked_lines(s: Session) -> int {
    match s.pending {
        Move::LockProduct { .. } => s.state.cursor,
        Move::DecrementStock { .. } => s.state.cursor + 1,
        Move::InsertOrder(_) => s.attempt.checkout.items.len() as int,
        _ => 0,
    }
}

/// What holds of every session in progress: its workflow is where a unit
/// of work alone on the committed tables would be, and it holds the lock
/// on the product of every line that it has priced.
pub open spec fn tracking(committed: Tables, s: Session) -> bool {
    &&& on_track(
        committed,
        s.attempt.checkout,
        s.attempt.order_id,
        s.attempt.now,
        committed,
        seen(committed, s.state),
        s.state,
        s.pending,
    )
    &&& (s.pending is Begin || s.pending is LockProduct || s.pending is DecrementStock
        || s.pending is InsertOrder)
    &&& forall|j: int|
        0 <= j < locked_lines(s) ==> s.held.contains(
            (#[trigger] s.attempt.checkout.items[j]).product_id as int,
        )
}

/// The record is right: the committed tables are what the attempts on
/// record give when they run one after the other from `initial`, each
/// outcome on record is the outcome of its attempt in that run, and the
/// committed tables meet their constraints.
pub open spec fn recorded(g: Shop, initial: Tables) -> bool {
    &&& g.committed.wf()
    &&& g.committed == after_attempts(initial, g.history)
    &&& g.outcomes.len() == g.history.len()
    &&& forall|k: int|
        0 <= k < g.history.len() ==> #[trigger] g.outcomes[k] == placed(
            after_attempts(initial, g.history.take(k)),
            g.history[k].checkout,
            g.history[k].order_id,
            g.history[k].now,
        ).1
}

/// Locks are exclusive: no two sessions hold the lock on one product.
pub open spec fn exclusive(g: Shop) -> bool {
    forall|a: int, b: int, id: int| a != b ==> !(#[trigger] holds(g, a, id) && #[trigger] holds(g, b, id))
}

/// Every session in progress is on track.
pub open spec fn all_tracking(g: Shop) -> bool {
    forall|a: int| g.sessions.contains_key(a) ==> tracking(g.committed, #[trigger] g.sessions[a])
}

/// What holds of a shop at all times, if it started from the tables
/// `initial` with nothing in progress.
pub open spec fn coherent(g: Shop, initial: Tables) -> bool {
    &&& recorded(g, initial)
    &&& exclusive(g)
    &&& all_tracking(g)
}

/// A unit of work that is on track and runs to its end without a break
/// ends as the tables and the request demand: with the order and the
/// tables that `placed` gives, or with its rejection and the tables
/// untouched.
pub proof fn lemma_driven(
    t0: Tables,
    attempt: Attempt,
    work: Tables,
    w: WorkflowState,
    m: Move,
    steps: nat,
)
    requires
        t0.wf(),
        work.wf(),
        on_track(t0, attempt.checkout, attempt.order_id, attempt.now, t0, work, w, m),
        steps >= rank(w),
    ensures
        ({
            let (committed, last) = driven(t0, work, w, m, attempt.now, steps);
            let outcome = placed(t0, attempt.checkout, attempt.order_id, attempt.now);
            &&& committed.wf()
            &&& last is Respond || last is Reject
            &&& last matches Move::Respond(order) ==> outcome == (committed, Ok::<OrderView, Failure>(order))
            &&& last matches Move::Reject(e) ==> committed == t0 && outcome == (
                t0,
                Err::<OrderView, Failure>(e),
            )
        }),
    decreases steps,
{
    if m is Respond || m is Reject {
    } else {
        lemma_keeps_track(t0, attempt.checkout, attempt.order_id, attempt.now, work, w, m);
        let (work2, w2, m2) = followed(work, w, m, attempt.now);
        if m is Commit {
            assert(m2 is Respond);
            assert(driven(work, work2, w2, m2, attempt.now, (steps - 1) as nat) == (work, m2));
        } else {
            lemma_driven(t0, attempt, work2, w2, m2, (steps - 1) as nat);
        }
    }
}

/// What a session that is on track sees of the tables meets the
/// constraints of the tables.
pub proof fn lemma_seen_wf(committed: Tables, s: Session)
    requires
        committed.wf(),
        tracking(committed, s),
    ensures
        seen(committed, s.state).wf(),
{
    let items = s.attempt.checkout.items;
    let done = items.take(s.state.cursor);
    if assemble(committed.products, done) is Ok {
        lemma_assemble_shape(committed.products, done);
        let after = assemble(committed.products, done)->Ok_0.catalog;
        assert forall|k: int| 0 <= k < after.len() implies (#[trigger] after[k]).id
            < committed.next_product_id by {
            assert(committed.products[k].id < committed.next_product_id);
        }
    }
}

/// A session stays on track when the committed tables change, as long as
/// no product that it holds the lock of changes.
pub proof fn lemma_stable(committed: Tables, after: Tables, s: Session)
    requires
        committed.wf(),
        after.wf(),
        tracking(committed, s),
        forall|id: int| s.held.contains(id) ==> lookup(after.products, id) == lookup(committed.products, id),
    ensures
        tracking(after, s),
{
    let items = s.attempt.checkout.items;
    let w = s.state;
    let i = w.cursor;
    match s.pending {
        Move::Begin => {
            assert(items.take(0) =~= Seq::<OrderItemRequest>::empty());
        },
        Move::LockProduct { product_id } => {
            let done = items.take(i);
            assert forall|j: int| 0 <= j < done.len() implies lookup(
                committed.products,
                (#[trigger] done[j]).product_id as int,
            ) == lookup(after.products, done[j].product_id as int) by {
                assert(done[j] == items[j]);
                assert(s.held.contains(items[j].product_id as int));
            }
            lemma_assemble_local(committed.products, after.products, done, 0);
        },
        Move::DecrementStock { product_id, quantity } => {
            let done = items.take(i);
            let next = items.take(i + 1);
            assert(s.held.contains(items[i].product_id as int));
            assert forall|j: int| 0 <= j < next.len() implies lookup(
                committed.products,
                (#[trigger] next[j]).product_id as int,
            ) == lookup(after.products, next[j].product_id as int) by {
                assert(next[j] == items[j]);
                assert(s.held.contains(items[j].product_id as int));
            }
            assert forall|j: int| 0 <= j < done.len() implies lookup(
                committed.products,
                (#[trigger] done[j]).product_id as int,
            ) == lookup(after.products, done[j].product_id as int) by {
                assert(done[j] == items[j]);
                assert(s.held.contains(items[j].product_id as int));
            }
            lemma_assemble_next(committed.products, items, i);
            lemma_assemble_next(after.products, items, i);
            lemma_assemble_local(committed.products, after.products, done, product_id);
            lemma_assemble_local(committed.products, after.products, next, 0);
        },
        Move::InsertOrder(draft) => {
            assert(items.take(i) =~= items);
            assert forall|j: int| 0 <= j < items.len() implies lookup(
                committed.products,
                (#[trigger] items[j]).product_id as int,
            ) == lookup(after.products, items[j].product_id as int) by {
                assert(s.held.contains(items[j].product_id as int));
            }
            lemma_assemble_local(committed.products, after.products, items, 0);
        },
        _ => {},
    }
}

/// The end of a session keeps the shop coherent, if the session ends as
/// its attempt would alone on the committed tables, and the sessions that go
/// on are on track on the tables that it leaves.
proof fn lemma_ended(
    g: Shop,
    initial: Tables,
    session: int,
    attempt: Attempt,
    committed: Tables,
    outcome: Result<OrderView, Failure>,
)
    requires
        recorded(g, initial),
        exclusive(g),
        committed.wf(),
        placed(g.committed, attempt.checkout, attempt.order_id, attempt.now) == (committed, outcome),
        forall|a: int|
            a != session && g.sessions.contains_key(a) ==> tracking(committed, #[trigger] g.sessions[a]),
    ensures
        coherent(
            Shop {
                committed,
                sessions: g.sessions.remove(session),
                history: g.history.push(attempt),
                outcomes: g.outcomes.push(outcome),
            },
            initial,
        ),
{
    let after = Shop {
        committed,
        sessions: g.sessions.remove(session),
        history: g.history.push(attempt),
        outcomes: g.outcomes.push(outcome),
    };
    assert(after.history.drop_last() =~= g.history);
    assert forall|k: int| 0 <= k < after.history.len() implies #[trigger] after.outcomes[k] == placed(
        after_attempts(initial, after.history.take(k)),
        after.history[k].checkout,
        after.history[k].order_id,
        after.history[k].now,
    ).1 by {
        if k < g.history.len() {
            assert(after.history.take(k) =~= g.history.take(k));
            assert(after.outcomes[k] == g.outcomes[k]);
        } else {
            assert(after.history.take(k) =~= g.history);
        }
    }
    assert forall|a: int, b: int, id: int| a != b implies !(#[trigger] holds(after, a, id)
        && #[trigger] holds(after, b, id)) by {
        if holds(after, a, id) && holds(after, b, id) {
            assert(holds(g, a, id) && holds(g, b, id));
        }
    }
}

/// A session that takes a step and goes on keeps the shop coherent, if it
/// is on track afterwards and holds no lock that another session holds.
proof fn lemma_named(g: Shop, initial: Tables, session: int, s: Session)
    requires
        coherent(g, initial),
        tracking(g.committed, s),
        forall|other: int, id: int|
            other != session && s.held.contains(id) ==> !#[trigger] holds(g, other, id),
    ensures
        coherent(Shop { sessions: g.sessions.insert(session, s), ..g }, initial),
{
    let after = Shop { sessions: g.sessions.insert(session, s), ..g };
    assert forall|a: int, b: int, id: int| a != b implies !(#[trigger] holds(after, a, id)
        && #[trigger] holds(after, b, id)) by {
        if holds(after, a, id) && holds(after, b, id) {
            if a == session {
                assert(holds(g, b, id));
            } else if b == session {
                assert(holds(g, a, id));
            } else {
                assert(holds(g, a, id) && holds(g, b, id));
            }
        }
    }
    assert forall|a: int| after.sessions.contains_key(a) implies tracking(
        after.committed,
        #[trigger] after.sessions[a],
    ) by {
        if a != session {
            assert(after.sessions[a] == g.sessions[a]);
        }
    }
}

/// A session that takes a step keeps the shop coherent, if it is on
/// track afterwards or has ended as its attempt would alone on the
/// committed tables, and holds no lock that another session holds.
proof fn lemma_moved(g: Shop, initial: Tables, session: int, s: Session)
    requires
        coherent(g, initial),
        forall|other: int, id: int|
            other != session && s.held.contains(id) ==> !#[trigger] holds(g, other, id),
        s.pending matches Move::Reject(e) ==> placed(
            g.committed,
            s.attempt.checkout,
            s.attempt.order_id,
            s.attempt.now,
        ) == (g.committed, Err::<OrderView, Failure>(e)),
        !(s.pending is Reject) ==> tracking(g.committed, s),
    ensures
        coherent(moved(g, session, s), initial),
{
    match s.pending {
        Move::Reject(e) => {
            let named = Shop { sessions: g.sessions.insert(session, s), ..g };
            assert(named.sessions.remove(session) =~= g.sessions.remove(session));
            lemma_ended(g, initial, session, s.attempt, g.committed, Err(e));
        },
        _ => {
            lemma_named(g, initial, session, s);
        },
    }
}

/// Opening a unit of work keeps the shop coherent.
proof fn lemma_open(g: Shop, initial: Tables, session: int, attempt: Attempt)
    requires
        coherent(g, initial),
    ensures
        coherent(turn(g, Turn::Open { session, attempt }), initial),
{
    if !g.sessions.contains_key(session) {
        let (w, m) = opened(attempt.checkout, attempt.order_id);
        let s = Session { attempt, state: w, pending: m, held: Set::empty() };
        lemma_start(g.committed, attempt.checkout, attempt.order_id, attempt.now);
        assert(attempt.checkout.items.take(0) =~= Seq::<OrderItemRequest>::empty());
        assert(seen(g.committed, w) == g.committed);
        lemma_moved(g, initial, session, s);
    }
}

/// A step of a session that leaves the committed tables alone keeps the
/// shop coherent.
proof fn lemma_step(g: Shop, initial: Tables, session: int)
    requires
        coherent(g, initial),
        g.sessions.contains_key(session),
        !(g.sessions[session].pending is InsertOrder),
    ensures
        coherent(turn(g, Turn::Run { session }), initial),
{
    let s = g.sessions[session];
    let items = s.attempt.checkout.items;
    let t0 = g.committed;
    let work = seen(t0, s.state);
    let (work2, w2, m2) = followed(work, s.state, s.pending, s.attempt.now);
    lemma_seen_wf(t0, s);
    lemma_keeps_track(
        t0,
        s.attempt.checkout,
        s.attempt.order_id,
        s.attempt.now,
        work,
        s.state,
        s.pending,
    );
    assert forall|other: int, id: int| other != session && s.held.contains(id) implies !#[trigger] holds(
        g,
        other,
        id,
    ) by {
        if holds(g, other, id) {
            assert(holds(g, session, id));
        }
    }
    match s.pending {
        Move::LockProduct { product_id } => {
            if !locked_by_other(g, session, product_id) {
                let s2 = Session { state: w2, pending: m2, held: s.held.insert(product_id), ..s };
                assert forall|other: int, id: int|
                    other != session && s2.held.contains(id) implies !#[trigger] holds(g, other, id) by {
                    if holds(g, other, id) {
                        if id == product_id {
                            assert(locked_by_other(g, session, product_id));
                        } else {
                            assert(holds(g, session, id));
                        }
                    }
                }
                if !(m2 is Reject) {
                    assert(work2 == work);
                    assert(seen(t0, w2) == work);
                    assert forall|j: int| 0 <= j < locked_lines(s2) implies s2.held.contains(
                        (#[trigger] items[j]).product_id as int,
                    ) by {
                        if j < s.state.cursor {
                            assert(s.held.contains(items[j].product_id as int));
                        }
                    }
                }
                lemma_moved(g, initial, session, s2);
            }
        },
        _ => {
            let s2 = Session { state: w2, pending: m2, ..s };
            if !(m2 is Reject) {
                if m2 is InsertOrder {
                    assert(items.take(w2.cursor) =~= items);
                }
                assert(seen(t0, w2) == work2);
                assert forall|j: int| 0 <= j < locked_lines(s2) implies s2.held.contains(
                    (#[trigger] items[j]).product_id as int,
                ) by {
                    assert(j < locked_lines(s));
                }
            }
            lemma_moved(g, initial, session, s2);
        },
    }
}

/// The turn in which a session inserts its rows and commits keeps the
/// shop coherent.
proof fn lemma_finish(g: Shop, initial: Tables, session: int)
    requires
        coherent(g, initial),
        g.sessions.contains_key(session),
        g.sessions[session].pending is InsertOrder,
    ensures
        coherent(turn(g, Turn::Run { session }), initial),
{
    let s = g.sessions[session];
    let items = s.attempt.checkout.items;
    let t0 = g.committed;
    let work = seen(t0, s.state);
    lemma_seen_wf(t0, s);
    lemma_driven(t0, s.attempt, work, s.state, s.pending, rank(s.state) as nat);
    let (committed, last) = driven(t0, work, s.state, s.pending, s.attempt.now, rank(s.state) as nat);
    assert forall|a: int| a != session && g.sessions.contains_key(a) implies tracking(
        committed,
        #[trigger] g.sessions[a],
    ) by {
        let other = g.sessions[a];
        if last is Respond {
            assert forall|id: int| other.held.contains(id) implies lookup(committed.products, id) == lookup(
                t0.products,
                id,
            ) by {
                assert(holds(g, a, id));
                assert forall|j: int| 0 <= j < items.len() implies (#[trigger] items[j]).product_id
                    != id by {
                    assert(s.held.contains(items[j].product_id as int));
                    if items[j].product_id == id {
                        assert(holds(g, session, id));
                    }
                }
                lemma_assemble_untouched(t0.products, items, id);
            }
            lemma_stable(t0, committed, other);
        }
    }
    match last {
        Move::Respond(order) => lemma_ended(g, initial, session, s.attempt, committed, Ok(order)),
        Move::Reject(e) => lemma_ended(g, initial, session, s.attempt, committed, Err(e)),
        _ => {},
    }
}

/// Whatever happens next in a shop that is coherent, it stays coherent.
pub proof fn lemma_turn(g: Shop, initial: Tables, t: Turn)
    requires
        coherent(g, initial),
    ensures
        coherent(turn(g, t), initial),
{
    match t {
        Turn::Open { session, attempt } => lemma_open(g, initial, session, attempt),
        Turn::Run { session } => {
            if g.sessions.contains_key(session) {
                if g.sessions[session].pending is InsertOrder {
                    lemma_finish(g, initial, session);
                } else {
                    lemma_step(g, initial, session);
                }
            }
        },
        Turn::Fail { session } => {
            let after = turn(g, t);
            assert forall|a: int, b: int, id: int| a != b implies !(#[trigger] holds(after, a, id)
                && #[trigger] holds(after, b, id)) by {
                if holds(after, a, id) && holds(after, b, id) {
                    assert(holds(g, a, id) && holds(g, b, id));
                }
            }
        },
    }
}

/// Serialisability. Start from tables that meet their constraints, with
/// nothing in progress, and let anything happen, in any order: requests
/// arrive, units of work take their steps one among the others, wait for
/// locks, are failed. At every moment the committed tables are exactly
/// what the attempts that have ended by then give when they run alone, one
/// after the other, in the order in which they ended, and each of them
/// has ended as it does in that run. No two units of work hold the lock on
/// one product.
pub proof fn law_sessions_serialise(t: Tables, turns: Seq<Turn>)
    requires
        t.wf(),
    ensures
        coherent(after_turns(quiet(t), turns), t),
    decreases turns.len(),
{
    if turns.len() == 0 {
        let g = quiet(t);
        assert forall|a: int, b: int, id: int| a != b implies !(#[trigger] holds(g, a, id)
            && #[trigger] holds(g, b, id)) by {}
    } else {
        law_sessions_serialise(t, turns.drop_last());
        lemma_turn(after_turns(quiet(t), turns.drop_last()), t, turns.last());
    }
}

/// Conservation, under concurrency. Whatever happens in a shop, for every
/// product, the committed stock at the start minus the committed stock now
/// equals the quantity that the committed order lines stored in between
/// account for, and the committed stock is not negative.
pub proof fn law_concurrent_conservation(t: Tables, turns: Seq<Turn>, product_id: int)
    requires
        t.wf(),
    ensures
        ({
            let now = after_turns(quiet(t), turns).committed;
            &&& now.wf()
            &&& has_product(now.products, product_id) == has_product(t.products, product_id)
            &&& stock_of(t.products, product_id) - stock_of(now.products, product_id) == ordered_quantity(
                now.items,
                product_id,
            ) - ordered_quantity(t.items, product_id)
            &&& stock_of(now.products, product_id) >= 0
        }),
{
    law_sessions_serialise(t, turns);
    law_conservation(t, after_turns(quiet(t), turns).history, product_id);
}

/// Atomicity, under concurrency. The committed tables change only in the
/// turn in which a unit of work commits its order. A session that waits,
/// that is rejected or that is failed leaves them as they are, whatever it
/// had done before.
pub proof fn law_only_commits_change_tables(g: Shop, initial: Tables, t: Turn)
    requires
        coherent(g, initial),
    ensures
        turn(g, t).committed != g.committed ==> {
            &&& t is Run
            &&& turn(g, t).outcomes.len() == g.outcomes.len() + 1
            &&& turn(g, t).outcomes.last() is Ok
        },
{
    if let Turn::Run { session } = t {
        if g.sessions.contains_key(session) && g.sessions[session].pending is InsertOrder {
            let s = g.sessions[session];
            lemma_seen_wf(g.committed, s);
            lemma_driven(
                g.committed,
                s.attempt,
                seen(g.committed, s.state),
                s.state,
                s.pending,
                rank(s.state) as nat,
            );
        }
    }
}

} // verus!
