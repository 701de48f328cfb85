use boutique_bouquet_api::assembler::PricedLine;
use boutique_bouquet_api::error::AppError;
use boutique_bouquet_api::models::{CreateOrderRequest, Order, OrderItemRequest, Product};
use boutique_bouquet_api::money::Money;
use boutique_bouquet_api::status::OrderStatus;
use boutique_bouquet_api::workflow::{
    Action, NewOrder, NewOrderItem, OrderWorkflow, Phase, StoreReply,
};

fn amount(mantissa: i128, scale: u32) -> Money {
    Money::new(mantissa, scale).unwrap()
}

fn request(items: Vec<OrderItemRequest>) -> CreateOrderRequest {
    CreateOrderRequest {
        customer_name: "Bo".to_string(),
        customer_email: "bo@example.com".to_string(),
        customer_phone: "555-0101".to_string(),
        delivery_address: "2 Side Street".to_string(),
        delivery_city: "Shelbyville".to_string(),
        delivery_postal_code: None,
        notes: Some("Leave at the door".to_string()),
        items,
    }
}

fn stocked(id: i32, name: &str, price: Money, stock: i32) -> Product {
    Product {
        id,
        name: name.to_string(),
        description: None,
        price,
        image_url: None,
        stock_quantity: stock,
        is_active: true,
        created_at: 0,
        updated_at: 0,
    }
}

fn stored(draft: &NewOrder, now: i64) -> Order {
    Order {
        id: draft.id,
        customer_name: draft.customer_name.clone(),
        customer_email: draft.customer_email.clone(),
        customer_phone: draft.customer_phone.clone(),
        delivery_address: draft.delivery_address.clone(),
        delivery_city: draft.delivery_city.clone(),
        delivery_postal_code: draft.delivery_postal_code.clone(),
        total_amount: draft.total_amount,
        status: draft.status,
        notes: draft.notes.clone(),
        created_at: now,
        updated_at: now,
    }
}

fn expect_reject(action: Action) -> AppError {
    match action {
        Action::Reject(e) => e,
        other => panic!("expected a rejection, got {:?}", other),
    }
}

#[test]
fn workflow_asks_for_each_storage_action_in_turn() {
    let items = vec![
        OrderItemRequest { product_id: 7, quantity: 2 },
        OrderItemRequest { product_id: 3, quantity: 1 },
    ];
    let (w, action) = OrderWorkflow::start(request(items), 500);
    assert_eq!(w.order_id(), 500);
    assert_eq!(w.phase(), Phase::Opening);
    assert!(matches!(action, Action::Begin));

    let (w, action) = w.step(StoreReply::Started);
    assert_eq!(w.phase(), Phase::Locking);
    assert!(matches!(action, Action::LockProduct { product_id: 7 }));

    let (w, action) = w.step(StoreReply::Product(Some(stocked(7, "Seven", amount(1250, 2), 2))));
    assert_eq!(w.phase(), Phase::Decrementing);
    assert!(matches!(action, Action::DecrementStock { product_id: 7, quantity: 2 }));

    let (w, action) = w.step(StoreReply::StockUpdated);
    assert!(matches!(action, Action::LockProduct { product_id: 3 }));

    let (w, action) = w.step(StoreReply::Product(Some(stocked(3, "Three", amount(99, 2), 1))));
    assert!(matches!(action, Action::DecrementStock { product_id: 3, quantity: 1 }));

    let (w, action) = w.step(StoreReply::StockUpdated);
    assert_eq!(w.phase(), Phase::InsertingOrder);
    let draft = match action {
        Action::InsertOrder(draft) => draft,
        other => panic!("expected the order row, got {:?}", other),
    };
    assert_eq!(
        draft,
        NewOrder {
            id: 500,
            customer_name: "Bo".to_string(),
            customer_email: "bo@example.com".to_string(),
            customer_phone: "555-0101".to_string(),
            delivery_address: "2 Side Street".to_string(),
            delivery_city: "Shelbyville".to_string(),
            delivery_postal_code: None,
            total_amount: amount(2599, 2),
            status: OrderStatus::Pending,
            notes: Some("Leave at the door".to_string()),
        }
    );

    let order = stored(&draft, 77);
    let (w, action) = w.step(StoreReply::OrderInserted(order.clone()));
    assert_eq!(w.phase(), Phase::InsertingItems);
    match action {
        Action::InsertItem(item) => assert_eq!(
            item,
            NewOrderItem {
                order_id: 500,
                product_id: 7,
                product_name: "Seven".to_string(),
                product_price: amount(1250, 2),
                quantity: 2,
                subtotal: amount(2500, 2),
            }
        ),
        other => panic!("expected an order line row, got {:?}", other),
    }

    let (w, action) = w.step(StoreReply::ItemInserted);
    match action {
        Action::InsertItem(item) => assert_eq!(
            item,
            NewOrderItem {
                order_id: 500,
                product_id: 3,
                product_name: "Three".to_string(),
                product_price: amount(99, 2),
                quantity: 1,
                subtotal: amount(99, 2),
            }
        ),
        other => panic!("expected an order line row, got {:?}", other),
    }

    let (w, action) = w.step(StoreReply::ItemInserted);
    assert_eq!(w.phase(), Phase::Committing);
    assert!(matches!(action, Action::Commit));

    let (w, action) = w.step(StoreReply::Committed);
    assert_eq!(w.phase(), Phase::Finished);
    match action {
        Action::Respond(answer) => assert_eq!(answer, order),
        other => panic!("expected the order, got {:?}", other),
    }
}

#[test]
fn workflow_rejects_an_empty_request_before_opening() {
    let (w, action) = OrderWorkflow::start(request(vec![]), 1);
    assert_eq!(w.phase(), Phase::Finished);
    assert_eq!(
        expect_reject(action),
        AppError::BadRequest("Order must contain at least one item".to_string())
    );
}

#[test]
fn workflow_ends_with_the_fault_at_every_phase() {
    let items = vec![OrderItemRequest { product_id: 7, quantity: 1 }];
    let replies: Vec<fn() -> StoreReply> = vec![
        || StoreReply::Started,
        || StoreReply::Product(Some(stocked(7, "Seven", amount(100, 2), 5))),
        || StoreReply::StockUpdated,
    ];
    for faulty in 0..=5 {
        let (mut w, mut action) = OrderWorkflow::start(request(items.clone()), 9);
        let mut step = 0;
        let rejection = loop {
            let reply = if step == faulty {
                StoreReply::Fault(format!("connection lost at step {}", step))
            } else {
                match &action {
                    Action::InsertOrder(draft) => StoreReply::OrderInserted(stored(draft, 1)),
                    Action::InsertItem(_) => StoreReply::ItemInserted,
                    Action::Commit => StoreReply::Committed,
                    _ => replies[step](),
                }
            };
            let next = w.step(reply);
            w = next.0;
            action = next.1;
            step += 1;
            if let Action::Reject(e) = action {
                break e;
            }
            assert!(!matches!(action, Action::Respond(_)));
        };
        assert_eq!(step, faulty + 1);
        assert_eq!(w.phase(), Phase::Finished);
        assert_eq!(
            rejection,
            AppError::DatabaseError(format!("connection lost at step {}", faulty))
        );
        assert_eq!(rejection.status_code(), 500);
    }
}

#[test]
fn workflow_refuses_replies_that_answer_nothing() {
    let items = vec![OrderItemRequest { product_id: 7, quantity: 1 }];
    let (w, _) = OrderWorkflow::start(request(items.clone()), 9);
    let (w, action) = w.step(StoreReply::Committed);
    assert_eq!(w.phase(), Phase::Finished);
    assert_eq!(
        expect_reject(action),
        AppError::InternalServerError("Unexpected storage reply".to_string())
    );
    let (w, action) = w.step(StoreReply::Started);
    assert_eq!(w.phase(), Phase::Finished);
    assert_eq!(
        expect_reject(action),
        AppError::InternalServerError("Unexpected storage reply".to_string())
    );

    let (w, _) = OrderWorkflow::start(request(items), 9);
    let (w, _) = w.step(StoreReply::Started);
    let (_, action) = w.step(StoreReply::StockUpdated);
    assert_eq!(
        expect_reject(action),
        AppError::InternalServerError("Unexpected storage reply".to_string())
    );
}

#[test]
fn workflow_rejects_a_line_without_locking_for_it() {
    let items = vec![
        OrderItemRequest { product_id: 7, quantity: 1 },
        OrderItemRequest { product_id: 8, quantity: 0 },
    ];
    let (w, _) = OrderWorkflow::start(request(items), 9);
    let (w, _) = w.step(StoreReply::Started);
    let (w, _) = w.step(StoreReply::Product(Some(stocked(7, "Seven", amount(100, 2), 5))));
    let (w, action) = w.step(StoreReply::StockUpdated);
    assert_eq!(w.phase(), Phase::Finished);
    assert_eq!(
        expect_reject(action),
        AppError::BadRequest("Quantity must be positive".to_string())
    );
}

#[test]
fn workflow_draws_a_random_identifier() {
    let items = vec![OrderItemRequest { product_id: 7, quantity: 1 }];
    let (a, first) = OrderWorkflow::begin(request(items.clone()));
    let (b, _) = OrderWorkflow::begin(request(items));
    assert!(matches!(first, Action::Begin));
    assert_ne!(a.order_id(), b.order_id());
    assert_eq!((a.order_id() >> 76) & 0xf, 4);
    assert_eq!((b.order_id() >> 62) & 0x3, 2);
}

#[test]
fn priced_line_is_a_plain_record() {
    let line = PricedLine {
        product_id: 1,
        product_name: "One".to_string(),
        product_price: amount(100, 2),
        quantity: 2,
        subtotal: amount(200, 2),
    };
    assert_eq!(line.clone(), line);
}
