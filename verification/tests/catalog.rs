use boutique_bouquet_api::error::AppError;
use boutique_bouquet_api::models::{
    CreateOrderRequest, CreateProductRequest, OrderItemRequest, Product, UpdateProductRequest,
};
use boutique_bouquet_api::money::Money;
use boutique_bouquet_api::store::Store;
use boutique_bouquet_api::workflow::{Action, NewOrderItem, OrderWorkflow, StoreReply};

fn price(mantissa: i128) -> Money {
    Money::new(mantissa, 2).unwrap()
}

fn draft(name: &str, stock: i32) -> CreateProductRequest {
    CreateProductRequest {
        name: name.to_string(),
        description: Some(format!("{} in a pot", name)),
        price: price(1200),
        stock_quantity: stock,
    }
}

fn no_change() -> UpdateProductRequest {
    UpdateProductRequest {
        name: None,
        description: None,
        price: None,
        stock_quantity: None,
        is_active: None,
    }
}

fn one_line(product_id: i32, quantity: i32) -> CreateOrderRequest {
    CreateOrderRequest {
        customer_name: "Cy".to_string(),
        customer_email: "cy@example.com".to_string(),
        customer_phone: "555-0102".to_string(),
        delivery_address: "3 Back Lane".to_string(),
        delivery_city: "Ogdenville".to_string(),
        delivery_postal_code: None,
        notes: None,
        items: vec![OrderItemRequest { product_id, quantity }],
    }
}

#[test]
fn products_get_consecutive_identifiers_and_defaults() {
    let mut store = Store::new();
    let a = store.create_product(draft("Aloe", 1), 100).unwrap();
    let b = store.create_product(draft("Basil", 0), 200).unwrap();
    assert_eq!(
        a,
        Product {
            id: 1,
            name: "Aloe".to_string(),
            description: Some("Aloe in a pot".to_string()),
            price: price(1200),
            image_url: None,
            stock_quantity: 1,
            is_active: true,
            created_at: 100,
            updated_at: 100,
        }
    );
    assert_eq!(b.id, 2);
    assert_eq!(store.get_product(2).unwrap(), b);
    store.delete_product(2).unwrap();
    let c = store.create_product(draft("Cactus", 0), 300).unwrap();
    assert_eq!(c.id, 3);
}

#[test]
fn negative_stock_is_a_storage_fault() {
    let mut store = Store::new();
    assert_eq!(
        store.create_product(draft("Aloe", -1), 1),
        Err(AppError::DatabaseError("stock_quantity out of range".to_string()))
    );
    assert!(store.list_all_products().is_empty());
    let a = store.create_product(draft("Aloe", 1), 1).unwrap();
    let mut patch = no_change();
    patch.stock_quantity = Some(-5);
    patch.name = Some("Changed".to_string());
    assert_eq!(
        store.update_product(a.id, &patch),
        Err(AppError::DatabaseError("stock_quantity out of range".to_string()))
    );
    assert_eq!(store.get_product(a.id).unwrap(), a);
}

#[test]
fn changing_and_deleting_need_the_product() {
    let mut store = Store::new();
    let missing = || AppError::NotFound("Product not found".to_string());
    assert_eq!(store.update_product(1, &no_change()), Err(missing()));
    assert_eq!(store.delete_product(1), Err(missing()));
    assert_eq!(store.get_product(1), Err(missing()));
    assert_eq!(store.set_product_image(1, "/uploads/a.png".to_string()), Err(missing()));
    let a = store.create_product(draft("Aloe", 1), 1).unwrap();
    assert_eq!(store.update_product(a.id, &no_change()), Ok(a.clone()));
    assert_eq!(store.delete_product(a.id), Ok(()));
    assert_eq!(store.delete_product(a.id), Err(missing()));
    assert_eq!(store.get_product(a.id), Err(missing()));
}

#[test]
fn inactive_products_are_hidden_from_customers_only() {
    let mut store = Store::new();
    let a = store.create_product(draft("Aloe", 1), 1).unwrap();
    let mut hide = no_change();
    hide.is_active = Some(false);
    let hidden = store.update_product(a.id, &hide).unwrap();
    assert!(!hidden.is_active);
    assert_eq!(
        store.get_product(a.id),
        Err(AppError::NotFound("Product not found".to_string()))
    );
    assert!(store.list_products().is_empty());
    assert_eq!(store.list_all_products(), vec![hidden]);
}

#[test]
fn image_is_recorded_on_the_product() {
    let mut store = Store::new();
    let a = store.create_product(draft("Aloe", 1), 1).unwrap();
    let changed = store.set_product_image(a.id, "/uploads/product-1-x.png".to_string()).unwrap();
    assert_eq!(changed.image_url, Some("/uploads/product-1-x.png".to_string()));
    assert_eq!(changed.name, "Aloe");
    assert_eq!(store.get_product(a.id).unwrap(), changed);
}

#[test]
fn listings_are_newest_first() {
    let mut store = Store::new();
    let a = store.create_product(draft("Aloe", 5), 30).unwrap();
    let b = store.create_product(draft("Basil", 5), 10).unwrap();
    let c = store.create_product(draft("Cactus", 5), 20).unwrap();
    let d = store.create_product(draft("Dill", 5), 30).unwrap();
    let names: Vec<String> = store.list_products().into_iter().map(|p| p.name).collect();
    assert_eq!(names, vec!["Aloe", "Dill", "Cactus", "Basil"]);
    let mut hide = no_change();
    hide.is_active = Some(false);
    store.update_product(c.id, &hide).unwrap();
    let names: Vec<String> = store.list_products().into_iter().map(|p| p.name).collect();
    assert_eq!(names, vec!["Aloe", "Dill", "Basil"]);
    let ids: Vec<i32> = store.list_all_products().into_iter().map(|p| p.id).collect();
    assert_eq!(ids, vec![a.id, d.id, c.id, b.id]);

    store.create_order_with_id(one_line(a.id, 1), 1, 50).unwrap();
    store.create_order_with_id(one_line(a.id, 1), 2, 70).unwrap();
    store.create_order_with_id(one_line(a.id, 1), 3, 60).unwrap();
    let ids: Vec<u128> = store.list_orders().into_iter().map(|o| o.id).collect();
    assert_eq!(ids, vec![2, 3, 1]);
}

#[test]
fn unknown_order_is_not_found() {
    let store = Store::new();
    assert_eq!(
        store.get_order(1).unwrap_err(),
        AppError::NotFound("Order not found".to_string())
    );
    assert_eq!(store.get_order(1).unwrap_err().status_code(), 404);
    assert!(store.list_orders().is_empty());
}

#[test]
fn storage_actions_keep_the_constraints() {
    let mut store = Store::new();
    let a = store.create_product(draft("Aloe", 2), 1).unwrap();
    assert!(matches!(store.perform(Action::Begin, 1), StoreReply::Started));
    match store.perform(Action::LockProduct { product_id: a.id }, 1) {
        StoreReply::Product(Some(found)) => assert_eq!(found, a),
        other => panic!("expected the product, got {:?}", other),
    }
    assert!(matches!(
        store.perform(Action::LockProduct { product_id: 9 }, 1),
        StoreReply::Product(None)
    ));
    match store.perform(Action::DecrementStock { product_id: a.id, quantity: 3 }, 1) {
        StoreReply::Fault(detail) => assert_eq!(detail, "stock_quantity out of range"),
        other => panic!("expected a fault, got {:?}", other),
    }
    assert_eq!(store.get_product(a.id).unwrap().stock_quantity, 2);
    assert!(matches!(
        store.perform(Action::DecrementStock { product_id: a.id, quantity: 2 }, 1),
        StoreReply::StockUpdated
    ));
    assert_eq!(store.get_product(a.id).unwrap().stock_quantity, 0);
    assert!(matches!(
        store.perform(Action::DecrementStock { product_id: 9, quantity: 2 }, 1),
        StoreReply::StockUpdated
    ));
    let orphan = NewOrderItem {
        order_id: 77,
        product_id: a.id,
        product_name: "Aloe".to_string(),
        product_price: price(1200),
        quantity: 1,
        subtotal: price(1200),
    };
    match store.perform(Action::InsertItem(orphan), 1) {
        StoreReply::Fault(detail) => assert_eq!(detail, "order item out of range"),
        other => panic!("expected a fault, got {:?}", other),
    }
    assert!(matches!(store.perform(Action::Commit, 1), StoreReply::Committed));
    match store.perform(Action::Reject(AppError::BadRequest("x".to_string())), 1) {
        StoreReply::Fault(detail) => assert_eq!(detail, "not a storage action"),
        other => panic!("expected a fault, got {:?}", other),
    }
}

#[test]
fn second_workflow_sees_the_stock_left_by_the_first() {
    let mut store = Store::new();
    let p = store.create_product(draft("Peony", 2), 1).unwrap();

    // Both requests arrive; the first one gets the lock on the product.
    let (first, first_action) = OrderWorkflow::start(one_line(p.id, 2), 1);
    let (second, second_action) = OrderWorkflow::start(one_line(p.id, 2), 2);
    let (first, lock) = first.step(store.perform(first_action, 10));
    let (second, blocked) = second.step(store.perform(second_action, 10));
    assert!(matches!(lock, Action::LockProduct { product_id: 1 }));
    assert!(matches!(blocked, Action::LockProduct { product_id: 1 }));

    // The first one runs to its end while the second one waits for the lock.
    let (mut workflow, mut action) = first.step(store.perform(lock, 10));
    let order = loop {
        match action {
            Action::Respond(order) => break order,
            Action::Reject(e) => panic!("the first order was rejected: {:?}", e),
            other => {
                let next = workflow.step(store.perform(other, 10));
                workflow = next.0;
                action = next.1;
            }
        }
    };
    assert_eq!(order.id, 1);
    assert_eq!(store.get_product(p.id).unwrap().stock_quantity, 0);

    // Now the second one gets the lock, and finds nothing left.
    let (_, verdict) = second.step(store.perform(blocked, 11));
    match verdict {
        Action::Reject(e) => {
            assert_eq!(
                e,
                AppError::BadRequest(
                    "Insufficient stock for product 'Peony'. Available: 0, Requested: 2".to_string()
                )
            );
            assert_eq!(e.status_code(), 400);
        }
        other => panic!("expected a rejection, got {:?}", other),
    }
    assert_eq!(store.list_orders().len(), 1);
    assert_eq!(store.get_product(p.id).unwrap().stock_quantity, 0);
}
