use boutique_bouquet_api::error::AppError;
use boutique_bouquet_api::models::{
    CreateOrderRequest, CreateProductRequest, OrderItemRequest, UpdateOrderStatusRequest,
    UpdateProductRequest,
};
use boutique_bouquet_api::money::Money;
use boutique_bouquet_api::status::OrderStatus;
use boutique_bouquet_api::store::Store;

fn money(mantissa: i128, scale: u32) -> Money {
    Money::new(mantissa, scale).unwrap()
}

fn product(name: &str, price: Money, stock: i32) -> CreateProductRequest {
    CreateProductRequest {
        name: name.to_string(),
        description: None,
        price,
        stock_quantity: stock,
    }
}

fn cart(items: Vec<OrderItemRequest>) -> CreateOrderRequest {
    CreateOrderRequest {
        customer_name: "Ada".to_string(),
        customer_email: "ada@example.com".to_string(),
        customer_phone: "555-0100".to_string(),
        delivery_address: "1 Main Street".to_string(),
        delivery_city: "Springfield".to_string(),
        delivery_postal_code: Some("12345".to_string()),
        notes: None,
        items,
    }
}

fn line(product_id: i32, quantity: i32) -> OrderItemRequest {
    OrderItemRequest { product_id, quantity }
}

#[test]
fn scenario_order_takes_stock_and_totals() {
    let mut store = Store::new();
    let roses = store.create_product(product("Roses", money(1000, 2), 5), 10).unwrap();
    assert_eq!(roses.id, 1);
    let order = store.create_order_with_id(cart(vec![line(roses.id, 3)]), 77, 20).unwrap();
    assert_eq!(order.id, 77);
    assert_eq!(order.total_amount, money(3000, 2));
    assert_eq!(order.status, OrderStatus::Pending);
    assert_eq!(order.customer_name, "Ada");
    assert_eq!(order.created_at, 20);
    assert_eq!(store.get_product(roses.id).unwrap().stock_quantity, 2);
    let (stored, lines) = store.get_order(77).unwrap();
    assert_eq!(stored, order);
    assert_eq!(lines.len(), 1);
    assert_eq!(lines[0].id, 1);
    assert_eq!(lines[0].order_id, 77);
    assert_eq!(lines[0].product_id, Some(roses.id));
    assert_eq!(lines[0].product_name, "Roses");
    assert_eq!(lines[0].product_price, money(1000, 2));
    assert_eq!(lines[0].quantity, 3);
    assert_eq!(lines[0].subtotal, money(3000, 2));
}

#[test]
fn scenario_two_requests_for_the_last_units() {
    let mut store = Store::new();
    let tulips = store.create_product(product("Tulips", money(450, 2), 2), 1).unwrap();
    let first = store.create_order_with_id(cart(vec![line(tulips.id, 2)]), 1, 2);
    let second = store.create_order_with_id(cart(vec![line(tulips.id, 2)]), 2, 3);
    assert!(first.is_ok());
    assert_eq!(store.get_product(tulips.id).unwrap().stock_quantity, 0);
    let rejection = second.unwrap_err();
    assert_eq!(
        rejection,
        AppError::BadRequest(
            "Insufficient stock for product 'Tulips'. Available: 0, Requested: 2".to_string()
        )
    );
    assert_eq!(rejection.status_code(), 400);
    assert!(store.get_order(2).is_err());
}

#[test]
fn scenario_empty_cart_is_rejected_and_writes_nothing() {
    let mut store = Store::new();
    let lily = store.create_product(product("Lily", money(700, 2), 4), 1).unwrap();
    let rejection = store.create_order_with_id(cart(vec![]), 5, 2).unwrap_err();
    assert_eq!(
        rejection,
        AppError::BadRequest("Order must contain at least one item".to_string())
    );
    assert_eq!(rejection.status_code(), 400);
    assert!(store.get_order(5).is_err());
    assert_eq!(store.get_product(lily.id).unwrap().stock_quantity, 4);
}

#[test]
fn scenario_status_register_accepts_any_listed_value() {
    let mut store = Store::new();
    let fern = store.create_product(product("Fern", money(300, 2), 9), 1).unwrap();
    store.create_order_with_id(cart(vec![line(fern.id, 1)]), 9, 2).unwrap();
    let rejection = store
        .update_order_status(9, &UpdateOrderStatusRequest { status: "refunded".to_string() })
        .unwrap_err();
    assert_eq!(
        rejection,
        AppError::BadRequest(
            "Invalid status. Must be one of: pending, processing, shipped, delivered, cancelled"
                .to_string()
        )
    );
    assert_eq!(rejection.status_code(), 400);
    for name in ["delivered", "pending", "cancelled", "shipped", "processing", "processing"] {
        let order = store
            .update_order_status(9, &UpdateOrderStatusRequest { status: name.to_string() })
            .unwrap();
        assert_eq!(order.status.as_str(), name);
        assert_eq!(store.get_order(9).unwrap().0.status.as_str(), name);
    }
    let missing = store
        .update_order_status(10, &UpdateOrderStatusRequest { status: "shipped".to_string() })
        .unwrap_err();
    assert_eq!(missing, AppError::NotFound("Order not found".to_string()));
}

#[test]
fn failed_order_leaves_earlier_lines_untouched() {
    let mut store = Store::new();
    let a = store.create_product(product("A", money(100, 2), 5), 1).unwrap();
    let b = store.create_product(product("B", money(200, 2), 1), 1).unwrap();
    let rejection = store
        .create_order_with_id(cart(vec![line(a.id, 2), line(b.id, 2)]), 3, 2)
        .unwrap_err();
    assert_eq!(
        rejection,
        AppError::BadRequest(
            "Insufficient stock for product 'B'. Available: 1, Requested: 2".to_string()
        )
    );
    assert_eq!(store.get_product(a.id).unwrap().stock_quantity, 5);
    assert_eq!(store.get_product(b.id).unwrap().stock_quantity, 1);
    assert!(store.get_order(3).is_err());
}

#[test]
fn snapshot_survives_product_changes() {
    let mut store = Store::new();
    let p = store.create_product(product("Orchid", money(2500, 2), 3), 1).unwrap();
    store.create_order_with_id(cart(vec![line(p.id, 2)]), 11, 2).unwrap();
    let patch = UpdateProductRequest {
        name: Some("Orchid deluxe".to_string()),
        description: None,
        price: Some(money(9900, 2)),
        stock_quantity: None,
        is_active: Some(false),
    };
    let changed = store.update_product(p.id, &patch).unwrap();
    assert_eq!(changed.name, "Orchid deluxe");
    assert_eq!(changed.stock_quantity, 1);
    let (order, lines) = store.get_order(11).unwrap();
    assert_eq!(order.total_amount, money(5000, 2));
    assert_eq!(lines[0].product_name, "Orchid");
    assert_eq!(lines[0].product_price, money(2500, 2));
    assert_eq!(lines[0].subtotal, money(5000, 2));
    assert_eq!(lines[0].product_id, Some(p.id));
    store.delete_product(p.id).unwrap();
    let (order, lines) = store.get_order(11).unwrap();
    assert_eq!(order.total_amount, money(5000, 2));
    assert_eq!(lines[0].product_name, "Orchid");
    assert_eq!(lines[0].product_price, money(2500, 2));
    assert_eq!(lines[0].subtotal, money(5000, 2));
    assert_eq!(lines[0].quantity, 2);
    assert_eq!(lines[0].product_id, None);
}

#[test]
fn order_with_several_lines_adds_subtotals_in_request_order() {
    let mut store = Store::new();
    let a = store.create_product(product("A", money(1000, 2), 10), 1).unwrap();
    let b = store.create_product(product("B", money(250, 2), 10), 1).unwrap();
    let order = store
        .create_order_with_id(cart(vec![line(b.id, 3), line(a.id, 1)]), 21, 5)
        .unwrap();
    assert_eq!(order.total_amount, money(1750, 2));
    let (_, lines) = store.get_order(21).unwrap();
    assert_eq!(lines.len(), 2);
    assert_eq!(lines[0].product_id, Some(b.id));
    assert_eq!(lines[0].subtotal, money(750, 2));
    assert_eq!(lines[0].id, 1);
    assert_eq!(lines[1].product_id, Some(a.id));
    assert_eq!(lines[1].subtotal, money(1000, 2));
    assert_eq!(lines[1].id, 2);
    assert_eq!(store.get_product(a.id).unwrap().stock_quantity, 9);
    assert_eq!(store.get_product(b.id).unwrap().stock_quantity, 7);
}

#[test]
fn order_totals_agree_with_decimal_arithmetic_across_scales() {
    let mut store = Store::new();
    let a = store.create_product(product("A", money(15, 1), 10), 1).unwrap();
    let b = store.create_product(product("B", money(225, 2), 10), 1).unwrap();
    let c = store.create_product(product("C", money(3, 0), 10), 1).unwrap();
    let order = store
        .create_order_with_id(cart(vec![line(a.id, 2), line(b.id, 3), line(c.id, 1)]), 22, 5)
        .unwrap();
    let expected = rust_decimal::Decimal::new(15, 1) * rust_decimal::Decimal::from(2)
        + rust_decimal::Decimal::new(225, 2) * rust_decimal::Decimal::from(3)
        + rust_decimal::Decimal::new(3, 0) * rust_decimal::Decimal::from(1);
    assert_eq!(order.total_amount.mantissa(), expected.mantissa());
    assert_eq!(order.total_amount.scale(), expected.scale());
    assert_eq!(expected.to_string(), "12.75");
}

#[test]
fn same_product_twice_sees_the_stock_left_by_the_first_line() {
    let mut store = Store::new();
    let a = store.create_product(product("Iris", money(500, 2), 3), 1).unwrap();
    let rejection = store
        .create_order_with_id(cart(vec![line(a.id, 2), line(a.id, 2)]), 23, 5)
        .unwrap_err();
    assert_eq!(
        rejection,
        AppError::BadRequest(
            "Insufficient stock for product 'Iris'. Available: 1, Requested: 2".to_string()
        )
    );
    assert_eq!(store.get_product(a.id).unwrap().stock_quantity, 3);
    let order = store
        .create_order_with_id(cart(vec![line(a.id, 2), line(a.id, 1)]), 24, 5)
        .unwrap();
    assert_eq!(order.total_amount, money(1500, 2));
    assert_eq!(store.get_product(a.id).unwrap().stock_quantity, 0);
}

#[test]
fn quantity_is_checked_before_the_product_is_looked_for() {
    let mut store = Store::new();
    for quantity in [0, -1, i32::MIN] {
        let rejection = store
            .create_order_with_id(cart(vec![line(99, quantity)]), 25, 5)
            .unwrap_err();
        assert_eq!(rejection, AppError::BadRequest("Quantity must be positive".to_string()));
        assert_eq!(rejection.status_code(), 400);
    }
}

#[test]
fn unknown_and_inactive_products_are_not_found() {
    let mut store = Store::new();
    let a = store.create_product(product("Hidden", money(500, 2), 3), 1).unwrap();
    let hide = UpdateProductRequest {
        name: None,
        description: None,
        price: None,
        stock_quantity: None,
        is_active: Some(false),
    };
    store.update_product(a.id, &hide).unwrap();
    let rejection = store.create_order_with_id(cart(vec![line(a.id, 1)]), 26, 5).unwrap_err();
    assert_eq!(rejection, AppError::NotFound("Product 1 not found".to_string()));
    assert_eq!(rejection.status_code(), 404);
    let rejection = store.create_order_with_id(cart(vec![line(42, 1)]), 26, 5).unwrap_err();
    assert_eq!(rejection, AppError::NotFound("Product 42 not found".to_string()));
    let rejection = store.create_order_with_id(cart(vec![line(-7, 1)]), 26, 5).unwrap_err();
    assert_eq!(rejection, AppError::NotFound("Product -7 not found".to_string()));
}

#[test]
fn taken_order_identifier_is_a_storage_fault_and_changes_nothing() {
    let mut store = Store::new();
    let a = store.create_product(product("A", money(100, 2), 5), 1).unwrap();
    store.create_order_with_id(cart(vec![line(a.id, 1)]), 30, 5).unwrap();
    let fault = store.create_order_with_id(cart(vec![line(a.id, 2)]), 30, 6).unwrap_err();
    assert_eq!(fault, AppError::DatabaseError("duplicate order id".to_string()));
    assert_eq!(fault.status_code(), 500);
    assert_eq!(store.get_product(a.id).unwrap().stock_quantity, 4);
    let (order, lines) = store.get_order(30).unwrap();
    assert_eq!(order.total_amount, money(100, 2));
    assert_eq!(lines.len(), 1);
    assert_eq!(store.list_orders().len(), 1);
}

#[test]
fn free_product_has_a_plain_zero_subtotal() {
    let mut store = Store::new();
    let gift = store.create_product(product("Gift card", money(0, 2), 5), 1).unwrap();
    let rose = store.create_product(product("Rose", money(199, 2), 5), 1).unwrap();
    let order = store
        .create_order_with_id(cart(vec![line(gift.id, 2), line(rose.id, 2)]), 31, 5)
        .unwrap();
    assert_eq!(order.total_amount, money(398, 2));
    let (_, lines) = store.get_order(31).unwrap();
    assert_eq!(lines[0].subtotal, money(0, 0));
    assert_eq!(lines[0].product_price, money(0, 2));
    assert_eq!(lines[1].subtotal, money(398, 2));
}

#[test]
fn amount_out_of_range_fails_the_order() {
    let max: i128 = 0x0000_0000_FFFF_FFFF_FFFF_FFFF_FFFF_FFFF;
    let mut store = Store::new();
    let a = store.create_product(product("Moon", money(max, 0), 5), 1).unwrap();
    let failure = store.create_order_with_id(cart(vec![line(a.id, 2)]), 32, 5).unwrap_err();
    assert_eq!(
        failure,
        AppError::InternalServerError("Order amount out of range".to_string())
    );
    assert_eq!(store.get_product(a.id).unwrap().stock_quantity, 5);
    assert!(store.get_order(32).is_err());
    let failure = store
        .create_order_with_id(cart(vec![line(a.id, 1), line(a.id, 1)]), 33, 5)
        .unwrap_err();
    assert_eq!(
        failure,
        AppError::InternalServerError("Order amount out of range".to_string())
    );
    assert_eq!(store.get_product(a.id).unwrap().stock_quantity, 5);
    let order = store.create_order_with_id(cart(vec![line(a.id, 1)]), 34, 5).unwrap();
    assert_eq!(order.total_amount, money(max, 0));
}

#[test]
fn stock_is_conserved_over_a_series_of_attempts() {
    let mut store = Store::new();
    let a = store.create_product(product("A", money(100, 2), 10), 1).unwrap();
    let b = store.create_product(product("B", money(300, 2), 4), 1).unwrap();
    let carts = vec![
        vec![line(a.id, 3), line(b.id, 1)],
        vec![line(b.id, 5)],
        vec![line(a.id, 2), line(a.id, 2)],
        vec![line(a.id, 4)],
        vec![line(b.id, 3), line(a.id, 0)],
        vec![line(b.id, 3)],
        vec![],
    ];
    let mut succeeded = Vec::new();
    for (k, items) in carts.into_iter().enumerate() {
        let id = 100 + k as u128;
        if store.create_order_with_id(cart(items), id, k as i64).is_ok() {
            succeeded.push(id);
        }
    }
    assert_eq!(succeeded, vec![100, 102, 105]);
    let mut taken_a = 0;
    let mut taken_b = 0;
    for id in &succeeded {
        let (_, lines) = store.get_order(*id).unwrap();
        for l in lines {
            assert!(l.quantity > 0);
            if l.product_id == Some(a.id) {
                taken_a += l.quantity;
            }
            if l.product_id == Some(b.id) {
                taken_b += l.quantity;
            }
        }
    }
    let stock_a = store.get_product(a.id).unwrap().stock_quantity;
    let stock_b = store.get_product(b.id).unwrap().stock_quantity;
    assert_eq!(10 - stock_a, taken_a);
    assert_eq!(4 - stock_b, taken_b);
    assert_eq!(stock_a, 3);
    assert_eq!(stock_b, 0);
}

#[test]
fn orders_get_random_identifiers() {
    let mut store = Store::new();
    let a = store.create_product(product("A", money(100, 2), 10), 1).unwrap();
    let first = store.create_order(cart(vec![line(a.id, 1)]), 1).unwrap();
    let second = store.create_order(cart(vec![line(a.id, 1)]), 2).unwrap();
    assert_ne!(first.id, second.id);
    for order in [&first, &second] {
        assert_eq!((order.id >> 76) & 0xf, 4);
        assert_eq!((order.id >> 62) & 0x3, 2);
        let id = uuid::Uuid::from_u128(order.id);
        assert_eq!(id.get_version_num(), 4);
    }
    assert_eq!(store.get_product(a.id).unwrap().stock_quantity, 8);
    assert_eq!(store.get_order(first.id).unwrap().0, first);
}

#[test]
fn order_keeps_the_customer_fields() {
    let mut store = Store::new();
    let a = store.create_product(product("A", money(100, 2), 10), 1).unwrap();
    let mut request = cart(vec![line(a.id, 1)]);
    request.notes = Some("Ring twice".to_string());
    request.delivery_postal_code = None;
    let order = store.create_order_with_id(request, 40, 123456).unwrap();
    assert_eq!(order.customer_name, "Ada");
    assert_eq!(order.customer_email, "ada@example.com");
    assert_eq!(order.customer_phone, "555-0100");
    assert_eq!(order.delivery_address, "1 Main Street");
    assert_eq!(order.delivery_city, "Springfield");
    assert_eq!(order.delivery_postal_code, None);
    assert_eq!(order.notes, Some("Ring twice".to_string()));
    assert_eq!(order.created_at, 123456);
    assert_eq!(order.updated_at, 123456);
    assert_eq!(order.status, OrderStatus::Pending);
}
