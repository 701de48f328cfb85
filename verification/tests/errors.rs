use boutique_bouquet_api::error::{AppError, ErrorResponse};

#[test]
fn every_failure_has_its_status() {
    assert_eq!(AppError::DatabaseError("x".to_string()).status_code(), 500);
    assert_eq!(AppError::NotFound("x".to_string()).status_code(), 404);
    assert_eq!(AppError::Unauthorized("x".to_string()).status_code(), 401);
    assert_eq!(AppError::BadRequest("x".to_string()).status_code(), 400);
    assert_eq!(AppError::InternalServerError("x".to_string()).status_code(), 500);
}

#[test]
fn storage_detail_never_reaches_the_client() {
    let e = AppError::DatabaseError("relation \"orders\" does not exist".to_string());
    assert_eq!(
        e.log_entry(),
        Some("relation \"orders\" does not exist".to_string())
    );
    assert_eq!(
        e.into_response(),
        ErrorResponse { status: 500, error: "Database error occurred".to_string() }
    );
}

#[test]
fn other_failures_are_answered_with_their_message() {
    assert_eq!(
        AppError::NotFound("Order not found".to_string()).into_response(),
        ErrorResponse { status: 404, error: "Order not found".to_string() }
    );
    assert_eq!(
        AppError::Unauthorized("Invalid credentials".to_string()).into_response(),
        ErrorResponse { status: 401, error: "Invalid credentials".to_string() }
    );
    assert_eq!(
        AppError::BadRequest("Quantity must be positive".to_string()).into_response(),
        ErrorResponse { status: 400, error: "Quantity must be positive".to_string() }
    );
    assert_eq!(
        AppError::InternalServerError("Failed to save file".to_string()).into_response(),
        ErrorResponse { status: 500, error: "Failed to save file".to_string() }
    );
}

#[test]
fn only_server_side_failures_are_logged() {
    assert_eq!(AppError::NotFound("a".to_string()).log_entry(), None);
    assert_eq!(AppError::Unauthorized("a".to_string()).log_entry(), None);
    assert_eq!(AppError::BadRequest("a".to_string()).log_entry(), None);
    assert_eq!(
        AppError::InternalServerError("a".to_string()).log_entry(),
        Some("a".to_string())
    );
}
