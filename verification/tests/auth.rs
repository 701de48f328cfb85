use boutique_bouquet_api::auth::{
    bearer_token, check_credentials, checked_claims, decide_sign_in, expiry_hours, issue_claims,
    jwt_secret, login_response, signed_token, Claims, DEFAULT_EXPIRY_HOURS,
};
use boutique_bouquet_api::error::AppError;
use boutique_bouquet_api::models::{Admin, AdminResponse, LoginRequest, LoginResponse};

fn admin(hash: &str) -> Admin {
    Admin {
        id: 4,
        email: "root@example.com".to_string(),
        password_hash: hash.to_string(),
        created_at: 0,
    }
}

#[test]
fn bearer_token_is_what_follows_the_word_bearer() {
    assert_eq!(bearer_token(Some("Bearer abc.def.ghi")), Ok("abc.def.ghi".to_string()));
    assert_eq!(bearer_token(Some("Bearer ")), Ok("".to_string()));
    assert_eq!(bearer_token(Some("Bearer  two")), Ok(" two".to_string()));
}

#[test]
fn bearer_token_rejects_other_headers() {
    assert_eq!(
        bearer_token(None),
        Err(AppError::Unauthorized("Missing authorization header".to_string()))
    );
    for header in ["", "Bearer", "bearer abc", "Basic abc", "Token Bearer abc", " Bearer abc"] {
        assert_eq!(
            bearer_token(Some(header)),
            Err(AppError::Unauthorized("Invalid authorization format".to_string()))
        );
    }
    assert_eq!(bearer_token(None).unwrap_err().status_code(), 401);
}

#[test]
fn secret_must_be_configured() {
    assert_eq!(jwt_secret(Some("s3cret".to_string())), Ok("s3cret".to_string()));
    assert_eq!(
        jwt_secret(None),
        Err(AppError::InternalServerError("JWT_SECRET not configured".to_string()))
    );
}

#[test]
fn expiry_hours_default_to_a_day() {
    assert_eq!(DEFAULT_EXPIRY_HOURS, 24);
    assert_eq!(expiry_hours(None), 24);
    assert_eq!(expiry_hours(Some("")), 24);
    assert_eq!(expiry_hours(Some("soon")), 24);
    assert_eq!(expiry_hours(Some("-1")), 24);
    assert_eq!(expiry_hours(Some("1.5")), 24);
    assert_eq!(expiry_hours(Some("0")), 0);
    assert_eq!(expiry_hours(Some("72")), 72);
    assert_eq!(expiry_hours(Some("+8")), 8);
}

#[test]
fn claims_expire_after_the_configured_hours() {
    let claims = issue_claims(4, "root@example.com", 1_700_000_000, 24).unwrap();
    assert_eq!(
        claims,
        Claims { sub: "root@example.com".to_string(), admin_id: 4, exp: 1_700_086_400 }
    );
    let claims = issue_claims(-1, "", 0, 0).unwrap();
    assert_eq!(claims, Claims { sub: "".to_string(), admin_id: -1, exp: 0 });
    let claims = issue_claims(1, "a", u64::MAX - 3600, 1).unwrap();
    assert_eq!(claims.exp, u64::MAX);
}

#[test]
fn claims_beyond_the_end_of_time_fail() {
    let failure = AppError::InternalServerError("Failed to create token".to_string());
    assert_eq!(issue_claims(1, "a", u64::MAX - 3599, 1), Err(failure));
    let failure = AppError::InternalServerError("Failed to create token".to_string());
    assert_eq!(issue_claims(1, "a", 0, u64::MAX / 3600 + 1), Err(failure));
    assert!(issue_claims(1, "a", 0, u64::MAX / 3600).is_ok());
}

#[test]
fn signing_and_checking_outcomes_are_mapped() {
    assert_eq!(signed_token(Some("t".to_string())), Ok("t".to_string()));
    assert_eq!(
        signed_token(None),
        Err(AppError::InternalServerError("Failed to create token".to_string()))
    );
    let claims = Claims { sub: "a".to_string(), admin_id: 1, exp: 2 };
    assert_eq!(checked_claims(Some(claims.clone())), Ok(claims));
    assert_eq!(
        checked_claims(None),
        Err(AppError::Unauthorized("Invalid or expired token".to_string()))
    );
}

#[test]
fn sign_in_decision_covers_every_case() {
    let rejected = || AppError::Unauthorized("Invalid credentials".to_string());
    assert_eq!(decide_sign_in(None, None).unwrap_err(), rejected());
    assert_eq!(decide_sign_in(None, Some(true)).unwrap_err(), rejected());
    assert_eq!(decide_sign_in(Some(admin("h")), Some(false)).unwrap_err(), rejected());
    assert_eq!(
        decide_sign_in(Some(admin("h")), None).unwrap_err(),
        AppError::InternalServerError("Authentication error".to_string())
    );
    let accepted = decide_sign_in(Some(admin("h")), Some(true)).unwrap();
    assert_eq!(accepted.id, 4);
    assert_eq!(accepted.email, "root@example.com");
}

#[test]
fn password_is_checked_against_the_hash() {
    let hash = bcrypt::hash("correct horse", 4).unwrap();
    let accepted = check_credentials(Some(admin(&hash)), "correct horse").unwrap();
    assert_eq!(accepted.id, 4);
    assert_eq!(
        check_credentials(Some(admin(&hash)), "battery staple").unwrap_err(),
        AppError::Unauthorized("Invalid credentials".to_string())
    );
    assert_eq!(
        check_credentials(Some(admin(&hash)), "").unwrap_err(),
        AppError::Unauthorized("Invalid credentials".to_string())
    );
    assert_eq!(
        check_credentials(None, "correct horse").unwrap_err(),
        AppError::Unauthorized("Invalid credentials".to_string())
    );
}

#[test]
fn known_hash_is_recognised() {
    let hash = "$2y$12$L6Bc/AlTQHyd9liGgGEZyOFLPHNgyxeEPfgYfBCVxJ7JIlwxyVU3u";
    assert!(check_credentials(Some(admin(hash)), "hunter2").is_ok());
    assert!(check_credentials(Some(admin(hash)), "hunter3").is_err());
}

#[test]
fn malformed_hash_is_an_internal_error() {
    for hash in [
        "",
        "not a hash",
        "$2b$12$short",
        "$9z$12$L6Bc/AlTQHyd9liGgGEZyOFLPHNgyxeEPfgYfBCVxJ7JIlwxyVU3u",
    ] {
        assert_eq!(
            check_credentials(Some(admin(hash)), "hunter2").unwrap_err(),
            AppError::InternalServerError("Authentication error".to_string())
        );
    }
}

#[test]
fn login_response_leaves_out_the_hash() {
    let response = login_response("token".to_string(), admin("hash"));
    assert_eq!(
        response,
        LoginResponse {
            token: "token".to_string(),
            admin: AdminResponse { id: 4, email: "root@example.com".to_string() },
        }
    );
    let request = LoginRequest { email: "root@example.com".to_string(), password: "p".to_string() };
    assert_eq!(request.email, response.admin.email);
}
