use boutique_bouquet_api::error::AppError;
use boutique_bouquet_api::ids::uuid_text;
use boutique_bouquet_api::models::{Product, UpdateProductRequest};
use boutique_bouquet_api::money::Money;
use boutique_bouquet_api::products::{
    check_extension, columns_of, image_extension, image_file_name, image_url, is_image_field,
    new_image_file_name, update_statement,
};

fn patch(name: bool, description: bool, price: bool, stock: bool, active: bool) -> UpdateProductRequest {
    UpdateProductRequest {
        name: if name { Some("New".to_string()) } else { None },
        description: if description { Some("Fresh".to_string()) } else { None },
        price: if price { Money::new(1999, 2) } else { None },
        stock_quantity: if stock { Some(12) } else { None },
        is_active: if active { Some(false) } else { None },
    }
}

#[test]
fn statement_sets_every_present_field() {
    assert_eq!(
        update_statement(&patch(true, true, true, true, true)),
        Some(
            "UPDATE products SET name = $1, description = $2, price = $3, stock_quantity = $4, \
             is_active = $5 WHERE id = $6 RETURNING *"
                .to_string()
        )
    );
    assert_eq!(
        columns_of(&patch(true, true, true, true, true)),
        vec!["name", "description", "price", "stock_quantity", "is_active"]
    );
}

#[test]
fn statement_numbers_parameters_without_gaps() {
    assert_eq!(
        update_statement(&patch(false, false, true, false, false)),
        Some("UPDATE products SET price = $1 WHERE id = $2 RETURNING *".to_string())
    );
    assert_eq!(
        update_statement(&patch(true, false, false, false, true)),
        Some("UPDATE products SET name = $1, is_active = $2 WHERE id = $3 RETURNING *".to_string())
    );
    assert_eq!(
        update_statement(&patch(false, true, false, true, false)),
        Some(
            "UPDATE products SET description = $1, stock_quantity = $2 WHERE id = $3 RETURNING *"
                .to_string()
        )
    );
    assert_eq!(columns_of(&patch(false, true, false, true, false)), vec!["description", "stock_quantity"]);
}

#[test]
fn empty_patch_has_no_statement() {
    let empty = patch(false, false, false, false, false);
    assert!(empty.is_empty());
    assert_eq!(update_statement(&empty), None);
    assert!(columns_of(&empty).is_empty());
    assert!(!patch(false, false, false, false, true).is_empty());
}

#[test]
fn patch_replaces_present_fields_only() {
    let product = Product {
        id: 3,
        name: "Old".to_string(),
        description: Some("Stale".to_string()),
        price: Money::new(500, 2).unwrap(),
        image_url: Some("/uploads/x.png".to_string()),
        stock_quantity: 2,
        is_active: true,
        created_at: 10,
        updated_at: 20,
    };
    assert_eq!(patch(false, false, false, false, false).apply(&product), product);
    let changed = patch(true, false, true, false, true).apply(&product);
    assert_eq!(
        changed,
        Product {
            id: 3,
            name: "New".to_string(),
            description: Some("Stale".to_string()),
            price: Money::new(1999, 2).unwrap(),
            image_url: Some("/uploads/x.png".to_string()),
            stock_quantity: 2,
            is_active: false,
            created_at: 10,
            updated_at: 20,
        }
    );
    let changed = patch(false, true, false, true, false).apply(&product);
    assert_eq!(changed.description, Some("Fresh".to_string()));
    assert_eq!(changed.stock_quantity, 12);
    assert_eq!(changed.name, "Old");
}

#[test]
fn image_part_is_the_one_named_image() {
    assert!(is_image_field(Some("image")));
    assert!(!is_image_field(Some("Image")));
    assert!(!is_image_field(Some("file")));
    assert!(!is_image_field(Some("")));
    assert!(!is_image_field(None));
}

#[test]
fn image_extension_is_lower_cased_and_checked() {
    assert_eq!(image_extension(Some("rose.jpg")), Ok("jpg".to_string()));
    assert_eq!(image_extension(Some("rose.JPEG")), Ok("jpeg".to_string()));
    assert_eq!(image_extension(Some("rose.final.PnG")), Ok("png".to_string()));
    assert_eq!(image_extension(Some("dir.d/rose.webp")), Ok("webp".to_string()));
}

#[test]
fn image_extension_rejections() {
    assert_eq!(
        image_extension(None),
        Err(AppError::BadRequest("Missing filename".to_string()))
    );
    for name in ["rose", "", ".jpg", "rose.jpg/", ".."] {
        let expected = if name == "rose.jpg/" {
            Ok("jpg".to_string())
        } else {
            Err(AppError::BadRequest("Invalid file extension".to_string()))
        };
        assert_eq!(image_extension(Some(name)), expected);
    }
    for name in ["rose.gif", "rose.jpg.exe", "rose.", "rose.jpg "] {
        assert_eq!(
            image_extension(Some(name)),
            Err(AppError::BadRequest(
                "Only jpg, jpeg, png, and webp images are allowed".to_string()
            ))
        );
    }
}

#[test]
fn extension_check_is_exact() {
    for e in ["jpg", "jpeg", "png", "webp"] {
        assert_eq!(check_extension(Some(e.to_string())), Ok(e.to_string()));
    }
    for e in ["JPG", "gif", "", "jpg ", "svg"] {
        assert_eq!(
            check_extension(Some(e.to_string())),
            Err(AppError::BadRequest(
                "Only jpg, jpeg, png, and webp images are allowed".to_string()
            ))
        );
    }
    assert_eq!(
        check_extension(None),
        Err(AppError::BadRequest("Invalid file extension".to_string()))
    );
}

#[test]
fn identifier_text_is_hyphenated_lower_case_hex() {
    assert_eq!(
        uuid_text(0xa1a2a3a4b1b2c1c2d1d2d3d4d5d6d7d8),
        "a1a2a3a4-b1b2-c1c2-d1d2-d3d4d5d6d7d8"
    );
    assert_eq!(uuid_text(0), "00000000-0000-0000-0000-000000000000");
    assert_eq!(uuid_text(u128::MAX), "ffffffff-ffff-ffff-ffff-ffffffffffff");
    assert_eq!(uuid_text(0x0123456789abcdef0123456789abcdef), "01234567-89ab-cdef-0123-456789abcdef");
}

#[test]
fn identifier_text_agrees_with_the_uuid_crate() {
    for id in [1u128, 0xdeadbeef, 0x67e5504410b1426f9247bb680e5fe0c8, u128::MAX - 1, 1 << 127] {
        assert_eq!(uuid_text(id), uuid::Uuid::from_u128(id).to_string());
    }
    let drawn = uuid::Uuid::new_v4();
    assert_eq!(uuid_text(drawn.as_u128()), drawn.to_string());
}

#[test]
fn image_file_name_is_composed_of_its_parts() {
    assert_eq!(
        image_file_name(17, 0xa1a2a3a4b1b2c1c2d1d2d3d4d5d6d7d8, "png"),
        "product-17-a1a2a3a4-b1b2-c1c2-d1d2-d3d4d5d6d7d8.png"
    );
    assert_eq!(
        image_file_name(-2, 0, "jpeg"),
        "product--2-00000000-0000-0000-0000-000000000000.jpeg"
    );
}

#[test]
fn new_image_file_names_differ() {
    let a = new_image_file_name(5, "webp");
    let b = new_image_file_name(5, "webp");
    assert_ne!(a, b);
    for name in [&a, &b] {
        assert!(name.starts_with("product-5-"));
        assert!(name.ends_with(".webp"));
        assert_eq!(name.len(), "product-5-".len() + 36 + ".webp".len());
        let id = uuid::Uuid::parse_str(&name["product-5-".len()..name.len() - ".webp".len()]).unwrap();
        assert_eq!(id.get_version_num(), 4);
    }
}

#[test]
fn image_url_is_under_uploads() {
    assert_eq!(image_url("product-1-x.png"), "/uploads/product-1-x.png");
    assert_eq!(image_url(""), "/uploads/");
}
