use warehouse::api_error::APIError;
use warehouse::app_error::{AppError, ErrorKind};
use warehouse::oid::Oid;
use warehouse::product::Product;
use warehouse::product_dto::{AddProductRequest, AddProductResponse, GetProductResponse,
    GetProductsResponse, ProductQuantity, SetProductQuantityResponse, UpdateProductResponse};
use warehouse::stock::Stock;

#[test]
fn add_product_request_validates_quantity() {
    let good = AddProductRequest {
        name: "a".to_string(),
        description: "b".to_string(),
        quantity: 1,
    };
    assert!(good.validate().is_ok());
    let bad = AddProductRequest {
        name: "a".to_string(),
        description: "b".to_string(),
        quantity: 0,
    };
    let err = bad.validate().unwrap_err();
    assert_eq!(err.kind, ErrorKind::FailedAction);
    assert_eq!(err.message, "quantity cannot be less than 1");
}

#[test]
fn api_error_messages() {
    assert_eq!(APIError::CreationFailure.message(), "cannot create document");
    assert_eq!(APIError::NotFound.message(), "document not found");
    assert_eq!(APIError::UpdateFailure.message(), "cannot update document");
    assert_eq!(APIError::BadRequest.message(), "bad request");
}

#[test]
fn app_error_keeps_message_and_kind() {
    let err = AppError::new("something broke", ErrorKind::InternalServerError);
    assert_eq!(err.message, "something broke");
    assert_eq!(err.kind, ErrorKind::InternalServerError);
    assert_eq!(err.description().as_str(), "something broke");
}

#[test]
fn response_constructors_carry_fields() {
    let add = AddProductResponse::new(
        "id1".to_string(),
        "n".to_string(),
        "d".to_string(),
        "s".to_string(),
        4,
    );
    assert_eq!(add.id, "id1");
    assert_eq!(add.quantity, 4);

    let get = GetProductResponse::new("id2".to_string(), "n".to_string(), "d".to_string());
    assert_eq!(get.id, "id2");

    let upd = UpdateProductResponse::new(
        "id3".to_string(),
        "n".to_string(),
        "d".to_string(),
        "s".to_string(),
    );
    assert_eq!(upd.sku, "s");

    let setq = SetProductQuantityResponse::new(9);
    assert_eq!(setq.quantity, 9);

    let list = GetProductsResponse::new(Vec::new());
    assert!(list.products.is_empty());
}

#[test]
fn product_quantity_new_is_blank() {
    let pq = ProductQuantity::new();
    assert_eq!(pq.product_id, Oid { code: 0 });
    assert_eq!(pq.quantity, 0);
}

#[test]
fn product_new_stamps_owner_and_sku() {
    let owner = Oid { code: 9 };
    let p = Product::new("n".to_string(), "d".to_string(), owner);
    assert_eq!(p.created_by, owner);
    assert_eq!(p.name, "n");
    assert_eq!(p.get_sku().len(), 19);
}

#[test]
fn product_quantity_response_uses_hex_id() {
    let owner = Oid { code: 9 };
    let mut p = Product::new("n".to_string(), "d".to_string(), owner);
    p._id = Oid { code: 0xabc };
    let resp = p.to_product_quantity_response(5);
    assert_eq!(resp.id, "000000000000000000000abc");
    assert_eq!(resp.quantity, 5);
    assert_eq!(resp.name, "n");
}

#[test]
fn stock_accessors_roundtrip() {
    let mut s = Stock::new(Oid { code: 1 }, Oid { code: 2 }, 3);
    assert_eq!(s.get_quantity(), 3);
    s.set_quantity(8);
    assert_eq!(s.get_quantity(), 8);
    assert_eq!(s.client_id, Oid { code: 1 });
    assert_eq!(s.product_id, Oid { code: 2 });
}
