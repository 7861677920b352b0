use warehouse::app_error::ErrorKind;
use warehouse::oid::Oid;
use warehouse::product_dto::{ProductQuantityRequest, SetProductQuantityRequest,
    UpdateProductRequest};
use warehouse::product_repo::ProductRepo;
use warehouse::product_service::ProductService;
use warehouse::stock_repo::StockRepo;

fn fresh_service() -> ProductService {
    ProductService::new(ProductRepo::new(), StockRepo::new())
}

fn client(n: u128) -> Oid {
    Oid { code: n }
}

#[test]
fn create_then_get_product_returns_what_was_created() {
    let mut svc = fresh_service();
    let owner = client(1);
    let p = svc
        .create("widget".to_string(), "a round widget".to_string(), owner, 10)
        .unwrap();
    let (got, quantity) = svc.get_product(p._id, owner).unwrap();
    assert_eq!(got.name, "widget");
    assert_eq!(got.description, "a round widget");
    assert_eq!(quantity, 10);
    assert_eq!(got.get_sku(), p.get_sku());
}

#[test]
fn get_product_for_wrong_owner_is_not_found() {
    let mut svc = fresh_service();
    let p = svc
        .create("widget".to_string(), "w".to_string(), client(1), 5)
        .unwrap();
    let err = svc.get_product(p._id, client(2)).unwrap_err();
    assert_eq!(err.kind, ErrorKind::NotFound);
    assert_eq!(err.message, "product not found");
}

#[test]
fn sku_has_four_blocks_of_four() {
    let mut svc = fresh_service();
    let p = svc
        .create("widget".to_string(), "w".to_string(), client(1), 5)
        .unwrap();
    let sku = p.get_sku();
    assert_eq!(sku.len(), 19);
    let blocks: Vec<&str> = sku.split('-').collect();
    assert_eq!(blocks.len(), 4);
    for block in blocks {
        assert_eq!(block.len(), 4);
        assert!(block.chars().all(|c| c.is_ascii_alphanumeric()));
    }
}

#[test]
fn set_quantity_to_current_value_is_idempotent() {
    let mut svc = fresh_service();
    let owner = client(1);
    let p = svc
        .create("widget".to_string(), "w".to_string(), owner, 7)
        .unwrap();
    let s1 = svc
        .set_product_quantity(owner, p._id, &SetProductQuantityRequest { quantity: 7 })
        .unwrap();
    assert_eq!(s1.get_quantity(), 7);
    let s2 = svc
        .set_product_quantity(owner, p._id, &SetProductQuantityRequest { quantity: 7 })
        .unwrap();
    assert_eq!(s2.get_quantity(), 7);
    let (_, q) = svc.get_product(p._id, owner).unwrap();
    assert_eq!(q, 7);
}

#[test]
fn set_quantity_below_current_fails_with_failed_precondition() {
    let mut svc = fresh_service();
    let owner = client(1);
    let p = svc
        .create("widget".to_string(), "w".to_string(), owner, 7)
        .unwrap();
    for lower in [6, 1, 0, -3] {
        let err = svc
            .set_product_quantity(owner, p._id, &SetProductQuantityRequest { quantity: lower })
            .unwrap_err();
        assert_eq!(err.kind, ErrorKind::FailedAction);
        let (_, q) = svc.get_product(p._id, owner).unwrap();
        assert_eq!(q, 7);
    }
}

#[test]
fn set_quantity_above_current_persists() {
    let mut svc = fresh_service();
    let owner = client(1);
    let p = svc
        .create("widget".to_string(), "w".to_string(), owner, 7)
        .unwrap();
    let s = svc
        .set_product_quantity(owner, p._id, &SetProductQuantityRequest { quantity: 12 })
        .unwrap();
    assert_eq!(s.get_quantity(), 12);
    let (_, q) = svc.get_product(p._id, owner).unwrap();
    assert_eq!(q, 12);
}

#[test]
fn check_availability_succeeds_iff_within_quantity_and_mutates_nothing() {
    let mut svc = fresh_service();
    let owner = client(1);
    let p = svc
        .create("widget".to_string(), "w".to_string(), owner, 10)
        .unwrap();
    assert!(svc.check_availability(owner, p._id, 0).is_ok());
    assert!(svc.check_availability(owner, p._id, 10).is_ok());
    let err = svc.check_availability(owner, p._id, 11).unwrap_err();
    assert_eq!(err.kind, ErrorKind::FailedAction);
    let err = svc.check_availability(owner, Oid { code: 999 }, 1).unwrap_err();
    assert_eq!(err.kind, ErrorKind::NotFound);
    let (_, q) = svc.get_product(p._id, owner).unwrap();
    assert_eq!(q, 10);
}

#[test]
fn update_product_changes_text_and_keeps_sku() {
    let mut svc = fresh_service();
    let owner = client(1);
    let p = svc
        .create("widget".to_string(), "w".to_string(), owner, 10)
        .unwrap();
    let updated = svc
        .update_product(owner, p._id, &UpdateProductRequest {
            name: "gadget".to_string(),
            description: "new text".to_string(),
        })
        .unwrap();
    assert_eq!(updated.name, "gadget");
    assert_eq!(updated.description, "new text");
    assert_eq!(updated.get_sku(), p.get_sku());
    let (got, q) = svc.get_product(p._id, owner).unwrap();
    assert_eq!(got.name, "gadget");
    assert_eq!(q, 10);
}

#[test]
fn update_missing_product_is_not_found() {
    let mut svc = fresh_service();
    let err = svc
        .update_product(client(1), Oid { code: 42 }, &UpdateProductRequest {
            name: "x".to_string(),
            description: "y".to_string(),
        })
        .unwrap_err();
    assert_eq!(err.kind, ErrorKind::NotFound);
}

#[test]
fn delete_product_removes_product_and_stock() {
    let mut svc = fresh_service();
    let owner = client(1);
    let p = svc
        .create("widget".to_string(), "w".to_string(), owner, 10)
        .unwrap();
    svc.delete_product(owner, p._id).unwrap();
    let err = svc.get_product(p._id, owner).unwrap_err();
    assert_eq!(err.kind, ErrorKind::NotFound);
    assert_eq!(err.message, "product not found");
}

#[test]
fn get_products_by_client_lists_only_that_client() {
    let mut svc = fresh_service();
    let owner = client(1);
    let other = client(2);
    let p1 = svc
        .create("one".to_string(), "first".to_string(), owner, 3)
        .unwrap();
    let p2 = svc
        .create("two".to_string(), "second".to_string(), owner, 4)
        .unwrap();
    svc.create("three".to_string(), "foreign".to_string(), other, 5)
        .unwrap();
    let listed = svc.get_products_by_client(owner).unwrap();
    assert_eq!(listed.len(), 2);
    assert_eq!(listed[0].0._id, p1._id);
    assert_eq!(listed[0].1, 3);
    assert_eq!(listed[1].0._id, p2._id);
    assert_eq!(listed[1].1, 4);
}

#[test]
fn process_orders_rejects_duplicate_lines_and_changes_nothing() {
    let mut svc = fresh_service();
    let owner = client(1);
    let p = svc
        .create("widget".to_string(), "w".to_string(), owner, 10)
        .unwrap();
    let hex = p._id.to_hex();
    let batch = vec![
        ProductQuantityRequest { product_id: hex.clone(), quantity: 2 },
        ProductQuantityRequest { product_id: hex.clone(), quantity: 3 },
    ];
    let err = svc.process_orders(owner, batch).unwrap_err();
    assert_eq!(err.kind, ErrorKind::FailedAction);
    assert_eq!(err.message, format!("duplicate order with product_id: {}", hex));
    let (_, q) = svc.get_product(p._id, owner).unwrap();
    assert_eq!(q, 10);
}

#[test]
fn process_orders_rejects_malformed_ids() {
    let mut svc = fresh_service();
    let owner = client(1);
    let p = svc
        .create("widget".to_string(), "w".to_string(), owner, 10)
        .unwrap();
    let batch = vec![
        ProductQuantityRequest { product_id: "not-a-hex-id".to_string(), quantity: 2 },
        ProductQuantityRequest { product_id: p._id.to_hex(), quantity: 3 },
    ];
    let err = svc.process_orders(owner, batch).unwrap_err();
    assert_eq!(err.kind, ErrorKind::FailedAction);
    assert_eq!(err.message, "invalid product id: not-a-hex-id");
    let (_, q) = svc.get_product(p._id, owner).unwrap();
    assert_eq!(q, 10);
}

#[test]
fn process_orders_applies_a_fully_available_batch() {
    let mut svc = fresh_service();
    let owner = client(1);
    let p1 = svc
        .create("one".to_string(), "first".to_string(), owner, 10)
        .unwrap();
    let p2 = svc
        .create("two".to_string(), "second".to_string(), owner, 8)
        .unwrap();
    let batch = vec![
        ProductQuantityRequest { product_id: p1._id.to_hex(), quantity: 4 },
        ProductQuantityRequest { product_id: p2._id.to_hex(), quantity: 8 },
    ];
    svc.process_orders(owner, batch).unwrap();
    assert_eq!(svc.get_product(p1._id, owner).unwrap().1, 6);
    assert_eq!(svc.get_product(p2._id, owner).unwrap().1, 0);
}

#[test]
fn process_orders_with_one_short_line_fails_and_mutates_nothing() {
    let mut svc = fresh_service();
    let owner = client(1);
    let p1 = svc
        .create("one".to_string(), "first".to_string(), owner, 10)
        .unwrap();
    let p2 = svc
        .create("two".to_string(), "second".to_string(), owner, 2)
        .unwrap();
    let batch = vec![
        ProductQuantityRequest { product_id: p1._id.to_hex(), quantity: 5 },
        ProductQuantityRequest { product_id: p2._id.to_hex(), quantity: 5 },
    ];
    let err = svc.process_orders(owner, batch).unwrap_err();
    assert_eq!(err.kind, ErrorKind::FailedAction);
    assert_eq!(svc.get_product(p1._id, owner).unwrap().1, 10);
    assert_eq!(svc.get_product(p2._id, owner).unwrap().1, 2);
}

#[test]
fn two_products_batch_example() {
    let mut svc = fresh_service();
    let owner = client(1);
    let p1 = svc
        .create("one".to_string(), "first".to_string(), owner, 10)
        .unwrap();
    let p2 = svc
        .create("two".to_string(), "second".to_string(), owner, 2)
        .unwrap();

    let failing = vec![
        ProductQuantityRequest { product_id: p1._id.to_hex(), quantity: 5 },
        ProductQuantityRequest { product_id: p2._id.to_hex(), quantity: 5 },
    ];
    assert!(svc.process_orders(owner, failing).is_err());
    assert_eq!(svc.get_product(p1._id, owner).unwrap().1, 10);
    assert_eq!(svc.get_product(p2._id, owner).unwrap().1, 2);

    let passing = vec![
        ProductQuantityRequest { product_id: p1._id.to_hex(), quantity: 5 },
        ProductQuantityRequest { product_id: p2._id.to_hex(), quantity: 2 },
    ];
    svc.process_orders(owner, passing).unwrap();
    assert_eq!(svc.get_product(p1._id, owner).unwrap().1, 5);
    assert_eq!(svc.get_product(p2._id, owner).unwrap().1, 0);

    let repeated = vec![
        ProductQuantityRequest { product_id: p1._id.to_hex(), quantity: 5 },
        ProductQuantityRequest { product_id: p2._id.to_hex(), quantity: 2 },
    ];
    assert!(svc.process_orders(owner, repeated).is_err());
    assert_eq!(svc.get_product(p1._id, owner).unwrap().1, 5);
    assert_eq!(svc.get_product(p2._id, owner).unwrap().1, 0);
}

#[test]
fn process_orders_missing_product_is_not_found() {
    let mut svc = fresh_service();
    let owner = client(1);
    svc.create("one".to_string(), "first".to_string(), owner, 10)
        .unwrap();
    let batch = vec![ProductQuantityRequest {
        product_id: Oid { code: 4095 }.to_hex(),
        quantity: 1,
    }];
    let err = svc.process_orders(owner, batch).unwrap_err();
    assert_eq!(err.kind, ErrorKind::NotFound);
}

#[test]
fn check_multiple_availability_reads_without_writing() {
    let mut svc = fresh_service();
    let owner = client(1);
    let p = svc
        .create("one".to_string(), "first".to_string(), owner, 10)
        .unwrap();
    let ok_batch = vec![ProductQuantityRequest { product_id: p._id.to_hex(), quantity: 10 }];
    svc.check_multiple_availability(owner, ok_batch).unwrap();
    let short_batch = vec![ProductQuantityRequest { product_id: p._id.to_hex(), quantity: 11 }];
    let err = svc.check_multiple_availability(owner, short_batch).unwrap_err();
    assert_eq!(err.kind, ErrorKind::FailedAction);
    assert_eq!(svc.get_product(p._id, owner).unwrap().1, 10);
}
