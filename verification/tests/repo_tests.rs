use warehouse::oid::Oid;
use warehouse::product::Product;
use warehouse::product_repo::ProductRepo;
use warehouse::stock::Stock;
use warehouse::stock_repo::StockRepo;

#[test]
fn product_repo_assigns_distinct_ids_and_finds_by_owner() {
    let mut repo = ProductRepo::new();
    let owner = Oid { code: 5 };
    let other = Oid { code: 6 };
    let id1 = repo.insert(&Product::new("a".to_string(), "x".to_string(), owner));
    let id2 = repo.insert(&Product::new("b".to_string(), "y".to_string(), owner));
    let id3 = repo.insert(&Product::new("c".to_string(), "z".to_string(), other));
    assert_ne!(id1, id2);
    assert_ne!(id2, id3);

    let found = repo.get_by_id(id1, owner).unwrap();
    assert_eq!(found.name, "a");
    assert!(repo.get_by_id(id1, other).is_none());

    let mine = repo.get_by_client_id(owner);
    assert_eq!(mine.len(), 2);
    assert_eq!(mine[0].name, "a");
    assert_eq!(mine[1].name, "b");
}

#[test]
fn product_repo_update_touches_only_text_fields() {
    let mut repo = ProductRepo::new();
    let owner = Oid { code: 5 };
    let original_doc = Product::new("a".to_string(), "x".to_string(), owner);
    let sku = original_doc.get_sku();
    let id = repo.insert(&original_doc);

    let mut update = repo.get_by_id(id, owner).unwrap();
    update.name = "renamed".to_string();
    update.description = "rewritten".to_string();
    update.sku = "should-not-stick".to_string();
    assert_eq!(repo.update(owner, &update), 1);

    let stored = repo.get_by_id(id, owner).unwrap();
    assert_eq!(stored.name, "renamed");
    assert_eq!(stored.description, "rewritten");
    assert_eq!(stored.get_sku(), sku);

    let mut foreign = stored;
    foreign._id = Oid { code: 999 };
    assert_eq!(repo.update(owner, &foreign), 0);
}

#[test]
fn product_repo_delete_removes_only_the_match() {
    let mut repo = ProductRepo::new();
    let owner = Oid { code: 5 };
    let id1 = repo.insert(&Product::new("a".to_string(), "x".to_string(), owner));
    let id2 = repo.insert(&Product::new("b".to_string(), "y".to_string(), owner));
    repo.delete_by_id(owner, id1);
    assert!(repo.get_by_id(id1, owner).is_none());
    assert!(repo.get_by_id(id2, owner).is_some());
}

#[test]
fn stock_repo_finds_updates_and_deletes_by_key() {
    let mut repo = StockRepo::new();
    let owner = Oid { code: 5 };
    let product = Oid { code: 7 };
    let other_product = Oid { code: 8 };
    let id1 = repo.insert(&Stock::new(owner, product, 10));
    repo.insert(&Stock::new(owner, other_product, 20));

    let found = repo.get_by_client_id_and_product_id(owner, product).unwrap();
    assert_eq!(found._id, id1);
    assert_eq!(found.get_quantity(), 10);

    let mine = repo.get_by_client_id(owner);
    assert_eq!(mine.len(), 2);
    assert_eq!(mine[0].get_quantity(), 10);
    assert_eq!(mine[1].get_quantity(), 20);

    let mut update = found;
    update.set_quantity(15);
    assert_eq!(repo.update(&update), 1);
    let reread = repo.get_by_client_id_and_product_id(owner, product).unwrap();
    assert_eq!(reread.get_quantity(), 15);

    let mut missing = update;
    missing._id = Oid { code: 999 };
    assert_eq!(repo.update(&missing), 0);

    repo.delete_by_client_id_and_product_id(owner, product);
    assert!(repo.get_by_client_id_and_product_id(owner, product).is_none());
    assert!(repo
        .get_by_client_id_and_product_id(owner, other_product)
        .is_some());
}
