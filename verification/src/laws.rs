use vstd::prelude::*;

verus! {

use crate::app_error::{AppError, ErrorKind};
use crate::lookup::lemma_first_match_at;
use crate::oid::{Oid, lemma_oid_hex_roundtrip, oid_hex};
use crate::product::Product;
use crate::product_dto::ProductQuantityRequest;
use crate::product_service::{ProductService, all_ids_valid, ids_distinct, norm_fail_message,
    norm_fails_at, orders_ok, req_bad, req_oid, req_ok};
use crate::stock::Stock;

/// A created product is retrievable: after a successful creation, looking
/// the new product up under its owner returns exactly the returned product,
/// paired with a stock holding exactly the requested quantity.
pub proof fn created_product_is_retrievable(
    pre: ProductService,
    post: ProductService,
    client_id: Oid,
    quantity: i32,
    p: Product,
)
    requires
        ProductService::create_post(pre, post, client_id, quantity, p),
    ensures
        post.spec_get_product(p._id, client_id) == Some(p),
        post.has_pair(client_id, p._id),
        post.quantity_of(client_id, p._id) == quantity,
{
}

/// Setting the quantity to its current value is idempotent: the call
/// succeeds, returns the unchanged record, alters nothing, and a repeated
/// call with the same value behaves identically.
pub proof fn set_quantity_equal_is_idempotent(
    pre: ProductService,
    post1: ProductService,
    post2: ProductService,
    r1: Result<crate::stock::Stock, crate::app_error::AppError>,
    r2: Result<crate::stock::Stock, crate::app_error::AppError>,
    client_id: Oid,
    product_id: Oid,
    q: i32,
)
    requires
        pre.has_pair(client_id, product_id),
        pre.spec_get_stock(client_id, product_id) matches Some(s0) && s0.quantity == q,
        ProductService::set_quantity_post(pre, post1, r1, client_id, product_id, q),
        ProductService::set_quantity_post(post1, post2, r2, client_id, product_id, q),
    ensures
        r1 matches Ok(s) && Some(s) == pre.spec_get_stock(client_id, product_id),
        r2 matches Ok(s) && Some(s) == pre.spec_get_stock(client_id, product_id),
        post1.stocks() == pre.stocks(),
        post1.products() == pre.products(),
        post2.stocks() == pre.stocks(),
        post2.products() == pre.products(),
{
}

/// Setting the quantity to a strictly smaller value is always refused as a
/// failed precondition, and alters nothing.
pub proof fn set_quantity_decrease_is_refused(
    pre: ProductService,
    post: ProductService,
    r: Result<crate::stock::Stock, crate::app_error::AppError>,
    client_id: Oid,
    product_id: Oid,
    q: i32,
)
    requires
        pre.has_pair(client_id, product_id),
        (q as int) < pre.quantity_of(client_id, product_id),
        ProductService::set_quantity_post(pre, post, r, client_id, product_id, q),
    ensures
        r matches Err(e) && e.kind == ErrorKind::FailedAction,
        post.stocks() == pre.stocks(),
        post.products() == pre.products(),
{
}

/// A batch naming the same product twice is always refused as a failed
/// precondition, every quantity is left unchanged, and the error message
/// names the first offending line's id.
pub proof fn duplicate_batch_is_refused(
    pre: ProductService,
    post: ProductService,
    r: Result<(), AppError>,
    client_id: Oid,
    reqs: Seq<ProductQuantityRequest>,
    i: int,
    j: int,
)
    requires
        ProductService::process_orders_post(pre, post, r, client_id, reqs),
        0 <= i < j < reqs.len(),
        req_oid(reqs[i]) == req_oid(reqs[j]),
    ensures
        r matches Err(e) && e.kind == ErrorKind::FailedAction && (exists|k: int|
            #[trigger] norm_fails_at(reqs, k) && e.message@ == norm_fail_message(reqs, k)),
        post.stocks() == pre.stocks(),
        post.products() == pre.products(),
{
    assert(!ids_distinct(reqs));
}

/// A batch with a malformed product id is always refused as a failed
/// precondition, every quantity is left unchanged, and the error message
/// names the first offending line's id.
pub proof fn malformed_batch_is_refused(
    pre: ProductService,
    post: ProductService,
    r: Result<(), AppError>,
    client_id: Oid,
    reqs: Seq<ProductQuantityRequest>,
    i: int,
)
    requires
        ProductService::process_orders_post(pre, post, r, client_id, reqs),
        0 <= i < reqs.len(),
        req_oid(reqs[i]) is None,
    ensures
        r matches Err(e) && e.kind == ErrorKind::FailedAction && (exists|k: int|
            #[trigger] norm_fails_at(reqs, k) && e.message@ == norm_fail_message(reqs, k)),
        post.stocks() == pre.stocks(),
        post.products() == pre.products(),
{
    assert(!all_ids_valid(reqs));
}

/// A batch every line of which is available succeeds, and afterwards each
/// named stock holds exactly its prior quantity minus the line's request,
/// while every stock the batch does not name is untouched.
pub proof fn serviceable_batch_is_applied(
    pre: ProductService,
    post: ProductService,
    r: Result<(), crate::app_error::AppError>,
    client_id: Oid,
    reqs: Seq<ProductQuantityRequest>,
)
    requires
        ProductService::process_orders_post(pre, post, r, client_id, reqs),
        all_ids_valid(reqs),
        ids_distinct(reqs),
        orders_ok(pre, client_id, reqs),
        forall|k: int| 0 <= k < reqs.len() ==> (#[trigger] reqs[k].quantity) >= 1,
    ensures
        r is Ok,
        forall|k: int|
            0 <= k < reqs.len() ==> ((#[trigger] req_oid(reqs[k])) matches Some(oid)
                ==> post.quantity_of(client_id, oid) == pre.quantity_of(client_id, oid)
                - reqs[k].quantity),
        forall|c: Oid, p: Oid|
            !(c == client_id && (exists|k: int|
                0 <= k < reqs.len() && req_oid(#[trigger] reqs[k]) == Some(p)))
                ==> #[trigger] post.spec_get_stock(c, p) == pre.spec_get_stock(c, p),
{
    assert forall|k: int|
        0 <= k < reqs.len() implies ((#[trigger] req_oid(reqs[k])) matches Some(oid)
        ==> post.quantity_of(client_id, oid) == pre.quantity_of(client_id, oid)
        - reqs[k].quantity) by {
        match req_oid(reqs[k]) {
            Some(oid) => {
                assert(req_ok(pre, client_id, reqs[k]));
                assert(pre.spec_get_stock(client_id, oid) matches Some(s0)
                    && post.spec_get_stock(client_id, oid) == Some(
                    (Stock { quantity: (s0.quantity - reqs[k].quantity) as i32, ..s0 }),
                ));
                assert(reqs[k].quantity as int <= pre.quantity_of(client_id, oid));
            },
            None => {},
        }
    }
}

/// A batch with at least one unavailable line fails as a whole, and the
/// check phase mutates nothing: every product and every quantity is exactly
/// as it was.
pub proof fn unserviceable_batch_leaves_state_unchanged(
    pre: ProductService,
    post: ProductService,
    r: Result<(), crate::app_error::AppError>,
    client_id: Oid,
    reqs: Seq<ProductQuantityRequest>,
)
    requires
        ProductService::process_orders_post(pre, post, r, client_id, reqs),
        all_ids_valid(reqs),
        ids_distinct(reqs),
        !orders_ok(pre, client_id, reqs),
    ensures
        r is Err,
        post.stocks() == pre.stocks(),
        post.products() == pre.products(),
{
}

/// The worked two-product example, derived from the contracts alone. An
/// owner creates one product with quantity 10 and another with quantity 2,
/// both batches naming the products by the hexadecimal form of their ids. A
/// batch asking 5 of each is refused as a failed precondition and leaves the
/// quantities at 10 and 2. A batch asking 5 of the first and 2 of the second
/// succeeds and leaves them at 5 and 0. Repeating that batch at once is
/// refused and leaves them at 5 and 0.
pub proof fn two_product_batches_follow_availability(
    s0: ProductService,
    s1: ProductService,
    s2: ProductService,
    s3: ProductService,
    s4: ProductService,
    s5: ProductService,
    client_id: Oid,
    p1: Product,
    p2: Product,
    r_short: Result<(), AppError>,
    r_full: Result<(), AppError>,
    r_again: Result<(), AppError>,
    batch_short: Seq<ProductQuantityRequest>,
    batch_full: Seq<ProductQuantityRequest>,
)
    requires
        ProductService::create_post(s0, s1, client_id, 10, p1),
        ProductService::create_post(s1, s2, client_id, 2, p2),
        batch_short.len() == 2,
        batch_short[0].product_id@ == oid_hex(p1._id.code),
        batch_short[0].quantity == 5,
        batch_short[1].product_id@ == oid_hex(p2._id.code),
        batch_short[1].quantity == 5,
        ProductService::process_orders_post(s2, s3, r_short, client_id, batch_short),
        batch_full.len() == 2,
        batch_full[0].product_id@ == oid_hex(p1._id.code),
        batch_full[0].quantity == 5,
        batch_full[1].product_id@ == oid_hex(p2._id.code),
        batch_full[1].quantity == 2,
        ProductService::process_orders_post(s3, s4, r_full, client_id, batch_full),
        ProductService::process_orders_post(s4, s5, r_again, client_id, batch_full),
    ensures
        r_short matches Err(e) && e.kind == ErrorKind::FailedAction,
        s3.quantity_of(client_id, p1._id) == 10,
        s3.quantity_of(client_id, p2._id) == 2,
        r_full is Ok,
        s4.quantity_of(client_id, p1._id) == 5,
        s4.quantity_of(client_id, p2._id) == 0,
        r_again matches Err(e) && e.kind == ErrorKind::FailedAction,
        s5.quantity_of(client_id, p1._id) == 5,
        s5.quantity_of(client_id, p2._id) == 0,
{
    // the two assigned ids are distinct and echo through the hex codec
    assert(p1._id.code == s0.product_id_bound() && p2._id.code == s1.product_id_bound());
    assert(p1._id != p2._id);
    lemma_oid_hex_roundtrip(p1._id);
    lemma_oid_hex_roundtrip(p2._id);
    assert(req_oid(batch_short[0]) == Some(p1._id));
    assert(req_oid(batch_short[1]) == Some(p2._id));
    assert(req_oid(batch_full[0]) == Some(p1._id));
    assert(req_oid(batch_full[1]) == Some(p2._id));
    assert forall|i: int| 0 <= i < 2 implies (#[trigger] req_oid(batch_short[i])) is Some by {
        if i == 0 {
            assert(req_oid(batch_short[0]) is Some);
        } else {
            assert(req_oid(batch_short[1]) is Some);
        }
    }
    assert forall|i: int| 0 <= i < 2 implies (#[trigger] req_oid(batch_full[i])) is Some by {
        if i == 0 {
            assert(req_oid(batch_full[0]) is Some);
        } else {
            assert(req_oid(batch_full[1]) is Some);
        }
    }
    assert(all_ids_valid(batch_short) && ids_distinct(batch_short));
    assert(all_ids_valid(batch_full) && ids_distinct(batch_full));

    // after the two creations both pairs stand, holding 10 and 2
    assert(s2.spec_get_product(p1._id, client_id) == s1.spec_get_product(p1._id, client_id));
    assert(s2.spec_get_stock(client_id, p1._id) == s1.spec_get_stock(client_id, p1._id));
    assert(s2.has_pair(client_id, p1._id) && s2.quantity_of(client_id, p1._id) == 10);
    assert(s2.has_pair(client_id, p2._id) && s2.quantity_of(client_id, p2._id) == 2);

    // the short batch: the second line asks 5 where only 2 are on hand
    assert(req_ok(s2, client_id, batch_short[0]));
    assert(!req_ok(s2, client_id, batch_short[1]));
    assert(!orders_ok(s2, client_id, batch_short));
    let rb2 = req_bad(s2, client_id);
    assert(!rb2(batch_short[0]) && rb2(batch_short[1]));
    lemma_first_match_at(batch_short, rb2, 1);
    assert(r_short matches Err(e) && e.kind == ErrorKind::FailedAction);
    assert(s3.stocks() == s2.stocks() && s3.products() == s2.products());

    // the full batch: both lines are on hand, so it applies exactly
    assert(s3.has_pair(client_id, p1._id) && s3.quantity_of(client_id, p1._id) == 10);
    assert(s3.has_pair(client_id, p2._id) && s3.quantity_of(client_id, p2._id) == 2);
    assert forall|k: int| 0 <= k < 2 implies req_ok(s3, client_id, #[trigger] batch_full[k]) by {
        if k == 0 {
            assert(req_ok(s3, client_id, batch_full[0]));
        } else {
            assert(req_ok(s3, client_id, batch_full[1]));
        }
    }
    assert(orders_ok(s3, client_id, batch_full));
    assert(r_full is Ok);
    assert(req_oid(batch_full[0]) matches Some(oid) && s4.spec_get_stock(client_id, oid)
        matches Some(s) && s.quantity == 5);
    assert(req_oid(batch_full[1]) matches Some(oid) && s4.spec_get_stock(client_id, oid)
        matches Some(s) && s.quantity == 0);

    // the repeated batch: the second product now holds 0 of the 2 asked
    assert(s4.products() == s3.products());
    assert(s4.has_pair(client_id, p1._id) && s4.quantity_of(client_id, p1._id) == 5);
    assert(s4.has_pair(client_id, p2._id) && s4.quantity_of(client_id, p2._id) == 0);
    assert(req_ok(s4, client_id, batch_full[0]));
    assert(!req_ok(s4, client_id, batch_full[1]));
    assert(!orders_ok(s4, client_id, batch_full));
    let rb4 = req_bad(s4, client_id);
    assert(!rb4(batch_full[0]) && rb4(batch_full[1]));
    lemma_first_match_at(batch_full, rb4, 1);
    assert(r_again matches Err(e) && e.kind == ErrorKind::FailedAction);
    assert(s5.stocks() == s4.stocks());
}

} // verus!
