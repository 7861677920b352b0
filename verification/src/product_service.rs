use vstd::prelude::*;

verus! {

use crate::app_error::{AppError, ErrorKind};
use crate::lookup::{first_match_idx, lemma_first_match_at, lemma_first_match_props,
    lemma_first_match_push, lemma_first_match_update};
use crate::oid::{Oid, lemma_pow16_concrete, oid_hex, parse_oid, pow16};
use crate::product::{Product, sku_wf};
use crate::product_dto::{ProductQuantity, ProductQuantityRequest, SetProductQuantityRequest,
    UpdateProductRequest};
use crate::product_repo::{ProductRepo, find_product, product_filter};
use crate::stock::Stock;
use crate::stock_repo::{StockRepo, find_stock, stock_filter, stock_filter_full};

/// The inventory consistency engine: pairs each product with its stock
/// record at creation, validates and applies quantity changes, and applies
/// batched orders as a unit, over the two document collections.
pub struct ProductService {
    product_repo: ProductRepo,
    stock_repo: StockRepo,
}

impl ProductService {
    /// The product documents of the underlying store.
    pub closed spec fn products(&self) -> Seq<Product> {
        self.product_repo@
    }

    /// The stock documents of the underlying store.
    pub closed spec fn stocks(&self) -> Seq<Stock> {
        self.stock_repo@
    }

    /// The engine's invariant: both collections assign ids below their
    /// bounds, every stock points at a product id the product collection has
    /// already assigned, no quantity is negative, product ids are pairwise
    /// distinct, and at most one stock holds any owner-and-product key.
    pub closed spec fn wf(&self) -> bool {
        &&& self.product_repo.wf()
        &&& self.stock_repo.wf()
        &&& forall|i: int|
            0 <= i < self.stocks().len() ==> (#[trigger] self.stocks()[i].product_id.code)
                < self.product_repo.id_bound()
        &&& forall|i: int| 0 <= i < self.stocks().len() ==> (#[trigger] self.stocks()[i].quantity) >= 0
        &&& forall|i: int, j: int|
            0 <= i < j < self.products().len() ==> (#[trigger] self.products()[i])._id
                != (#[trigger] self.products()[j])._id
        &&& forall|i: int, j: int|
            0 <= i < j < self.stocks().len() ==> !((#[trigger] self.stocks()[i]).client_id
                == (#[trigger] self.stocks()[j]).client_id && self.stocks()[i].product_id
                == self.stocks()[j].product_id)
    }

    /// The product collection's id bound: the least id value strictly above
    /// every product id assigned so far.
    pub closed spec fn product_id_bound(&self) -> u128 {
        self.product_repo.id_bound()
    }

    /// The stock collection's id bound: the least id value strictly above
    /// every stock id assigned so far.
    pub closed spec fn stock_id_bound(&self) -> u128 {
        self.stock_repo.id_bound()
    }

    /// Whether both collections can still assign fresh ids.
    pub open spec fn id_capacity(&self) -> bool {
        self.product_id_bound() < u64::MAX as u128 && self.stock_id_bound() < u64::MAX as u128
    }

    /// Whether the store can still assign fresh ids; a caller may test this
    /// before creating a product.
    pub fn can_assign_ids(&self) -> (b: bool)
        ensures
            b == self.id_capacity(),
    {
        self.product_repo.can_assign_id() && self.stock_repo.can_assign_id()
    }

    /// The product found under the client's scope, as the store returns it.
    pub open spec fn spec_get_product(&self, product_id: Oid, client_id: Oid) -> Option<Product> {
        find_product(self.products(), product_id, client_id)
    }

    /// The stock found under the client and product key, as the store
    /// returns it.
    pub open spec fn spec_get_stock(&self, client_id: Oid, product_id: Oid) -> Option<Stock> {
        find_stock(self.stocks(), client_id, product_id)
    }

    /// Whether the product and its paired stock both exist for this client.
    pub open spec fn has_pair(&self, client_id: Oid, product_id: Oid) -> bool {
        self.spec_get_product(product_id, client_id) is Some && self.spec_get_stock(
            client_id,
            product_id,
        ) is Some
    }

    /// The quantity on hand of the product's stock record.
    pub open spec fn quantity_of(&self, client_id: Oid, product_id: Oid) -> int {
        match self.spec_get_stock(client_id, product_id) {
            Some(s) => s.quantity as int,
            None => 0,
        }
    }

    /// Builds the engine over the two collections.
    pub fn new(product_repo: ProductRepo, stock_repo: StockRepo) -> (r: ProductService)
        requires
            product_repo.wf(),
            stock_repo.wf(),
            forall|i: int|
                0 <= i < stock_repo@.len() ==> (#[trigger] stock_repo@[i].product_id.code)
                    < product_repo.id_bound(),
            forall|i: int| 0 <= i < stock_repo@.len() ==> (#[trigger] stock_repo@[i].quantity) >= 0,
            forall|i: int, j: int|
                0 <= i < j < product_repo@.len() ==> (#[trigger] product_repo@[i])._id
                    != (#[trigger] product_repo@[j])._id,
            forall|i: int, j: int|
                0 <= i < j < stock_repo@.len() ==> !((#[trigger] stock_repo@[i]).client_id
                    == (#[trigger] stock_repo@[j]).client_id && stock_repo@[i].product_id
                    == stock_repo@[j].product_id),
        ensures
            r.wf(),
            r.products() == product_repo@,
            r.stocks() == stock_repo@,
            r.product_id_bound() == product_repo.id_bound(),
            r.stock_id_bound() == stock_repo.id_bound(),
    {
        ProductService { product_repo, stock_repo }
    }

    /// What a successful creation leaves behind: the returned product is
    /// appended to the product collection under a fresh id, a stock record
    /// holding the requested quantity is appended and paired with it, and
    /// every other lookup is unaffected.
    pub open spec fn create_post(
        pre: ProductService,
        post: ProductService,
        client_id: Oid,
        quantity: i32,
        p: Product,
    ) -> bool {
        &&& p.created_by == client_id
        &&& sku_wf(p.sku@)
        &&& p._id.code == pre.product_id_bound()
        &&& (p._id.code as int) < pow16(24)
        &&& post.product_id_bound() == pre.product_id_bound() + 1
        &&& post.stock_id_bound() == pre.stock_id_bound() + 1
        &&& (forall|i: int|
            0 <= i < pre.products().len() ==> (#[trigger] pre.products()[i])._id != p._id)
        &&& post.products() == pre.products().push(p)
        &&& (exists|sid: Oid|
            post.stocks() == pre.stocks().push(
                (Stock { _id: sid, client_id, product_id: p._id, quantity }),
            ))
        &&& post.spec_get_product(p._id, client_id) == Some(p)
        &&& (post.spec_get_stock(client_id, p._id) matches Some(s) && s.quantity == quantity)
        &&& (forall|pid: Oid, c: Oid|
            !(pid == p._id && c == client_id) ==> #[trigger] post.spec_get_product(pid, c)
                == pre.spec_get_product(pid, c))
        &&& (forall|c: Oid, pid: Oid|
            !(c == client_id && pid == p._id) ==> #[trigger] post.spec_get_stock(c, pid)
                == pre.spec_get_stock(c, pid))
    }

    /// Creates a product together with its paired stock record holding the
    /// requested quantity. The boundary rejects quantities below one before
    /// calling in.
    pub fn create(&mut self, name: String, description: String, client_id: Oid, quantity: i32)
        -> (r: Result<Product, AppError>)
        requires
            old(self).wf(),
            old(self).id_capacity(),
            quantity >= 1,
        ensures
            final(self).wf(),
            r matches Ok(p) && p.name == name && p.description == description
                && Self::create_post(*old(self), *final(self), client_id, quantity, p),
    {
        let ghost pre = *old(self);
        let mut product = Product::new(name, description, client_id);
        let product_id = self.product_repo.insert(&product);
        product._id = product_id;
        let stock = Stock::new(client_id, product_id, quantity);
        let stock_id = self.stock_repo.insert(&stock);
        let ghost post = *self;
        let ghost pushed_stock = Stock {
            _id: stock_id,
            client_id,
            product_id,
            quantity,
        };
        proof {
            assert(post.products() == pre.products().push(product));
            assert(post.stocks() == pre.stocks().push(pushed_stock));
            // the assigned id fits the 24-digit hexadecimal form
            lemma_pow16_concrete();
            assert(product_id.code == pre.product_id_bound());
            assert((product_id.code as int) < pow16(24));
            // no earlier product carries the fresh id
            assert forall|i: int|
                0 <= i < pre.products().len() implies (#[trigger] pre.products()[i])._id
                != product_id by {
                assert(pre.products()[i]._id.code < pre.product_repo.id_bound());
            }
            // no earlier stock points at the fresh product id
            assert forall|i: int|
                0 <= i < pre.stocks().len() implies (#[trigger] pre.stocks()[i]).product_id
                != product_id by {
                assert(pre.stocks()[i].product_id.code < pre.product_repo.id_bound());
            }
            // the new product is what its key now finds
            let f = product_filter(product_id, client_id);
            assert forall|i: int|
                0 <= i < pre.products().len() implies !f(#[trigger] pre.products()[i]) by {}
            lemma_first_match_props(pre.products(), f);
            lemma_first_match_push(pre.products(), f, product);
            assert(post.spec_get_product(product_id, client_id) == Some(product));
            // the new stock is what its key now finds
            let g = stock_filter(client_id, product_id);
            assert forall|i: int|
                0 <= i < pre.stocks().len() implies !g(#[trigger] pre.stocks()[i]) by {}
            lemma_first_match_props(pre.stocks(), g);
            lemma_first_match_push(pre.stocks(), g, pushed_stock);
            assert(post.spec_get_stock(client_id, product_id) == Some(pushed_stock));
            // every other product lookup is unaffected
            assert forall|pid: Oid, c: Oid|
                !(pid == product_id && c == client_id) implies #[trigger] post.spec_get_product(
                pid,
                c,
            ) == pre.spec_get_product(pid, c) by {
                let f2 = product_filter(pid, c);
                assert(!f2(product));
                lemma_first_match_push(pre.products(), f2, product);
                lemma_first_match_props(pre.products(), f2);
                if first_match_idx(pre.products(), f2) >= 0 {
                    let k = first_match_idx(pre.products(), f2);
                    assert(post.products()[k] == pre.products()[k]);
                }
            }
            // every other stock lookup is unaffected
            assert forall|c: Oid, pid: Oid|
                !(c == client_id && pid == product_id) implies #[trigger] post.spec_get_stock(
                c,
                pid,
            ) == pre.spec_get_stock(c, pid) by {
                let g2 = stock_filter(c, pid);
                assert(!g2(pushed_stock));
                lemma_first_match_push(pre.stocks(), g2, pushed_stock);
                lemma_first_match_props(pre.stocks(), g2);
                if first_match_idx(pre.stocks(), g2) >= 0 {
                    let k = first_match_idx(pre.stocks(), g2);
                    assert(post.stocks()[k] == pre.stocks()[k]);
                }
            }
            // the engine invariant is re-established
            assert forall|i: int|
                0 <= i < post.stocks().len() implies (#[trigger] post.stocks()[i].product_id.code)
                < post.product_repo.id_bound() by {
                if i < pre.stocks().len() {
                    assert(post.stocks()[i] == pre.stocks()[i]);
                } else {
                    assert(post.stocks()[i] == pushed_stock);
                }
            }
            assert forall|i: int|
                0 <= i < post.stocks().len() implies (#[trigger] post.stocks()[i].quantity)
                >= 0 by {
                if i < pre.stocks().len() {
                    assert(post.stocks()[i] == pre.stocks()[i]);
                } else {
                    assert(post.stocks()[i] == pushed_stock);
                }
            }
            // product ids stay pairwise distinct: the new one is fresh
            assert forall|i: int, j: int|
                0 <= i < j < post.products().len() implies (#[trigger] post.products()[i])._id
                != (#[trigger] post.products()[j])._id by {
                assert(post.products()[i] == pre.products()[i]);
                if j < pre.products().len() {
                    assert(post.products()[j] == pre.products()[j]);
                } else {
                    assert(post.products()[j] == product);
                }
            }
            // stock keys stay pairwise distinct: the new key carries a fresh
            // product id
            assert forall|i: int, j: int|
                0 <= i < j < post.stocks().len() implies !((#[trigger] post.stocks()[i]).client_id
                == (#[trigger] post.stocks()[j]).client_id && post.stocks()[i].product_id
                == post.stocks()[j].product_id) by {
                assert(post.stocks()[i] == pre.stocks()[i]);
                if j < pre.stocks().len() {
                    assert(post.stocks()[j] == pre.stocks()[j]);
                } else {
                    assert(post.stocks()[j] == pushed_stock);
                    assert(pre.stocks()[i].product_id != product_id);
                }
            }
        }
        Ok(product)
    }

    /// Retrieves a product and its stock quantity; either half missing under
    /// the client's scope is reported as not found.
    pub fn get_product(&self, product_id: Oid, client_id: Oid) -> (r: Result<
        (Product, i32),
        AppError,
    >)
        ensures
            r is Ok <==> self.has_pair(client_id, product_id),
            r matches Ok(pq) ==> self.spec_get_product(product_id, client_id) == Some(pq.0)
                && pq.1 as int == self.quantity_of(client_id, product_id),
            r matches Err(e) ==> e.kind == ErrorKind::NotFound && e.message@ == (
            if self.spec_get_product(product_id, client_id) is None {
                "product not found"@
            } else {
                "stock not found"@
            }),
    {
        let product = match self.product_repo.get_by_id(product_id, client_id) {
            Some(p) => p,
            None => {
                return Err(AppError::new("product not found", ErrorKind::NotFound));
            },
        };

        let stock = match self.stock_repo.get_by_client_id_and_product_id(client_id, product_id) {
            Some(s) => s,
            None => {
                return Err(AppError::new("stock not found", ErrorKind::NotFound));
            },
        };

        Ok((product, stock.get_quantity()))
    }

    /// Checks that the product exists under the client's scope and retrieves
    /// its stock record.
    pub fn check_product_and_get_stock(&self, client_id: Oid, product_id: Oid) -> (r: Result<
        Stock,
        AppError,
    >)
        ensures
            r is Ok <==> self.has_pair(client_id, product_id),
            r matches Ok(s) ==> self.spec_get_stock(client_id, product_id) == Some(s),
            r matches Err(e) ==> e.kind == ErrorKind::NotFound,
    {
        if let Err(err) = self.get_product(product_id, client_id) {
            return Err(err);
        }

        match self.stock_repo.get_by_client_id_and_product_id(client_id, product_id) {
            Some(stock) => Ok(stock),
            None => Err(AppError::new("stock not found", ErrorKind::NotFound)),
        }
    }

    /// What setting a quantity leaves behind, in every case: a missing pair
    /// is not found; a decrease is refused; an equal value is an observable
    /// no-op; an increase replaces the stored quantity and nothing else.
    pub open spec fn set_quantity_post(
        pre: ProductService,
        post: ProductService,
        r: Result<Stock, AppError>,
        client_id: Oid,
        product_id: Oid,
        new_quantity: i32,
    ) -> bool {
        &&& post.products() == pre.products()
        &&& (!pre.has_pair(client_id, product_id) ==> (r matches Err(e) && e.kind
            == ErrorKind::NotFound) && post.stocks() == pre.stocks())
        &&& (pre.has_pair(client_id, product_id) ==> (pre.spec_get_stock(client_id, product_id)
            matches Some(s0) ==> {
            &&& (new_quantity < s0.quantity ==> (r matches Err(e) && e.kind
                == ErrorKind::FailedAction && e.message@
                == "quantity to set must be more than current quantity"@) && post.stocks()
                == pre.stocks())
            &&& (new_quantity == s0.quantity ==> (r matches Ok(s) && s == s0) && post.stocks()
                == pre.stocks())
            &&& (new_quantity > s0.quantity ==> (r matches Ok(s) && s == (Stock {
                quantity: new_quantity,
                ..s0
            })) && post.stocks() == pre.stocks().update(
                first_match_idx(pre.stocks(), stock_filter(client_id, product_id)),
                (Stock { quantity: new_quantity, ..s0 }),
            ))
        }))
    }

    /// Sets the stock quantity of a product to a value no smaller than the
    /// current one; equal values succeed without an update, smaller values
    /// are refused.
    pub fn set_product_quantity(
        &mut self,
        client_id: Oid,
        product_id: Oid,
        update: &SetProductQuantityRequest,
    ) -> (r: Result<Stock, AppError>)
        requires
            old(self).wf(),
        ensures
            final(self).wf(),
            final(self).product_id_bound() == old(self).product_id_bound(),
            final(self).stock_id_bound() == old(self).stock_id_bound(),
            Self::set_quantity_post(
                *old(self),
                *final(self),
                r,
                client_id,
                product_id,
                update.quantity,
            ),
    {
        let ghost pre = *old(self);
        let mut stock = match self.check_product_and_get_stock(client_id, product_id) {
            Ok(s) => s,
            Err(e) => {
                return Err(e);
            },
        };

        if update.quantity < stock.get_quantity() {
            return Err(AppError::new(
                "quantity to set must be more than current quantity",
                ErrorKind::FailedAction,
            ));
        }

        if update.quantity == stock.get_quantity() {
            return Ok(stock);
        }

        let ghost s0 = stock;
        stock.set_quantity(update.quantity);
        proof {
            let g = stock_filter(client_id, product_id);
            lemma_first_match_props(pre.stocks(), g);
            let i0 = first_match_idx(pre.stocks(), g);
            assert(pre.stocks()[i0] == s0);
            let gf = stock_filter_full(s0._id, s0.client_id, s0.product_id);
            assert(gf(pre.stocks()[i0]));
            assert forall|j: int| 0 <= j < i0 implies !gf(#[trigger] pre.stocks()[j]) by {
                assert(!g(pre.stocks()[j]));
            }
            lemma_first_match_at(pre.stocks(), gf, i0);
        }
        let modified = self.stock_repo.update(&stock);
        if modified == 0 {
            // the record was just read back, so the filtered update matches it
            return Err(AppError::new("cannot set quantity", ErrorKind::InternalServerError));
        }
        proof {
            let g = stock_filter(client_id, product_id);
            let i0 = first_match_idx(pre.stocks(), g);
            assert(self.stocks() == pre.stocks().update(i0, stock));
            // the engine invariant survives a quantity-only update
            assert forall|i: int|
                0 <= i < self.stocks().len() implies (#[trigger] self.stocks()[i].product_id.code)
                < self.product_repo.id_bound() by {
                if i != i0 {
                    assert(self.stocks()[i] == pre.stocks()[i]);
                }
            }
            assert forall|i: int|
                0 <= i < self.stocks().len() implies (#[trigger] self.stocks()[i].quantity)
                >= 0 by {
                if i != i0 {
                    assert(self.stocks()[i] == pre.stocks()[i]);
                }
            }
        }
        Ok(stock)
    }

    /// Checks that the requested number of a product is on hand. A pure
    /// read: the engine state is untouched.
    pub fn check_availability(&self, client_id: Oid, product_id: Oid, has_available: i32) -> (r:
        Result<(), AppError>)
        ensures
            r is Ok <==> self.has_pair(client_id, product_id) && has_available as int
                <= self.quantity_of(client_id, product_id),
            r matches Err(e) ==> e.kind == (if self.has_pair(client_id, product_id) {
                ErrorKind::FailedAction
            } else {
                ErrorKind::NotFound
            }),
    {
        let stock = match self.check_product_and_get_stock(client_id, product_id) {
            Ok(s) => s,
            Err(e) => {
                return Err(e);
            },
        };

        if has_available > stock.get_quantity() {
            return Err(AppError::new(
                "product quantity is less than requested number",
                ErrorKind::FailedAction,
            ));
        }

        Ok(())
    }

    /// Updates a product's name and description, leaving its sku, identity
    /// and stock untouched.
    pub fn update_product(
        &mut self,
        client_id: Oid,
        product_id: Oid,
        update: &UpdateProductRequest,
    ) -> (r: Result<Product, AppError>)
        requires
            old(self).wf(),
        ensures
            final(self).wf(),
            final(self).product_id_bound() == old(self).product_id_bound(),
            final(self).stock_id_bound() == old(self).stock_id_bound(),
            final(self).stocks() == old(self).stocks(),
            r is Ok <==> old(self).has_pair(client_id, product_id),
            r matches Ok(p) ==> old(self).spec_get_product(product_id, client_id) matches Some(p0)
                && p == (Product { name: update.name, description: update.description, ..p0 })
                && final(self).products() == old(self).products().update(
                first_match_idx(old(self).products(), product_filter(product_id, client_id)),
                p,
            ),
            r matches Err(e) ==> e.kind == ErrorKind::NotFound && final(self).products()
                == old(self).products(),
    {
        let ghost pre = *old(self);
        let mut product = match self.get_product(product_id, client_id) {
            Ok(pq) => pq.0,
            Err(e) => {
                return Err(e);
            },
        };

        product.name = update.name.clone();
        product.description = update.description.clone();

        proof {
            let f = product_filter(product_id, client_id);
            lemma_first_match_props(pre.products(), f);
            assert(product._id == product_id);
        }
        let modified = self.product_repo.update(client_id, &product);
        if modified == 0 {
            // the product was just read back, so the filtered update matches it
            return Err(AppError::new("cannot update product", ErrorKind::InternalServerError));
        }
        proof {
            let f = product_filter(product_id, client_id);
            let i0 = first_match_idx(pre.products(), f);
            assert(self.products() == pre.products().update(i0, product));
        }
        Ok(product)
    }

    /// Deletes a product and its stock record together; deleting what is
    /// absent succeeds and removes nothing.
    pub fn delete_product(&mut self, client_id: Oid, product_id: Oid) -> (r: Result<(), AppError>)
        requires
            old(self).wf(),
        ensures
            final(self).wf(),
            final(self).product_id_bound() == old(self).product_id_bound(),
            final(self).stock_id_bound() == old(self).stock_id_bound(),
            r is Ok,
            ({
                let pi = first_match_idx(
                    old(self).products(),
                    product_filter(product_id, client_id),
                );
                final(self).products() == if pi >= 0 {
                    old(self).products().remove(pi)
                } else {
                    old(self).products()
                }
            }),
            ({
                let si = first_match_idx(old(self).stocks(), stock_filter(client_id, product_id));
                final(self).stocks() == if si >= 0 {
                    old(self).stocks().remove(si)
                } else {
                    old(self).stocks()
                }
            }),
            final(self).spec_get_product(product_id, client_id) is None,
            final(self).spec_get_stock(client_id, product_id) is None,
    {
        let ghost pre = *old(self);
        self.product_repo.delete_by_id(client_id, product_id);
        self.stock_repo.delete_by_client_id_and_product_id(client_id, product_id);
        proof {
            let f = product_filter(product_id, client_id);
            let g = stock_filter(client_id, product_id);
            let pi = first_match_idx(pre.products(), f);
            let si = first_match_idx(pre.stocks(), g);
            lemma_first_match_props(pre.products(), f);
            lemma_first_match_props(pre.stocks(), g);
            // each surviving document comes from a distinct old position
            assert forall|i: int|
                0 <= i < self.products().len() implies #[trigger] self.products()[i]
                == pre.products()[(if pi >= 0 && i >= pi {
                i + 1
            } else {
                i
            })] by {}
            assert forall|i: int|
                0 <= i < self.stocks().len() implies #[trigger] self.stocks()[i] == pre.stocks()[(
            if si >= 0 && i >= si {
                i + 1
            } else {
                i
            })] by {}
            // the invariant survives: every survivor already satisfied it
            assert forall|i: int|
                0 <= i < self.stocks().len() implies (#[trigger] self.stocks()[i].product_id.code)
                < self.product_repo.id_bound() && (self.stocks()[i].quantity) >= 0 by {
                assert(self.stocks()[i] == pre.stocks()[(if si >= 0 && i >= si {
                    i + 1
                } else {
                    i
                })]);
            }
            assert forall|i: int, j: int|
                0 <= i < j < self.products().len() implies (#[trigger] self.products()[i])._id
                != (#[trigger] self.products()[j])._id by {
                assert(self.products()[i] == pre.products()[(if pi >= 0 && i >= pi {
                    i + 1
                } else {
                    i
                })]);
                assert(self.products()[j] == pre.products()[(if pi >= 0 && j >= pi {
                    j + 1
                } else {
                    j
                })]);
            }
            assert forall|i: int, j: int|
                0 <= i < j < self.stocks().len() implies !((#[trigger] self.stocks()[i]).client_id
                == (#[trigger] self.stocks()[j]).client_id && self.stocks()[i].product_id
                == self.stocks()[j].product_id) by {
                assert(self.stocks()[i] == pre.stocks()[(if si >= 0 && i >= si {
                    i + 1
                } else {
                    i
                })]);
                assert(self.stocks()[j] == pre.stocks()[(if si >= 0 && j >= si {
                    j + 1
                } else {
                    j
                })]);
            }
            // the pair is wholly gone: by key uniqueness the removed match
            // was the only one
            assert forall|k: int|
                0 <= k < self.products().len() implies !f(#[trigger] self.products()[k]) by {
                let ok = if pi >= 0 && k >= pi {
                    k + 1
                } else {
                    k
                };
                assert(self.products()[k] == pre.products()[ok]);
                if pi >= 0 && ok != pi && f(pre.products()[ok]) {
                    assert(pre.products()[ok]._id == pre.products()[pi]._id);
                    assert(false);
                }
            }
            lemma_first_match_props(self.products(), f);
            assert forall|k: int|
                0 <= k < self.stocks().len() implies !g(#[trigger] self.stocks()[k]) by {
                let ok = if si >= 0 && k >= si {
                    k + 1
                } else {
                    k
                };
                assert(self.stocks()[k] == pre.stocks()[ok]);
                if si >= 0 && ok != si && g(pre.stocks()[ok]) {
                    assert(pre.stocks()[ok].client_id == pre.stocks()[si].client_id
                        && pre.stocks()[ok].product_id == pre.stocks()[si].product_id);
                    assert(false);
                }
            }
            lemma_first_match_props(self.stocks(), g);
        }
        Ok(())
    }

    /// Lists every product of the client joined with its stock quantity; a
    /// product whose stock record is missing is listed with quantity zero
    /// rather than dropped.
    pub fn get_products_by_client(&self, client_id: Oid) -> (r: Result<Vec<(Product, i32)>, AppError>)
        ensures
            r matches Ok(v) && ({
                let ps = self.products().filter(|p: Product| p.created_by == client_id);
                &&& v@.len() == ps.len()
                &&& (forall|i: int|
                    0 <= i < v@.len() ==> (#[trigger] v@[i]).0 == ps[i] && v@[i].1 as int == (
                    match self.spec_get_stock(client_id, ps[i]._id) {
                        Some(s) => s.quantity as int,
                        None => 0,
                    }))
            }),
    {
        let products = self.product_repo.get_by_client_id(client_id);
        let mut v: Vec<(Product, i32)> = Vec::new();
        let n: usize = products.len();
        let mut i: usize = 0;
        while i < n
            invariant
                i <= n,
                v@.len() == i,
                forall|j: int|
                    0 <= j < i ==> (#[trigger] v@[j]).0 == products@[j] && v@[j].1 as int == (
                    match self.spec_get_stock(client_id, products@[j]._id) {
                        Some(s) => s.quantity as int,
                        None => 0,
                    }),
            decreases n - i,
        {
            let p = &products[i];
            let quantity = match self.stock_repo.get_by_client_id_and_product_id(
                client_id,
                p._id,
            ) {
                Some(s) => s.get_quantity(),
                None => 0,
            };
            v.push((p.clone(), quantity));
            i = i + 1;
        }
        Ok(v)
    }
}

/// The id an order line names, as the engine parses it.
pub open spec fn req_oid(req: ProductQuantityRequest) -> Option<Oid> {
    parse_oid(req.product_id@)
}

/// Every line of the batch names a well-formed product id.
pub open spec fn all_ids_valid(reqs: Seq<ProductQuantityRequest>) -> bool {
    forall|i: int| 0 <= i < reqs.len() ==> (#[trigger] req_oid(reqs[i])) is Some
}

/// No two lines of the batch name the same product.
pub open spec fn ids_distinct(reqs: Seq<ProductQuantityRequest>) -> bool {
    forall|i: int, j: int|
        0 <= i < j < reqs.len() ==> #[trigger] req_oid(reqs[i]) != #[trigger] req_oid(reqs[j])
}

/// Whether every line before `k` parses and no two of them name the same
/// product: the normalization scan reaches line `k` untroubled.
pub open spec fn norm_prefix_clean(reqs: Seq<ProductQuantityRequest>, k: int) -> bool {
    &&& (forall|j: int| 0 <= j < k ==> (#[trigger] req_oid(reqs[j])) is Some)
    &&& (forall|i: int, j: int|
        0 <= i < j < k ==> #[trigger] req_oid(reqs[i]) != #[trigger] req_oid(reqs[j]))
}

/// The first line normalization refuses: everything before it is clean, and
/// the line itself is malformed or repeats an earlier product.
pub open spec fn norm_fails_at(reqs: Seq<ProductQuantityRequest>, k: int) -> bool {
    &&& 0 <= k < reqs.len()
    &&& norm_prefix_clean(reqs, k)
    &&& (req_oid(reqs[k]) is None || (exists|j: int|
        0 <= j < k && #[trigger] req_oid(reqs[j]) == req_oid(reqs[k])))
}

/// The message normalization reports for its refused line: it names the
/// offending id, a malformed id as it was given and a duplicated id in its
/// 24-digit hexadecimal form.
pub open spec fn norm_fail_message(reqs: Seq<ProductQuantityRequest>, k: int) -> Seq<char> {
    match req_oid(reqs[k]) {
        None => "invalid product id: "@ + reqs[k].product_id@,
        Some(oid) => "duplicate order with product_id: "@ + oid_hex(oid.code),
    }
}

/// A normalized order line that the engine can serve: its product and stock
/// exist and the requested quantity is on hand.
pub open spec fn line_ok(s: ProductService, client_id: Oid, line: ProductQuantity) -> bool {
    s.has_pair(client_id, line.product_id) && line.quantity as int <= s.quantity_of(
        client_id,
        line.product_id,
    )
}

/// The filter picking out normalized lines the engine cannot serve.
pub open spec fn line_bad(s: ProductService, client_id: Oid) -> spec_fn(ProductQuantity) -> bool {
    |line: ProductQuantity| !line_ok(s, client_id, line)
}

/// A raw order line that the engine can serve: it parses, and the parsed
/// line is serviceable.
pub open spec fn req_ok(s: ProductService, client_id: Oid, req: ProductQuantityRequest) -> bool {
    req_oid(req) matches Some(oid) && line_ok(
        s,
        client_id,
        (ProductQuantity { product_id: oid, quantity: req.quantity }),
    )
}

/// The filter picking out raw lines the engine cannot serve.
pub open spec fn req_bad(s: ProductService, client_id: Oid) -> spec_fn(
    ProductQuantityRequest,
) -> bool {
    |req: ProductQuantityRequest| !req_ok(s, client_id, req)
}

/// Every line of the batch can be served against this state.
pub open spec fn orders_ok(s: ProductService, client_id: Oid, reqs: Seq<ProductQuantityRequest>)
    -> bool {
    forall|k: int| 0 <= k < reqs.len() ==> req_ok(s, client_id, #[trigger] reqs[k])
}

/// A raw line fails exactly where its normalized line fails, so both
/// readings of the batch agree on the first offending position.
proof fn lemma_bad_line_bridge(
    s: ProductService,
    client_id: Oid,
    reqs: Seq<ProductQuantityRequest>,
    orders: Seq<ProductQuantity>,
)
    requires
        orders.len() == reqs.len(),
        forall|k: int|
            0 <= k < reqs.len() ==> req_oid(#[trigger] reqs[k]) == Some(orders[k].product_id)
                && orders[k].quantity == reqs[k].quantity,
    ensures
        first_match_idx(reqs, req_bad(s, client_id)) == first_match_idx(
            orders,
            line_bad(s, client_id),
        ),
{
    let rb = req_bad(s, client_id);
    let lb = line_bad(s, client_id);
    assert forall|k: int| 0 <= k < reqs.len() implies rb(#[trigger] reqs[k]) == lb(orders[k]) by {
        assert((ProductQuantity {
            product_id: orders[k].product_id,
            quantity: reqs[k].quantity,
        }) == orders[k]);
    }
    lemma_first_match_props(reqs, rb);
    lemma_first_match_props(orders, lb);
    let br = first_match_idx(reqs, rb);
    let bo = first_match_idx(orders, lb);
    if bo >= 0 {
        assert forall|j: int| 0 <= j < bo implies !rb(#[trigger] reqs[j]) by {
            assert(!lb(orders[j]));
        }
        assert(rb(reqs[bo]));
        lemma_first_match_at(reqs, rb, bo);
    } else if br >= 0 {
        assert(lb(orders[br]));
        assert(bo != -1);
    }
}

impl ProductService {
    /// Normalizes a batch of raw order lines: every product id must parse
    /// and no product may appear twice; the whole batch is rejected
    /// otherwise, before anything is read or written.
    pub fn check_products_and_convert_to_product_quantity_vector(
        &self,
        pq_requests: Vec<ProductQuantityRequest>,
    ) -> (r: Result<Vec<ProductQuantity>, AppError>)
        ensures
            r is Ok <==> all_ids_valid(pq_requests@) && ids_distinct(pq_requests@),
            r matches Ok(v) ==> v@.len() == pq_requests@.len() && (forall|k: int|
                0 <= k < v@.len() ==> (#[trigger] req_oid(pq_requests@[k])) == Some(
                    v@[k].product_id,
                ) && v@[k].quantity == pq_requests@[k].quantity),
            r matches Err(e) ==> e.kind == ErrorKind::FailedAction && (exists|k: int|
                #[trigger] norm_fails_at(pq_requests@, k) && e.message@ == norm_fail_message(
                    pq_requests@,
                    k,
                )),
    {
        let n: usize = pq_requests.len();
        let mut pq_vec: Vec<ProductQuantity> = Vec::new();
        let mut seen_checks: Vec<Oid> = Vec::new();
        let mut k: usize = 0;

        while k < n
            invariant
                k <= n,
                pq_vec@.len() == k,
                seen_checks@.len() == k,
                forall|j: int|
                    0 <= j < k ==> (#[trigger] req_oid(pq_requests@[j])) == Some(
                        pq_vec@[j].product_id,
                    ) && pq_vec@[j].quantity == pq_requests@[j].quantity,
                forall|j: int| 0 <= j < k ==> seen_checks@[j] == (#[trigger] pq_vec@[j]).product_id,
                forall|i: int, j: int|
                    0 <= i < j < k ==> #[trigger] pq_vec@[i].product_id
                        != #[trigger] pq_vec@[j].product_id,
            decreases n - k,
        {
            let req = &pq_requests[k];
            let mut pq = ProductQuantity::new();
            pq.product_id = match Oid::parse(req.product_id.as_str()) {
                Some(product_id) => product_id,
                None => {
                    proof {
                        assert(req_oid(pq_requests@[k as int]) is None);
                        assert forall|j: int|
                            0 <= j < k implies (#[trigger] req_oid(pq_requests@[j])) is Some by {
                            assert(req_oid(pq_requests@[j]) == Some(pq_vec@[j].product_id));
                        }
                        assert forall|i: int, j: int|
                            0 <= i < j < k implies #[trigger] req_oid(pq_requests@[i])
                            != #[trigger] req_oid(pq_requests@[j]) by {
                            assert(pq_vec@[i].product_id != pq_vec@[j].product_id);
                        }
                        assert(norm_fails_at(pq_requests@, k as int));
                    }
                    let mut msg = String::from_str("invalid product id: ");
                    msg.append(req.product_id.as_str());
                    return Err(AppError::new(msg.as_str(), ErrorKind::FailedAction));
                },
            };

            if contains_oid(&seen_checks, pq.product_id) {
                proof {
                    let j = choose|j: int|
                        0 <= j < seen_checks@.len() && seen_checks@[j] == pq.product_id;
                    assert(req_oid(pq_requests@[j]) == req_oid(pq_requests@[k as int]));
                    assert(!ids_distinct(pq_requests@));
                    assert forall|jj: int|
                        0 <= jj < k implies (#[trigger] req_oid(pq_requests@[jj])) is Some by {
                        assert(req_oid(pq_requests@[jj]) == Some(pq_vec@[jj].product_id));
                    }
                    assert forall|ii: int, jj: int|
                        0 <= ii < jj < k implies #[trigger] req_oid(pq_requests@[ii])
                        != #[trigger] req_oid(pq_requests@[jj]) by {
                        assert(pq_vec@[ii].product_id != pq_vec@[jj].product_id);
                    }
                    assert(norm_fails_at(pq_requests@, k as int));
                }
                let mut msg = String::from_str("duplicate order with product_id: ");
                let hex = pq.product_id.to_hex();
                msg.append(hex.as_str());
                return Err(AppError::new(msg.as_str(), ErrorKind::FailedAction));
            }

            pq.quantity = req.quantity;
            seen_checks.push(pq.product_id);
            pq_vec.push(pq);
            k = k + 1;
        }

        proof {
            assert forall|i: int, j: int|
                0 <= i < j < pq_requests@.len() implies #[trigger] req_oid(pq_requests@[i])
                != #[trigger] req_oid(pq_requests@[j]) by {
                assert(pq_vec@[i].product_id != pq_vec@[j].product_id);
            }
        }
        Ok(pq_vec)
    }

    /// Checks availability for every line of a normalized batch; the first
    /// unserviceable line rejects the whole batch. A pure read.
    pub fn check_availability_many(&self, client_id: Oid, checks: &Vec<ProductQuantity>) -> (r:
        Result<(), AppError>)
        ensures
            r is Ok <==> (forall|k: int|
                0 <= k < checks@.len() ==> line_ok(*self, client_id, #[trigger] checks@[k])),
            r matches Err(e) ==> ({
                let bad = first_match_idx(checks@, line_bad(*self, client_id));
                bad >= 0 && e.kind == (if self.has_pair(client_id, checks@[bad].product_id) {
                    ErrorKind::FailedAction
                } else {
                    ErrorKind::NotFound
                })
            }),
    {
        let n: usize = checks.len();
        let mut k: usize = 0;
        while k < n
            invariant
                k <= n,
                forall|j: int| 0 <= j < k ==> line_ok(*self, client_id, #[trigger] checks@[j]),
            decreases n - k,
        {
            let check = &checks[k];
            if let Err(err) = self.check_availability(client_id, check.product_id, check.quantity) {
                proof {
                    let lb = line_bad(*self, client_id);
                    assert(lb(checks@[k as int]));
                    assert forall|j: int| 0 <= j < k implies !lb(#[trigger] checks@[j]) by {}
                    lemma_first_match_at(checks@, lb, k as int);
                }
                return Err(err);
            }
            k = k + 1;
        }
        Ok(())
    }

    /// What decrementing a quantity leaves behind, in every case: a missing
    /// stock is not found, an overdraw is refused before anything is
    /// written, and otherwise exactly that stock's quantity shrinks.
    pub open spec fn decrement_post(
        pre: ProductService,
        post: ProductService,
        r: Result<(), AppError>,
        client_id: Oid,
        product_id: Oid,
        number: i32,
    ) -> bool {
        &&& post.products() == pre.products()
        &&& (pre.spec_get_stock(client_id, product_id) is None ==> (r matches Err(e) && e.kind
            == ErrorKind::NotFound) && post.stocks() == pre.stocks())
        &&& (pre.spec_get_stock(client_id, product_id) matches Some(s0) ==> {
            &&& (s0.quantity < number ==> (r matches Err(e) && e.kind == ErrorKind::FailedAction)
                && post.stocks() == pre.stocks())
            &&& (s0.quantity >= number ==> r is Ok && post.stocks() == pre.stocks().update(
                first_match_idx(pre.stocks(), stock_filter(client_id, product_id)),
                (Stock { quantity: (s0.quantity - number) as i32, ..s0 }),
            ))
        })
    }

    /// Decrements a product's stock quantity, re-reading the current value
    /// and refusing to write a negative one. Meant to be called once the
    /// product is known to exist.
    pub fn decrement_quantity_by(&mut self, client_id: Oid, product_id: Oid, number: i32) -> (r:
        Result<(), AppError>)
        requires
            old(self).wf(),
            number >= 1,
        ensures
            final(self).wf(),
            final(self).product_id_bound() == old(self).product_id_bound(),
            final(self).stock_id_bound() == old(self).stock_id_bound(),
            Self::decrement_post(*old(self), *final(self), r, client_id, product_id, number),
    {
        let ghost pre = *old(self);
        let mut stock = match self.stock_repo.get_by_client_id_and_product_id(
            client_id,
            product_id,
        ) {
            Some(s) => s,
            None => {
                return Err(AppError::new("stock not found", ErrorKind::NotFound));
            },
        };

        let ghost s0 = stock;
        proof {
            let g = stock_filter(client_id, product_id);
            lemma_first_match_props(pre.stocks(), g);
            assert(pre.stocks()[first_match_idx(pre.stocks(), g)] == s0);
            assert(s0.quantity >= 0);
        }

        stock.set_quantity(stock.get_quantity() - number);
        if stock.get_quantity() < 0 {
            return Err(AppError::new("product is low in stock", ErrorKind::FailedAction));
        }

        proof {
            let g = stock_filter(client_id, product_id);
            let i0 = first_match_idx(pre.stocks(), g);
            let gf = stock_filter_full(s0._id, s0.client_id, s0.product_id);
            assert(gf(pre.stocks()[i0]));
            assert forall|j: int| 0 <= j < i0 implies !gf(#[trigger] pre.stocks()[j]) by {
                assert(!g(pre.stocks()[j]));
            }
            lemma_first_match_at(pre.stocks(), gf, i0);
        }
        let modified = self.stock_repo.update(&stock);
        if modified == 0 {
            // the record was just read back, so the filtered update matches it
            return Err(AppError::new("cannot decrement quantity", ErrorKind::InternalServerError));
        }
        proof {
            let g = stock_filter(client_id, product_id);
            let i0 = first_match_idx(pre.stocks(), g);
            assert(self.stocks() == pre.stocks().update(i0, stock));
            assert forall|i: int|
                0 <= i < self.stocks().len() implies (#[trigger] self.stocks()[i].product_id.code)
                < self.product_repo.id_bound() && (self.stocks()[i].quantity) >= 0 by {
                if i != i0 {
                    assert(self.stocks()[i] == pre.stocks()[i]);
                }
            }
            // products are untouched by a stock update
            assert forall|i: int, j: int|
                0 <= i < j < self.products().len() implies (#[trigger] self.products()[i])._id
                != (#[trigger] self.products()[j])._id by {
                assert(self.products()[i] == pre.products()[i]);
                assert(self.products()[j] == pre.products()[j]);
            }
            // a quantity-only update keeps every key where it was
            assert forall|i: int, j: int|
                0 <= i < j < self.stocks().len() implies !((#[trigger] self.stocks()[i]).client_id
                == (#[trigger] self.stocks()[j]).client_id && self.stocks()[i].product_id
                == self.stocks()[j].product_id) by {
                assert(self.stocks()[i].client_id == pre.stocks()[i].client_id
                    && self.stocks()[i].product_id == pre.stocks()[i].product_id);
                assert(self.stocks()[j].client_id == pre.stocks()[j].client_id
                    && self.stocks()[j].product_id == pre.stocks()[j].product_id);
            }
        }
        Ok(())
    }

    /// What applying a batch of orders leaves behind: a malformed or
    /// duplicated line rejects the batch before anything is read, an
    /// unserviceable line rejects it before anything is written, and on
    /// success every line's stock shrinks by exactly its requested quantity
    /// while every other stock is untouched.
    pub open spec fn process_orders_post(
        pre: ProductService,
        post: ProductService,
        r: Result<(), AppError>,
        client_id: Oid,
        reqs: Seq<ProductQuantityRequest>,
    ) -> bool {
        &&& post.products() == pre.products()
        &&& (r is Err ==> post.stocks() == pre.stocks())
        &&& (!(all_ids_valid(reqs) && ids_distinct(reqs)) ==> (r matches Err(e) && e.kind
            == ErrorKind::FailedAction && (exists|k: int|
            #[trigger] norm_fails_at(reqs, k) && e.message@ == norm_fail_message(reqs, k))))
        &&& ((all_ids_valid(reqs) && ids_distinct(reqs)) ==> {
            &&& (r is Ok <==> orders_ok(pre, client_id, reqs))
            &&& (r matches Err(e) ==> ({
                let bad = first_match_idx(reqs, req_bad(pre, client_id));
                &&& bad >= 0
                &&& e.kind == (if (req_oid(reqs[bad]) matches Some(oid) && pre.has_pair(
                    client_id,
                    oid,
                )) {
                    ErrorKind::FailedAction
                } else {
                    ErrorKind::NotFound
                })
            }))
            &&& (r is Ok ==> {
                &&& post.stocks().len() == pre.stocks().len()
                &&& (forall|k: int|
                    0 <= k < reqs.len() ==> ((#[trigger] req_oid(reqs[k])) matches Some(oid)
                        ==> (pre.spec_get_stock(client_id, oid) matches Some(s0)
                        && post.spec_get_stock(client_id, oid) == Some(
                        (Stock { quantity: (s0.quantity - reqs[k].quantity) as i32, ..s0 }),
                    ))))
                &&& (forall|c: Oid, p: Oid|
                    !(c == client_id && (exists|k: int|
                        0 <= k < reqs.len() && req_oid(#[trigger] reqs[k]) == Some(p)))
                        ==> #[trigger] post.spec_get_stock(c, p) == pre.spec_get_stock(c, p))
            })
        })
    }

    /// Applies a batch of order lines as a unit: normalize and validate,
    /// check every line's availability, and only then decrement each line's
    /// stock.
    pub fn process_orders(
        &mut self,
        client_id: Oid,
        order_requests: Vec<ProductQuantityRequest>,
    ) -> (r: Result<(), AppError>)
        requires
            old(self).wf(),
            forall|k: int|
                0 <= k < order_requests@.len() ==> (#[trigger] order_requests@[k].quantity) >= 1,
        ensures
            final(self).wf(),
            final(self).product_id_bound() == old(self).product_id_bound(),
            final(self).stock_id_bound() == old(self).stock_id_bound(),
            Self::process_orders_post(*old(self), *final(self), r, client_id, order_requests@),
    {
        let ghost pre = *old(self);
        let ghost reqs = order_requests@;

        let orders = match self.check_products_and_convert_to_product_quantity_vector(
            order_requests,
        ) {
            Ok(orders) => orders,
            Err(err) => {
                return Err(err);
            },
        };

        if let Err(err) = self.check_availability_many(client_id, &orders) {
            proof {
                lemma_bad_line_bridge(pre, client_id, reqs, orders@);
                lemma_first_match_props(orders@, line_bad(pre, client_id));
                let bad = first_match_idx(reqs, req_bad(pre, client_id));
                assert(req_oid(reqs[bad]) == Some(orders@[bad].product_id));
            }
            return Err(err);
        }

        let n: usize = orders.len();
        let mut k: usize = 0;
        while k < n
            invariant
                k <= n,
                n == orders@.len(),
                self.wf(),
                self.product_id_bound() == pre.product_id_bound(),
                self.stock_id_bound() == pre.stock_id_bound(),
                self.products() == pre.products(),
                self.stocks().len() == pre.stocks().len(),
                forall|j: int|
                    k <= j < n ==> #[trigger] self.spec_get_stock(client_id, orders@[j].product_id)
                        == pre.spec_get_stock(client_id, orders@[j].product_id),
                forall|j: int|
                    0 <= j < k ==> (pre.spec_get_stock(
                        client_id,
                        (#[trigger] orders@[j]).product_id,
                    ) matches Some(s0) && self.spec_get_stock(client_id, orders@[j].product_id)
                        == Some(
                        (Stock { quantity: (s0.quantity - orders@[j].quantity) as i32, ..s0 }),
                    )),
                forall|c: Oid, p: Oid|
                    !(c == client_id && (exists|j: int|
                        0 <= j < n && (#[trigger] orders@[j]).product_id == p))
                        ==> #[trigger] self.spec_get_stock(c, p) == pre.spec_get_stock(c, p),
            decreases n - k,
        {
            let order = &orders[k];
            let ghost mid = *self;
            let ghost oid_k = orders@[k as int].product_id;
            proof {
                assert(line_ok(pre, client_id, orders@[k as int]));
                assert(mid.spec_get_stock(client_id, oid_k) == pre.spec_get_stock(
                    client_id,
                    oid_k,
                ));
                assert(req_oid(reqs[k as int]) == Some(orders@[k as int].product_id)
                    && orders@[k as int].quantity == reqs[k as int].quantity);
                assert(reqs[k as int].quantity >= 1);
            }
            match self.decrement_quantity_by(client_id, order.product_id, order.quantity) {
                Ok(u) => u,
                Err(err) => {
                    // every line was checked and nothing else shrank its stock
                    proof {
                        assert(false);
                    }
                    return Err(err);
                },
            };
            proof {
                let g = stock_filter(client_id, oid_k);
                lemma_first_match_props(mid.stocks(), g);
                let i0 = first_match_idx(mid.stocks(), g);
                let s0 = mid.stocks()[i0];
                let s1 = Stock { quantity: (s0.quantity - orders@[k as int].quantity) as i32, ..s0 };
                assert(self.stocks() == mid.stocks().update(i0, s1));
                assert forall|c: Oid, p: Oid|
                    !(c == client_id && p == oid_k) implies #[trigger] self.spec_get_stock(c, p)
                    == mid.spec_get_stock(c, p) by {
                    let g2 = stock_filter(c, p);
                    assert(g2(s1) == g2(s0));
                    lemma_first_match_update(mid.stocks(), g2, i0, s1);
                    lemma_first_match_props(mid.stocks(), g2);
                    if first_match_idx(mid.stocks(), g2) == i0 {
                        assert(g2(s0));
                        assert(g(s0));
                        assert(c == client_id && p == oid_k);
                    }
                }
                assert(g(s1) == g(s0));
                lemma_first_match_update(mid.stocks(), g, i0, s1);
                assert(self.spec_get_stock(client_id, oid_k) == Some(s1));
                assert forall|i: int, j: int|
                    0 <= i < j < n implies #[trigger] orders@[i].product_id
                    != #[trigger] orders@[j].product_id by {
                    assert(req_oid(reqs[i]) == Some(orders@[i].product_id));
                    assert(req_oid(reqs[j]) == Some(orders@[j].product_id));
                }
            }
            k = k + 1;
        }

        proof {
            assert forall|c: Oid, p: Oid|
                !(c == client_id && (exists|kk: int|
                    0 <= kk < reqs.len() && req_oid(#[trigger] reqs[kk]) == Some(p)))
                implies #[trigger] self.spec_get_stock(c, p) == pre.spec_get_stock(c, p) by {
                if c == client_id {
                    assert forall|j: int|
                        0 <= j < n implies (#[trigger] orders@[j]).product_id != p by {
                        assert(req_oid(reqs[j]) == Some(orders@[j].product_id));
                    }
                }
            }
        }
        Ok(())
    }

    /// Checks that every line of a raw batch is serviceable, without
    /// touching any quantity: normalize and validate, then check each line.
    pub fn check_multiple_availability(
        &self,
        client_id: Oid,
        check_requests: Vec<ProductQuantityRequest>,
    ) -> (r: Result<(), AppError>)
        ensures
            !(all_ids_valid(check_requests@) && ids_distinct(check_requests@)) ==> (r matches Err(e)
                && e.kind == ErrorKind::FailedAction && (exists|k: int|
                #[trigger] norm_fails_at(check_requests@, k) && e.message@ == norm_fail_message(
                    check_requests@,
                    k,
                ))),
            (all_ids_valid(check_requests@) && ids_distinct(check_requests@)) ==> {
                &&& (r is Ok <==> orders_ok(*self, client_id, check_requests@))
                &&& (r matches Err(e) ==> ({
                    let bad = first_match_idx(check_requests@, req_bad(*self, client_id));
                    &&& bad >= 0
                    &&& e.kind == (if (req_oid(check_requests@[bad]) matches Some(oid)
                        && self.has_pair(client_id, oid)) {
                        ErrorKind::FailedAction
                    } else {
                        ErrorKind::NotFound
                    })
                }))
            },
    {
        let ghost reqs = check_requests@;
        let pq_vec = match self.check_products_and_convert_to_product_quantity_vector(
            check_requests,
        ) {
            Ok(orders) => orders,
            Err(err) => {
                return Err(err);
            },
        };

        if let Err(err) = self.check_availability_many(client_id, &pq_vec) {
            proof {
                lemma_bad_line_bridge(*self, client_id, reqs, pq_vec@);
                lemma_first_match_props(pq_vec@, line_bad(*self, client_id));
                let bad = first_match_idx(reqs, req_bad(*self, client_id));
                assert(req_oid(reqs[bad]) == Some(pq_vec@[bad].product_id));
            }
            return Err(err);
        }

        Ok(())
    }
}

/// Whether the sequence already holds the given id; stands in for the
/// duplicate-detection set of the normalization phase.
fn contains_oid(v: &Vec<Oid>, oid: Oid) -> (b: bool)
    ensures
        b == (exists|i: int| 0 <= i < v@.len() && v@[i] == oid),
{
    let n: usize = v.len();
    let mut i: usize = 0;
    while i < n
        invariant
            i <= n,
            forall|j: int| 0 <= j < i ==> v@[j] != oid,
        decreases n - i,
    {
        if v[i].code == oid.code {
            return true;
        }
        i = i + 1;
    }
    false
}

} // verus!
