use vstd::prelude::*;

verus! {

use crate::lookup::{first_match, first_match_idx, lemma_first_match_at, lemma_first_match_props};
use crate::oid::Oid;
use crate::product::Product;

/// The lookup filter of the product collection: primary key and owning
/// tenant, both by exact equality.
pub open spec fn product_filter(product_id: Oid, client_id: Oid) -> spec_fn(Product) -> bool {
    |p: Product| p._id == product_id && p.created_by == client_id
}

/// The store's find-one over products: the first document matching the key.
pub open spec fn find_product(s: Seq<Product>, product_id: Oid, client_id: Oid) -> Option<
    Product,
> {
    first_match(s, product_filter(product_id, client_id))
}

/// The product collection: an in-memory document store with per-document
/// atomic insert, filtered find, filtered update and filtered delete.
pub struct ProductRepo {
    docs: Vec<Product>,
    next_id: u64,
}

impl View for ProductRepo {
    type V = Seq<Product>;

    closed spec fn view(&self) -> Seq<Product> {
        self.docs@
    }
}

impl ProductRepo {
    /// The least id value strictly above every id this collection has
    /// assigned so far; ids at or above it are still unassigned.
    pub closed spec fn id_bound(&self) -> u128 {
        self.next_id as u128
    }

    /// Every stored document carries an id assigned below the bound.
    pub open spec fn wf(&self) -> bool {
        forall|i: int| 0 <= i < self@.len() ==> (#[trigger] self@[i]._id.code) < self.id_bound()
    }

    /// An empty collection. The blank id value stays below every bound, so
    /// it is never assigned to a document.
    pub fn new() -> (r: Self)
        ensures
            r@ == Seq::<Product>::empty(),
            r.wf(),
            r.id_bound() == 1,
    {
        Self { docs: Vec::new(), next_id: 1 }
    }

    /// Whether a fresh id can still be assigned.
    pub fn can_assign_id(&self) -> (b: bool)
        ensures
            b == (self.id_bound() < u64::MAX as u128),
    {
        self.next_id < u64::MAX
    }

    /// Stores the document under a freshly assigned id and returns that id,
    /// as the store's insert-one reports the inserted id.
    pub fn insert(&mut self, product: &Product) -> (id: Oid)
        requires
            old(self).wf(),
            old(self).id_bound() < u64::MAX as u128,
        ensures
            final(self).wf(),
            id.code == old(self).id_bound(),
            final(self).id_bound() == old(self).id_bound() + 1,
            final(self)@ == old(self)@.push(
                (Product {
                    _id: id,
                    name: product.name,
                    description: product.description,
                    sku: product.sku,
                    created_by: product.created_by,
                }),
            ),
    {
        let id = Oid { code: self.next_id as u128 };
        let mut doc = product.clone();
        doc._id = id;
        self.docs.push(doc);
        self.next_id = self.next_id + 1;
        proof {
            assert forall|i: int| 0 <= i < self@.len() implies (#[trigger] self@[i]._id.code)
                < self.id_bound() by {
                if i < old(self)@.len() {
                    assert(self@[i] == old(self)@[i]);
                } else {
                    assert(self@[i]._id == id);
                }
            }
        }
        id
    }

    /// Retrieves the first product matching the id under the client's scope.
    pub fn get_by_id(&self, product_id: Oid, client_id: Oid) -> (r: Option<Product>)
        ensures
            r == find_product(self@, product_id, client_id),
    {
        let ghost f = product_filter(product_id, client_id);
        let n: usize = self.docs.len();
        let mut i: usize = 0;
        while i < n
            invariant
                i <= n,
                n == self@.len(),
                forall|j: int| 0 <= j < i ==> !f(#[trigger] self@[j]),
            decreases n - i,
        {
            let p = &self.docs[i];
            if p._id == product_id && p.created_by == client_id {
                proof {
                    assert(f(self@[i as int]));
                    lemma_first_match_at(self@, f, i as int);
                }
                return Some(p.clone());
            }
            proof {
                assert(!f(self@[i as int]));
            }
            i = i + 1;
        }
        proof {
            lemma_first_match_props(self@, f);
        }
        None
    }

    /// Retrieves all products created by the client, in store order.
    pub fn get_by_client_id(&self, client_id: Oid) -> (r: Vec<Product>)
        ensures
            r@ == self@.filter(|p: Product| p.created_by == client_id),
    {
        let ghost cf = |p: Product| p.created_by == client_id;
        let n: usize = self.docs.len();
        let mut r: Vec<Product> = Vec::new();
        let mut i: usize = 0;
        proof {
            reveal(Seq::filter);
            assert(self@.take(0) =~= Seq::<Product>::empty());
        }
        while i < n
            invariant
                i <= n,
                n == self@.len(),
                r@ == self@.take(i as int).filter(cf),
            decreases n - i,
        {
            let p = &self.docs[i];
            proof {
                reveal(Seq::filter);
                assert(self@.take(i + 1).drop_last() =~= self@.take(i as int));
                assert(self@.take(i + 1).last() == self@[i as int]);
            }
            if p.created_by == client_id {
                r.push(p.clone());
            }
            i = i + 1;
        }
        proof {
            assert(self@.take(n as int) =~= self@);
        }
        r
    }

    /// Updates the name and description of the first product matching the
    /// update's id under the client's scope, reporting how many documents
    /// were modified.
    pub fn update(&mut self, client_id: Oid, update: &Product) -> (modified: u64)
        ensures
            final(self).id_bound() == old(self).id_bound(),
            old(self).wf() ==> final(self).wf(),
            ({
                let i = first_match_idx(old(self)@, product_filter(update._id, client_id));
                if i >= 0 {
                    modified == 1 && final(self)@ == old(self)@.update(
                        i,
                        (Product {
                            _id: old(self)@[i]._id,
                            name: update.name,
                            description: update.description,
                            sku: old(self)@[i].sku,
                            created_by: old(self)@[i].created_by,
                        }),
                    )
                } else {
                    modified == 0 && final(self)@ == old(self)@
                }
            }),
    {
        let ghost f = product_filter(update._id, client_id);
        let n: usize = self.docs.len();
        let mut i: usize = 0;
        while i < n
            invariant
                i <= n,
                n == self@.len(),
                self@ == old(self)@,
                self.id_bound() == old(self).id_bound(),
                forall|j: int| 0 <= j < i ==> !f(#[trigger] self@[j]),
            decreases n - i,
        {
            let found = {
                let p = &self.docs[i];
                p._id == update._id && p.created_by == client_id
            };
            if found {
                proof {
                    assert(f(self@[i as int]));
                    lemma_first_match_at(self@, f, i as int);
                }
                let mut doc = self.docs[i].clone();
                doc.name = update.name.clone();
                doc.description = update.description.clone();
                self.docs.set(i, doc);
                return 1;
            }
            proof {
                assert(!f(self@[i as int]));
            }
            i = i + 1;
        }
        proof {
            lemma_first_match_props(self@, f);
        }
        0
    }

    /// Deletes the first product matching the id under the client's scope.
    pub fn delete_by_id(&mut self, client_id: Oid, product_id: Oid)
        ensures
            final(self).id_bound() == old(self).id_bound(),
            old(self).wf() ==> final(self).wf(),
            ({
                let i = first_match_idx(old(self)@, product_filter(product_id, client_id));
                if i >= 0 {
                    final(self)@ == old(self)@.remove(i)
                } else {
                    final(self)@ == old(self)@
                }
            }),
    {
        let ghost f = product_filter(product_id, client_id);
        let n: usize = self.docs.len();
        let mut i: usize = 0;
        while i < n
            invariant
                i <= n,
                n == self@.len(),
                self@ == old(self)@,
                self.id_bound() == old(self).id_bound(),
                forall|j: int| 0 <= j < i ==> !f(#[trigger] self@[j]),
            decreases n - i,
        {
            let found = {
                let p = &self.docs[i];
                p._id == product_id && p.created_by == client_id
            };
            if found {
                proof {
                    assert(f(self@[i as int]));
                    lemma_first_match_at(self@, f, i as int);
                }
                self.docs.remove(i);
                proof {
                    assert forall|k: int| 0 <= k < self@.len() implies (#[trigger] self@[k]._id.code)
                        < self.id_bound() || !old(self).wf() by {
                        if old(self).wf() {
                            if k < i {
                                assert(self@[k] == old(self)@[k]);
                            } else {
                                assert(self@[k] == old(self)@[k + 1]);
                            }
                        }
                    }
                }
                return ;
            }
            proof {
                assert(!f(self@[i as int]));
            }
            i = i + 1;
        }
        proof {
            lemma_first_match_props(self@, f);
        }
    }
}

} // verus!
