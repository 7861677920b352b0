use vstd::prelude::*;

verus! {

use crate::lookup::{first_match, first_match_idx, lemma_first_match_at, lemma_first_match_props};
use crate::oid::Oid;
use crate::stock::Stock;

/// The lookup filter of the stock collection: the logical key, owning tenant
/// and product, both by exact equality.
pub open spec fn stock_filter(client_id: Oid, product_id: Oid) -> spec_fn(Stock) -> bool {
    |s: Stock| s.client_id == client_id && s.product_id == product_id
}

/// The update filter of the stock collection: the document id together with
/// the logical key.
pub open spec fn stock_filter_full(stock_id: Oid, client_id: Oid, product_id: Oid) -> spec_fn(
    Stock,
) -> bool {
    |s: Stock| s._id == stock_id && s.client_id == client_id && s.product_id == product_id
}

/// The store's find-one over stocks: the first document matching the logical
/// key.
pub open spec fn find_stock(s: Seq<Stock>, client_id: Oid, product_id: Oid) -> Option<Stock> {
    first_match(s, stock_filter(client_id, product_id))
}

/// The stock collection: an in-memory document store with per-document
/// atomic insert, filtered find, filtered update and filtered delete.
pub struct StockRepo {
    docs: Vec<Stock>,
    next_id: u64,
}

impl View for StockRepo {
    type V = Seq<Stock>;

    closed spec fn view(&self) -> Seq<Stock> {
        self.docs@
    }
}

impl StockRepo {
    /// The least id value strictly above every id this collection has
    /// assigned so far; ids at or above it are still unassigned.
    pub closed spec fn id_bound(&self) -> u128 {
        self.next_id as u128
    }

    /// Every stored document carries an id assigned below the bound.
    pub open spec fn wf(&self) -> bool {
        forall|i: int| 0 <= i < self@.len() ==> (#[trigger] self@[i]._id.code) < self.id_bound()
    }

    /// An empty collection.
    pub fn new() -> (r: Self)
        ensures
            r@ == Seq::<Stock>::empty(),
            r.wf(),
            r.id_bound() == 1,
    {
        Self { docs: Vec::new(), next_id: 1 }
    }

    /// Whether a fresh id can still be assigned.
    pub fn can_assign_id(&self) -> (b: bool)
        ensures
            b == (self.id_bound() < u64::MAX as u128),
    {
        self.next_id < u64::MAX
    }

    /// Stores the document under a freshly assigned id and returns that id.
    pub fn insert(&mut self, stock: &Stock) -> (id: Oid)
        requires
            old(self).wf(),
            old(self).id_bound() < u64::MAX as u128,
        ensures
            final(self).wf(),
            id.code == old(self).id_bound(),
            final(self).id_bound() == old(self).id_bound() + 1,
            final(self)@ == old(self)@.push((Stock { _id: id, ..*stock })),
    {
        let id = Oid { code: self.next_id as u128 };
        let mut doc = *stock;
        doc._id = id;
        self.docs.push(doc);
        self.next_id = self.next_id + 1;
        proof {
            assert forall|i: int| 0 <= i < self@.len() implies (#[trigger] self@[i]._id.code)
                < self.id_bound() by {
                if i < old(self)@.len() {
                    assert(self@[i] == old(self)@[i]);
                } else {
                    assert(self@[i]._id == id);
                }
            }
        }
        id
    }

    /// Retrieves the first stock matching the client and product ids.
    pub fn get_by_client_id_and_product_id(&self, client_id: Oid, product_id: Oid) -> (r: Option<
        Stock,
    >)
        ensures
            r == find_stock(self@, client_id, product_id),
    {
        let ghost f = stock_filter(client_id, product_id);
        let n: usize = self.docs.len();
        let mut i: usize = 0;
        while i < n
            invariant
                i <= n,
                forall|j: int| 0 <= j < i ==> !f(#[trigger] self@[j]),
            decreases n - i,
        {
            let s = self.docs[i];
            if s.client_id == client_id && s.product_id == product_id {
                proof {
                    assert(f(self@[i as int]));
                    lemma_first_match_at(self@, f, i as int);
                }
                return Some(s);
            }
            proof {
                assert(!f(self@[i as int]));
            }
            i = i + 1;
        }
        proof {
            lemma_first_match_props(self@, f);
        }
        None
    }

    /// Retrieves all stocks of the client, in store order.
    pub fn get_by_client_id(&self, client_id: Oid) -> (r: Vec<Stock>)
        ensures
            r@ == self@.filter(|s: Stock| s.client_id == client_id),
    {
        let ghost cf = |s: Stock| s.client_id == client_id;
        let n: usize = self.docs.len();
        let mut r: Vec<Stock> = Vec::new();
        let mut i: usize = 0;
        proof {
            reveal(Seq::filter);
            assert(self@.take(0) =~= Seq::<Stock>::empty());
        }
        while i < n
            invariant
                i <= n,
                r@ == self@.take(i as int).filter(cf),
            decreases n - i,
        {
            let s = self.docs[i];
            proof {
                reveal(Seq::filter);
                assert(self@.take(i + 1).drop_last() =~= self@.take(i as int));
                assert(self@.take(i + 1).last() == self@[i as int]);
            }
            if s.client_id == client_id {
                r.push(s);
            }
            i = i + 1;
        }
        proof {
            assert(self@.take(n as int) =~= self@);
        }
        r
    }

    /// Sets the quantity of the first stock matching the update's document
    /// id and logical key, reporting how many documents were modified.
    pub fn update(&mut self, update: &Stock) -> (modified: u64)
        ensures
            final(self).id_bound() == old(self).id_bound(),
            old(self).wf() ==> final(self).wf(),
            ({
                let i = first_match_idx(
                    old(self)@,
                    stock_filter_full(update._id, update.client_id, update.product_id),
                );
                if i >= 0 {
                    modified == 1 && final(self)@ == old(self)@.update(i, *update)
                } else {
                    modified == 0 && final(self)@ == old(self)@
                }
            }),
    {
        let ghost f = stock_filter_full(update._id, update.client_id, update.product_id);
        let n: usize = self.docs.len();
        let mut i: usize = 0;
        while i < n
            invariant
                i <= n,
                n == self@.len(),
                self@ == old(self)@,
                self.id_bound() == old(self).id_bound(),
                forall|j: int| 0 <= j < i ==> !f(#[trigger] self@[j]),
            decreases n - i,
        {
            let s = self.docs[i];
            if s._id == update._id && s.client_id == update.client_id && s.product_id
                == update.product_id {
                proof {
                    assert(f(self@[i as int]));
                    lemma_first_match_at(self@, f, i as int);
                }
                let mut doc = s;
                doc.quantity = update.quantity;
                assert(doc == *update);
                self.docs.set(i, doc);
                return 1;
            }
            proof {
                assert(!f(self@[i as int]));
            }
            i = i + 1;
        }
        proof {
            lemma_first_match_props(self@, f);
        }
        0
    }

    /// Deletes the first stock matching the client and product ids.
    pub fn delete_by_client_id_and_product_id(&mut self, client_id: Oid, product_id: Oid)
        ensures
            final(self).id_bound() == old(self).id_bound(),
            old(self).wf() ==> final(self).wf(),
            ({
                let i = first_match_idx(old(self)@, stock_filter(client_id, product_id));
                if i >= 0 {
                    final(self)@ == old(self)@.remove(i)
                } else {
                    final(self)@ == old(self)@
                }
            }),
    {
        let ghost f = stock_filter(client_id, product_id);
        let n: usize = self.docs.len();
        let mut i: usize = 0;
        while i < n
            invariant
                i <= n,
                n == self@.len(),
                self@ == old(self)@,
                self.id_bound() == old(self).id_bound(),
                forall|j: int| 0 <= j < i ==> !f(#[trigger] self@[j]),
            decreases n - i,
        {
            let s = self.docs[i];
            if s.client_id == client_id && s.product_id == product_id {
                proof {
                    assert(f(self@[i as int]));
                    lemma_first_match_at(self@, f, i as int);
                }
                self.docs.remove(i);
                proof {
                    assert forall|k: int| 0 <= k < self@.len() implies (#[trigger] self@[k]._id.code)
                        < self.id_bound() || !old(self).wf() by {
                        if old(self).wf() {
                            if k < i {
                                assert(self@[k] == old(self)@[k]);
                            } else {
                                assert(self@[k] == old(self)@[k + 1]);
                            }
                        }
                    }
                }
                return ;
            }
            proof {
                assert(!f(self@[i as int]));
            }
            i = i + 1;
        }
        proof {
            lemma_first_match_props(self@, f);
        }
    }
}

} // verus!
