use vstd::prelude::*;

verus! {

use crate::oid::Oid;

/// A stock document: the mutable quantity on hand for one product of one
/// tenant.
#[derive(Clone, Copy, PartialEq, Eq, Structural, Debug)]
pub struct Stock {
    pub _id: Oid,
    pub client_id: Oid,
    pub product_id: Oid,
    pub quantity: i32,
}

impl Stock {
    /// Builds a new stock record. The identity is left blank; the repository
    /// assigns it at insertion.
    pub fn new(client_id: Oid, product_id: Oid, quantity: i32) -> (s: Stock)
        ensures
            s.client_id == client_id,
            s.product_id == product_id,
            s.quantity == quantity,
            s._id == (Oid { code: 0 }),
    {
        Self { _id: Oid { code: 0 }, client_id, product_id, quantity }
    }

    pub fn set_quantity(&mut self, quantity: i32)
        ensures
            *final(self) == (Stock { quantity, ..*old(self) }),
    {
        self.quantity = quantity;
    }

    pub fn get_quantity(&self) -> (q: i32)
        ensures
            q == self.quantity,
    {
        self.quantity
    }
}

} // verus!
