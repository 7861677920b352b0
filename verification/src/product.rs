use vstd::prelude::*;

verus! {

use crate::oid::{Oid, oid_hex};
use crate::tools::{generate_random_alphanum, is_alphanumeric_char, split_into_parts,
    split_into_parts_spec};

/// A well-formed sku: sixteen random alphanumeric characters regrouped into
/// dash-separated blocks of four.
pub open spec fn sku_wf(s: Seq<char>) -> bool {
    exists|raw: Seq<char>|
        raw.len() == 16 && (forall|i: int| 0 <= i < raw.len() ==> is_alphanumeric_char(
            #[trigger] raw[i],
        )) && s == split_into_parts_spec(raw, 4)
}

/// A product document: identity, mutable free text, an immutable sku and the
/// owning tenant.
#[derive(Debug)]
pub struct Product {
    pub _id: Oid,
    pub name: String,
    pub description: String,
    pub sku: String,
    pub created_by: Oid,
}

impl Clone for Product {
    fn clone(&self) -> (res: Self)
        ensures
            res == *self,
    {
        Product {
            _id: self._id,
            name: self.name.clone(),
            description: self.description.clone(),
            sku: self.sku.clone(),
            created_by: self.created_by,
        }
    }
}

/// The response shape for a product joined with its stock quantity.
pub struct ProductQuantityResponse {
    pub id: String,
    pub name: String,
    pub description: String,
    pub sku: String,
    pub quantity: i32,
}

impl Product {
    /// Builds a new product with a freshly generated sku. The identity is
    /// left blank; the repository assigns it at insertion.
    pub fn new(name: String, description: String, client_id: Oid) -> (p: Product)
        ensures
            p.name == name,
            p.description == description,
            p.created_by == client_id,
            p._id == (Oid { code: 0 }),
            sku_wf(p.sku@),
    {
        let raw = match generate_random_alphanum(16) {
            Ok(s) => s,
            // sixteen is within the generator's limit, so this arm is never taken
            Err(_) => String::new(),
        };
        let ghost raw_view = raw@;
        let sku = split_into_parts(raw, 4);
        proof {
            assert(raw_view.len() == 16 && (forall|i: int|
                0 <= i < raw_view.len() ==> is_alphanumeric_char(#[trigger] raw_view[i]))
                && sku@ == split_into_parts_spec(raw_view, 4));
        }
        Product { _id: Oid { code: 0 }, name, description, sku, created_by: client_id }
    }

    /// The product's sku.
    pub fn get_sku(&self) -> (r: String)
        ensures
            r@ == self.sku@,
    {
        self.sku.clone()
    }

    /// The product flattened into a response row carrying the given quantity.
    pub fn to_product_quantity_response(&self, quantity: i32) -> (r: ProductQuantityResponse)
        ensures
            r.id@ == oid_hex(self._id.code),
            r.name@ == self.name@,
            r.description@ == self.description@,
            r.sku@ == self.sku@,
            r.quantity == quantity,
    {
        ProductQuantityResponse {
            id: self._id.to_hex(),
            name: self.name.clone(),
            description: self.description.clone(),
            sku: self.sku.clone(),
            quantity,
        }
    }
}

} // verus!
