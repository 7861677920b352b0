use vstd::prelude::*;

verus! {

use crate::app_error::{AppError, ErrorKind};

/// Carries the textual client id of a request path.
pub struct ClientId {
    pub client_id: String,
}

/// Carries the textual product id of a request path.
pub struct ProductId {
    pub product_id: String,
}

/// Carries the textual client id and product id of a request path.
pub struct ClientIdProductId {
    pub client_id: String,
    pub product_id: String,
}

/// The request body for adding a product.
pub struct AddProductRequest {
    pub name: String,
    pub description: String,
    pub quantity: i32,
}

impl AddProductRequest {
    /// Accepts the request exactly when the initial quantity is at least one.
    pub fn validate(&self) -> (r: Result<(), AppError>)
        ensures
            self.quantity >= 1 <==> r is Ok,
            r matches Err(e) ==> e.kind == ErrorKind::FailedAction
                && e.message@ == "quantity cannot be less than 1"@,
    {
        if self.quantity < 1 {
            return Err(AppError::new(
                "quantity cannot be less than 1",
                ErrorKind::FailedAction,
            ));
        }
        Ok(())
    }
}

/// The response body for adding a product.
pub struct AddProductResponse {
    pub id: String,
    pub name: String,
    pub description: String,
    pub sku: String,
    pub quantity: i32,
}

impl AddProductResponse {
    pub fn new(id: String, name: String, description: String, sku: String, quantity: i32) -> (r:
        Self)
        ensures
            r == (AddProductResponse { id, name, description, sku, quantity }),
    {
        Self { id, name, description, sku, quantity }
    }
}

/// The response body for getting a product.
pub struct GetProductResponse {
    pub id: String,
    pub name: String,
    pub description: String,
}

impl GetProductResponse {
    pub fn new(id: String, name: String, description: String) -> (r: Self)
        ensures
            r == (GetProductResponse { id, name, description }),
    {
        Self { id, name, description }
    }
}

/// The response body for listing the products of a client.
pub struct GetProductsResponse {
    pub products: Vec<crate::product::ProductQuantityResponse>,
}

impl GetProductsResponse {
    pub fn new(products: Vec<crate::product::ProductQuantityResponse>) -> (r: Self)
        ensures
            r == (GetProductsResponse { products }),
    {
        Self { products }
    }
}

/// The request body for updating a product's name and description.
pub struct UpdateProductRequest {
    pub name: String,
    pub description: String,
}

/// The response body for updating a product.
pub struct UpdateProductResponse {
    pub id: String,
    pub name: String,
    pub description: String,
    pub sku: String,
}

impl UpdateProductResponse {
    pub fn new(id: String, name: String, description: String, sku: String) -> (r: Self)
        ensures
            r == (UpdateProductResponse { id, name, description, sku }),
    {
        Self { id, name, description, sku }
    }
}

/// The request body for setting a product's stock quantity.
pub struct SetProductQuantityRequest {
    pub quantity: i32,
}

/// The response body for setting a product's stock quantity.
pub struct SetProductQuantityResponse {
    pub quantity: i32,
}

impl SetProductQuantityResponse {
    pub fn new(quantity: i32) -> (r: Self)
        ensures
            r == (SetProductQuantityResponse { quantity }),
    {
        Self { quantity }
    }
}

/// The request query for checking the availability of a product.
pub struct CheckAvailabilityRequest {
    pub number: i32,
}

/// One line of a batched order or availability check, with its textual
/// product id.
pub struct ProductQuantityRequest {
    pub product_id: String,
    pub quantity: i32,
}

/// One normalized order line: a parsed product id and a quantity.
pub struct ProductQuantity {
    pub product_id: crate::oid::Oid,
    pub quantity: i32,
}

impl ProductQuantity {
    pub fn new() -> (r: Self)
        ensures
            r.product_id == (crate::oid::Oid { code: 0 }),
            r.quantity == 0,
    {
        Self { product_id: crate::oid::Oid { code: 0 }, quantity: 0 }
    }
}

} // verus!
