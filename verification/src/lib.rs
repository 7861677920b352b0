#![verifier::loop_isolation(false)]
pub mod app_error;
pub mod tools;
pub mod oid;
pub mod api_error;
pub mod product;
pub mod stock;
pub mod product_dto;
pub mod lookup;
pub mod product_repo;
pub mod stock_repo;
pub mod product_service;
pub mod laws;
