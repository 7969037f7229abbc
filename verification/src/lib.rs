//! A supply chain provenance registry: participants with roles, products with
//! owners and a lifecycle status, and an append-only event history per product.
pub mod types;
pub mod spec;
pub mod laws;
pub mod contract;
