//! Compliant real-world-asset tokens: a KYC registry, a compliance engine, and
//! four asset tokens whose every movement of value runs through both.

pub mod types;
pub mod kyc_registry;
pub mod compliance_engine;
pub mod pair_map;
pub mod dividend;
pub mod property_token;
pub mod invoice_token;
pub mod carbon_credit_token;
pub mod rwa_token;
pub mod laws;
