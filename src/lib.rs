pub mod address;
pub mod amm;
pub mod error;
pub mod factory;
pub mod pricing;
pub mod state;
