//! Delta Core: verified capability, runtime-control, provider and
//! application-authority logic.

pub mod text;
pub mod runtime;
pub mod json;
pub mod decoding;
pub mod binary64;
pub mod strmap;
pub mod capability;
pub mod sdk;
pub mod wire;
pub mod provider;
pub mod connect;
pub mod sync;
pub mod application;
pub mod mcp;
pub mod extension_manifest;
pub mod core_control;
pub mod product_settings;
