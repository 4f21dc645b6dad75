//! Connector contract types: the stable data model for connector
//! descriptors, tool metadata and account references.

use vstd::prelude::*;

verus! {

/// A connector as the connector registry lists it.
#[derive(Debug, Clone)]
pub struct ConnectorEntry {
    pub name: String,
    pub display_name: String,
    pub detail_ui: String,
    pub managed: bool,
    pub tools: Vec<String>,
}

/// A reference to one account of a connector.
#[derive(Debug, Clone)]
pub struct AccountRef {
    pub connector: String,
    pub account_id: String,
    pub display_name: String,
    pub managed: bool,
}

/// A registry of connectors, implemented by the product that hosts them.
pub trait ConnectorRegistry {
    fn register(&mut self, entry: ConnectorEntry) -> Result<(), String>;

    fn get(&self, name: &str) -> Option<&ConnectorEntry>;

    fn list(&self) -> Vec<&ConnectorEntry>;

    fn tool_schemas(&self) -> crate::json::Json;
}

} // verus!
