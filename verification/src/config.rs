//! Connection-string configuration, as plain values.

use vstd::prelude::*;

verus! {

/// A named connector configuration; the connection uri is carried as its
/// text.
#[derive(Debug)]
pub struct ConnectionStringConfig {
    pub connector: String,
    pub uri: String,
    pub database: Option<String>,
    pub connection_limit: Option<u32>,
    pub pooled: Option<bool>,
    pub schema: Option<String>,
    pub management_schema: Option<String>,
    pub migrations: Option<bool>,
    pub active: Option<bool>,
}

impl ConnectionStringConfig {
    /// The configured connection limit, if any.
    pub fn connection_limit(&self) -> (r: Option<u32>)
        ensures
            r == self.connection_limit,
    {
        self.connection_limit
    }

    /// Whether pooling is configured, if stated.
    pub fn pooled(&self) -> (r: Option<bool>)
        ensures
            r == self.pooled,
    {
        self.pooled
    }
}

} // verus!
