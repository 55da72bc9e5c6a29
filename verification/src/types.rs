//! The state that all request handlers share.

use vstd::prelude::*;
use crate::registry::SchemaRegistry;

verus! {

/// What a request handler needs to know: the topic that events are published
/// to, and the registered schemas. Both are set once at startup.
pub struct AppState {
    pub topic: String,
    pub schemas: SchemaRegistry,
}

} // verus!
