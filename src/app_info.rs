//! Descriptions of applications hosted next to the chain client, and the
//! value that bundles an application's description with its parts.

use vstd::prelude::*;

verus! {

/// A permission that an application asks for.
#[derive(Clone, Debug, PartialEq, Eq)]
pub struct AppPermission {
    pub name: String,
    pub description: String,
    pub app: String,
    pub cmds: Vec<String>,
    pub events: Vec<String>,
}

/// What an application says of itself.
#[derive(Clone, Debug, PartialEq, Eq)]
pub struct AppInfo {
    pub id: String,
    pub name: String,
    pub description: String,
    pub version: String,
    pub author: String,
    pub permission: Vec<AppPermission>,
}

/// Failures of an event store factory.
#[derive(Clone, Copy, Debug, PartialEq, Eq)]
pub enum EventFactoyError {
    /// The store could not be built.
    Unavailable,
}

/// Collects the parts of an application one at a time.
pub struct VAppBuilder<Q, S, V> {
    pub queries: Option<Vec<Q>>,
    pub store: Option<S>,
    pub services: Option<V>,
    pub app_info: Option<AppInfo>,
}

impl<Q, S, V> VAppBuilder<Q, S, V> {
    /// A builder with no part set.
    pub fn new() -> (r: Self)
        ensures
            r.queries is None,
            r.store is None,
            r.services is None,
            r.app_info is None,
    {
        VAppBuilder { queries: None, store: None, services: None, app_info: None }
    }

    /// Sets the application's description.
    pub fn with_app_info(self, app_info: AppInfo) -> (r: Self)
        ensures
            r == (VAppBuilder { app_info: Some(app_info), ..self }),
    {
        VAppBuilder { app_info: Some(app_info), ..self }
    }

    /// Sets the services that commands run against.
    pub fn with_services(self, services: V) -> (r: Self)
        ensures
            r == (VAppBuilder { services: Some(services), ..self }),
    {
        VAppBuilder { services: Some(services), ..self }
    }

    /// Sets the queries that follow the event stream.
    pub fn with_queries(self, queries: Vec<Q>) -> (r: Self)
        ensures
            r == (VAppBuilder { queries: Some(queries), ..self }),
    {
        VAppBuilder { queries: Some(queries), ..self }
    }

    /// Sets the event store.
    pub fn with_store(self, store: S) -> (r: Self)
        ensures
            r == (VAppBuilder { store: Some(store), ..self }),
    {
        VAppBuilder { store: Some(store), ..self }
    }
}

/// An application: its description, its event store, its queries and its services.
pub struct VApp<E, Q, V> {
    pub app_info: AppInfo,
    pub event_store: E,
    pub queries: Vec<Q>,
    pub services: V,
}

impl<E, Q, V> VApp<E, Q, V> {
    /// Bundles an application's description with its parts.
    pub fn new(app_info: AppInfo, event_store: E, queries: Vec<Q>, services: V) -> (r: Self)
        ensures
            r.app_info == app_info,
            r.event_store == event_store,
            r.queries == queries,
            r.services == services,
    {
        VApp { app_info, event_store, queries, services }
    }
}

} // verus!
