//! The state and routing behind the debug web UI.
//!
//! The pages themselves render an instance tree that lives outside this
//! crate, and serving them is plain HTTP plumbing; what belongs to the
//! model here is the service's state and which handler each request
//! selects.

use vstd::prelude::*;
use crate::project::Project;
use crate::text::str_eq;

verus! {

/// The service behind the debug web UI, holding the state of the serving
/// session it reports on.
pub struct UiService {
    /// The project of the serving session, when one was loaded.
    pub project: Option<Project>,
}

/// The handler a request selects.
#[derive(Debug, Clone, Copy, PartialEq, Eq, Structural)]
pub enum Route {
    Home,
    Logo,
    Icon,
    ShowInstances,
    ShowImfs,
    NotFound,
}

/// Which handler serves a request: exactly five paths exist, each only
/// for GET requests; every other request is not found.
pub open spec fn spec_route(is_get: bool, path: Seq<char>) -> Route {
    if !is_get {
        Route::NotFound
    } else if path == "/"@ {
        Route::Home
    } else if path == "/logo.png"@ {
        Route::Logo
    } else if path == "/icon.png"@ {
        Route::Icon
    } else if path == "/show-instances"@ {
        Route::ShowInstances
    } else if path == "/show-imfs"@ {
        Route::ShowImfs
    } else {
        Route::NotFound
    }
}

impl UiService {
    pub fn new(project: Option<Project>) -> (s: Self)
        ensures
            s.project == project,
    {
        UiService { project }
    }

    /// Selects the handler for one request from its method and path.
    pub fn route(is_get: bool, path: &str) -> (r: Route)
        ensures
            r == spec_route(is_get, path@),
    {
        if !is_get {
            Route::NotFound
        } else if str_eq(path, "/") {
            Route::Home
        } else if str_eq(path, "/logo.png") {
            Route::Logo
        } else if str_eq(path, "/icon.png") {
            Route::Icon
        } else if str_eq(path, "/show-instances") {
            Route::ShowInstances
        } else if str_eq(path, "/show-imfs") {
            Route::ShowImfs
        } else {
            Route::NotFound
        }
    }
}

} // verus!
