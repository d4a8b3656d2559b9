//! The app's destinations.

use vstd::prelude::*;

verus! {

/// A page the client can navigate to.
#[derive(Debug, PartialEq, Eq)]
pub enum Route {
    Home,
    Login,
    Signup,
    Games,
    Stats,
    GameNew { id: String },
    GamePlay { id: String },
    GameCompleted { id: String },
}

} // verus!
