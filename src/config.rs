use vstd::prelude::*;

verus! {

/// The mail account the dispatcher sends from.
pub struct Credentials {
    pub username: String,
    pub password: String,
}

/// The service's configuration.
pub struct AppConfig {
    pub credentials: Credentials,
}

} // verus!
