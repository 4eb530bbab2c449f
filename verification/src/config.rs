//! The application's settings.

use vstd::prelude::*;

verus! {

/// The settings that are kept in a file.
#[derive(Clone, Debug, PartialEq, Eq)]
pub struct AppConfig {
    /// The address of the relay.
    pub relay_adress: String,
    /// Where messages are stored, if anywhere.
    pub storage_path: Option<String>,
}

impl Default for AppConfig {
    /// No relay address and no storage.
    fn default() -> (r: Self)
        ensures
            r.relay_adress@ == Seq::<char>::empty(),
            r.storage_path is None,
    {
        AppConfig { relay_adress: String::new(), storage_path: None }
    }
}

} // verus!
