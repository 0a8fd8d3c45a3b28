//! The body and the options of `PUT /configs`.

use vstd::prelude::*;
use vstd::string::*;

verus! {

/// Body accepted by `PUT /configs`.
#[derive(Debug, Clone, Default, PartialEq, Eq)]
pub struct UpdateConfigRequest {
    pub path: String,
    pub payload: String,
}

impl UpdateConfigRequest {
    pub fn from_path(path: &str) -> (r: UpdateConfigRequest)
        ensures
            r.path@ == path@,
            r.payload@.len() == 0,
    {
        UpdateConfigRequest { path: path.to_owned(), payload: String::new() }
    }

    pub fn from_payload(payload: &str) -> (r: UpdateConfigRequest)
        ensures
            r.path@.len() == 0,
            r.payload@ == payload@,
    {
        UpdateConfigRequest { path: String::new(), payload: payload.to_owned() }
    }
}

#[derive(Debug, Clone, Copy, Default, PartialEq, Eq)]
pub struct UpdateConfigOptions {
    pub force: bool,
}

/// Where a configuration is put.
pub open spec fn update_target(force: bool) -> Seq<char> {
    if force {
        "/configs?force=true"@
    } else {
        "/configs?force=false"@
    }
}

impl UpdateConfigOptions {
    pub fn target(&self) -> (r: &'static str)
        ensures
            r@ == update_target(self.force),
    {
        if self.force {
            "/configs?force=true"
        } else {
            "/configs?force=false"
        }
    }
}

} // verus!
