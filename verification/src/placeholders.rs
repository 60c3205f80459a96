//! Entry points of features still to come.
use vstd::prelude::*;

verus! {

/// The editor extension's interface.
pub struct ExtensionAPI {}

impl ExtensionAPI {
    pub fn new() -> (r: Self) {
        ExtensionAPI {}
    }
}

/// The context builder of the extension.
pub struct ContextBuilder {}

impl ContextBuilder {
    pub fn new() -> (r: Self) {
        ContextBuilder {}
    }
}

} // verus!
