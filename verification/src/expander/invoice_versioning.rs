//! The versioning policy of an expansion run.

use vstd::prelude::*;

verus! {

/// Under `Production` the declared version is kept byte-identical; under
/// `Dev` every build gets a unique user/timestamp suffix.
#[derive(Debug, Clone, Copy, PartialEq, Eq, Structural)]
pub enum InvoiceVersioning {
    Dev,
    Production,
}

impl InvoiceVersioning {
    /// `"production"` selects production versioning; any other text selects
    /// dev versioning.
    pub fn parse(text: &str) -> (r: Self)
        ensures
            r == (if text@ == "production"@ {
                InvoiceVersioning::Production
            } else {
                InvoiceVersioning::Dev
            }),
    {
        let t = text.to_owned();
        let p = ("production").to_owned();
        if t.eq(&p) {
            InvoiceVersioning::Production
        } else {
            InvoiceVersioning::Dev
        }
    }
}

} // verus!
