//! The command-line options.
use vstd::prelude::*;

verus! {

/// The options the program is started with.
pub struct Opt {
    /// Location of the configuration file.
    pub config: Option<String>,
    /// The name of the only account to use, where one is given.
    pub account: Option<String>,
}

} // verus!
