use vstd::prelude::*;

verus! {

/// Settings the core needs: the key that signs bearer tokens.
#[derive(Debug)]
pub struct Config {
    pub secret: String,
}

} // verus!
