pub mod imdb;
pub mod numbers;
pub mod scrape;
pub mod text;

use vstd::prelude::*;

verus! {

/// Text served by the front end's root route.
pub fn index() -> (r: &'static str)
    ensures
        r@ == "Hello, world!"@,
{
    "Hello, world!"
}

} // verus!
