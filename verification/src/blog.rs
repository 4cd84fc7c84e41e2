//! A canned data source standing in for a remote blog-post service.

use vstd::prelude::*;

verus! {

use vstd::string::StringExecFns;

/// Pretends to call a remote service and returns the JSON text the
/// call would answer with: always the same one post.
pub fn fetch_data() -> (r: String)
    ensures
        r@ == r#"
            {
                "id": 1,
                "title": "Hello, Rust"
            }
        "#@,
{
    String::from_str(
        r#"
            {
                "id": 1,
                "title": "Hello, Rust"
            }
        "#,
    )
}

} // verus!
