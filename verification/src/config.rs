//! The configuration of a deployment.

use vstd::prelude::*;

verus! {

/// What a deployment is configured with.
#[derive(Debug)]
pub struct Config {
    /// The store's own part of every salt, in base64.
    pub salt: String,
    /// The secret that tokens are signed with, in base64.
    pub jwt_secret: String,
    /// The threshold of a search that names none.
    pub hamming_distance: Option<u64>,
    /// The bucket that files are put into, if any.
    pub s3_bucket_name: Option<String>,
}

} // verus!
