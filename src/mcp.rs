//! Where a tool server is reached.
use vstd::prelude::*;

verus! {

/// The address of a tool server and the token that authorises calls to it.
#[derive(Debug, Clone)]
pub struct McpEndpoint {
    pub url: String,
    pub auth_token: Option<String>,
}

impl McpEndpoint {
    pub fn new(url: String, auth_token: Option<String>) -> (r: McpEndpoint)
        ensures
            r.url == url,
            r.auth_token == auth_token,
    {
        McpEndpoint { url, auth_token }
    }
}

} // verus!
