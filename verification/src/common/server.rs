//! The server's own configuration.
use crate::text::{chars_of, concat, starts_with};
use vstd::prelude::*;

verus! {

broadcast use vstd::string::group_string_axioms;

/// Server configuration
pub struct ServerConfig {
    pub listen: String,
}

/// The address to bind for a listen setting: one that gives only a port
/// (`:8000`) binds every interface.
pub open spec fn bind_address_of(listen: Seq<char>) -> Seq<char> {
    if ":"@.is_prefix_of(listen) {
        "0.0.0.0"@ + listen
    } else {
        listen
    }
}

impl ServerConfig {
    pub fn new(listen: String) -> (r: Self)
        ensures
            r.listen == listen,
    {
        Self { listen }
    }

    /// The address the server binds.
    pub fn bind_address(&self) -> (r: String)
        ensures
            r@ == bind_address_of(self.listen@),
    {
        if starts_with(&chars_of(self.listen.as_str()), &chars_of(":")) {
            concat(&"0.0.0.0".to_string(), self.listen.as_str())
        } else {
            self.listen.clone()
        }
    }
}

} // verus!
