use vstd::prelude::*;

verus! {

/// Settings of the application, read from its environment.
pub struct UserConfig {
    pub redirect_port: String,
    pub client_id: String,
    pub client_secret: String,
}

impl UserConfig {
    /// The redirect uri registered with the authorization server.
    pub fn redirect_as_uri(&self) -> (r: String)
        ensures
            r@ == "http://localhost:"@ + self.redirect_port@,
    {
        String::from_str("http://localhost:").concat(self.redirect_port.as_str())
    }

    /// The loopback address that the redirect listener binds.
    pub fn redirect_as_addr(&self) -> (r: String)
        ensures
            r@ == "127.0.0.1:"@ + self.redirect_port@,
    {
        String::from_str("127.0.0.1:").concat(self.redirect_port.as_str())
    }
}

} // verus!
