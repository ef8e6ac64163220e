//! Server settings: where the HTTP and RPC servers listen and the API bearer token.
use vstd::prelude::*;

verus! {

/// Server settings.
#[derive(Debug)]
pub struct Settings {
    pub http_host: String,
    pub http_port: u16,
    pub grpc_host: String,
    pub grpc_port: u16,
    pub auth_token: String,
}

impl Settings {
    /// The settings with each given override put in place of the loaded value.
    pub fn apply_overrides(
        self,
        http_host: Option<String>,
        http_port: Option<u16>,
        grpc_host: Option<String>,
        grpc_port: Option<u16>,
        auth_token: Option<String>,
    ) -> (r: Settings)
        ensures
            r.http_host == (match http_host {
                Some(h) => h,
                None => self.http_host,
            }),
            r.http_port == (match http_port {
                Some(p) => p,
                None => self.http_port,
            }),
            r.grpc_host == (match grpc_host {
                Some(h) => h,
                None => self.grpc_host,
            }),
            r.grpc_port == (match grpc_port {
                Some(p) => p,
                None => self.grpc_port,
            }),
            r.auth_token == (match auth_token {
                Some(t) => t,
                None => self.auth_token,
            }),
    {
        let mut s = self;
        if let Some(h) = http_host {
            s.http_host = h;
        }
        if let Some(p) = http_port {
            s.http_port = p;
        }
        if let Some(h) = grpc_host {
            s.grpc_host = h;
        }
        if let Some(p) = grpc_port {
            s.grpc_port = p;
        }
        if let Some(t) = auth_token {
            s.auth_token = t;
        }
        s
    }
}

} // verus!
