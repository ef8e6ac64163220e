//! SCIM 2.0 identity store: users, groups, filtering and the SCIM/RPC views of them.
pub mod client;
pub mod clock;
pub mod database;
pub mod filter;
pub mod grpc_server;
pub mod http_server;
pub mod interface_laws;
pub mod laws;
pub mod scim_schemas;
pub mod proto;
pub mod settings;
pub mod text;
