//! Animus: a key-value data model, its storage reader contracts, and the
//! client and server logic that carries key-value rows over HTTP.

pub mod api;
pub mod kvs_api;
pub mod kvs_rest_client;
pub mod kvs_rest_common;
pub mod kvs_rest_server;
pub mod kvs_rest_tests;
pub mod kvs_tck;
pub mod rest_client;
pub mod rest_common;
