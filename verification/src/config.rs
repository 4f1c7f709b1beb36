//! Server configuration: the limits the request reader and the validator
//! enforce, and the values the responses and the network layer read.

use crate::http::HttpVersion;
use vstd::prelude::*;
use vstd::string::StringExecFns;

verus! {

/// Every configurable parameter of the server. The value is read-only once
/// built and is handed explicitly to whatever needs it.
#[derive(Debug, Clone)]
pub struct ServerConfig {
    /// Address to listen on, in its textual form.
    pub address: String,
    pub port: u16,
    /// Size of a network read, in bytes.
    pub buffer_size: usize,
    /// Greatest protocol version the server accepts.
    pub http_version: HttpVersion,
    pub max_request_line_size: usize,
    pub max_uri_size: usize,
    pub max_header_size: usize,
    pub max_body_size: usize,
    /// Read timeout in milliseconds.
    pub read_timeout_ms: u64,
    /// Write timeout in milliseconds.
    pub write_timeout_ms: u64,
    pub static_files_root: String,
    pub server_name: String,
}

impl Default for ServerConfig {
    /// The configuration used when none is supplied. The request line limit
    /// leaves room for the longest method, a target of the greatest size,
    /// the version and the two separators.
    fn default() -> (cfg: ServerConfig)
        ensures
            cfg.address@ == "127.0.0.1"@,
            cfg.port == 8080,
            cfg.buffer_size == 4096,
            cfg.http_version == HttpVersion::V1_1,
            cfg.max_uri_size == 1024,
            cfg.max_request_line_size == 1043,
            cfg.max_header_size == 8192,
            cfg.max_body_size == 1048576,
            cfg.read_timeout_ms == 5000,
            cfg.write_timeout_ms == 5000,
            cfg.static_files_root@ == "./static"@,
            cfg.server_name@ == "rustynet/0.1"@,
    {
        ServerConfig {
            address: String::from_str("127.0.0.1"),
            port: 8080,
            buffer_size: 4096,
            http_version: HttpVersion::V1_1,
            max_uri_size: 1024,
            max_request_line_size: 8 + 2 + 1024 + 1 + 8,
            max_header_size: 8192,
            max_body_size: 1024 * 1024,
            read_timeout_ms: 5000,
            write_timeout_ms: 5000,
            static_files_root: String::from_str("./static"),
            server_name: String::from_str("rustynet/0.1"),
        }
    }
}

} // verus!
