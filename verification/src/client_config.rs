//! The settings from which the transport clients are built.

use vstd::prelude::*;

verus! {

/// Lowest TLS version a client accepts.
#[derive(Clone, Copy, Debug, PartialEq, Eq, Structural)]
pub enum TlsVersion {
    Tls12,
    Tls13,
}

/// Everything a transport client is built from. Durations are in seconds,
/// window and frame sizes in bytes.
#[derive(Clone, Copy, Debug, PartialEq, Eq, Structural)]
pub struct ClientSettings {
    pub pool_idle_timeout_secs: u64,
    pub pool_max_idle_per_host: usize,
    pub tcp_keepalive_secs: u64,
    pub tcp_nodelay: bool,
    pub http2_initial_stream_window_size: u32,
    pub http2_initial_connection_window_size: u32,
    pub http2_adaptive_window: bool,
    pub http2_max_frame_size: u32,
    pub http2_keep_alive_interval_secs: u64,
    pub http2_keep_alive_timeout_secs: u64,
    pub http2_keep_alive_while_idle: bool,
    pub connect_timeout_secs: u64,
    pub timeout_secs: u64,
    pub min_tls_version: TlsVersion,
    pub use_proxy: bool,
    pub max_redirects: usize,
    pub referer: bool,
}

/// The settings of a client that serves one part of an application.
pub open spec fn mobile_settings_spec() -> ClientSettings {
    ClientSettings {
        pool_idle_timeout_secs: 300,
        pool_max_idle_per_host: 50,
        tcp_keepalive_secs: 15,
        tcp_nodelay: true,
        http2_initial_stream_window_size: 8388608,
        http2_initial_connection_window_size: 33554432,
        http2_adaptive_window: true,
        http2_max_frame_size: 65535,
        http2_keep_alive_interval_secs: 10,
        http2_keep_alive_timeout_secs: 20,
        http2_keep_alive_while_idle: true,
        connect_timeout_secs: 8,
        timeout_secs: 20,
        min_tls_version: TlsVersion::Tls12,
        use_proxy: false,
        max_redirects: 3,
        referer: false,
    }
}

/// The settings of the one client that a whole application shares: it keeps
/// more connections for longer, gives up sooner and follows more redirects.
pub open spec fn shared_mobile_settings_spec() -> ClientSettings {
    ClientSettings {
        pool_idle_timeout_secs: 600,
        pool_max_idle_per_host: 100,
        tcp_keepalive_secs: 15,
        tcp_nodelay: true,
        http2_initial_stream_window_size: 16777216,
        http2_initial_connection_window_size: 67108864,
        http2_adaptive_window: true,
        http2_max_frame_size: 65535,
        http2_keep_alive_interval_secs: 10,
        http2_keep_alive_timeout_secs: 20,
        http2_keep_alive_while_idle: true,
        connect_timeout_secs: 5,
        timeout_secs: 15,
        min_tls_version: TlsVersion::Tls12,
        use_proxy: false,
        max_redirects: 5,
        referer: false,
    }
}

pub struct ClientConfig;

impl ClientConfig {
    pub fn mobile_settings() -> (s: ClientSettings)
        ensures
            s == mobile_settings_spec(),
    {
        ClientSettings {
            pool_idle_timeout_secs: 300,
            pool_max_idle_per_host: 50,
            tcp_keepalive_secs: 15,
            tcp_nodelay: true,
            http2_initial_stream_window_size: 8 * 1024 * 1024,
            http2_initial_connection_window_size: 32 * 1024 * 1024,
            http2_adaptive_window: true,
            http2_max_frame_size: 65535,
            http2_keep_alive_interval_secs: 10,
            http2_keep_alive_timeout_secs: 20,
            http2_keep_alive_while_idle: true,
            connect_timeout_secs: 8,
            timeout_secs: 20,
            min_tls_version: TlsVersion::Tls12,
            use_proxy: false,
            max_redirects: 3,
            referer: false,
        }
    }

    pub fn shared_mobile_settings() -> (s: ClientSettings)
        ensures
            s == shared_mobile_settings_spec(),
    {
        ClientSettings {
            pool_idle_timeout_secs: 600,
            pool_max_idle_per_host: 100,
            tcp_keepalive_secs: 15,
            tcp_nodelay: true,
            http2_initial_stream_window_size: 16 * 1024 * 1024,
            http2_initial_connection_window_size: 64 * 1024 * 1024,
            http2_adaptive_window: true,
            http2_max_frame_size: 65535,
            http2_keep_alive_interval_secs: 10,
            http2_keep_alive_timeout_secs: 20,
            http2_keep_alive_while_idle: true,
            connect_timeout_secs: 5,
            timeout_secs: 15,
            min_tls_version: TlsVersion::Tls12,
            use_proxy: false,
            max_redirects: 5,
            referer: false,
        }
    }
}

} // verus!
