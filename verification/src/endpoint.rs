//! How the client side of the transport is set up. The settings are made
//! once and never change; every transport of the process reads the same.

use vstd::prelude::*;

verus! {

/// The application protocol that destinations expect: `solana-tpu`.
pub open spec fn tpu_protocol_id() -> Seq<u8> {
    seq![115u8, 111u8, 108u8, 97u8, 110u8, 97u8, 45u8, 116u8, 112u8, 117u8]
}

/// What the client endpoint is made with.
pub struct ClientSettings {
    /// Streams of one direction that the destination may open towards us.
    pub max_concurrent_uni_streams: u32,
    /// Streams of both directions that the destination may open towards us.
    pub max_concurrent_bidi_streams: u32,
    /// Milliseconds after which an idle connection is closed.
    pub max_idle_timeout_ms: u64,
    /// Milliseconds between keep-alive packets, if any are sent.
    pub keep_alive_interval_ms: Option<u64>,
    /// Whether data may go out before the handshake has ended.
    pub enable_early_data: bool,
    /// The application protocol to ask for.
    pub alpn_protocol: Vec<u8>,
    /// Whether the destination's certificate is checked against trusted
    /// roots.
    pub verify_server_certificate: bool,
    /// The local address to bind to, as its 32 bits.
    pub bind_ip: u32,
    /// The first local port to try.
    pub first_port: u16,
    /// The port after the last to try.
    pub end_port: u16,
}

/// Whether `settings` are the settings every client endpoint is made with.
///
/// The destination opens no streams towards us. Early data is on. The
/// protocol is `solana-tpu`. An idle connection lives as long as
/// destinations allow, two seconds, and no keep-alive is sent. The
/// destination's certificate is not checked: destinations sign their own,
/// and who they are is settled by other means. The socket binds to the
/// unspecified address, on a port from 8000 up to, not including, 10000.
pub open spec fn is_client_settings(settings: ClientSettings) -> bool {
    &&& settings.max_concurrent_uni_streams == 0
    &&& settings.max_concurrent_bidi_streams == 0
    &&& settings.max_idle_timeout_ms == 2_000
    &&& settings.keep_alive_interval_ms is None
    &&& settings.enable_early_data
    &&& settings.alpn_protocol@ == tpu_protocol_id()
    &&& !settings.verify_server_certificate
    &&& settings.bind_ip == 0
    &&& settings.first_port == 8_000
    &&& settings.end_port == 10_000
}

/// The longest time, in milliseconds, that destinations let a connection sit
/// idle. Reads `solana_sdk::quic::QUIC_MAX_TIMEOUT`, which is two seconds.
#[verifier::external_body]
fn quic_max_timeout_ms() -> (ms: u128)
    ensures
        ms == 2_000,
{
    solana_sdk::quic::QUIC_MAX_TIMEOUT.as_millis()
}

/// The settings every client endpoint is made with.
pub fn client_settings() -> (settings: ClientSettings)
    ensures
        is_client_settings(settings),
{
    let mut alpn_protocol: Vec<u8> = Vec::new();
    alpn_protocol.push(115);
    alpn_protocol.push(111);
    alpn_protocol.push(108);
    alpn_protocol.push(97);
    alpn_protocol.push(110);
    alpn_protocol.push(97);
    alpn_protocol.push(45);
    alpn_protocol.push(116);
    alpn_protocol.push(112);
    alpn_protocol.push(117);
    assert(alpn_protocol@ == tpu_protocol_id());
    ClientSettings {
        max_concurrent_uni_streams: 0,
        max_concurrent_bidi_streams: 0,
        max_idle_timeout_ms: quic_max_timeout_ms() as u64,
        keep_alive_interval_ms: None,
        enable_early_data: true,
        alpn_protocol,
        verify_server_certificate: false,
        bind_ip: 0,
        first_port: 8_000,
        end_port: 10_000,
    }
}

} // verus!
