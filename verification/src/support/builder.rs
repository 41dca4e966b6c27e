//! The iroh endpoint builder and its transport configuration, each with the
//! tuning and bind address it was made with. Only the functions here that
//! call iroh make them, so the recorded values are those iroh was given.

use crate::support::iroh::QuicTuning;
use vstd::prelude::*;

verus! {

/// An iroh transport configuration, with the tuning it was built from.
pub struct TransportConfig {
    inner: iroh::endpoint::QuicTransportConfig,
    tuning: QuicTuning,
}

impl TransportConfig {
    pub closed spec fn tuning(&self) -> QuicTuning {
        self.tuning
    }
}

/// Builds iroh's transport configuration from the tuning: a default
/// `Bbr3Config` given `initial_window`, then `QuicTransportConfig::builder`
/// with `congestion_controller_factory`, `receive_window`, `send_window` and
/// `stream_receive_window` set to the tuning's values, then `build`. The
/// configuration is opaque; the tuning it was built from is kept beside it.
#[verifier::external_body]
pub(crate) fn quic_transport_config(tuning: &QuicTuning) -> (config: TransportConfig)
    requires
        tuning.wf(),
    ensures
        config.tuning() == *tuning,
{
    let mut bbr = noq_proto::congestion::Bbr3Config::default();
    bbr.initial_window(tuning.congestion.bbr_initial_window);
    let inner = iroh::endpoint::QuicTransportConfig::builder()
        .congestion_controller_factory(std::sync::Arc::new(bbr))
        .receive_window(iroh::endpoint::VarInt::from_u64(tuning.receive_window).unwrap())
        .send_window(tuning.send_window)
        .stream_receive_window(iroh::endpoint::VarInt::from_u64(tuning.stream_receive_window).unwrap())
        .build();
    TransportConfig { inner, tuning: *tuning }
}

/// An iroh endpoint builder from the n0 preset, with the tuning of its
/// transport configuration and the bind address it was given, if any.
pub struct EndpointBuilder {
    inner: iroh::endpoint::Builder,
    tuning: QuicTuning,
    bind_addr: Option<String>,
}

impl EndpointBuilder {
    pub closed spec fn tuning(&self) -> QuicTuning {
        self.tuning
    }

    pub closed spec fn bind_addr(&self) -> Option<Seq<char>> {
        match self.bind_addr {
            Some(a) => Some(a@),
            None => None,
        }
    }

    /// The iroh builder itself, to bind the endpoint with.
    pub fn into_builder(self) -> iroh::endpoint::Builder {
        self.inner
    }
}

/// Calls `Endpoint::builder(presets::N0)` and then `Builder::transport_config`
/// with the given configuration; no bind address is set.
#[verifier::external_body]
pub(crate) fn n0_endpoint_builder(config: TransportConfig) -> (builder: EndpointBuilder)
    ensures
        builder.tuning() == config.tuning(),
        builder.bind_addr() is None,
{
    EndpointBuilder {
        inner: iroh::Endpoint::builder(iroh::endpoint::presets::N0).transport_config(config.inner),
        tuning: config.tuning,
        bind_addr: None,
    }
}

/// Whether `str::parse::<SocketAddr>` accepts the text.
pub uninterp spec fn parses_as_socket_addr(text: Seq<char>) -> bool;

/// Calls `Builder::bind_addr` with the text of a socket address, on a builder
/// on which no bind address was set before. The text is converted with
/// `ToSocketAddr for str`, which is `str::parse::<SocketAddr>`, and its error
/// returned; the other two errors (a duplicate user-defined default, an
/// invalid prefix length) cannot arise here: the n0 preset's sockets are not
/// user-defined and the default prefix length is 0.
#[verifier::external_body]
pub(crate) fn with_bind_addr(builder: EndpointBuilder, addr: &str) -> (bound: Result<
    EndpointBuilder,
    iroh::endpoint::InvalidSocketAddr,
>)
    requires
        builder.bind_addr() is None,
    ensures
        bound is Ok <==> parses_as_socket_addr(addr@),
        bound matches Ok(b) ==> b.tuning() == builder.tuning() && b.bind_addr() == Some(addr@),
{
    match builder.inner.bind_addr(addr) {
        Ok(inner) => Ok(EndpointBuilder { inner, tuning: builder.tuning, bind_addr: Some(addr.to_string()) }),
        Err(e) => Err(e),
    }
}

} // verus!
