//! The transport configuration: the parameters the server advertises to
//! every peer, and how they are handed to the engine.

use crate::wire::{MAX_DATAGRAM_SIZE, QUIC_V1};
use vstd::prelude::*;

verus! {

/// The transport parameters of the server. They are fixed when the server
/// starts and read by the engine whenever it accepts a connection.
#[derive(Debug, PartialEq, Eq)]
pub struct TransportConfig {
    /// The protocol version.
    pub version: u32,
    /// The application protocols on offer, in order of preference.
    pub application_protos: Vec<Vec<u8>>,
    /// The idle timeout, in milliseconds.
    pub max_idle_timeout: u64,
    /// The largest UDP payload the server is willing to receive.
    pub max_recv_udp_payload_size: usize,
    /// The largest UDP payload the server sends.
    pub max_send_udp_payload_size: usize,
    /// The initial flow-control window of a connection, in bytes.
    pub initial_max_data: u64,
    /// The initial window of a bidirectional stream the server opened.
    pub initial_max_stream_data_bidi_local: u64,
    /// The initial window of a bidirectional stream the peer opened.
    pub initial_max_stream_data_bidi_remote: u64,
    /// The initial window of a unidirectional stream.
    pub initial_max_stream_data_uni: u64,
    /// How many bidirectional streams a peer may have open at once.
    pub initial_max_streams_bidi: u64,
    /// How many unidirectional streams a peer may have open at once.
    pub initial_max_streams_uni: u64,
    /// Whether peers are told not to migrate to another address.
    pub disable_active_migration: bool,
    /// Whether early data is taken.
    pub early_data: bool,
}

/// Why no engine configuration could be made.
#[derive(Debug, PartialEq, Eq)]
pub enum ConfigError {
    /// The configuration names a version other than [`QUIC_V1`].
    UnsupportedVersion(u32),
    /// The engine refused the configuration.
    Engine(quiche::Error),
}

/// The bytes of `h3`, the one application protocol on offer.
pub open spec fn h3() -> Seq<u8> {
    seq![0x68u8, 0x33u8]
}

/// `quiche::Config::new`. Nothing is claimed of its result: whether a
/// configuration can be made is for the engine to say.
pub assume_specification[ quiche::Config::new ](version: u32) -> (r: Result<quiche::Config, quiche::Error>)
;

/// Calls `quiche::Config::set_application_protos` with the byte strings of
/// `protos`, in their order. Nothing is claimed of its result.
#[verifier::external_body]
fn set_application_protos(config: &mut quiche::Config, protos: &Vec<Vec<u8>>) -> (r: Result<(), quiche::Error>) {
    let list: Vec<&[u8]> = protos.iter().map(|proto| proto.as_slice()).collect();
    config.set_application_protos(&list)
}

/// `quiche::Config::set_max_idle_timeout`. Nothing is claimed of what it leaves in
/// the configuration, which stays opaque.
pub assume_specification[ quiche::Config::set_max_idle_timeout ](config: &mut quiche::Config, v: u64)
;

/// `quiche::Config::set_max_recv_udp_payload_size`. Nothing is claimed of what it leaves in
/// the configuration, which stays opaque.
pub assume_specification[ quiche::Config::set_max_recv_udp_payload_size ](config: &mut quiche::Config, v: usize)
;

/// `quiche::Config::set_max_send_udp_payload_size`. Nothing is claimed of what it leaves in
/// the configuration, which stays opaque.
pub assume_specification[ quiche::Config::set_max_send_udp_payload_size ](config: &mut quiche::Config, v: usize)
;

/// `quiche::Config::set_initial_max_data`. Nothing is claimed of what it leaves in
/// the configuration, which stays opaque.
pub assume_specification[ quiche::Config::set_initial_max_data ](config: &mut quiche::Config, v: u64)
;

/// `quiche::Config::set_initial_max_stream_data_bidi_local`. Nothing is claimed of what it leaves in
/// the configuration, which stays opaque.
pub assume_specification[ quiche::Config::set_initial_max_stream_data_bidi_local ](
    config: &mut quiche::Config,
    v: u64,
)
;

/// `quiche::Config::set_initial_max_stream_data_bidi_remote`. Nothing is claimed of what it leaves in
/// the configuration, which stays opaque.
pub assume_specification[ quiche::Config::set_initial_max_stream_data_bidi_remote ](
    config: &mut quiche::Config,
    v: u64,
)
;

/// `quiche::Config::set_initial_max_stream_data_uni`. Nothing is claimed of what it leaves in
/// the configuration, which stays opaque.
pub assume_specification[ quiche::Config::set_initial_max_stream_data_uni ](config: &mut quiche::Config, v: u64)
;

/// `quiche::Config::set_initial_max_streams_bidi`. Nothing is claimed of what it leaves in
/// the configuration, which stays opaque.
pub assume_specification[ quiche::Config::set_initial_max_streams_bidi ](config: &mut quiche::Config, v: u64)
;

/// `quiche::Config::set_initial_max_streams_uni`. Nothing is claimed of what it leaves in
/// the configuration, which stays opaque.
pub assume_specification[ quiche::Config::set_initial_max_streams_uni ](config: &mut quiche::Config, v: u64)
;

/// `quiche::Config::set_disable_active_migration`. Nothing is claimed of what it leaves in
/// the configuration, which stays opaque.
pub assume_specification[ quiche::Config::set_disable_active_migration ](config: &mut quiche::Config, v: bool)
;

/// `quiche::Config::enable_early_data`. Nothing is claimed of what it leaves in
/// the configuration, which stays opaque.
pub assume_specification[ quiche::Config::enable_early_data ](config: &mut quiche::Config)
;

impl TransportConfig {
    /// The configuration the server runs with.
    pub fn standard() -> (config: Self)
        ensures
            config.version == QUIC_V1,
            config.application_protos@.len() == 1,
            config.application_protos@[0]@ == h3(),
            config.max_idle_timeout == 5000,
            config.max_recv_udp_payload_size == MAX_DATAGRAM_SIZE,
            config.max_send_udp_payload_size == MAX_DATAGRAM_SIZE,
            config.initial_max_data == 10_000_000,
            config.initial_max_stream_data_bidi_local == 1_000_000,
            config.initial_max_stream_data_bidi_remote == 1_000_000,
            config.initial_max_stream_data_uni == 1_000_000,
            config.initial_max_streams_bidi == 100,
            config.initial_max_streams_uni == 100,
            config.disable_active_migration,
            config.early_data,
    {
        let mut proto: Vec<u8> = Vec::new();
        proto.push(0x68);
        proto.push(0x33);
        assert(proto@ =~= h3());
        let mut application_protos: Vec<Vec<u8>> = Vec::new();
        application_protos.push(proto);
        TransportConfig {
            version: QUIC_V1,
            application_protos,
            max_idle_timeout: 5000,
            max_recv_udp_payload_size: MAX_DATAGRAM_SIZE,
            max_send_udp_payload_size: MAX_DATAGRAM_SIZE,
            initial_max_data: 10_000_000,
            initial_max_stream_data_bidi_local: 1_000_000,
            initial_max_stream_data_bidi_remote: 1_000_000,
            initial_max_stream_data_uni: 1_000_000,
            initial_max_streams_bidi: 100,
            initial_max_streams_uni: 100,
            disable_active_migration: true,
            early_data: true,
        }
    }

    /// Whether the server can run with these parameters: it can with any
    /// that name [`QUIC_V1`], the one version the dispatcher routes.
    pub fn validate(&self) -> (checked: Result<(), ConfigError>)
        ensures
            checked == if self.version == QUIC_V1 {
                Ok::<(), ConfigError>(())
            } else {
                Err::<(), ConfigError>(ConfigError::UnsupportedVersion(self.version))
            },
    {
        if self.version != QUIC_V1 {
            return Err(ConfigError::UnsupportedVersion(self.version));
        }
        Ok(())
    }

    /// Makes the engine's configuration out of these parameters, where they
    /// are valid. Certificate and key are for the caller to load into it.
    pub fn engine_config(&self) -> (made: Result<quiche::Config, ConfigError>)
        ensures
            self.version != QUIC_V1 ==> made == Err::<quiche::Config, ConfigError>(
                ConfigError::UnsupportedVersion(self.version),
            ),
            self.version == QUIC_V1 ==> !(made matches Err(ConfigError::UnsupportedVersion(_))),
    {
        match self.validate() {
            Ok(()) => {},
            Err(invalid) => {
                return Err(invalid);
            },
        }
        let mut config = match quiche::Config::new(self.version) {
            Ok(config) => config,
            Err(cause) => {
                return Err(ConfigError::Engine(cause));
            },
        };
        match set_application_protos(&mut config, &self.application_protos) {
            Ok(()) => {},
            Err(cause) => {
                return Err(ConfigError::Engine(cause));
            },
        }
        config.set_max_idle_timeout(self.max_idle_timeout);
        config.set_max_recv_udp_payload_size(self.max_recv_udp_payload_size);
        config.set_max_send_udp_payload_size(self.max_send_udp_payload_size);
        config.set_initial_max_data(self.initial_max_data);
        config.set_initial_max_stream_data_bidi_local(self.initial_max_stream_data_bidi_local);
        config.set_initial_max_stream_data_bidi_remote(self.initial_max_stream_data_bidi_remote);
        config.set_initial_max_stream_data_uni(self.initial_max_stream_data_uni);
        config.set_initial_max_streams_bidi(self.initial_max_streams_bidi);
        config.set_initial_max_streams_uni(self.initial_max_streams_uni);
        config.set_disable_active_migration(self.disable_active_migration);
        if self.early_data {
            config.enable_early_data();
        }
        Ok(config)
    }
}

} // verus!
