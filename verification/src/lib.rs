//! Discovery aggregator and subscription codec for audio-over-IP devices
//! that advertise themselves over multicast DNS.
//!
//! Four service browsers each deliver a slice of information about the
//! same logical device; the registry aggregates them into one record per
//! device whose presence is the disjunction of four independent presence
//! bits. The codec builds the version-specific binary command frames that
//! establish or tear down audio channel subscriptions. Browsing, locking,
//! threads and sockets belong to the embedding application; everything
//! here is plain values in, plain values out.

pub mod codec;
pub mod events;
pub mod manager;
pub mod names;
pub mod parse;
pub mod printer;
pub mod registry;
pub mod report;
pub mod version;

pub use events::EventOutcome;
pub use events::MdnsEvent;
pub use events::ResolvedService;
pub use events::TxtValues;
pub use manager::ClearSubscriptionError;
pub use manager::DanteDeviceManager;
pub use manager::MakeSubscriptionError;
pub use names::cutoff_address;
pub use names::split_channel;
pub use printer::print_arc;
pub use printer::print_chan;
pub use printer::print_cmc;
pub use printer::print_dbc;
pub use registry::DanteDeviceList;
pub use version::DanteVersion;
