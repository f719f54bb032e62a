//! BLE GATT for both roles: the vocabulary that every backend speaks, reliable messages on
//! top of characteristics, links that are kept alive, an in-memory radio, and the
//! decisions of the platform backends.

pub mod assoc;
pub mod backend;
pub mod clock;
pub mod datagram;
pub mod error;
pub mod models;
pub mod peer_link;
pub mod plugin;
pub mod text;
pub mod uuids;

pub use error::BleError;
pub use models::{
    CapabilityReport, CharacteristicUuid, DiscoveredPeer, GattCharacteristicSpec, GattEvent,
    GattServiceSpec, PeerAddress, RadioStatus, Role, ServiceUuid, WriteType,
};
pub use peer_link::driver::PeerLink;
pub use peer_link::{
    LinkId, LinkRole, MaxLinks, PeerLinkConfig, PeerLinkEvent, PeerStatus, RetryBudget,
};
