//! What is known of a device and kept on disk: its description, its state and
//! its values.

pub mod channel_map;
pub mod description;
pub mod persistent;
pub mod value;

pub use channel_map::ChannelMap;
pub use description::ConnectionStatus;
pub use description::DeviceDescription;
pub use description::InclusionStatus;
pub use description::MemoryInformation;
pub use description::Product;
pub use persistent::PersistentState;
pub use value::Value;
pub use value::ValueData;
pub use value::ValueDescription;
pub use value::ValueFormat;
