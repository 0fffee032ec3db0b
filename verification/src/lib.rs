pub mod adapter;
pub mod block;
pub mod error;
pub mod events;
pub mod hex;
pub mod store;
pub mod text;

pub use adapter::Convert;
pub use adapter::FromBlock;
pub use adapter::FromEvent;
pub use adapter::Mapper;
pub use store::Store;
pub use store::TimeStore;
pub use text::StringW;
pub use block::Block;
pub use block::LogEntry;
pub use error::DecodeError;
pub use hex::decode_filter;
pub use hex::format_hex;
