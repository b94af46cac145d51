//! A reader for ASCII DXF drawings: the text as group-code pairs, the bytes
//! of a file decoded through the code page its header declares, and the
//! sections and records those pairs make.

pub mod text;
pub mod number;
pub mod pairs;
pub mod decode;
pub mod record;
pub mod outline;
pub mod resolve;
pub mod entity;
pub mod style;
pub mod hatch;
pub mod read;
pub mod mesh;
pub mod walk;
pub mod overrides;
pub mod listing;
pub mod records;
pub mod laws;

pub use pairs::{pairs, Pair, ReadError};
pub use decode::decode;
pub use outline::Space;
