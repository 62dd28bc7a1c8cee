//! The traits of this module, for import in one line.

pub use super::{BufferedRead, Read, ReadExt, Seek, Write, WriteExt};
