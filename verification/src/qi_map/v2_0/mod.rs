//! Reader for quantitative imaging maps of file format version 2.0.
pub mod channel_data;
pub mod fetch;
pub mod metadata;
pub mod phases;
pub mod position;
pub mod reader;
pub mod resolve;
pub mod segment_data;
pub mod utils;

pub use crate::dataset::v2_0::lcd_info;
pub use crate::dataset::v2_0::properties::index as index_data;
pub use crate::dataset::v2_0::properties::SharedData;
pub use position::{Grid, Numbering, PositionPattern, PositionPatternType};
pub use reader::{DataError, DatasetInfo, Index, Reader};
