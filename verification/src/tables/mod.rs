//! The individual font tables, each decoded from its byte range.

pub mod cmap;
pub mod glyf;
pub mod head;
pub mod hhea;
pub mod hmtx;
pub mod loca;
pub mod maxp;

pub use self::cmap::CMAP;
pub use self::glyf::GLYF;
pub use self::head::HEAD;
pub use self::hhea::HHEA;
pub use self::hmtx::{HMTX, LongHorizontalMetric};
pub use self::loca::LOCA;
pub use self::maxp::MAXP;
