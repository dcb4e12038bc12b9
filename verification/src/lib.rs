//! American Standard Code for Information Interchange table aide: the subsets of the
//! 128 codes, their resolution into records, and the listing and the table that show
//! them in binary, octal, decimal or hexadecimal.

pub mod table;
pub mod code;
pub mod ranges;
pub mod resolve;
pub mod text;
pub mod numeral;
pub mod listing;
pub mod grid;
pub mod flag;
pub mod request;

pub use code::Code;
pub use ranges::{ranges, Ranges};
pub use resolve::{acquire, acquire_apart, codes};
pub use table::TABLE;
