//! Decoder for the binary `bun.lockb` lockfile and a supply-chain audit over
//! the decoded package inventory.

pub mod bytes;
pub mod error;
pub mod model;
pub mod strings;
pub mod records;
pub mod layout;
pub mod trailers;
pub mod parser;
pub mod text;
pub mod package_json;
pub mod security;
pub mod laws;
pub mod audit;

pub use error::{ParseError, Warning};
pub use model::{Lockfile, Package};
pub use package_json::PackageJson;
pub use parser::{decode, decode_with_warnings};
pub use security::{ScanResult, SecurityScanner};
