//! Translation layer between loosely-typed JSON payloads and strongly-typed
//! smart-contract ABI call parameters: parsing a contract's ABI description,
//! matching a unit's declared inputs against a caller-supplied JSON value,
//! and producing an ordered, type-correct parameter list or a precise error.

pub mod abi;
pub mod coerce;
pub mod error;
pub mod hex;
pub mod json;
pub mod jsonio;
pub mod render;
pub mod request;
pub mod response;
pub mod text;
pub mod token;

pub use abi::ABIUnit;
pub use abi::UnitType;
pub use abi::Variable;
pub use abi::ABI;
pub use error::Error;
pub use json::JsonNum;
pub use json::JsonVal;
pub use json::JsonView;
pub use token::Token;
