//! The base objects: handles, type tags, boxed values and arrays.
pub mod allocator;
pub mod array;
pub mod dictionary;
pub mod null;
pub mod number;
pub mod plist;
pub mod runtime;
pub mod string;

pub use allocator::Allocator;
pub use array::Array;
pub use dictionary::Dictionary;
pub use null::Null;
pub use number::Number;
pub use plist::Plist;
pub use runtime::Type;
pub use runtime::TypeId;
pub use string::String;
pub use string::StringEncoding;
