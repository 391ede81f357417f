//! Validation of JSON-shaped values against composed schemas, reporting every
//! violation rather than stopping at the first one.

pub mod error;
pub mod interop;
pub mod json;
pub mod laws;
pub mod loading;
pub mod path;
pub mod registry;
pub mod schema;
pub mod text;
pub mod validation;

pub use error::{SchemaError, SchemaErrors, Validation, ValidationResult};
pub use json::{JsonValue, Member};
pub use path::{JsonPath, PathSegment};
pub use registry::{RegistryError, SchemaRegistry};
pub use schema::Schema;
pub use schema::array::ArraySchema;
pub use schema::combinators::CombinatorSchema;
pub use schema::node::{SchemaLike, SchemaNode};
pub use schema::numeric::IntegerSchema;
pub use schema::object::{AdditionalPropertiesSetting, ObjectSchema, ValidatedObject};
pub use schema::ref_schema::RefSchema;
pub use schema::string::StringSchema;
pub use validation::{RegistryAccess, ValidationContext};
