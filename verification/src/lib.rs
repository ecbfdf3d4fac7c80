//! A generic CRUD request-handling core: derives queryable-field metadata per
//! resource type, builds equality filters from request parameters, dispatches
//! single-item and collection routes, and speaks to an abstract document store.

pub mod fields;
pub mod filter;
pub mod laws;
pub mod query;
pub mod registry;
pub mod resource;
pub mod routes;
pub mod store;
pub mod value;

pub use fields::Field;
pub use fields::Fields;
pub use filter::FieldFilter;
pub use filter::Filter;
pub use filter::FilterError;
pub use query::parse_u32;
pub use registry::Application;
pub use registry::RouteConfig;
pub use resource::DataResource;
pub use resource::FrontendExtended;
pub use resource::Record;
pub use routes::CollectionRoute;
pub use routes::MapOrStruct;
pub use routes::Response;
pub use routes::ResponseBody;
pub use routes::SingleGet;
pub use routes::SingleRoute;
pub use routes::Verb;
pub use store::Database;
pub use store::IdGen;
pub use store::MemoryDb;
pub use store::StoreError;
pub use value::Value;

