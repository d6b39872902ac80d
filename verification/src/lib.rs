//! A code-generation engine that turns a declarative list of API route
//! descriptors into a single TypeScript client module: one callable binding
//! per route, grouped by namespace, for plain HTTP requests, bidirectional
//! WebSocket channels, and server-push (SSE) streams.
//!
//! The pipeline is pure: the schema-to-validator transpiler and the output
//! formatter are external collaborators, reached only through the job list
//! the generator plans and the transpiled results handed back to it.

pub mod deprecated;
pub mod emit;
pub mod gen;
pub mod jobs;
pub mod keywords;
pub mod method;
pub mod name;
pub mod strutil;
pub mod types;

pub use deprecated::Deprecated;
pub use gen::GenError;
pub use gen::generate;
pub use jobs::Mode;
pub use jobs::TranspileJob;
pub use jobs::transpile_jobs;
pub use method::Method;
pub use method::MethodUnknown;
pub use name::first_upper;
pub use name::make_name;
pub use name::make_name_raw;
pub use types::BuildError;
pub use types::Kind;
pub use types::RequestInfo;
pub use types::Requests;
pub use types::Slot;
pub use types::Tag;
