//! Query selections and usage reporting of a GraphQL router.

pub mod json_ext;
pub mod query;
pub mod telemetry;
pub mod text;
