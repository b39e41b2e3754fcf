//! Column-index correspondence and derived-metadata machinery for a
//! row-expanding projection operator in a query optimizer's logical plan
//! layer.
//!
//! The shared primitive is [`mapping::ColIndexMapping`], a partial,
//! fixed-size correspondence between two column index spaces. On top of it,
//! [`project_set::ProjectSet`] derives an output schema, a candidate primary
//! key and a functional-dependency set from its expression list and the
//! input plan's metadata.

pub mod catalog;
pub mod expr;
pub mod mapping;
pub mod project_set;
pub mod property;

pub use catalog::DataType;
pub use catalog::Field;
pub use catalog::Schema;
pub use expr::ExprImpl;
pub use mapping::ColIndexMapping;
pub use mapping::MappingError;
pub use project_set::PlanInput;
pub use project_set::ProjectSet;
pub use property::ColumnOrder;
pub use property::FunctionalDependency;
pub use property::FunctionalDependencySet;
pub use property::Order;
pub use property::OrderType;
