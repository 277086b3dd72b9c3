//! Declarative validation rules: per-field checks are chained in a
//! [`RuleBuilder`], attached to a record type in a [`ValidatorBuilder`], and the
//! compiled validator reports every failure, in attachment order, in a
//! [`ValidationResult`].
pub mod attach;
pub mod builder;
pub mod check;
pub mod custom;
pub mod error;
pub mod groups;
pub mod laws;
pub mod pattern;
pub mod rule;
pub mod text;
pub mod traits;

pub use builder::validate;
pub use builder::ValidatorBuilder;
pub use error::ErrorView;
pub use error::ValidationError;
pub use error::ValidationResult;
pub use groups::ErrorGroup;
pub use groups::ErrorGroups;
pub use groups::GroupView;
pub use rule::RuleBuilder;
pub use text::StringLike;
pub use traits::Numeric;
pub use traits::OptionLike;
pub use traits::Validator;
