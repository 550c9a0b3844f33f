//! Multivariable linear regression trained with batch gradient descent.
//!
//! The model function is `f(x) = a_1 * x_1 + ... + a_n * x_n + b` and the cost it
//! minimises is the mean squared error. This crate holds the parts of the project
//! that do not depend on floating-point arithmetic, each with a contract proved by
//! Verus:
//!
//! * [`json_converter`]: the shape checks that a training set passes before it
//!   reaches the model, and the error type that reports a rejected set.
//! * [`without_feature_scaling`]: the model's state (samples, outputs, sizes and
//!   coefficients), its well-formedness, and the descent loop that replaces all
//!   coefficients at once in every iteration.
//! * [`json_data_set`]: reading a JSON document into a `serde_json::Value`.

pub mod json_converter;
pub mod without_feature_scaling;
pub mod json_data_set;
