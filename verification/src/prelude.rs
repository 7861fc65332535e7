//! The names a client of the engine usually wants in scope.

pub use crate::Differentiable;
pub use crate::Node;
pub use crate::error::Error;
pub use crate::mat::Dense;
pub use crate::mat::MatrixNode;
pub use crate::mat::mat;
pub use crate::primitive_ops::ElemMul;
pub use crate::primitive_ops::Exp;
pub use crate::symbol::Symbol;
pub use crate::symbol::symbol;
pub use crate::term::Term;
pub use crate::value::Atom;
pub use crate::value::NodeValue;
pub use crate::value::Value;
