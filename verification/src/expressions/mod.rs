//! Expressions and predicates over columns.

pub mod column;
pub mod column_laws;
pub mod expression;
pub mod opaque;
pub mod opaque_laws;
pub mod renaming_laws;
pub mod scalar;
pub mod transforms;

pub use column::{ColumnName, ColumnSet};
pub use expression::{
    BinaryExpressionOp, BinaryPredicateOp, Expression, ExpressionRef, FieldPatch,
    JunctionPredicateOp, OpaquePredicate, Predicate, PredicateRef, StructPatch, UnaryExpressionOp,
    VariadicExpressionOp,
};
pub use scalar::{Comparison, Scalar};
