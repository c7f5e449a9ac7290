//! The syntax layer for arrow functions: a token stream is parsed into a
//! tree that knows where in the source each of its nodes stood, and the tree
//! is printed back as source text, pretty or in its shortest form.
//!
//! One engine parses and prints every function-like construct. What a kind
//! of construct brings of its own is its capability set, an impl of
//! [`FunctionBased`]; [`ArrowFunctionBase`] is that of arrow functions.
//! Every node follows the protocol [`ASTNode`].
//!
//! What each function does is stated in its contract over the mathematical
//! model of the parse, and proved. What holds of all parses and prints is
//! stated and proved in [`laws`].

pub mod arrow;
pub mod block;
pub mod buffer;
pub mod errors;
pub mod expression;
pub mod failures;
pub mod functions;
pub mod laws;
pub mod likeness;
pub mod node;
pub mod parameters;
pub mod positions;
pub mod roundtrip;
pub mod span;
pub mod spelling;
pub mod state;
pub mod tokens;
pub mod types;

pub use arrow::{ArrowFunction, ArrowFunctionBase, ExpressionOrBlock};
pub use block::{Block, Statement};
pub use errors::{Expected, ParseError, ParseResult};
pub use expression::{BinaryOperator, Expression, Operand};
pub use functions::{ChainVariable, FunctionBase, FunctionBased, Keyword};
pub use node::ASTNode;
pub use parameters::{FunctionParameters, Parameter, ParameterRole, VariableIdentifier};
pub use span::Span;
pub use state::{BlockId, FunctionId, ParseSettings, ParsingState, ToStringSettings};
pub use tokens::{Token, TokenKind, TokenReader};
pub use types::TypeReference;
