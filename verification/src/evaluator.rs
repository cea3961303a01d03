//! The evaluator and the runtime values it works on.

pub mod builtins;
pub mod environment;
pub mod error;
pub mod evaluator;
pub mod form;
pub mod invariants;
pub mod laws;
pub mod semantics;
pub mod state;
pub mod value;

pub use self::builtins::Request;
pub use self::environment::Environment;
pub use self::error::EvalError;
pub use self::evaluator::Evaluator;
pub use self::state::{Action, Event};
pub use self::value::{Builtin, Callable, Piece, Value};
