//! A small error-handling library: a context string with an optional cause,
//! a walk over the chain of causes, context attachment for results, and a
//! report that renders a whole chain, one line per error.
pub mod causes;
pub mod context;
pub mod error;
pub mod terminator;

pub use causes::{Causes, ErrorExt};
pub use context::{bail, ensure, ResultExt};
pub use error::{err_msg, Error, Location};
pub use terminator::Terminator;
