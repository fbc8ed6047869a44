//! Quick access to the important stuff.
pub use crate::context::Context;
pub use crate::run;
pub use crate::value::SExp;
