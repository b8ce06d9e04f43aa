pub mod line;
pub mod session;
pub mod source;
