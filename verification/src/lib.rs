pub mod cache;
pub mod dispatch;
pub mod index;
pub mod invocation;
pub mod resolve;
pub mod shell;
pub mod text;
