pub mod pattern;
pub mod extract;
pub mod parser;
pub mod pipeline;
pub mod store;
