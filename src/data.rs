pub mod collector;
pub mod preprocessor;
