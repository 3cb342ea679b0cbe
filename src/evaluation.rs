pub mod metrics;
pub mod validator;
