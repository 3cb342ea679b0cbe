pub mod api;
pub mod data;
pub mod evaluation;
pub mod model;

pub use evaluation::metrics::PerformanceMetrics;
pub use model::optimizer::OptimizationModel;
