pub mod encoder;
pub mod instruction;
pub mod optimizer;
pub mod text;
pub mod trainer;

pub use encoder::AssemblyEncoder;
pub use optimizer::OptimizationModel;
pub use trainer::ModelTrainer;
