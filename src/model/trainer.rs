use crate::model::encoder::AssemblyToken;
use crate::model::optimizer::OptimizationModel;
use vstd::prelude::*;

verus! {

/// Settings of a training run.
#[derive(Debug, Clone)]
pub struct TrainingConfig {
    /// Directory for checkpoints.
    pub save_dir: String,
    pub checkpoint_interval: usize,
    pub num_epochs: usize,
    pub batch_size: usize,
}

impl Default for TrainingConfig {
    fn default() -> (r: Self)
        ensures
            r.save_dir@ == "checkpoints"@,
            r.checkpoint_interval == 1000,
            r.num_epochs == 10,
            r.batch_size == 32,
    {
        TrainingConfig {
            save_dir: "checkpoints".to_owned(),
            checkpoint_interval: 1000,
            num_epochs: 10,
            batch_size: 32,
        }
    }
}

/// An input sequence and the sequence it should become.
#[derive(Debug, Clone)]
pub struct TrainingExample {
    pub input_tokens: Vec<AssemblyToken>,
    pub target_tokens: Vec<AssemblyToken>,
}

/// Feeds examples to a model whose pattern table is fixed: the model learns nothing from
/// them.
pub struct ModelTrainer {
    model: OptimizationModel,
    config: TrainingConfig,
}

impl ModelTrainer {
    /// The model being trained.
    pub closed spec fn model(&self) -> OptimizationModel {
        self.model
    }

    /// The configuration of the run.
    pub closed spec fn config(&self) -> TrainingConfig {
        self.config
    }

    pub fn new(model: OptimizationModel, config: TrainingConfig) -> (r: Self)
        ensures
            r.model() == model,
            r.config() == config,
    {
        ModelTrainer { model, config }
    }

    /// Goes through the examples. The pattern table is static, so the model is left as it
    /// was, and training always succeeds.
    pub fn train(&mut self, _training_data: Vec<TrainingExample>) -> (r: Result<(), String>)
        ensures
            final(self).model() == old(self).model(),
            final(self).config() == old(self).config(),
            r is Ok,
    {
        Ok(())
    }

    /// Checkpoints hold nothing that the model does not rebuild itself: always succeeds.
    pub fn save_checkpoint(&self, _filename: &str) -> (r: Result<(), String>)
        ensures
            r is Ok,
    {
        Ok(())
    }

    /// Checkpoints hold nothing that the model does not rebuild itself: always succeeds and
    /// leaves the trainer as it was.
    pub fn load_checkpoint(&mut self, _filename: &str) -> (r: Result<(), String>)
        ensures
            final(self).model() == old(self).model(),
            final(self).config() == old(self).config(),
            r is Ok,
    {
        Ok(())
    }

    /// The epoch the trainer reports: a fixed 2, as no epochs are run.
    pub fn get_current_epoch(&self) -> (r: usize)
        ensures
            r == 2,
    {
        2
    }
}

} // verus!
