use neurassembly::model::encoder::AssemblyEncoder;
use neurassembly::model::optimizer::{OptimizationConfig, OptimizationModel};
use neurassembly::model::trainer::{ModelTrainer, TrainingConfig, TrainingExample};

fn create_dummy_training_data(encoder: &AssemblyEncoder) -> Vec<TrainingExample> {
    // mov rax, rbx / add rax, 1 / push rax
    let input_code: Vec<&[u8]> = vec![&[0x48, 0x89, 0xd8], &[0x48, 0x83, 0xc0, 0x01], &[0x50]];
    // mov rax, rbx / inc rax / push rax
    let target_code: Vec<&[u8]> = vec![&[0x48, 0x89, 0xd8], &[0x48, 0xff, 0xc0], &[0x50]];

    input_code
        .into_iter()
        .zip(target_code)
        .map(|(input, target)| TrainingExample {
            input_tokens: encoder.decode(input),
            target_tokens: encoder.decode(target),
        })
        .collect()
}

#[test]
fn test_trainer_creation() {
    let encoder = AssemblyEncoder::new();
    let model_config = OptimizationConfig {
        vocab_size: encoder.get_vocabulary_size() as i64,
        ..Default::default()
    };
    let model = OptimizationModel::new(model_config);
    let training_config = TrainingConfig::default();

    let _trainer = ModelTrainer::new(model, training_config);
    // Just testing that trainer creation doesn't panic
}

#[test]
fn test_training_loop() {
    let encoder = AssemblyEncoder::new();
    let training_data = create_dummy_training_data(&encoder);

    let model_config = OptimizationConfig {
        vocab_size: encoder.get_vocabulary_size() as i64,
        ..Default::default()
    };
    let model = OptimizationModel::new(model_config);

    let training_config = TrainingConfig {
        num_epochs: 2, // Reduce epochs for testing
        batch_size: 2,
        save_dir: "checkpoints_test".to_string(),
        ..Default::default()
    };

    let mut trainer = ModelTrainer::new(model, training_config);
    assert_eq!(trainer.train(training_data), Ok(()));

    assert_eq!(trainer.get_current_epoch(), 2);
}

#[test]
fn test_checkpoint_save_load() {
    let model_config = OptimizationConfig::default();
    let model = OptimizationModel::new(model_config.clone());
    let training_config = TrainingConfig::default();

    let trainer = ModelTrainer::new(model, training_config.clone());
    assert_eq!(trainer.save_checkpoint("test_checkpoint.pt"), Ok(()));

    let model = OptimizationModel::new(model_config);
    let mut new_trainer = ModelTrainer::new(model, training_config);
    assert_eq!(new_trainer.load_checkpoint("test_checkpoint.pt"), Ok(()));
}

#[test]
fn default_training_config() {
    let config = TrainingConfig::default();
    assert_eq!(config.save_dir, "checkpoints");
    assert_eq!(config.checkpoint_interval, 1000);
    assert_eq!(config.num_epochs, 10);
    assert_eq!(config.batch_size, 32);
}
