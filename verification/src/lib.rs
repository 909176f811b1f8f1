//! Verified core of a photo-library organiser: perceptual-hash comparison,
//! duplicate clustering, date and size bucketing, resize planning, settings
//! handling and the decisions of the batch-processing job runner.

pub mod scanner;
pub mod commands;
pub mod db;
pub mod grouper;
pub mod imaging;
pub mod processor;
pub mod settings;
pub mod text;
