//! The logic of a small desktop application that listens to an audio input, cuts
//! clips out of it and keeps them in an S3-compatible bucket.

pub mod text;
pub mod time;
pub mod order;
pub mod wav;
pub mod level;
pub mod config;
pub mod devices;
pub mod clips;
pub mod detector;
pub mod engine;
pub mod playback;
pub mod activity;
pub mod app;
pub mod ui;
