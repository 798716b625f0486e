//! A cycle-safe, containment-checked file-processing pipeline: archive
//! expansion, cataloguing, hashing, conversion bookkeeping and deduplicating
//! export, stated over plain values so that every decision is verified.

pub mod text;
pub mod paths;
pub mod path_resolver;
pub mod report_model;
pub mod hashing_service;
pub mod errors;
pub mod clock;
pub mod decompression_engine;
pub mod llm_export_engine;
pub mod conversion_engine;
pub mod file_scanner;
pub mod process_controller;
pub mod report_writer;
pub mod ept_logger;
pub mod file_conversion_adapter;
