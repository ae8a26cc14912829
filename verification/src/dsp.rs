pub mod error_correction;
pub mod decoder;
pub mod sdr_interface;
pub mod ensemble_parser;
pub mod scanner;
pub mod convolutional;
