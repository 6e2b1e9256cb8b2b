pub mod batch;
pub mod convert;
pub mod document;
pub mod preview;
pub mod writer;
