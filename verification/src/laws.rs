//! What the operations are for, said of what goes in and what comes out.
pub mod members;
pub mod papers;
pub mod documents;
pub mod lists;
pub mod texts;
pub mod reader;
pub mod screens;
pub mod storage;
pub mod frames;
