pub mod input;
pub mod loop_;
