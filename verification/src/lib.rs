//! Resolution of OpenML tasks: the description of a task, the folds of its
//! split plan and the protocol of the response cache, as verified logic.

pub mod cache;
pub mod dataset;
pub mod error;
pub mod fetch;
pub mod folds;
pub mod id;
pub mod json;
pub mod measure;
pub mod request;
pub mod task;
pub mod text;

pub use error::Error;
pub use id::Id;
pub use task::{OpenML, Task};
