pub mod check;
pub mod error;
pub mod link;
pub mod model;
