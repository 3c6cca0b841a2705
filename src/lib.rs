pub mod contract;
pub mod error;
pub mod fees;
pub mod page;
pub mod person;
pub mod post;
pub mod laws;
