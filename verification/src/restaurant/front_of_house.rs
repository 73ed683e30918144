//! Where guests are seated and served.

pub mod hosting;
pub mod serving;
