//! A local mirror of mod-package catalogs: the records are framed out of a
//! byte stream while it still arrives, filtered, merged into one ordered
//! collection and refreshed on a schedule.

pub mod frame;
pub mod text;
pub mod package;
pub mod catalog;
pub mod exclusion;
pub mod fetch;
pub mod store;
pub mod scheduler;
pub mod game;
