//! What the library is for, stated of what comes in and what comes out.

pub mod measures;
pub mod objects;
pub mod writing;
pub mod feeds;
pub mod moves;
pub mod alerts;
pub mod counts;
pub mod trades;
pub mod files;
pub mod reports;
pub mod rows;
pub mod settings;
pub mod access;
pub mod bot;
