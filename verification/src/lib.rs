//! The logic of an album downloader: reading album pages, resolving and decrypting links, the course
//! of each download, and the state of the window that shows them. Network, files and the window
//! itself are left to the program around this library.
pub mod batch;
pub mod cipher;
pub mod controls;
pub mod display;
pub mod download;
pub mod literal;
pub mod model;
pub mod names;
pub mod page;
pub mod resolve;
pub mod size;
pub mod state;
pub mod text;
pub mod worker;
