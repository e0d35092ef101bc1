//! A clipboard history engine: capture normalization, content-addressed
//! storage in an encrypted relational file, paginated browsing with derived
//! previews, restore with echo suppression, and on-demand replication to a
//! second store.

pub mod app;
pub mod capture;
pub mod cloudstorage;
pub mod laws;
pub mod model;
pub mod models;
pub mod preview;
pub mod restore;
pub mod sql;
pub mod storage;
pub mod text;
