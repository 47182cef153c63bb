pub mod listing;
pub mod models;
pub mod tags;
pub mod playback;
pub mod selection;
pub mod store;
pub mod sync;
pub mod spotify;
pub mod text;
pub mod web;
