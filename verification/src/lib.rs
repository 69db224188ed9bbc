pub mod api;
pub mod calculator;
pub mod catalog;
pub mod messages;
pub mod models;
pub mod text;
pub mod theme;
pub mod wardrobe;
