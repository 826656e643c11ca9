pub mod compositor;
pub mod extmap;
pub mod focus;
pub mod geometry;
pub mod layout;
pub mod mapping;
pub mod messages;
pub mod output;
pub mod pending;
pub mod popup;
pub mod shell;
pub mod state;
pub mod style;
pub mod workspace;
pub mod wset;
