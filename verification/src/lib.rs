//! The multiplexer core: workspaces hold screens, a screen is a binary split
//! tree of panes, and a pane holds tabs.

pub mod app;
pub mod app_drop;
pub mod app_event;
pub mod app_keys;
pub mod app_layout;
pub mod app_menu;
pub mod app_mouse;
pub mod browser;
pub mod consistency;
pub mod encoding;
pub mod frontend;
pub mod geometry;
pub mod input;
pub mod json;
pub mod laws;
pub mod laws_frontend;
pub mod laws_reply;
pub mod laws_session;
pub mod model;
pub mod mux;
pub mod node;
pub mod ops;
pub mod protocol;
pub mod ratio;
pub mod resize;
pub mod routes;
pub mod scrollbar;
pub mod search;
pub mod server;
pub mod session;
pub mod surface;
pub mod text;
pub mod tree;
pub mod turn;
pub mod ui;
