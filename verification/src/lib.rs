//! Window-management logic of a tiling X11 window manager: layouts, key
//! bindings, configuration, client bookkeeping and the small text formats
//! that the X server and the configuration file hand over.
pub mod text;
pub mod client;
pub mod layout;
pub mod x11;
pub mod config;
pub mod bindings;
pub mod animation;
pub mod wallpaper;
pub mod wm;
