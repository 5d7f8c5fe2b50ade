//! The decision core of monado-frame, an in-headset overlay for Monado: what the
//! overlay shows, writes, asks for and sends, stated as contracts and proved.

pub mod blocker;
pub mod config;
pub mod gallery;
pub mod json;
pub mod overlay;
pub mod photos;
pub mod picsur;
pub mod pictures;
pub mod pointer;
pub mod remote;
pub mod session;
pub mod shots;
pub mod text;
pub mod times;
pub mod translate;
pub mod wrist;
