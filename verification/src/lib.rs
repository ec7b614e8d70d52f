//! Verified core of the Shotly screenshot tool: text encoding, request
//! planning for the translation services, image geometry and settings.

pub mod text;
pub mod util;
pub mod pixels;
pub mod settings;
pub mod commands;
pub mod windows;
pub mod capture;
pub mod perm;
pub mod detect;
pub mod ocr;
pub mod json;
pub mod translate;
