//! Frontend helpers that hold logic of their own: the screenshot encoder,
//! the link announcement format, the ROM library's header and URL helpers,
//! and the shader effect catalogue.
pub mod discovery;
pub mod library;
pub mod png;
pub mod shader;
