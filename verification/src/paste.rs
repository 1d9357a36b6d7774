//! Pasting: text that may be a path or a search query, and images on the clipboard.
pub mod capture;
pub mod fallback;
pub mod image_info;
pub mod laws;
pub mod pasted_path;
pub mod query;
pub mod reading;
pub mod windows_path;
pub mod wl_paste;
pub mod wsl;
