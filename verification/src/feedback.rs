//! Feedback reports: correlation tags, thread selection, attachments and the upload.
pub mod attachments;
pub mod ids;
pub mod tag_laws;
pub mod tags;
pub mod threads;
pub mod upload;
pub mod upload_laws;
