//! Media segmentation and reassembly pipeline: splits one media file into
//! fixed-duration chunks, extracts a selected region as three adjacent
//! chunks, and merges chunk files back losslessly, by planning invocations
//! of an external stream-copying media tool and interpreting what each
//! invocation produced. Every decision — argument construction, chunk
//! naming and ordering, manifest construction, failure propagation, and the
//! boundary arithmetic of the segmentation timeline — is made here under
//! contract; running processes and moving bytes is left to the caller.

pub mod client;
pub mod cmd;
pub mod digits;
pub mod error;
pub mod manifest;
pub mod naming;
pub mod probe;
pub mod prompt;
pub mod text;
pub mod timeline;
pub mod whisper;
