//! Start-up flags, dispatch admission and worker classification for a model
//! gateway.

pub mod text;
pub mod text_laws;
pub mod cli;
pub mod cli_laws;
pub mod pd_admission;
pub mod pd_admission_laws;
pub mod json;
pub mod json_laws;
pub mod classify;
pub mod classify_laws;
