//! Push-to-talk dictation core: audio capture conversion and chunking,
//! sample-rate conversion, the streaming transcription session state
//! machine, and the credential store that sessions draw on.

pub mod audio;
pub mod credentials;
pub mod frames;
pub mod params;
pub mod queue;
pub mod resample;
pub mod session;
pub mod text;
