//! Speech: the requests sent to the speech engine, the audio it returns and
//! how that audio is converted for the voice channel.

pub mod audio;
pub mod ffmpeg;
pub mod speech;
pub mod voicevox;
