//! What is to be said, and the two requests that turn it into audio.

use vstd::prelude::*;
use crate::voice::voicevox::{GenerateQuery, SynthesisParamas, VoiceVoxClient, VoiceVoxError, url_outcome, speaker_pairs};

verus! {

/// The style in which the bot speaks, and the speaker it prepares.
pub const SPEECH_STYLE_ID: i64 = 1;

/// A text to be read aloud.
#[derive(Debug)]
pub struct SpeechRequest {
    pub text: String,
}

/// The first step of making speech: an audio query of the request's text.
pub fn speech_query(option: SpeechRequest) -> (query: GenerateQuery)
    ensures
        query.text@ == option.text@,
{
    GenerateQuery { text: option.text }
}

/// The second step: the synthesis of the audio query the engine answered,
/// in the bot's style.
pub fn speech_synthesis(query: String) -> (params: SynthesisParamas)
    ensures
        params.style_id == SPEECH_STYLE_ID,
        params.query@ == query@,
{
    SynthesisParamas { style_id: SPEECH_STYLE_ID, query }
}

/// The URL of the request that prepares the bot's speaker.
pub fn initialize_speakers_url(client: &VoiceVoxClient) -> (r: Result<String, VoiceVoxError>)
    ensures
        url_outcome(r, client@ + "/initialize_speaker"@, speaker_pairs(SPEECH_STYLE_ID as int)),
{
    client.initialize_speaker_url(SPEECH_STYLE_ID)
}

} // verus!
