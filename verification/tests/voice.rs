use yomiage_mon::voice::audio::{DecodedAudio, EncodedAudio};
use yomiage_mon::voice::ffmpeg::{conversion_result, ffmpeg_args};
use yomiage_mon::voice::speech::{initialize_speakers_url, speech_query, speech_synthesis, SpeechRequest, SPEECH_STYLE_ID};
use yomiage_mon::voice::voicevox::{GenerateQuery, SynthesisParamas, VoiceVoxClient, VoiceVoxError};

fn client() -> VoiceVoxClient {
    VoiceVoxClient::new("http://voicevox:50021".to_string())
}

#[test]
fn endpoint_is_base_and_path() {
    assert_eq!(client().get_endpoint("/synthesis"), "http://voicevox:50021/synthesis");
}

#[test]
fn audio_query_url() {
    let url = client().generate_query_url(&GenerateQuery { text: "hello world".to_string() }).unwrap();
    assert_eq!(url, "http://voicevox:50021/audio_query?text=hello+world&speaker=1");
}

#[test]
fn audio_query_url_encodes_text() {
    let url = client().generate_query_url(&GenerateQuery { text: "ず&=".to_string() }).unwrap();
    assert_eq!(url, "http://voicevox:50021/audio_query?text=%E3%81%9A%26%3D&speaker=1");
}

#[test]
fn audio_query_params() {
    let pairs = VoiceVoxClient::audio_query_params(&GenerateQuery { text: "abc".to_string() });
    assert_eq!(pairs, vec![("text".to_string(), "abc".to_string()), ("speaker".to_string(), "1".to_string())]);
}

#[test]
fn synthesis_url_names_the_style() {
    let params = SynthesisParamas { style_id: 3, query: "{}".to_string() };
    assert_eq!(client().synthesis_url(&params).unwrap(), "http://voicevox:50021/synthesis?speaker=3");
}

#[test]
fn initialize_speaker_url() {
    assert_eq!(client().initialize_speaker_url(-2).unwrap(), "http://voicevox:50021/initialize_speaker?speaker=-2");
    assert_eq!(initialize_speakers_url(&client()).unwrap(), "http://voicevox:50021/initialize_speaker?speaker=1");
}

#[test]
fn invalid_base_is_an_error() {
    let c = VoiceVoxClient::new("voicevox".to_string());
    match c.generate_query_url(&GenerateQuery { text: "x".to_string() }) {
        Err(VoiceVoxError::InvalidUrl(_)) => {}
        other => panic!("{:?}", other),
    }
}

#[test]
fn speech_steps() {
    let q = speech_query(SpeechRequest { text: "読み上げ".to_string() });
    assert_eq!(q.text, "読み上げ");
    let s = speech_synthesis("{\"q\":1}".to_string());
    assert_eq!(s.style_id, SPEECH_STYLE_ID);
    assert_eq!(s.style_id, 1);
    assert_eq!(s.query, "{\"q\":1}");
}

#[test]
fn ffmpeg_command_line() {
    assert_eq!(
        ffmpeg_args(),
        vec!["-i", "pipe:", "-f", "s16le", "-ac", "1", "-ar", "48000", "-acodec", "pcm_s16le", "-"]
    );
}

#[test]
fn audio_round_trip() {
    let enc = EncodedAudio::from(vec![1u8, 2, 3]);
    assert_eq!(enc.0, vec![1, 2, 3]);
    assert_eq!(Vec::<u8>::from(enc), vec![1, 2, 3]);
    let dec = DecodedAudio::from(vec![4u8, 5]);
    assert_eq!(Vec::<u8>::from(dec), vec![4, 5]);
}

#[test]
fn conversion_outcome() {
    assert_eq!(conversion_result(true, vec![1, 2], "exit status: 0", ""), Ok(vec![1, 2]));
    assert_eq!(
        conversion_result(false, vec![], "exit status: 1", "bad input"),
        Err("ffmpeg exited with status code exit status: 1, bad input".to_string())
    );
}
