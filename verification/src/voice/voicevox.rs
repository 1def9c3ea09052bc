//! The addresses of the requests to the VOICEVOX engine.
//!
//! Sending the requests is the caller's part; this module builds the URLs,
//! through the URL parser of `reqwest`.

use vstd::prelude::*;
use crate::text::{signed_decimal, i64_to_decimal};

verus! {

#[verifier::external_type_specification]
#[verifier::external_body]
pub struct ExUrlParseError(url::ParseError);

/// The serialization of the URL that `url::Url::parse_with_params` makes of
/// `input` with the query pairs `pairs` appended, or `None` where `input` is
/// no absolute URL.
pub uninterp spec fn url_with_query(input: Seq<char>, pairs: Seq<(Seq<char>, Seq<char>)>) -> Option<
    Seq<char>,
>;

/// The views of a list of query pairs.
pub open spec fn pair_views(pairs: Seq<(String, String)>) -> Seq<(Seq<char>, Seq<char>)> {
    pairs.map_values(|p: (String, String)| (p.0@, p.1@))
}

/// `reqwest::Url::parse_with_params` (the `url` crate's `Url`), serialized:
/// the URL of `input` with `pairs` appended to its query, or the error of
/// parsing `input`. The contract also claims that whether it fails depends on
/// `input` alone, as the source appends the pairs only to a parsed URL.
#[verifier::external_body]
fn parse_with_params(input: &str, pairs: &Vec<(String, String)>) -> (r: Result<
    String,
    url::ParseError,
>)
    ensures
        match r {
            Ok(url) => url_with_query(input@, pair_views(pairs@)) == Some(url@),
            Err(_) => url_with_query(input@, pair_views(pairs@)) is None,
        },
        r is Err <==> url_with_query(input@, Seq::empty()) is None,
{
    match reqwest::Url::parse_with_params(input, pairs.iter()) {
        Ok(url) => Ok(String::from(url)),
        Err(e) => Err(e),
    }
}

/// Why a request to the engine cannot be made.
#[derive(Debug)]
pub enum VoiceVoxError {
    /// The engine's address and the path make no absolute URL.
    InvalidUrl(url::ParseError),
}

/// The URL of a request, from what the URL parser returned.
pub fn endpoint_url(parsed: Result<String, url::ParseError>) -> (r: Result<String, VoiceVoxError>)
    ensures
        match parsed {
            Ok(url) => r is Ok && r.unwrap()@ == url@,
            Err(_) => r is Err,
        },
{
    match parsed {
        Ok(url) => Ok(url),
        Err(e) => Err(VoiceVoxError::InvalidUrl(e)),
    }
}

/// The query of an `/audio_query` request: the text, read by speaker 1.
pub open spec fn audio_query_pairs(text: Seq<char>) -> Seq<(Seq<char>, Seq<char>)> {
    seq![("text"@, text), ("speaker"@, "1"@)]
}

/// The query of a request that names a speaker.
pub open spec fn speaker_pairs(speaker: int) -> Seq<(Seq<char>, Seq<char>)> {
    seq![("speaker"@, signed_decimal(speaker))]
}

/// What an outcome of building a URL says of `input` and `pairs`.
pub open spec fn url_outcome(
    r: Result<String, VoiceVoxError>,
    input: Seq<char>,
    pairs: Seq<(Seq<char>, Seq<char>)>,
) -> bool {
    match r {
        Ok(url) => url_with_query(input, pairs) == Some(url@),
        Err(_) => url_with_query(input, pairs) is None,
    }
}

/// The text for which an audio query is made.
#[derive(Debug, Clone)]
pub struct GenerateQuery {
    pub text: String,
}

/// The audio query to synthesize, and the style to speak it in.
#[derive(Debug, Clone)]
pub struct SynthesisParamas {
    pub style_id: i64,
    pub query: String,
}

/// The address of a VOICEVOX engine.
pub struct VoiceVoxClient {
    api_base: String,
}

impl View for VoiceVoxClient {
    type V = Seq<char>;

    closed spec fn view(&self) -> Seq<char> {
        self.api_base@
    }
}

/// The query pairs `("speaker", id)`.
fn speaker_query(speaker_id: i64) -> (pairs: Vec<(String, String)>)
    ensures
        pair_views(pairs@) == speaker_pairs(speaker_id as int),
{
    let mut pairs: Vec<(String, String)> = Vec::new();
    pairs.push((String::from_str("speaker"), i64_to_decimal(speaker_id)));
    assert(pair_views(pairs@) =~= speaker_pairs(speaker_id as int));
    pairs
}

impl VoiceVoxClient {
    /// The client of the engine at `api_base`.
    pub fn new(api_base: String) -> (r: Self)
        ensures
            r@ == api_base@,
    {
        VoiceVoxClient { api_base }
    }

    /// The engine's address followed by `path`.
    pub fn get_endpoint(&self, path: &str) -> (r: String)
        ensures
            r@ == self@ + path@,
    {
        let mut endpoint = self.api_base.clone();
        endpoint.append(path);
        endpoint
    }

    /// The query pairs of an audio query for `params`.
    pub fn audio_query_params(params: &GenerateQuery) -> (pairs: Vec<(String, String)>)
        ensures
            pair_views(pairs@) == audio_query_pairs(params.text@),
    {
        let mut pairs: Vec<(String, String)> = Vec::new();
        pairs.push((String::from_str("text"), params.text.clone()));
        pairs.push((String::from_str("speaker"), String::from_str("1")));
        assert(pair_views(pairs@) =~= audio_query_pairs(params.text@));
        pairs
    }

    /// The URL of the request that makes an audio query of `params`' text.
    pub fn generate_query_url(&self, params: &GenerateQuery) -> (r: Result<String, VoiceVoxError>)
        ensures
            url_outcome(r, self@ + "/audio_query"@, audio_query_pairs(params.text@)),
    {
        let endpoint = self.get_endpoint("/audio_query");
        let pairs = Self::audio_query_params(params);
        endpoint_url(parse_with_params(endpoint.as_str(), &pairs))
    }

    /// The URL of the request that synthesizes speech in `params`' style;
    /// the query goes in the request's body.
    pub fn synthesis_url(&self, params: &SynthesisParamas) -> (r: Result<String, VoiceVoxError>)
        ensures
            url_outcome(r, self@ + "/synthesis"@, speaker_pairs(params.style_id as int)),
    {
        let endpoint = self.get_endpoint("/synthesis");
        let pairs = speaker_query(params.style_id);
        endpoint_url(parse_with_params(endpoint.as_str(), &pairs))
    }

    /// The URL of the request that prepares speaker `speaker_id`.
    pub fn initialize_speaker_url(&self, speaker_id: i64) -> (r: Result<String, VoiceVoxError>)
        ensures
            url_outcome(r, self@ + "/initialize_speaker"@, speaker_pairs(speaker_id as int)),
    {
        let endpoint = self.get_endpoint("/initialize_speaker");
        let pairs = speaker_query(speaker_id);
        endpoint_url(parse_with_params(endpoint.as_str(), &pairs))
    }
}

/// The audio query carries the whole text of the request, whatever its
/// length, under the key `text`, then speaker `1`; two different texts give
/// different queries.
pub proof fn law_audio_query_carries_whole_text(text: Seq<char>, other: Seq<char>)
    ensures
        audio_query_pairs(text).len() == 2,
        audio_query_pairs(text)[0].0 == "text"@,
        audio_query_pairs(text)[0].1 == text,
        audio_query_pairs(text)[0].1.len() == text.len(),
        audio_query_pairs(text)[1] == ("speaker"@, "1"@),
        text != other ==> audio_query_pairs(text) != audio_query_pairs(other),
{
    if text != other {
        assert(audio_query_pairs(text)[0].1 != audio_query_pairs(other)[0].1);
    }
}

/// The speaker of a request is written as its id in decimal, and reads back
/// as that id.
pub proof fn law_speaker_reads_back(speaker: u64)
    ensures
        speaker_pairs(speaker as int).len() == 1,
        speaker_pairs(speaker as int)[0].0 == "speaker"@,
        crate::text::digits_value(speaker_pairs(speaker as int)[0].1) == speaker,
{
    crate::text::law_decimal_reads_back(speaker as nat);
}

} // verus!
