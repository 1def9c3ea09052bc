//! Audio as the speech engine encodes it, and as the voice channel plays it.

use vstd::prelude::*;
use vstd::std_specs::convert::{FromSpec, FromSpecImpl};

verus! {

/// Audio in the container the speech engine returns.
pub struct EncodedAudio(pub Vec<u8>);

/// Raw 16-bit little-endian mono samples at 48 kHz.
pub struct DecodedAudio(Vec<u8>);

impl DecodedAudio {
    /// The samples' bytes.
    pub closed spec fn bytes(&self) -> Seq<u8> {
        self.0@
    }
}

impl From<Vec<u8>> for EncodedAudio {
    fn from(buf: Vec<u8>) -> (r: Self) {
        EncodedAudio(buf)
    }
}

impl FromSpecImpl<Vec<u8>> for EncodedAudio {
    open spec fn obeys_from_spec() -> bool {
        true
    }

    open spec fn from_spec(buf: Vec<u8>) -> Self {
        EncodedAudio(buf)
    }
}

impl From<EncodedAudio> for Vec<u8> {
    fn from(audio: EncodedAudio) -> (r: Self) {
        audio.0
    }
}

impl FromSpecImpl<EncodedAudio> for Vec<u8> {
    open spec fn obeys_from_spec() -> bool {
        true
    }

    open spec fn from_spec(audio: EncodedAudio) -> Self {
        audio.0
    }
}

impl From<Vec<u8>> for DecodedAudio {
    fn from(buf: Vec<u8>) -> (r: Self) {
        DecodedAudio(buf)
    }
}

impl FromSpecImpl<Vec<u8>> for DecodedAudio {
    open spec fn obeys_from_spec() -> bool {
        true
    }

    closed spec fn from_spec(buf: Vec<u8>) -> Self {
        DecodedAudio(buf)
    }
}

impl From<DecodedAudio> for Vec<u8> {
    fn from(audio: DecodedAudio) -> (r: Self) {
        audio.0
    }
}

impl FromSpecImpl<DecodedAudio> for Vec<u8> {
    open spec fn obeys_from_spec() -> bool {
        true
    }

    closed spec fn from_spec(audio: DecodedAudio) -> Self {
        audio.0
    }
}

/// Wrapping bytes as audio and taking them back out gives the same bytes,
/// for encoded and for decoded audio; the decoded audio holds those bytes.
pub proof fn law_audio_round_trip(buf: Vec<u8>)
    ensures
        <Vec<u8> as FromSpec<EncodedAudio>>::from_spec(
            <EncodedAudio as FromSpec<Vec<u8>>>::from_spec(buf),
        ) == buf,
        <Vec<u8> as FromSpec<DecodedAudio>>::from_spec(
            <DecodedAudio as FromSpec<Vec<u8>>>::from_spec(buf),
        ) == buf,
        <DecodedAudio as FromSpec<Vec<u8>>>::from_spec(buf).bytes() == buf@,
{
}

} // verus!
