//! The command line of the `ffmpeg` process that turns encoded speech into
//! raw samples for the voice channel.

use vstd::prelude::*;

verus! {

/// The arguments of `ffmpeg`: read the input from standard input and write
/// 16-bit signed little-endian PCM, one channel, 48000 Hz, to standard output.
pub open spec fn spec_ffmpeg_args() -> Seq<Seq<char>> {
    seq![
        "-i"@,
        "pipe:"@,
        "-f"@,
        "s16le"@,
        "-ac"@,
        "1"@,
        "-ar"@,
        "48000"@,
        "-acodec"@,
        "pcm_s16le"@,
        "-"@,
    ]
}

/// The views of a list of strings.
pub open spec fn string_views(v: Seq<String>) -> Seq<Seq<char>> {
    v.map_values(|s: String| s@)
}

/// The arguments with which `ffmpeg` is run.
pub fn ffmpeg_args() -> (args: Vec<String>)
    ensures
        string_views(args@) == spec_ffmpeg_args(),
{
    let mut args: Vec<String> = Vec::new();
    args.push(String::from_str("-i"));
    args.push(String::from_str("pipe:"));
    args.push(String::from_str("-f"));
    args.push(String::from_str("s16le"));
    args.push(String::from_str("-ac"));
    args.push(String::from_str("1"));
    args.push(String::from_str("-ar"));
    args.push(String::from_str("48000"));
    args.push(String::from_str("-acodec"));
    args.push(String::from_str("pcm_s16le"));
    args.push(String::from_str("-"));
    assert(string_views(args@) =~= spec_ffmpeg_args());
    args
}

/// The message of a failed conversion, from the exit status and the error
/// output as they are written.
pub open spec fn failure_message(status: Seq<char>, stderr: Seq<char>) -> Seq<char> {
    "ffmpeg exited with status code "@ + status + ", "@ + stderr
}

/// The outcome of a conversion: the samples where `ffmpeg` succeeded, and
/// otherwise the message naming its exit status and error output.
pub fn conversion_result(success: bool, stdout: Vec<u8>, status: &str, stderr: &str) -> (r: Result<
    Vec<u8>,
    String,
>)
    ensures
        success ==> r is Ok && r.unwrap()@ == stdout@,
        !success ==> r is Err && r->Err_0@ == failure_message(status@, stderr@),
{
    if success {
        Ok(stdout)
    } else {
        let mut message = String::from_str("ffmpeg exited with status code ");
        message.append(status);
        message.append(", ");
        message.append(stderr);
        Err(message)
    }
}

} // verus!
