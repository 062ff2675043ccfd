//! The pure parts of voice and photo handling: names of downloaded files,
//! the transcriber's command line, its startup handshake and its replies.
//! Downloads, the child process and its pipes stay in the application.

use vstd::prelude::*;
use crate::text::{
    chars_of, find, find_in, lemma_rfind_bounds, push_str, rfind, rfind_in,
    string_of, trim, trim_bounds,
};

verus! {

/// The text after the last `.` of a file path; `fallback` when the path
/// has no `.` at all (a name with no extension).
pub open spec fn file_extension(path: Seq<char>, fallback: Seq<char>) -> Seq<char> {
    let i = rfind(path, seq!['.']);
    if i >= 0 {
        path.skip(i + 1)
    } else {
        fallback
    }
}

/// The extension of a Telegram file path, or `fallback` when it has none
/// (see [`file_extension`]).
pub fn extension_of(path: &str, fallback: &str) -> (r: String)
    ensures
        r@ == file_extension(path@, fallback@),
{
    let v = chars_of(path);
    let dot = vec!['.'];
    proof {
        assert(v@.subrange(0, v@.len() as int) =~= path@);
        assert(dot@ =~= seq!['.']);
        lemma_rfind_bounds(path@, seq!['.']);
    }
    match rfind_in(&v, 0, v.len(), &dot) {
        Some(j) => {
            let r = string_of(&v, j + 1, v.len());
            assert(v@.subrange(j + 1, v@.len() as int) =~= path@.skip(j + 1));
            r
        },
        None => fallback.to_string(),
    }
}

/// Name of the temporary file a voice message is downloaded to.
pub fn voice_file_name(unique_id: &str, ext: &str) -> (r: String)
    ensures
        r@ == "telecode_voice_"@ + unique_id@ + "."@ + ext@,
{
    let mut r = "telecode_voice_".to_string();
    push_str(&mut r, unique_id);
    push_str(&mut r, ".");
    push_str(&mut r, ext);
    r
}

/// Name of the file a photo is saved to in the workspace (relative to it,
/// so that the engine finds it from its working directory).
pub fn photo_file_name(unique_id: &str, ext: &str) -> (r: String)
    ensures
        r@ == "_photo_"@ + unique_id@ + "."@ + ext@,
{
    let mut r = "_photo_".to_string();
    push_str(&mut r, unique_id);
    push_str(&mut r, ".");
    push_str(&mut r, ext);
    r
}

/// The transcriber's arguments: the script, then server mode with the
/// language and model architecture.
pub fn transcriber_args(script: &str, language: &str, arch: &str) -> (r: Vec<String>)
    ensures
        r@.map_values(|s: String| s@) == seq![
            script@,
            "--server"@,
            "--language"@,
            language@,
            "--arch"@,
            arch@,
        ],
{
    let mut r: Vec<String> = Vec::new();
    r.push(script.to_string());
    r.push("--server".to_string());
    r.push("--language".to_string());
    r.push(language.to_string());
    r.push("--arch".to_string());
    r.push(arch.to_string());
    assert(r@.map_values(|s: String| s@) =~= seq![
        script@,
        "--server"@,
        "--language"@,
        language@,
        "--arch"@,
        arch@,
    ]);
    r
}

/// What the transcriber's first line means: it is ready when the trimmed
/// line mentions `ready`; anything else is an unexpected start.
pub open spec fn startup_outcome(line: Seq<char>) -> Result<(), Seq<char>> {
    if find(trim(line), "ready"@) >= 0 {
        Ok(())
    } else {
        Err("sst.py unexpected startup output: "@ + trim(line))
    }
}

/// Checks the transcriber's first line (see [`startup_outcome`]).
pub fn check_startup_line(line: &str) -> (r: Result<(), String>)
    ensures
        match r {
            Ok(()) => startup_outcome(line@) is Ok,
            Err(e) => startup_outcome(line@) == Err::<(), Seq<char>>(e@),
        },
{
    let v = chars_of(line);
    let (a, b) = trim_bounds(&v, 0, v.len());
    assert(v@.subrange(0, v@.len() as int) =~= line@);
    let t = string_of(&v, a, b);
    let tv = chars_of(t.as_str());
    let pat = chars_of("ready");
    assert(tv@.subrange(0, tv@.len() as int) =~= tv@);
    if find_in(&tv, 0, tv.len(), &pat).is_some() {
        Ok(())
    } else {
        let mut e = "sst.py unexpected startup output: ".to_string();
        push_str(&mut e, t.as_str());
        Err(e)
    }
}

/// The request sent to the transcriber: the audio file's path on a line.
pub fn request_line(audio_path: &str) -> (r: String)
    ensures
        r@ == audio_path@ + "\n"@,
{
    let mut r = audio_path.to_string();
    push_str(&mut r, "\n");
    r
}

/// What a reply of the transcriber means: its error, when it reports one,
/// is a failure; otherwise its text (empty when it has none) is the
/// transcription.
pub fn transcription_outcome(text: Option<String>, error: Option<String>) -> (r: Result<
    String,
    String,
>)
    ensures
        match error {
            Some(e) => r matches Err(m) && m@ == "sst.py: "@ + e@,
            None => r matches Ok(t) && t@ == match text {
                Some(s) => s@,
                None => Seq::<char>::empty(),
            },
        },
{
    match error {
        Some(e) => {
            let mut m = "sst.py: ".to_string();
            push_str(&mut m, e.as_str());
            Err(m)
        },
        None => match text {
            Some(s) => Ok(s),
            None => Ok(String::new()),
        },
    }
}

} // verus!
