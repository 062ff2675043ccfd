use nitro_agent::telecode::voice::{
    check_startup_line, extension_of, photo_file_name, request_line, transcriber_args,
    transcription_outcome, voice_file_name,
};

#[test]
fn file_extensions() {
    assert_eq!(extension_of("voice/file_12.oga", "ogg"), "oga");
    assert_eq!(extension_of("a.b.c", "jpg"), "c");
    assert_eq!(extension_of("noext", "jpg"), "jpg");
    assert_eq!(extension_of("noext", "ogg"), "ogg");
    assert_eq!(extension_of("trailing.", "jpg"), "");
    assert_eq!(extension_of("", "jpg"), "jpg");
}

#[test]
fn download_names() {
    assert_eq!(voice_file_name("AQAD", "oga"), "telecode_voice_AQAD.oga");
    assert_eq!(photo_file_name("AgAC", "jpg"), "_photo_AgAC.jpg");
    assert_eq!(request_line("/tmp/a.oga"), "/tmp/a.oga\n");
}

#[test]
fn transcriber_command_line() {
    assert_eq!(
        transcriber_args("sst.py", "es", "base"),
        vec!["sst.py", "--server", "--language", "es", "--arch", "base"]
    );
}

#[test]
fn startup_handshake() {
    assert_eq!(check_startup_line("  ready \n"), Ok(()));
    assert_eq!(check_startup_line("{\"status\": \"ready\"}"), Ok(()));
    assert_eq!(
        check_startup_line(" model loading \n"),
        Err("sst.py unexpected startup output: model loading".to_string())
    );
}

#[test]
fn transcription_replies() {
    assert_eq!(transcription_outcome(Some("hi".to_string()), None), Ok("hi".to_string()));
    assert_eq!(transcription_outcome(None, None), Ok(String::new()));
    assert_eq!(
        transcription_outcome(Some("x".to_string()), Some("bad audio".to_string())),
        Err("sst.py: bad audio".to_string())
    );
}
