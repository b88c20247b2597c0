use voice_shell::transcribe::classify_launch_failure;
use voice_shell::transcribe::classify_run;
use voice_shell::transcribe::transcriber_args;
use voice_shell::transcribe::TranscribeError;
use voice_shell::transcribe::VoiceRecorder;
use voice_shell::transcribe::DEFAULT_RECORD_SECONDS;

fn strings(items: &[&str]) -> Vec<String> {
    items.iter().map(|s| s.to_string()).collect()
}

const NO_SPEECH: &str =
    "No speech detected. Please try speaking louder or closer to the microphone.";

#[test]
fn recorder_creation_succeeds() {
    assert!(VoiceRecorder::new().is_ok());
}

#[test]
fn default_duration() {
    assert_eq!(DEFAULT_RECORD_SECONDS, 10);
}

#[test]
fn transcriber_arg_list() {
    assert_eq!(
        transcriber_args(10),
        strings(&["voice_recorder.py", "--duration", "10", "--model", "base"])
    );
    assert_eq!(
        transcriber_args(7),
        strings(&["voice_recorder.py", "--duration", "7", "--model", "base"])
    );
}

#[test]
fn success_returns_trimmed_output() {
    let r = classify_run(true, " hello world \n", "some logging");
    assert_eq!(r.unwrap(), "hello world");
}

#[test]
fn success_with_blank_output_reports_no_speech() {
    let r = classify_run(true, "   \n", "");
    assert_eq!(r.unwrap(), NO_SPEECH);
}

#[test]
fn success_trims_unicode_whitespace() {
    let r = classify_run(true, "\u{a0}a", "");
    assert_eq!(r.unwrap(), "a");
}

#[test]
fn success_with_unicode_blank_output_reports_no_speech() {
    let r = classify_run(true, "\u{a0}", "");
    assert_eq!(r.unwrap(), NO_SPEECH);
}

#[test]
fn success_with_no_speech_marker_reports_no_speech() {
    let r = classify_run(true, "No speech detected", "");
    assert_eq!(r.unwrap(), NO_SPEECH);
    let r = classify_run(true, "well No speech detected here", "");
    assert_eq!(r.unwrap(), NO_SPEECH);
}

#[test]
fn failure_permission_denied() {
    let r = classify_run(false, "", "error: Permission denied while opening device");
    assert!(matches!(r, Err(TranscribeError::MicrophonePermission)));
}

#[test]
fn failure_microphone_mentioned() {
    let r = classify_run(false, "", "could not open microphone stream");
    assert!(matches!(r, Err(TranscribeError::MicrophonePermission)));
}

#[test]
fn failure_permission_takes_precedence() {
    let r = classify_run(false, "", "Permission denied: No module named sounddevice");
    assert!(matches!(r, Err(TranscribeError::MicrophonePermission)));
}

#[test]
fn failure_missing_module() {
    let r = classify_run(false, "", "ModuleNotFoundError: No module named 'whisper'");
    assert!(matches!(r, Err(TranscribeError::MissingDependencies)));
}

#[test]
fn failure_missing_file() {
    let r = classify_run(false, "", "python: can't open file: No such file or directory");
    assert!(matches!(r, Err(TranscribeError::ScriptMissing)));
}

#[test]
fn failure_unrecognised_keeps_stderr() {
    let r = classify_run(false, "ignored", "boom");
    match r {
        Err(TranscribeError::ScriptFailed(e)) => assert_eq!(e, "boom"),
        other => panic!("unexpected outcome: {:?}", other.is_ok()),
    }
}

#[test]
fn launch_failure_not_found() {
    let e = classify_launch_failure(true, "No such file or directory (os error 2)");
    assert!(matches!(e, TranscribeError::InterpreterMissing));
}

#[test]
fn launch_failure_other() {
    let e = classify_launch_failure(false, "resource exhausted");
    match e {
        TranscribeError::LaunchFailed(m) => assert_eq!(m, "resource exhausted"),
        _ => panic!("expected the launch failure to keep its detail"),
    }
}

#[test]
fn error_messages() {
    assert_eq!(
        TranscribeError::MicrophonePermission.message(),
        "Microphone permission denied. Please allow microphone access in your system settings and try again."
    );
    assert_eq!(
        TranscribeError::MissingDependencies.message(),
        "Missing Python dependencies. Please install required packages: pip install sounddevice openai-whisper numpy"
    );
    assert_eq!(
        TranscribeError::ScriptMissing.message(),
        "Voice recording script not found. Please ensure the backend directory is properly set up."
    );
    assert_eq!(
        TranscribeError::ScriptFailed("boom".to_string()).message(),
        "Voice recording failed: boom"
    );
    assert_eq!(
        TranscribeError::InterpreterMissing.message(),
        "Python not found. Please ensure Python is installed and available in your PATH."
    );
    assert_eq!(
        TranscribeError::LaunchFailed("spawn error".to_string()).message(),
        "Failed to run voice recorder: spawn error"
    );
}
