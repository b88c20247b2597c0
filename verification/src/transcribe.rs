//! Verified transcription logic: the command line the transcriber script is
//! run with, and the classification of its exit status and output into a
//! transcription or one of a small set of friendly error messages.

use crate::text::contains_spec;
use crate::text::dec_spec;
use crate::text::str_contains;
use crate::text::trim;
use crate::text::trim_spec;
use crate::text::u32_to_dec;
use vstd::prelude::*;
use vstd::string::StrSliceExecFns;
use vstd::string::StringExecFns;

verus! {

/// How long a recording runs when no duration is given.
pub const DEFAULT_RECORD_SECONDS: u32 = 10;

/// Handle under which a recording is started; the capture itself is done
/// by the transcriber script.
pub struct VoiceRecorder {}

impl VoiceRecorder {
    /// Creating a recorder always succeeds; it holds no resources.
    pub fn new() -> (r: Result<VoiceRecorder, TranscribeError>)
        ensures
            r is Ok,
    {
        Ok(VoiceRecorder {  })
    }
}

/// Why a recording produced no transcription.
#[derive(Debug)]
pub enum TranscribeError {
    /// The script was denied access to the microphone.
    MicrophonePermission,
    /// The interpreter lacks the packages the script imports.
    MissingDependencies,
    /// The transcriber script was not found where the script runs.
    ScriptMissing,
    /// The script failed some other way; holds its error output.
    ScriptFailed(String),
    /// No interpreter could be started at all.
    InterpreterMissing,
    /// The interpreter could not be run for another reason; holds the
    /// operating system's description.
    LaunchFailed(String),
}

impl TranscribeError {
    /// The message shown for this error.
    pub open spec fn message_spec(&self) -> Seq<char> {
        match self {
            TranscribeError::MicrophonePermission =>
                "Microphone permission denied. Please allow microphone access in your system settings and try again."@,
            TranscribeError::MissingDependencies =>
                "Missing Python dependencies. Please install required packages: pip install sounddevice openai-whisper numpy"@,
            TranscribeError::ScriptMissing =>
                "Voice recording script not found. Please ensure the backend directory is properly set up."@,
            TranscribeError::ScriptFailed(e) => "Voice recording failed: "@ + e@,
            TranscribeError::InterpreterMissing =>
                "Python not found. Please ensure Python is installed and available in your PATH."@,
            TranscribeError::LaunchFailed(e) => "Failed to run voice recorder: "@ + e@,
        }
    }

    /// Renders the message shown for this error.
    pub fn message(&self) -> (r: String)
        ensures
            r@ == self.message_spec(),
    {
        match self {
            TranscribeError::MicrophonePermission => String::from_str(
                "Microphone permission denied. Please allow microphone access in your system settings and try again.",
            ),
            TranscribeError::MissingDependencies => String::from_str(
                "Missing Python dependencies. Please install required packages: pip install sounddevice openai-whisper numpy",
            ),
            TranscribeError::ScriptMissing => String::from_str(
                "Voice recording script not found. Please ensure the backend directory is properly set up.",
            ),
            TranscribeError::ScriptFailed(e) => String::from_str(
                "Voice recording failed: ",
            ).concat(e.as_str()),
            TranscribeError::InterpreterMissing => String::from_str(
                "Python not found. Please ensure Python is installed and available in your PATH.",
            ),
            TranscribeError::LaunchFailed(e) => String::from_str(
                "Failed to run voice recorder: ",
            ).concat(e.as_str()),
        }
    }
}

/// The arguments the transcriber script is run with: record for the given
/// number of seconds with the base model.
pub open spec fn transcriber_args_spec(duration: nat) -> Seq<Seq<char>> {
    seq!["voice_recorder.py"@, "--duration"@, dec_spec(duration), "--model"@, "base"@]
}

/// Builds the transcriber script's command-line arguments.
pub fn transcriber_args(duration_seconds: u32) -> (r: Vec<String>)
    ensures
        r.deep_view() == transcriber_args_spec(duration_seconds as nat),
{
    let mut r: Vec<String> = Vec::new();
    r.push(String::from_str("voice_recorder.py"));
    r.push(String::from_str("--duration"));
    r.push(u32_to_dec(duration_seconds));
    r.push(String::from_str("--model"));
    r.push(String::from_str("base"));
    proof {
        assert(r.deep_view() =~= transcriber_args_spec(duration_seconds as nat));
    }
    r
}

/// The message returned when the script ran but heard nothing.
pub open spec fn no_speech_message() -> Seq<char> {
    "No speech detected. Please try speaking louder or closer to the microphone."@
}

/// What a successful run transcribes to: the trimmed standard output,
/// unless it is empty or itself reports that no speech was detected.
pub open spec fn transcription_of(stdout: Seq<char>) -> Seq<char> {
    let t = trim_spec(stdout);
    if t.len() > 0 && !contains_spec(t, "No speech detected"@) {
        t
    } else {
        no_speech_message()
    }
}

/// The error output reports a microphone or permission problem.
pub open spec fn reports_permission(stderr: Seq<char>) -> bool {
    contains_spec(stderr, "Permission denied"@) || contains_spec(stderr, "microphone"@)
}

/// The error output reports a missing module.
pub open spec fn reports_missing_module(stderr: Seq<char>) -> bool {
    contains_spec(stderr, "No module named"@)
}

/// The error output reports a missing file.
pub open spec fn reports_missing_file(stderr: Seq<char>) -> bool {
    contains_spec(stderr, "No such file or directory"@)
}

/// Classifies what a finished run of the transcriber script produced.
///
/// A successful exit yields the transcription of its standard output.  A
/// failed exit yields the error matching the first recognised pattern in
/// its error output, or the error output itself when none matches.
pub fn classify_run(success: bool, stdout: &str, stderr: &str) -> (r: Result<
    String,
    TranscribeError,
>)
    ensures
        success ==> (r matches Ok(s) && s@ == transcription_of(stdout@)),
        !success && reports_permission(stderr@) ==> r == Result::<String, TranscribeError>::Err(
            TranscribeError::MicrophonePermission,
        ),
        !success && !reports_permission(stderr@) && reports_missing_module(stderr@) ==> r
            == Result::<String, TranscribeError>::Err(TranscribeError::MissingDependencies),
        !success && !reports_permission(stderr@) && !reports_missing_module(stderr@)
            && reports_missing_file(stderr@) ==> r == Result::<String, TranscribeError>::Err(
            TranscribeError::ScriptMissing,
        ),
        !success && !reports_permission(stderr@) && !reports_missing_module(stderr@)
            && !reports_missing_file(stderr@) ==> (r matches Err(TranscribeError::ScriptFailed(e))
            && e@ == stderr@),
{
    if success {
        let t = trim(stdout);
        let nonempty = t.unicode_len() > 0;
        let no_speech = str_contains(t, "No speech detected");
        if nonempty && !no_speech {
            Ok(String::from_str(t))
        } else {
            Ok(String::from_str(
                "No speech detected. Please try speaking louder or closer to the microphone.",
            ))
        }
    } else {
        let permission = str_contains(stderr, "Permission denied") || str_contains(
            stderr,
            "microphone",
        );
        if permission {
            Err(TranscribeError::MicrophonePermission)
        } else if str_contains(stderr, "No module named") {
            Err(TranscribeError::MissingDependencies)
        } else if str_contains(stderr, "No such file or directory") {
            Err(TranscribeError::ScriptMissing)
        } else {
            Err(TranscribeError::ScriptFailed(String::from_str(stderr)))
        }
    }
}

/// Classifies a failure to run the interpreter at all: a not-found error
/// means no interpreter is installed; anything else keeps the operating
/// system's description.
pub fn classify_launch_failure(not_found: bool, detail: &str) -> (r: TranscribeError)
    ensures
        not_found ==> r == TranscribeError::InterpreterMissing,
        !not_found ==> (r matches TranscribeError::LaunchFailed(e) && e@ == detail@),
{
    if not_found {
        TranscribeError::InterpreterMissing
    } else {
        TranscribeError::LaunchFailed(String::from_str(detail))
    }
}

} // verus!
