//! Supervision of an external transcoding tool: how the tool is started,
//! how its progress stream is read, and what its exit and its diagnostic
//! output say about the conversion.

pub mod batch;
pub mod path;
pub mod progress;
pub mod progress_laws;
pub mod text;

use vstd::prelude::*;
use vstd::string::*;
use crate::progress::{parse, parse_trace, FFmpegProgressError, FFmpegProgressUpdate};
use vstd::utf8::{decode_utf8, encode_utf8_decode_utf8, valid_utf8};
use crate::text::{decimal_u64, parse_u64, push_text, texts_of, trimmed};

verus! {

/// What becomes of one of the standard streams of a started process.
#[derive(Debug, Clone, Copy, PartialEq, Eq, Structural)]
pub enum StreamMode {
    /// The stream is closed at once: the process cannot wait on it.
    Closed,
    /// The stream is piped and read in full.
    Captured,
}

/// A process to start: the program, its arguments in order, and its three
/// standard streams.
#[derive(Debug, Clone, PartialEq, Eq)]
pub struct CommandLine {
    pub program: String,
    pub arguments: Vec<String>,
    pub stdin: StreamMode,
    pub stdout: StreamMode,
    pub stderr: StreamMode,
}

/// The arguments that ask for a container tag beside a codec: the tag
/// `hvc1` for the two H.265 encoders, none for any other codec.
pub open spec fn container_tag_arguments(codec: Seq<char>) -> Seq<Seq<char>> {
    if codec == "libx265"@ || codec == "hevc_videotoolbox"@ {
        seq!["-tag:v"@, "hvc1"@]
    } else {
        seq![]
    }
}

/// The arguments that select a video codec, where one is given.
pub open spec fn codec_arguments(codec: Option<Seq<char>>) -> Seq<Seq<char>> {
    match codec {
        Some(codec) => seq!["-c:v"@, codec] + container_tag_arguments(codec),
        None => seq![],
    }
}

/// The arguments of one conversion: progress to standard output, the
/// output file overwritten, the input, the codec if one is given, and the
/// settings that every conversion has, with the output last.
pub open spec fn ffmpeg_arguments(
    input: Seq<char>,
    output: Seq<char>,
    codec: Option<Seq<char>>,
) -> Seq<Seq<char>> {
    seq!["-progress"@, "pipe:1"@, "-y"@, "-i"@, input] + codec_arguments(codec) + seq![
        "-movflags"@,
        "faststart"@,
        "-pix_fmt"@,
        "yuv420p"@,
        "-vf"@,
        "crop=trunc(iw/2)*2:trunc(ih/2)*2"@,
        output,
    ]
}

/// The command that converts `input` into `output`. Its standard input is
/// closed, and its progress and its diagnostics are captured.
pub fn ffmpeg_command(input: &str, output: &str, codec: Option<&str>) -> (r: CommandLine)
    ensures
        r.program@ == "ffmpeg"@,
        texts_of(r.arguments@) == ffmpeg_arguments(
            input@,
            output@,
            match codec {
                Some(codec) => Some(codec@),
                None => None,
            },
        ),
        r.stdin == StreamMode::Closed,
        r.stdout == StreamMode::Captured,
        r.stderr == StreamMode::Captured,
{
    let mut arguments: Vec<String> = Vec::new();
    assert(texts_of(arguments@) =~= Seq::<Seq<char>>::empty());
    push_text(&mut arguments, "-progress");
    push_text(&mut arguments, "pipe:1");
    push_text(&mut arguments, "-y");
    push_text(&mut arguments, "-i");
    push_text(&mut arguments, input);
    let ghost head = texts_of(arguments@);
    let ghost chosen = Seq::<Seq<char>>::empty();
    if let Some(codec) = codec {
        push_text(&mut arguments, "-c:v");
        push_text(&mut arguments, codec);
        if codec.eq("libx265") || codec.eq("hevc_videotoolbox") {
            push_text(&mut arguments, "-tag:v");
            push_text(&mut arguments, "hvc1");
        }
        proof {
            chosen = codec_arguments(Some(codec@));
        }
    }
    assert(texts_of(arguments@) =~= head + chosen);
    push_text(&mut arguments, "-movflags");
    push_text(&mut arguments, "faststart");
    push_text(&mut arguments, "-pix_fmt");
    push_text(&mut arguments, "yuv420p");
    push_text(&mut arguments, "-vf");
    push_text(&mut arguments, "crop=trunc(iw/2)*2:trunc(ih/2)*2");
    push_text(&mut arguments, output);
    assert(texts_of(arguments@) =~= ffmpeg_arguments(
        input@,
        output@,
        match codec {
            Some(codec) => Some(codec@),
            None => None,
        },
    ));
    CommandLine {
        program: "ffmpeg".to_owned(),
        arguments,
        stdin: StreamMode::Closed,
        stdout: StreamMode::Captured,
        stderr: StreamMode::Captured,
    }
}

/// How a process ended: its exit code, where it has one (a process that a
/// signal ended has none), and the words that describe its end.
#[derive(Debug, Clone, PartialEq, Eq)]
pub struct ProcessStatus {
    pub code: Option<i32>,
    pub description: String,
}

impl ProcessStatus {
    /// Whether the process ended by itself with the exit code 0.
    pub open spec fn succeeded(&self) -> bool {
        self.code == Some(0i32)
    }

    /// Whether the process ended by itself with the exit code 0.
    pub fn success(&self) -> (r: bool)
        ensures
            r == self.succeeded(),
    {
        match self.code {
            Some(code) => code == 0,
            None => false,
        }
    }

    /// A copy of the status.
    pub fn duplicate(&self) -> (r: ProcessStatus)
        ensures
            r == *self,
    {
        ProcessStatus { code: self.code, description: self.description.clone() }
    }
}

/// A conversion whose process did not end well: how it ended, and all that
/// it wrote to its diagnostic stream.
#[derive(Debug, Clone, PartialEq, Eq)]
pub struct FFmpegError {
    pub status: ProcessStatus,
    pub stderr: String,
}

impl FFmpegError {
    /// The text of the message that describes the failure.
    pub open spec fn message_text(&self) -> Seq<char> {
        "FFmpeg execution failed with status "@ + self.status.description@ + ":\n"@
            + self.stderr@
    }

    /// A message that describes the failure.
    pub fn message(&self) -> (r: String)
        ensures
            r@ == self.message_text(),
    {
        let mut text = String::from_str("FFmpeg execution failed with status ");
        text.append(self.status.description.as_str());
        text.append(":\n");
        text.append(self.stderr.as_str());
        text
    }
}

/// Why a conversion did not succeed.
#[derive(Debug, Clone, PartialEq, Eq)]
pub enum EncodingError {
    /// The progress stream broke the protocol.
    Protocol(FFmpegProgressError),
    /// The process did not end well.
    Process(FFmpegError),
}

/// All that one process left behind: the lines of its progress stream, the
/// lines of its diagnostic stream, and how it ended.
#[derive(Debug, Clone, PartialEq, Eq)]
pub struct ProcessOutput {
    pub stdout_lines: Vec<String>,
    pub stderr_lines: Vec<String>,
    pub status: ProcessStatus,
}

/// The text that a stream held, from its lines: each line with a line
/// break after it.
pub open spec fn captured_text(lines: Seq<Seq<char>>) -> Seq<char>
    decreases lines.len(),
{
    if lines.len() == 0 {
        Seq::empty()
    } else {
        captured_text(lines.drop_last()) + lines.last() + seq!['\n']
    }
}

/// The text without the line break at its end, where it ends in one.
pub open spec fn without_final_line_break(text: Seq<char>) -> Seq<char> {
    if text.len() > 0 && text.last() == '\n' {
        text.drop_last()
    } else {
        text
    }
}

/// The diagnostic text of a process: all that its diagnostic stream held,
/// without the line break at the end.
pub open spec fn diagnostic_text_of(lines: Seq<Seq<char>>) -> Seq<char> {
    without_final_line_break(captured_text(lines))
}

/// Puts the lines of a diagnostic stream together into the diagnostic text.
pub fn diagnostic_text(stderr_lines: &Vec<String>) -> (r: String)
    ensures
        r@ == diagnostic_text_of(texts_of(stderr_lines@)),
{
    let ghost lines = texts_of(stderr_lines@);
    let mut text = String::new();
    let mut i: usize = 0;
    proof {
        reveal_strlit("\n");
        assert("\n"@ =~= seq!['\n']);
        assert(lines.take(0) =~= Seq::<Seq<char>>::empty());
    }
    while i < stderr_lines.len()
        invariant
            i <= stderr_lines.len(),
            lines == texts_of(stderr_lines@),
            "\n"@ == seq!['\n'],
            i == 0 ==> text@ == Seq::<char>::empty(),
            i > 0 ==> text@ + seq!['\n'] == captured_text(lines.take(i as int)),
        decreases stderr_lines.len() - i,
    {
        let ghost before = text@;
        if i > 0 {
            text.append("\n");
        }
        text.append(stderr_lines[i].as_str());
        proof {
            let longer = lines.take(i + 1);
            assert(longer.drop_last() =~= lines.take(i as int));
            assert(longer.last() == stderr_lines@[i as int]@);
            if i == 0 {
                assert(captured_text(lines.take(0)) =~= Seq::<char>::empty());
                assert(text@ + seq!['\n'] =~= captured_text(longer));
            } else {
                assert(text@ + seq!['\n'] =~= captured_text(longer));
            }
        }
        i += 1;
    }
    proof {
        assert(lines.take(i as int) =~= lines);
        if i > 0 {
            assert((text@ + seq!['\n']).drop_last() =~= text@);
        }
    }
    text
}

/// What the end of a process says about its conversion: success where the
/// process succeeded, else the failure with the diagnostic text.
pub fn finish_encoding(status: &ProcessStatus, stderr_lines: &Vec<String>) -> (r: Result<
    (),
    FFmpegError,
>)
    ensures
        match r {
            Ok(_) => status.succeeded(),
            Err(error) => {
                &&& !status.succeeded()
                &&& error.status == *status
                &&& error.stderr@ == diagnostic_text_of(texts_of(stderr_lines@))
            },
        },
{
    if status.success() {
        Ok(())
    } else {
        Err(FFmpegError { status: status.duplicate(), stderr: diagnostic_text(stderr_lines) })
    }
}

/// Resolves one conversion from what its process left behind. The lines of
/// the progress stream are decoded in order and each snapshot goes to the
/// observer. An error in the progress stream ends the conversion with that
/// error, whatever the process did after it. Else the end of the process
/// decides.
pub fn execute_ffmpeg_encoding<F: FFmpegProgressUpdate>(
    run: &ProcessOutput,
    on_progress_update: F,
) -> (r: Result<(), EncodingError>)
    requires
        forall|i: int|
            0 <= i < parse_trace(texts_of(run.stdout_lines@)).snapshots.len() ==> call_requires(
                on_progress_update,
                (#[trigger] parse_trace(texts_of(run.stdout_lines@)).snapshots[i],),
            ),
    ensures
        match parse_trace(texts_of(run.stdout_lines@)).error {
            Some(error) => r == Err::<(), EncodingError>(EncodingError::Protocol(error)),
            None => match r {
                Ok(_) => run.status.succeeded(),
                Err(EncodingError::Process(error)) => {
                    &&& !run.status.succeeded()
                    &&& error.status == run.status
                    &&& error.stderr@ == diagnostic_text_of(texts_of(run.stderr_lines@))
                },
                Err(EncodingError::Protocol(_)) => false,
            },
        },
        forall|i: int|
            0 <= i < parse_trace(texts_of(run.stdout_lines@)).snapshots.len() ==> call_ensures(
                on_progress_update,
                (#[trigger] parse_trace(texts_of(run.stdout_lines@)).snapshots[i],),
                (),
            ),
{
    match parse(&run.stdout_lines, on_progress_update) {
        Err(error) => Err(EncodingError::Protocol(error)),
        Ok(_) => match finish_encoding(&run.status, &run.stderr_lines) {
            Ok(_) => Ok(()),
            Err(error) => Err(EncodingError::Process(error)),
        },
    }
}

/// The arguments that make the counting tool print the number of video
/// packets of `input`, and nothing else.
pub open spec fn ffprobe_arguments(input: Seq<char>) -> Seq<Seq<char>> {
    seq![
        "-v"@,
        "error"@,
        "-select_streams"@,
        "v:0"@,
        "-count_packets"@,
        "-show_entries"@,
        "stream=nb_read_packets"@,
        "-of"@,
        "csv=p=0"@,
        input,
    ]
}

/// The command that counts the frames of `input`. Its standard input is
/// closed, and what it prints is captured.
pub fn ffprobe_command(input: &str) -> (r: CommandLine)
    ensures
        r.program@ == "ffprobe"@,
        texts_of(r.arguments@) == ffprobe_arguments(input@),
        r.stdin == StreamMode::Closed,
        r.stdout == StreamMode::Captured,
        r.stderr == StreamMode::Captured,
{
    let mut arguments: Vec<String> = Vec::new();
    assert(texts_of(arguments@) =~= Seq::<Seq<char>>::empty());
    push_text(&mut arguments, "-v");
    push_text(&mut arguments, "error");
    push_text(&mut arguments, "-select_streams");
    push_text(&mut arguments, "v:0");
    push_text(&mut arguments, "-count_packets");
    push_text(&mut arguments, "-show_entries");
    push_text(&mut arguments, "stream=nb_read_packets");
    push_text(&mut arguments, "-of");
    push_text(&mut arguments, "csv=p=0");
    push_text(&mut arguments, input);
    CommandLine {
        program: "ffprobe".to_owned(),
        arguments,
        stdin: StreamMode::Closed,
        stdout: StreamMode::Captured,
        stderr: StreamMode::Captured,
    }
}

/// Why what the counting tool printed gives no frame count.
#[derive(Debug, Clone, Copy, PartialEq, Eq, Structural)]
pub enum FrameCountError {
    /// The bytes are not text.
    InvalidText,
    /// The text, without the whitespace around it, is not a number.
    NotANumber,
}

/// The frame count that the printed bytes give: they are UTF-8, and the
/// text without the whitespace around it is a number in decimal.
pub open spec fn frame_count_of(printed: Seq<u8>) -> Result<u64, FrameCountError> {
    if !valid_utf8(printed) {
        Err(FrameCountError::InvalidText)
    } else {
        match decimal_u64(trimmed(decode_utf8(printed))) {
            Some(count) => Ok(count),
            None => Err(FrameCountError::NotANumber),
        }
    }
}

/// The frame count of a file, from what the counting tool printed for it.
pub fn get_frame_count_from_file_path(printed: &[u8]) -> (r: Result<u64, FrameCountError>)
    ensures
        r == frame_count_of(printed@),
{
    match std::str::from_utf8(printed) {
        Err(_) => Err(FrameCountError::InvalidText),
        Ok(text) => {
            proof {
                encode_utf8_decode_utf8(text@);
            }
            match parse_u64(text.trim()) {
                Some(count) => Ok(count),
                None => Err(FrameCountError::NotANumber),
            }
        },
    }
}

/// The codec of a conversion: the one that was asked for, else the one that
/// the type of the output file has by default, `libx265` for `mp4`, else
/// none, which leaves the choice to the tool.
pub open spec fn selected_codec(requested: Option<Seq<char>>, output_file_type: Seq<char>)
    -> Option<Seq<char>> {
    match requested {
        Some(codec) => Some(codec),
        None => if output_file_type == "mp4"@ {
            Some("libx265"@)
        } else {
            None
        },
    }
}

/// Chooses the codec of a conversion.
pub fn select_codec(requested: Option<String>, output_file_type: &str) -> (r: Option<String>)
    ensures
        match r {
            Some(codec) => selected_codec(
                match requested {
                    Some(codec) => Some(codec@),
                    None => None,
                },
                output_file_type@,
            ) == Some(codec@),
            None => selected_codec(
                match requested {
                    Some(codec) => Some(codec@),
                    None => None,
                },
                output_file_type@,
            ) is None,
        },
{
    match requested {
        Some(codec) => Some(codec),
        None => if output_file_type.eq("mp4") {
            Some("libx265".to_owned())
        } else {
            None
        },
    }
}

} // verus!
