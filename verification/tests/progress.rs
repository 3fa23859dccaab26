use std::cell::RefCell;

use qonvert::progress::{
    parse, parse_key_value_pair, FFmpegProgress, FFmpegProgressError, FFmpegProgressState,
    ProgressBuffer, ProgressKey, ProgressParser,
};

fn lines_of(text: &str) -> Vec<String> {
    text.lines().map(|line| line.to_string()).collect()
}

fn snapshots_of(text: &str) -> (Vec<FFmpegProgress>, Result<(), FFmpegProgressError>) {
    let seen = RefCell::new(Vec::new());
    let result = parse(&lines_of(text), |snapshot: FFmpegProgress| {
        seen.borrow_mut().push(snapshot)
    });
    (seen.into_inner(), result)
}

fn buffer_of(pairs: &[(&str, &str)]) -> ProgressBuffer {
    let mut buffer = ProgressBuffer::new();
    for (key, value) in pairs {
        buffer.insert(key.to_string(), value.to_string());
    }
    buffer
}

fn snapshot(frame: u64, progress: FFmpegProgressState) -> FFmpegProgress {
    FFmpegProgress { frame, progress }
}

#[test]
fn synthetic_stream_gives_two_snapshots() {
    let (seen, result) = snapshots_of("frame=10\nprogress=continue\nframe=20\nprogress=end\n");
    assert_eq!(result, Ok(()));
    assert_eq!(
        seen,
        vec![
            snapshot(10, FFmpegProgressState::Continue),
            snapshot(20, FFmpegProgressState::End),
        ]
    );
}

#[test]
fn one_snapshot_for_each_progress_line() {
    let mut text = String::new();
    let mut expected = Vec::new();
    for n in 0..50u64 {
        text.push_str(&format!("frame={}\n", n * 3));
        text.push_str("fps=24.5\n");
        let last = n == 49;
        text.push_str(if last { "progress=end\n" } else { "progress=continue\n" });
        expected.push(snapshot(
            n * 3,
            if last { FFmpegProgressState::End } else { FFmpegProgressState::Continue },
        ));
    }
    let (seen, result) = snapshots_of(&text);
    assert_eq!(result, Ok(()));
    assert_eq!(seen, expected);
}

#[test]
fn the_last_frame_value_counts() {
    let (seen, result) = snapshots_of("frame=1\nframe=2\nframe=3\nprogress=continue\n");
    assert_eq!(result, Ok(()));
    assert_eq!(seen, vec![snapshot(3, FFmpegProgressState::Continue)]);
}

#[test]
fn progress_before_frame_is_a_missing_key() {
    let (seen, result) = snapshots_of("progress=continue\nframe=1\n");
    assert_eq!(result, Err(FFmpegProgressError::MissingKey(ProgressKey::Frame)));
    assert!(seen.is_empty());
}

#[test]
fn buffer_is_cleared_after_each_snapshot() {
    let (seen, result) = snapshots_of("frame=5\nprogress=continue\nprogress=end\nframe=9\n");
    assert_eq!(result, Err(FFmpegProgressError::MissingKey(ProgressKey::Frame)));
    assert_eq!(seen, vec![snapshot(5, FFmpegProgressState::Continue)]);
}

#[test]
fn nothing_is_delivered_after_an_error() {
    let (seen, result) =
        snapshots_of("frame=1\nprogress=continue\nframe=x\nprogress=continue\nframe=2\nprogress=end\n");
    assert_eq!(result, Err(FFmpegProgressError::MalformedValue(ProgressKey::Frame)));
    assert_eq!(seen, vec![snapshot(1, FFmpegProgressState::Continue)]);
}

#[test]
fn frame_that_is_no_number_is_malformed() {
    for value in ["abc", "", "-1", "1.5", "12a", "+", "18446744073709551616", "1 2"] {
        let (seen, result) = snapshots_of(&format!("frame={}\nprogress=continue\n", value));
        assert_eq!(
            result,
            Err(FFmpegProgressError::MalformedValue(ProgressKey::Frame)),
            "frame value {:?}",
            value
        );
        assert!(seen.is_empty());
    }
}

#[test]
fn unknown_phase_is_malformed() {
    for value in ["paused", "", "Continue", "END", "end.", "continueend"] {
        let (seen, result) = snapshots_of(&format!("frame=1\nprogress={}\n", value));
        assert_eq!(
            result,
            Err(FFmpegProgressError::MalformedValue(ProgressKey::Progress)),
            "progress value {:?}",
            value
        );
        assert!(seen.is_empty());
    }
}

#[test]
fn lines_without_a_key_are_passed_over() {
    let (seen, result) =
        snapshots_of("\nffmpeg version 6\nframe=4\n   \nno delimiter here\nprogress=end\n");
    assert_eq!(result, Ok(()));
    assert_eq!(seen, vec![snapshot(4, FFmpegProgressState::End)]);
}

#[test]
fn what_is_left_gathered_at_the_end_is_dropped() {
    let (seen, result) = snapshots_of("frame=1\nprogress=continue\nframe=2\nfps=3\n");
    assert_eq!(result, Ok(()));
    assert_eq!(seen, vec![snapshot(1, FFmpegProgressState::Continue)]);
    let (seen, result) = snapshots_of("");
    assert_eq!(result, Ok(()));
    assert!(seen.is_empty());
}

#[test]
fn other_keys_do_not_disturb_a_snapshot() {
    let (seen, result) = snapshots_of(
        "frame=30\nfps=29.97\nbitrate=N/A\nout_time=00:00:01.00\nspeed=1.2x\nprogress=continue\n",
    );
    assert_eq!(result, Ok(()));
    assert_eq!(seen, vec![snapshot(30, FFmpegProgressState::Continue)]);
}

#[test]
fn largest_frame_counter_is_read() {
    let (seen, result) = snapshots_of("frame=18446744073709551615\nprogress=end\n");
    assert_eq!(result, Ok(()));
    assert_eq!(seen, vec![snapshot(u64::MAX, FFmpegProgressState::End)]);
    let (seen, _) = snapshots_of("frame=+007\nprogress=end\n");
    assert_eq!(seen, vec![snapshot(7, FFmpegProgressState::End)]);
}

#[test]
fn frames_that_never_fall_give_snapshots_that_never_fall() {
    let frames = [0u64, 0, 3, 3, 10, 250, 250, 1000];
    let mut text = String::new();
    for frame in frames {
        text.push_str(&format!("frame={}\nprogress=continue\n", frame));
    }
    let (seen, result) = snapshots_of(&text);
    assert_eq!(result, Ok(()));
    assert_eq!(seen.len(), frames.len());
    for pair in seen.windows(2) {
        assert!(pair[0].frame <= pair[1].frame);
    }
}

#[test]
fn same_lines_give_same_snapshots() {
    let text = "frame=1\nprogress=continue\nframe=8\nprogress=continue\nframe=9\nprogress=end\n";
    let first = snapshots_of(text);
    let second = snapshots_of(text);
    assert_eq!(first, second);
    assert_eq!(first.0.len(), 3);
}

#[test]
fn key_and_value_are_trimmed() {
    assert_eq!(parse_key_value_pair("  frame =  12 \t"), Some(("frame", "12")));
    assert_eq!(parse_key_value_pair("a=b=c"), Some(("a", "b=c")));
    assert_eq!(parse_key_value_pair("="), Some(("", "")));
    assert_eq!(parse_key_value_pair(" = x"), Some(("", "x")));
    assert_eq!(parse_key_value_pair("k ey= v al "), Some(("k ey", "v al")));
    assert_eq!(parse_key_value_pair("no delimiter"), None);
    assert_eq!(parse_key_value_pair(""), None);
}

#[test]
fn trimming_follows_unicode_white_space() {
    assert_eq!(
        parse_key_value_pair("\u{a0}\u{3000}frame\u{2003}=\u{85}\r\n 5\u{2028}\u{205f}"),
        Some(("frame", "5"))
    );
    assert_eq!(
        parse_key_value_pair("\u{200b}frame=5\u{180e}"),
        Some(("\u{200b}frame", "5\u{180e}"))
    );
    assert_eq!(parse_key_value_pair("\u{1c}a=\u{1f}b"), Some(("\u{1c}a", "\u{1f}b")));
}

#[test]
fn phase_is_read_exactly_as_written() {
    assert_eq!(FFmpegProgressState::from_str("continue"), Ok(FFmpegProgressState::Continue));
    assert_eq!(FFmpegProgressState::from_str("end"), Ok(FFmpegProgressState::End));
    for other in ["End", "CONTINUE", "", " end", "ends", "stop"] {
        assert_eq!(
            FFmpegProgressState::from_str(other),
            Err(FFmpegProgressError::MalformedValue(ProgressKey::Progress))
        );
    }
}

#[test]
fn snapshot_from_gathered_keys() {
    let buffer = buffer_of(&[("frame", "12"), ("progress", "continue"), ("fps", "25")]);
    assert_eq!(
        FFmpegProgress::try_from_parsed_progress(&buffer),
        Ok(snapshot(12, FFmpegProgressState::Continue))
    );
}

#[test]
fn each_error_of_a_snapshot() {
    let missing_frame = buffer_of(&[("progress", "end")]);
    assert_eq!(
        FFmpegProgress::try_from_parsed_progress(&missing_frame),
        Err(FFmpegProgressError::MissingKey(ProgressKey::Frame))
    );
    let malformed_frame = buffer_of(&[("frame", "twelve"), ("progress", "end")]);
    assert_eq!(
        FFmpegProgress::try_from_parsed_progress(&malformed_frame),
        Err(FFmpegProgressError::MalformedValue(ProgressKey::Frame))
    );
    let missing_progress = buffer_of(&[("frame", "12")]);
    assert_eq!(
        FFmpegProgress::try_from_parsed_progress(&missing_progress),
        Err(FFmpegProgressError::MissingKey(ProgressKey::Progress))
    );
    let malformed_progress = buffer_of(&[("frame", "12"), ("progress", "done")]);
    assert_eq!(
        FFmpegProgress::try_from_parsed_progress(&malformed_progress),
        Err(FFmpegProgressError::MalformedValue(ProgressKey::Progress))
    );
}

#[test]
fn the_frame_counter_is_looked_at_first() {
    assert_eq!(
        FFmpegProgress::try_from_parsed_progress(&ProgressBuffer::new()),
        Err(FFmpegProgressError::MissingKey(ProgressKey::Frame))
    );
    let both_wrong = buffer_of(&[("frame", "x"), ("progress", "y")]);
    assert_eq!(
        FFmpegProgress::try_from_parsed_progress(&both_wrong),
        Err(FFmpegProgressError::MalformedValue(ProgressKey::Frame))
    );
    let frame_wrong = buffer_of(&[("frame", "x")]);
    assert_eq!(
        FFmpegProgress::try_from_parsed_progress(&frame_wrong),
        Err(FFmpegProgressError::MalformedValue(ProgressKey::Frame))
    );
}

#[test]
fn buffer_keeps_the_last_value() {
    let mut buffer = ProgressBuffer::new();
    buffer.insert("frame".to_string(), "1".to_string());
    buffer.insert("fps".to_string(), "25".to_string());
    buffer.insert("frame".to_string(), "2".to_string());
    buffer.insert("".to_string(), "empty key".to_string());
    assert_eq!(buffer.get("frame").map(|v| v.as_str()), Some("2"));
    assert_eq!(buffer.get("fps").map(|v| v.as_str()), Some("25"));
    assert_eq!(buffer.get("").map(|v| v.as_str()), Some("empty key"));
    assert_eq!(buffer.get("progress"), None);
    assert_eq!(buffer.get("Frame"), None);
    buffer.clear();
    assert_eq!(buffer.get("frame"), None);
    assert_eq!(buffer.get("fps"), None);
}

#[test]
fn parser_emits_on_progress_only() {
    let mut parser = ProgressParser::new();
    assert_eq!(parser.push_line("frame=7"), Ok(None));
    assert_eq!(parser.push_line(""), Ok(None));
    assert_eq!(parser.push_line("speed=2x"), Ok(None));
    assert_eq!(
        parser.push_line("progress=end"),
        Ok(Some(snapshot(7, FFmpegProgressState::End)))
    );
    assert_eq!(
        parser.push_line(" progress = continue "),
        Err(FFmpegProgressError::MissingKey(ProgressKey::Frame))
    );
}

#[test]
fn messages_of_the_errors() {
    assert_eq!(
        FFmpegProgressError::MissingKey(ProgressKey::Frame).message(),
        "Could not parse key 'frame' from FFprobe progress logs"
    );
    assert_eq!(
        FFmpegProgressError::MissingKey(ProgressKey::Progress).message(),
        "Could not parse key 'progress' from FFprobe progress logs"
    );
    assert_eq!(
        FFmpegProgressError::MalformedValue(ProgressKey::Frame).message(),
        "Could not parse the value of key 'frame' from FFprobe progress logs"
    );
    assert_eq!(
        FFmpegProgressError::MalformedValue(ProgressKey::Progress).message(),
        "Could not parse the value of key 'progress' from FFprobe progress logs"
    );
    assert_eq!(ProgressKey::Frame.name(), "frame");
    assert_eq!(ProgressKey::Progress.name(), "progress");
}
