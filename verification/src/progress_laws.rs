//! What holds of every progress stream: which snapshots a parser emits,
//! when it reports a missing key, and that frame counters never go back.

use vstd::prelude::*;
use crate::progress::{
    key_value_of, line_effect, parse_trace, FFmpegProgress, FFmpegProgressError,
    FFmpegProgressState, ProgressKey,
};
use crate::text::{
    all_digits, decimal_u64, digits_value, is_digit, is_whitespace, lemma_first_index_of_parts,
    texts_of, trimmed, unsigned_part,
};

verus! {

/// The key of a line, where it has one.
pub open spec fn key_of(line: Seq<char>) -> Option<Seq<char>> {
    match key_value_of(line) {
        Some((key, _)) => Some(key),
        None => None,
    }
}

/// The frame counter that a line writes: the line has the key `frame` and
/// its value is a number.
pub open spec fn frame_written(line: Seq<char>) -> Option<u64> {
    match key_value_of(line) {
        Some((key, value)) => if key == ProgressKey::Frame.text() {
            decimal_u64(value)
        } else {
            None
        },
        None => None,
    }
}

/// The phase that a line announces: the line has the key `progress` and its
/// value names a phase.
pub open spec fn phase_announced(line: Seq<char>) -> Option<FFmpegProgressState> {
    match key_value_of(line) {
        Some((key, value)) => if key == ProgressKey::Progress.text() {
            FFmpegProgressState::of_text(value)
        } else {
            None
        },
        None => None,
    }
}

/// The value of the key `frame` that is waiting for the next snapshot: that
/// of the last line with the key `frame` after the last line with the key
/// `progress`.
pub open spec fn pending_frame(lines: Seq<Seq<char>>) -> Option<Seq<char>>
    decreases lines.len(),
{
    if lines.len() == 0 {
        None
    } else {
        match key_value_of(lines.last()) {
            Some((key, value)) => if key == ProgressKey::Progress.text() {
                None
            } else if key == ProgressKey::Frame.text() {
                Some(value)
            } else {
                pending_frame(lines.drop_last())
            },
            None => pending_frame(lines.drop_last()),
        }
    }
}

/// How many of the lines have the key `progress`.
pub open spec fn progress_lines(lines: Seq<Seq<char>>) -> nat
    decreases lines.len(),
{
    if lines.len() == 0 {
        0
    } else if key_of(lines.last()) == Some(ProgressKey::Progress.text()) {
        progress_lines(lines.drop_last()) + 1
    } else {
        progress_lines(lines.drop_last())
    }
}

/// The two required keys are written differently.
pub proof fn lemma_keys_differ()
    ensures
        ProgressKey::Frame.text() != ProgressKey::Progress.text(),
{
    reveal_strlit("frame");
    reveal_strlit("progress");
    assert("frame"@.len() == 5);
    assert("progress"@.len() == 8);
}

/// While a parser has met no error, it holds a value for the key `frame`
/// exactly when one is waiting, and it is that value.
pub proof fn lemma_buffer_holds_pending_frame(lines: Seq<Seq<char>>)
    requires
        parse_trace(lines).error is None,
    ensures
        parse_trace(lines).buffer.contains_key(ProgressKey::Frame.text()) <==> pending_frame(
            lines,
        ) is Some,
        pending_frame(lines) is Some ==> parse_trace(lines).buffer[ProgressKey::Frame.text()]
            == pending_frame(lines).unwrap(),
    decreases lines.len(),
{
    lemma_keys_differ();
    if lines.len() > 0 {
        let before = parse_trace(lines.drop_last());
        assert(before.error is None);
        lemma_buffer_holds_pending_frame(lines.drop_last());
    }
}

/// A line with the key `progress` that finds a frame counter waiting makes
/// one snapshot: the counter is the number that was written last for the
/// key `frame`, and the phase is the one that the line names.
pub proof fn lemma_progress_line_emits(
    lines: Seq<Seq<char>>,
    line: Seq<char>,
    frame: u64,
    phase: FFmpegProgressState,
)
    requires
        parse_trace(lines).error is None,
        pending_frame(lines) is Some,
        decimal_u64(pending_frame(lines).unwrap()) == Some(frame),
        phase_announced(line) == Some(phase),
    ensures
        parse_trace(lines.push(line)).error is None,
        parse_trace(lines.push(line)).snapshots == parse_trace(lines).snapshots.push(
            FFmpegProgress { frame, progress: phase },
        ),
        parse_trace(lines.push(line)).buffer == Map::<Seq<char>, Seq<char>>::empty(),
{
    lemma_keys_differ();
    lemma_buffer_holds_pending_frame(lines);
    assert(lines.push(line).drop_last() =~= lines);
    assert(lines.push(line).last() == line);
}

/// A line with the key `progress` that finds no frame counter waiting
/// stops the parser with a missing key, and makes no snapshot.
pub proof fn lemma_progress_before_frame(lines: Seq<Seq<char>>, line: Seq<char>)
    requires
        parse_trace(lines).error is None,
        pending_frame(lines) is None,
        key_of(line) == Some(ProgressKey::Progress.text()),
    ensures
        parse_trace(lines.push(line)).error == Some(
            FFmpegProgressError::MissingKey(ProgressKey::Frame),
        ),
        parse_trace(lines.push(line)).snapshots == parse_trace(lines).snapshots,
{
    lemma_keys_differ();
    lemma_buffer_holds_pending_frame(lines);
    assert(lines.push(line).drop_last() =~= lines);
    assert(lines.push(line).last() == line);
}

/// A parser emits at most one snapshot for each line with the key
/// `progress`, and exactly one for each where it has met no error.
pub proof fn lemma_one_snapshot_per_progress_line(lines: Seq<Seq<char>>)
    ensures
        parse_trace(lines).snapshots.len() <= progress_lines(lines),
        parse_trace(lines).error is None ==> parse_trace(lines).snapshots.len() == progress_lines(
            lines,
        ),
    decreases lines.len(),
{
    if lines.len() > 0 {
        lemma_one_snapshot_per_progress_line(lines.drop_last());
    }
}

/// A key without `=`, then `=`, then a value, neither with whitespace at
/// its ends, is a line that holds that key and that value.
pub proof fn lemma_plain_line(key: Seq<char>, value: Seq<char>)
    requires
        !key.contains('='),
        trimmed(key) == key,
        trimmed(value) == value,
    ensures
        key_value_of(key + seq!['='] + value) == Some((key, value)),
{
    let line = key + seq!['='] + value;
    lemma_first_index_of_parts(key, '=', value);
    assert(line[key.len() as int] == '=');
    assert(line.subrange(0, key.len() as int) =~= key);
    assert(line.subrange(key.len() as int + 1, line.len() as int) =~= value);
}

/// A text that begins and ends with a character that is no whitespace is
/// its own trimmed form.
pub proof fn lemma_trimmed_unchanged(s: Seq<char>)
    requires
        s.len() > 0 ==> !is_whitespace(s.first()) && !is_whitespace(s.last()),
    ensures
        trimmed(s) == s,
{
}

/// The line that the tool writes for a frame counter: `frame=` and the
/// digits.
pub open spec fn frame_line(digits: Seq<char>) -> Seq<char> {
    "frame="@ + digits
}

/// The line that the tool writes for a phase: `progress=` and the name of
/// the phase.
pub open spec fn progress_line(phase: FFmpegProgressState) -> Seq<char> {
    "progress="@ + phase.text()
}

/// The line `frame=` with digits after it writes the frame counter that the
/// digits write, where that fits.
pub proof fn lemma_frame_line(digits: Seq<char>)
    requires
        digits.len() > 0,
        all_digits(digits),
        digits_value(digits) <= u64::MAX,
    ensures
        frame_written(frame_line(digits)) == Some(digits_value(digits) as u64),
{
    reveal_strlit("frame");
    reveal_strlit("frame=");
    let key = "frame"@;
    assert("frame="@ =~= key + seq!['=']);
    assert(frame_line(digits) =~= key + seq!['='] + digits);
    assert(is_digit(digits.first()) && is_digit(digits.last()));
    lemma_trimmed_unchanged(key);
    lemma_trimmed_unchanged(digits);
    lemma_plain_line(key, digits);
    assert(unsigned_part(digits) == digits);
}

/// The line `progress=` with the name of a phase after it announces that
/// phase.
pub proof fn lemma_progress_line(phase: FFmpegProgressState)
    ensures
        phase_announced(progress_line(phase)) == Some(phase),
{
    reveal_strlit("progress");
    reveal_strlit("progress=");
    reveal_strlit("continue");
    reveal_strlit("end");
    let key = "progress"@;
    let name = phase.text();
    assert("progress="@ =~= key + seq!['=']);
    assert(progress_line(phase) =~= key + seq!['='] + name);
    assert("continue"@.len() == 8 && "end"@.len() == 3);
    lemma_trimmed_unchanged(key);
    lemma_trimmed_unchanged(name);
    lemma_plain_line(key, name);
}

/// What a parser emits depends on the text of the lines alone: two runs
/// over lines with the same text emit the same snapshots and end in the
/// same way.
pub proof fn lemma_same_text_same_trace(first: Seq<String>, second: Seq<String>)
    requires
        first.len() == second.len(),
        forall|i: int| 0 <= i < first.len() ==> first[i]@ == second[i]@,
    ensures
        parse_trace(texts_of(first)) == parse_trace(texts_of(second)),
{
    assert(texts_of(first) =~= texts_of(second));
}

/// Whether the lines come in pairs: one that writes the frame counter
/// `frames[i]`, then one that announces the phase `phases[i]`.
pub open spec fn is_paired_stream(
    lines: Seq<Seq<char>>,
    frames: Seq<u64>,
    phases: Seq<FFmpegProgressState>,
) -> bool {
    &&& frames.len() == phases.len()
    &&& lines.len() == 2 * frames.len()
    &&& forall|i: int|
        0 <= i < frames.len() ==> frame_written(#[trigger] lines[2 * i]) == Some(frames[i])
    &&& forall|i: int|
        0 <= i < frames.len() ==> phase_announced(#[trigger] lines[2 * i + 1]) == Some(
            phases[i],
        )
}

/// The snapshots that pairs of a frame counter and a phase make.
pub open spec fn paired_snapshots(frames: Seq<u64>, phases: Seq<FFmpegProgressState>) -> Seq<
    FFmpegProgress,
> {
    Seq::new(frames.len(), |i: int| FFmpegProgress { frame: frames[i], progress: phases[i] })
}

/// Over a stream of pairs, a line for the frame counter and then a line
/// for the phase, a parser emits one snapshot for each pair, with the
/// counter and the phase of that pair, meets no error and keeps nothing
/// gathered.
pub proof fn lemma_paired_stream(
    lines: Seq<Seq<char>>,
    frames: Seq<u64>,
    phases: Seq<FFmpegProgressState>,
)
    requires
        is_paired_stream(lines, frames, phases),
    ensures
        parse_trace(lines).error is None,
        parse_trace(lines).snapshots == paired_snapshots(frames, phases),
        parse_trace(lines).buffer == Map::<Seq<char>, Seq<char>>::empty(),
    decreases frames.len(),
{
    lemma_keys_differ();
    if frames.len() == 0 {
        assert(parse_trace(lines).snapshots =~= paired_snapshots(frames, phases));
    } else {
        let n = frames.len() - 1;
        let with_frame = lines.drop_last();
        let earlier = with_frame.drop_last();
        assert(is_paired_stream(earlier, frames.drop_last(), phases.drop_last())) by {
            assert forall|i: int| 0 <= i < n implies frame_written(#[trigger] earlier[2 * i])
                == Some(frames.drop_last()[i]) by {
                assert(earlier[2 * i] == lines[2 * i]);
            }
            assert forall|i: int| 0 <= i < n implies phase_announced(
                #[trigger] earlier[2 * i + 1],
            ) == Some(phases.drop_last()[i]) by {
                assert(earlier[2 * i + 1] == lines[2 * i + 1]);
            }
        }
        lemma_paired_stream(earlier, frames.drop_last(), phases.drop_last());
        assert(with_frame.last() == lines[2 * n]);
        assert(lines.last() == lines[2 * n + 1]);
        let (key, value) = key_value_of(lines[2 * n]).unwrap();
        assert(parse_trace(with_frame).buffer =~= Map::<Seq<char>, Seq<char>>::empty().insert(
            key,
            value,
        ));
        assert(parse_trace(lines).snapshots =~= paired_snapshots(frames, phases));
    }
}

/// Whether the numbers that the lines write for the key `frame` never go
/// back from one such line to a later one.
pub open spec fn frames_never_fall(lines: Seq<Seq<char>>) -> bool {
    forall|i: int, j: int|
        0 <= i < j < lines.len() && frame_written(#[trigger] lines[i]) is Some && frame_written(
            #[trigger] lines[j],
        ) is Some ==> frame_written(lines[i]).unwrap() <= frame_written(lines[j]).unwrap()
}

/// Whether the frame counters of the snapshots never go back.
pub open spec fn snapshots_never_fall(snapshots: Seq<FFmpegProgress>) -> bool {
    forall|i: int, j: int|
        0 <= i < j < snapshots.len() ==> (#[trigger] snapshots[i]).frame <= (
        #[trigger] snapshots[j]).frame
}

/// Whether some line before `limit` and not before `start` writes the
/// frame counter.
spec fn written_within(lines: Seq<Seq<char>>, start: int, limit: int, frame: u64) -> bool {
    exists|w: int| start <= w < limit && frame_written(#[trigger] lines[w]) == Some(frame)
}

/// Every snapshot has its frame counter from a line before the place
/// `cut`, what the parser holds for the key `frame` was written at `cut` or
/// after it, and the snapshots' counters never fall.
spec fn frame_sources_at(lines: Seq<Seq<char>>, cut: int) -> bool {
    &&& 0 <= cut <= lines.len()
    &&& forall|t: int|
        0 <= t < parse_trace(lines).snapshots.len() ==> written_within(
            lines,
            0,
            cut,
            (#[trigger] parse_trace(lines).snapshots[t]).frame,
        )
    &&& parse_trace(lines).error is None && parse_trace(lines).buffer.contains_key(
        ProgressKey::Frame.text(),
    ) && decimal_u64(parse_trace(lines).buffer[ProgressKey::Frame.text()]) is Some
        ==> written_within(
        lines,
        cut,
        lines.len() as int,
        decimal_u64(parse_trace(lines).buffer[ProgressKey::Frame.text()]).unwrap(),
    )
    &&& snapshots_never_fall(parse_trace(lines).snapshots)
}

/// A line that writes a frame counter in the first lines of a stream
/// writes it in the stream.
proof fn lemma_written_within_longer(
    front: Seq<Seq<char>>,
    lines: Seq<Seq<char>>,
    start: int,
    limit: int,
    frame: u64,
)
    requires
        0 <= start,
        limit <= front.len() <= lines.len(),
        front == lines.take(front.len() as int),
        written_within(front, start, limit, frame),
    ensures
        written_within(lines, start, limit, frame),
{
    let w = choose|w: int| start <= w < limit && frame_written(#[trigger] front[w]) == Some(frame);
    assert(lines[w] == front[w]);
}

/// Finds the place that `frame_sources_at` speaks of, for any stream whose
/// counters never fall.
proof fn lemma_frame_sources(lines: Seq<Seq<char>>) -> (cut: int)
    requires
        frames_never_fall(lines),
    ensures
        frame_sources_at(lines, cut),
    decreases lines.len(), 1nat,
{
    lemma_keys_differ();
    if lines.len() == 0 {
        0
    } else {
        lemma_frame_sources_step(lines)
    }
}

/// The step of `lemma_frame_sources` for a stream that has a last line.
proof fn lemma_frame_sources_step(lines: Seq<Seq<char>>) -> (cut: int)
    requires
        frames_never_fall(lines),
        lines.len() > 0,
    ensures
        frame_sources_at(lines, cut),
    decreases lines.len(), 0nat,
{
    lemma_keys_differ();
    let front = lines.drop_last();
    let n = front.len() as int;
    assert(frames_never_fall(front)) by {
        assert forall|i: int, j: int|
            0 <= i < j < front.len() && frame_written(#[trigger] front[i]) is Some
                && frame_written(#[trigger] front[j]) is Some implies frame_written(
            front[i],
        ).unwrap() <= frame_written(front[j]).unwrap() by {
            assert(front[i] == lines[i]);
            assert(front[j] == lines[j]);
        }
    }
    let old_cut = lemma_frame_sources(front);
    let before = parse_trace(front);
    let after = parse_trace(lines);
    let emitted = line_effect(before.buffer, lines.last()).emitted;
    let frame_key = ProgressKey::Frame.text();
    assert forall|t: int| 0 <= t < before.snapshots.len() implies written_within(
        lines,
        0,
        old_cut,
        (#[trigger] before.snapshots[t]).frame,
    ) by {
        lemma_written_within_longer(front, lines, 0, old_cut, before.snapshots[t].frame);
    }
    if before.error is None && emitted is Some && emitted.unwrap() is Ok {
        let snapshot = emitted.unwrap()->Ok_0;
        assert(decimal_u64(before.buffer[frame_key]) == Some(snapshot.frame));
        lemma_written_within_longer(front, lines, old_cut, n, snapshot.frame);
        let w = choose|w: int|
            old_cut <= w < n && frame_written(#[trigger] lines[w]) == Some(snapshot.frame);
        assert(after.snapshots == before.snapshots.push(snapshot));
        assert forall|t: int| 0 <= t < after.snapshots.len() implies written_within(
            lines,
            0,
            n + 1,
            (#[trigger] after.snapshots[t]).frame,
        ) by {
            if t < before.snapshots.len() {
                let u = choose|u: int|
                    0 <= u < old_cut && frame_written(#[trigger] lines[u]) == Some(
                        before.snapshots[t].frame,
                    );
            }
        }
        assert forall|i: int, j: int| 0 <= i < j < after.snapshots.len() implies (
        #[trigger] after.snapshots[i]).frame <= (#[trigger] after.snapshots[j]).frame by {
            if j == before.snapshots.len() {
                let u = choose|u: int|
                    0 <= u < old_cut && frame_written(#[trigger] lines[u]) == Some(
                        before.snapshots[i].frame,
                    );
                assert(frame_written(lines[u]).unwrap() <= frame_written(lines[w]).unwrap());
            }
        }
        n + 1
    } else {
        assert(after.snapshots == before.snapshots);
        if after.error is None && after.buffer.contains_key(frame_key) && decimal_u64(
            after.buffer[frame_key],
        ) is Some {
            let frame = decimal_u64(after.buffer[frame_key]).unwrap();
            if key_of(lines.last()) == Some(frame_key) {
                assert(frame_written(lines[n]) == Some(frame));
            } else {
                assert(before.buffer[frame_key] == after.buffer[frame_key]);
                lemma_written_within_longer(front, lines, old_cut, n, frame);
                let w = choose|w: int|
                    old_cut <= w < n && frame_written(#[trigger] lines[w]) == Some(frame);
            }
        }
        old_cut
    }
}

/// Where the numbers that a stream writes for the key `frame` never go
/// back, the frame counters of the snapshots never go back either.
pub proof fn lemma_frames_never_fall(lines: Seq<Seq<char>>)
    requires
        frames_never_fall(lines),
    ensures
        snapshots_never_fall(parse_trace(lines).snapshots),
{
    let _ = lemma_frame_sources(lines);
}

} // verus!
