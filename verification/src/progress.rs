//! The progress protocol of the transcoding tool: lines of `key=value` text
//! that are gathered into snapshots of a frame counter and a phase.

use vstd::prelude::*;
use vstd::string::*;
use crate::text::{
    decimal_u64, first_index_of, lemma_first_index_of_parts, parse_u64, split_once_char, texts_of,
    trimmed,
};

verus! {

/// A key that a snapshot cannot be built without.
#[derive(Debug, Clone, Copy, PartialEq, Eq, Structural)]
pub enum ProgressKey {
    Frame,
    Progress,
}

impl ProgressKey {
    /// The key as the protocol writes it.
    pub open spec fn text(self) -> Seq<char> {
        match self {
            ProgressKey::Frame => "frame"@,
            ProgressKey::Progress => "progress"@,
        }
    }

    /// The key as the protocol writes it.
    pub fn name(self) -> (r: &'static str)
        ensures
            r@ == self.text(),
    {
        match self {
            ProgressKey::Frame => "frame",
            ProgressKey::Progress => "progress",
        }
    }
}

/// What is wrong with a progress stream.
#[derive(Debug, Clone, Copy, PartialEq, Eq, Structural)]
pub enum FFmpegProgressError {
    /// A snapshot was due and the key had no value.
    MissingKey(ProgressKey),
    /// A snapshot was due and the value of the key could not be read.
    MalformedValue(ProgressKey),
}

impl FFmpegProgressError {
    /// The text of the message that describes the error.
    pub open spec fn message_text(self) -> Seq<char> {
        match self {
            FFmpegProgressError::MissingKey(key) => "Could not parse key '"@ + key.text()
                + "' from FFprobe progress logs"@,
            FFmpegProgressError::MalformedValue(key) => "Could not parse the value of key '"@
                + key.text() + "' from FFprobe progress logs"@,
        }
    }

    /// A message that describes the error.
    pub fn message(&self) -> (r: String)
        ensures
            r@ == self.message_text(),
    {
        match self {
            FFmpegProgressError::MissingKey(key) => {
                let mut text = String::from_str("Could not parse key '");
                text.append(key.name());
                text.append("' from FFprobe progress logs");
                text
            },
            FFmpegProgressError::MalformedValue(key) => {
                let mut text = String::from_str("Could not parse the value of key '");
                text.append(key.name());
                text.append("' from FFprobe progress logs");
                text
            },
        }
    }
}

/// The phase that a snapshot reports.
#[derive(Debug, Clone, Copy, PartialEq, Eq, Structural)]
pub enum FFmpegProgressState {
    /// More snapshots follow.
    Continue,
    /// This snapshot is the last one.
    End,
}

impl FFmpegProgressState {
    /// The phase that a value of the key `progress` names, if it names one.
    pub open spec fn of_text(s: Seq<char>) -> Option<FFmpegProgressState> {
        if s == "continue"@ {
            Some(FFmpegProgressState::Continue)
        } else if s == "end"@ {
            Some(FFmpegProgressState::End)
        } else {
            None
        }
    }

    /// The phase as the protocol writes it.
    pub open spec fn text(self) -> Seq<char> {
        match self {
            FFmpegProgressState::Continue => "continue"@,
            FFmpegProgressState::End => "end"@,
        }
    }

    /// Reads a value of the key `progress`: `continue` or `end`, exactly as
    /// written here. Any other value is malformed.
    pub fn from_str(s: &str) -> (r: Result<FFmpegProgressState, FFmpegProgressError>)
        ensures
            r == match FFmpegProgressState::of_text(s@) {
                Some(state) => Ok::<FFmpegProgressState, FFmpegProgressError>(state),
                None => Err(FFmpegProgressError::MalformedValue(ProgressKey::Progress)),
            },
    {
        if s.eq("continue") {
            Ok(FFmpegProgressState::Continue)
        } else if s.eq("end") {
            Ok(FFmpegProgressState::End)
        } else {
            Err(FFmpegProgressError::MalformedValue(ProgressKey::Progress))
        }
    }
}

/// One observation of a conversion: how many frames are done, and whether
/// more observations follow.
#[derive(Debug, Clone, Copy, PartialEq, Eq, Structural)]
pub struct FFmpegProgress {
    pub frame: u64,
    pub progress: FFmpegProgressState,
}

/// What receives the snapshots of one job, one call for each.
pub trait FFmpegProgressUpdate: FnOnce(FFmpegProgress) + Copy {}

impl<T> FFmpegProgressUpdate for T where T: FnOnce(FFmpegProgress) + Copy {}

/// The map that a list of keys and values writes when each entry in turn
/// is written over what stands before it.
pub open spec fn pairs_map(pairs: Seq<(Seq<char>, Seq<char>)>) -> Map<Seq<char>, Seq<char>>
    decreases pairs.len(),
{
    if pairs.len() == 0 {
        Map::empty()
    } else {
        pairs_map(pairs.drop_last()).insert(pairs.last().0, pairs.last().1)
    }
}

/// A key that no entry has is not in the map.
proof fn lemma_pairs_map_absent(pairs: Seq<(Seq<char>, Seq<char>)>, key: Seq<char>)
    requires
        forall|j: int| 0 <= j < pairs.len() ==> (#[trigger] pairs[j]).0 != key,
    ensures
        !pairs_map(pairs).contains_key(key),
    decreases pairs.len(),
{
    if pairs.len() > 0 {
        let front = pairs.drop_last();
        assert forall|j: int| 0 <= j < front.len() implies (#[trigger] front[j]).0 != key by {
            assert(front[j] == pairs[j]);
        }
        lemma_pairs_map_absent(front, key);
        assert(pairs[pairs.len() - 1].0 != key);
    }
}

/// The map gives a key the value of the last entry that has the key.
proof fn lemma_pairs_map_last(pairs: Seq<(Seq<char>, Seq<char>)>, i: int)
    requires
        0 <= i < pairs.len(),
        forall|j: int| i < j < pairs.len() ==> (#[trigger] pairs[j]).0 != pairs[i].0,
    ensures
        pairs_map(pairs).contains_key(pairs[i].0),
        pairs_map(pairs)[pairs[i].0] == pairs[i].1,
    decreases pairs.len(),
{
    if i < pairs.len() - 1 {
        let front = pairs.drop_last();
        assert(front[i] == pairs[i]);
        assert forall|j: int| i < j < front.len() implies (#[trigger] front[j]).0
            != front[i].0 by {
            assert(front[j] == pairs[j]);
        }
        lemma_pairs_map_last(front, i);
        assert(pairs[pairs.len() - 1].0 != pairs[i].0);
    }
}

/// To write a new value into the last entry that has a key is to write the
/// key into the map.
proof fn lemma_pairs_map_update(pairs: Seq<(Seq<char>, Seq<char>)>, i: int, value: Seq<char>)
    requires
        0 <= i < pairs.len(),
        forall|j: int| i < j < pairs.len() ==> (#[trigger] pairs[j]).0 != pairs[i].0,
    ensures
        pairs_map(pairs.update(i, (pairs[i].0, value))) == pairs_map(pairs).insert(
            pairs[i].0,
            value,
        ),
    decreases pairs.len(),
{
    let key = pairs[i].0;
    let changed = pairs.update(i, (key, value));
    if i == pairs.len() - 1 {
        assert(changed.drop_last() =~= pairs.drop_last());
        assert(pairs_map(changed) =~= pairs_map(pairs).insert(key, value));
    } else {
        let front = pairs.drop_last();
        assert(front[i] == pairs[i]);
        assert forall|j: int| i < j < front.len() implies (#[trigger] front[j]).0
            != front[i].0 by {
            assert(front[j] == pairs[j]);
        }
        lemma_pairs_map_update(front, i, value);
        assert(changed.drop_last() =~= front.update(i, (key, value)));
        assert(changed.last() == pairs.last());
        assert(pairs[pairs.len() - 1].0 != key);
        assert(pairs_map(changed) =~= pairs_map(pairs).insert(key, value));
    }
}

/// The keys and values gathered since the last snapshot. Each key has one
/// value, the one that was written last.
pub struct ProgressBuffer {
    entries: Vec<(String, String)>,
}

impl View for ProgressBuffer {
    type V = Map<Seq<char>, Seq<char>>;

    closed spec fn view(&self) -> Map<Seq<char>, Seq<char>> {
        pairs_map(self.pairs())
    }
}

impl ProgressBuffer {
    /// The entries as texts, in the order in which their keys first came.
    spec fn pairs(&self) -> Seq<(Seq<char>, Seq<char>)> {
        Seq::new(self.entries.len() as nat, |i: int| (self.entries[i].0@, self.entries[i].1@))
    }

    /// A buffer without entries.
    pub fn new() -> (r: ProgressBuffer)
        ensures
            r@ == Map::<Seq<char>, Seq<char>>::empty(),
    {
        ProgressBuffer { entries: Vec::new() }
    }

    /// Where the last entry with the key stands, if there is one.
    fn find(&self, key: &str) -> (r: Option<usize>)
        ensures
            match r {
                Some(i) => {
                    &&& i < self.entries.len()
                    &&& self.pairs()[i as int].0 == key@
                    &&& forall|j: int|
                        i < j < self.entries.len() ==> (#[trigger] self.pairs()[j]).0 != key@
                },
                None => forall|j: int|
                    0 <= j < self.entries.len() ==> (#[trigger] self.pairs()[j]).0 != key@,
            },
    {
        let mut i: usize = self.entries.len();
        while i > 0
            invariant
                i <= self.entries.len(),
                forall|j: int|
                    i <= j < self.entries.len() ==> (#[trigger] self.pairs()[j]).0 != key@,
            decreases i,
        {
            i -= 1;
            if self.entries[i].0.as_str().eq(key) {
                return Some(i);
            }
        }
        None
    }

    /// The value that was last written for the key.
    pub fn get(&self, key: &str) -> (r: Option<&String>)
        ensures
            match r {
                Some(value) => self@.contains_key(key@) && value@ == self@[key@],
                None => !self@.contains_key(key@),
            },
    {
        match self.find(key) {
            Some(i) => {
                proof {
                    lemma_pairs_map_last(self.pairs(), i as int);
                }
                Some(&self.entries[i].1)
            },
            None => {
                proof {
                    lemma_pairs_map_absent(self.pairs(), key@);
                }
                None
            },
        }
    }

    /// Writes a value for the key, in place of the one it had.
    pub fn insert(&mut self, key: String, value: String)
        ensures
            final(self)@ == old(self)@.insert(key@, value@),
    {
        let ghost before = self.pairs();
        match self.find(key.as_str()) {
            Some(i) => {
                proof {
                    lemma_pairs_map_update(before, i as int, value@);
                }
                self.entries.set(i, (key, value));
                assert(self.pairs() =~= before.update(i as int, (key@, value@)));
            },
            None => {
                self.entries.push((key, value));
                assert(self.pairs().drop_last() =~= before);
            },
        }
    }

    /// Removes every entry.
    pub fn clear(&mut self)
        ensures
            final(self)@ == Map::<Seq<char>, Seq<char>>::empty(),
    {
        self.entries.clear();
    }
}

/// The key and the value that a line holds: what stands before its first
/// `=` and what stands after it, each without whitespace at its ends. A
/// line without `=` holds none.
pub open spec fn key_value_of(line: Seq<char>) -> Option<(Seq<char>, Seq<char>)> {
    if line.contains('=') {
        let at = first_index_of(line, '=');
        Some((trimmed(line.subrange(0, at)), trimmed(line.subrange(at + 1, line.len() as int))))
    } else {
        None
    }
}

/// Splits a line into its key and its value.
pub fn parse_key_value_pair(input: &str) -> (r: Option<(&str, &str)>)
    ensures
        match r {
            Some((key, value)) => key_value_of(input@) == Some((key@, value@)),
            None => key_value_of(input@) is None,
        },
{
    match split_once_char(input, '=') {
        Some((head, tail)) => {
            proof {
                let at = head@.len() as int;
                lemma_first_index_of_parts(head@, '=', tail@);
                assert(input@[at] == '=');
                assert(input@.subrange(0, at) =~= head@);
                assert(input@.subrange(at + 1, input@.len() as int) =~= tail@);
            }
            Some((head.trim(), tail.trim()))
        },
        None => None,
    }
}

/// The snapshot that the gathered keys and values make, or what keeps them
/// from making one. The frame counter is looked at first.
pub open spec fn snapshot_of(buffer: Map<Seq<char>, Seq<char>>) -> Result<
    FFmpegProgress,
    FFmpegProgressError,
> {
    if !buffer.contains_key(ProgressKey::Frame.text()) {
        Err(FFmpegProgressError::MissingKey(ProgressKey::Frame))
    } else if decimal_u64(buffer[ProgressKey::Frame.text()]) is None {
        Err(FFmpegProgressError::MalformedValue(ProgressKey::Frame))
    } else if !buffer.contains_key(ProgressKey::Progress.text()) {
        Err(FFmpegProgressError::MissingKey(ProgressKey::Progress))
    } else {
        match FFmpegProgressState::of_text(buffer[ProgressKey::Progress.text()]) {
            Some(progress) => Ok(
                FFmpegProgress {
                    frame: decimal_u64(buffer[ProgressKey::Frame.text()]).unwrap(),
                    progress,
                },
            ),
            None => Err(FFmpegProgressError::MalformedValue(ProgressKey::Progress)),
        }
    }
}

impl FFmpegProgress {
    /// Builds the snapshot that the gathered keys and values make.
    pub fn try_from_parsed_progress(parsed_progress: &ProgressBuffer) -> (r: Result<
        FFmpegProgress,
        FFmpegProgressError,
    >)
        ensures
            r == snapshot_of(parsed_progress@),
    {
        let frame = match parsed_progress.get(ProgressKey::Frame.name()) {
            Some(value) => match parse_u64(value.as_str()) {
                Some(frame) => frame,
                None => {
                    return Err(FFmpegProgressError::MalformedValue(ProgressKey::Frame));
                },
            },
            None => {
                return Err(FFmpegProgressError::MissingKey(ProgressKey::Frame));
            },
        };
        match parsed_progress.get(ProgressKey::Progress.name()) {
            Some(value) => match FFmpegProgressState::from_str(value.as_str()) {
                Ok(progress) => Ok(FFmpegProgress { frame, progress }),
                Err(error) => Err(error),
            },
            None => Err(FFmpegProgressError::MissingKey(ProgressKey::Progress)),
        }
    }
}

/// What one line does to the parser: the keys and values that it leaves
/// gathered, and the snapshot or the error that it brings about, if any.
pub struct LineEffect {
    pub buffer: Map<Seq<char>, Seq<char>>,
    pub emitted: Option<Result<FFmpegProgress, FFmpegProgressError>>,
}

/// The effect of a line on what has been gathered. A line without a key
/// changes nothing. Any other line writes its value for its key. The key
/// `progress` then asks for a snapshot: where one can be built it is
/// emitted and what was gathered is dropped, else the error is reported.
pub open spec fn line_effect(buffer: Map<Seq<char>, Seq<char>>, line: Seq<char>) -> LineEffect {
    match key_value_of(line) {
        None => LineEffect { buffer, emitted: None },
        Some((key, value)) => {
            let filled = buffer.insert(key, value);
            if key == ProgressKey::Progress.text() {
                match snapshot_of(filled) {
                    Ok(snapshot) => LineEffect {
                        buffer: Map::empty(),
                        emitted: Some(Ok(snapshot)),
                    },
                    Err(error) => LineEffect { buffer: filled, emitted: Some(Err(error)) },
                }
            } else {
                LineEffect { buffer: filled, emitted: None }
            }
        },
    }
}

/// The decoder of one progress stream. It holds what was gathered since the
/// last snapshot and nothing else.
pub struct ProgressParser {
    buffer: ProgressBuffer,
}

impl View for ProgressParser {
    type V = Map<Seq<char>, Seq<char>>;

    closed spec fn view(&self) -> Map<Seq<char>, Seq<char>> {
        self.buffer@
    }
}

impl ProgressParser {
    /// A parser that has gathered nothing.
    pub fn new() -> (r: ProgressParser)
        ensures
            r@ == Map::<Seq<char>, Seq<char>>::empty(),
    {
        ProgressParser { buffer: ProgressBuffer::new() }
    }

    /// Takes the next line of the stream. Returns the snapshot that the line
    /// completes, `None` where it completes none, or the error that ends
    /// the stream.
    pub fn push_line(&mut self, line: &str) -> (r: Result<
        Option<FFmpegProgress>,
        FFmpegProgressError,
    >)
        ensures
            final(self)@ == line_effect(old(self)@, line@).buffer,
            r == match line_effect(old(self)@, line@).emitted {
                None => Ok::<Option<FFmpegProgress>, FFmpegProgressError>(None),
                Some(Ok(snapshot)) => Ok(Some(snapshot)),
                Some(Err(error)) => Err(error),
            },
    {
        match parse_key_value_pair(line) {
            None => Ok(None),
            Some((key, value)) => {
                self.buffer.insert(key.to_owned(), value.to_owned());
                if key.eq(ProgressKey::Progress.name()) {
                    match FFmpegProgress::try_from_parsed_progress(&self.buffer) {
                        Ok(snapshot) => {
                            self.buffer.clear();
                            Ok(Some(snapshot))
                        },
                        Err(error) => Err(error),
                    }
                } else {
                    Ok(None)
                }
            },
        }
    }
}

/// What a parser has done after a run of lines: what it holds gathered, the
/// snapshots that it emitted, in order, and the error that stopped it, if
/// one did.
pub struct ParseTrace {
    pub buffer: Map<Seq<char>, Seq<char>>,
    pub snapshots: Seq<FFmpegProgress>,
    pub error: Option<FFmpegProgressError>,
}

/// The trace of a fresh parser over the lines. The first error stops the
/// parser: the lines after it change nothing.
pub open spec fn parse_trace(lines: Seq<Seq<char>>) -> ParseTrace
    decreases lines.len(),
{
    if lines.len() == 0 {
        ParseTrace { buffer: Map::empty(), snapshots: Seq::empty(), error: None }
    } else {
        let before = parse_trace(lines.drop_last());
        if before.error is Some {
            before
        } else {
            let effect = line_effect(before.buffer, lines.last());
            match effect.emitted {
                None => ParseTrace { buffer: effect.buffer, ..before },
                Some(Ok(snapshot)) => ParseTrace {
                    buffer: effect.buffer,
                    snapshots: before.snapshots.push(snapshot),
                    error: None,
                },
                Some(Err(error)) => ParseTrace { buffer: effect.buffer, error: Some(error), ..before },
            }
        }
    }
}

/// Decodes the lines of one progress stream, in order, and hands each
/// snapshot to the observer as soon as its line is read. Stops at the first
/// error and returns it. What is left gathered when the lines end is
/// dropped.
pub fn parse<F: FFmpegProgressUpdate>(lines: &Vec<String>, on_progress_update: F) -> (r: Result<
    (),
    FFmpegProgressError,
>)
    requires
        forall|i: int|
            0 <= i < parse_trace(texts_of(lines@)).snapshots.len() ==> call_requires(
                on_progress_update,
                (#[trigger] parse_trace(texts_of(lines@)).snapshots[i],),
            ),
    ensures
        r == match parse_trace(texts_of(lines@)).error {
            None => Ok::<(), FFmpegProgressError>(()),
            Some(error) => Err(error),
        },
        forall|i: int|
            0 <= i < parse_trace(texts_of(lines@)).snapshots.len() ==> call_ensures(
                on_progress_update,
                (#[trigger] parse_trace(texts_of(lines@)).snapshots[i],),
                (),
            ),
{
    let ghost texts = texts_of(lines@);
    let mut parser = ProgressParser::new();
    let mut i: usize = 0;
    while i < lines.len()
        invariant
            i <= lines.len(),
            texts == texts_of(lines@),
            parse_trace(texts.take(i as int)).error is None,
            parse_trace(texts.take(i as int)).buffer == parser@,
            forall|k: int|
                0 <= k < parse_trace(texts).snapshots.len() ==> call_requires(
                    on_progress_update,
                    (#[trigger] parse_trace(texts).snapshots[k],),
                ),
            forall|k: int|
                0 <= k < parse_trace(texts.take(i as int)).snapshots.len() ==> call_ensures(
                    on_progress_update,
                    (#[trigger] parse_trace(texts.take(i as int)).snapshots[k],),
                    (),
                ),
        decreases lines.len() - i,
    {
        let ghost before = parse_trace(texts.take(i as int));
        let ghost after = parse_trace(texts.take(i + 1));
        proof {
            assert(texts.take(i + 1).drop_last() =~= texts.take(i as int));
            assert(texts.take(i + 1).last() == lines@[i as int]@);
            lemma_parse_trace_prefix(texts, i + 1);
        }
        match parser.push_line(lines[i].as_str()) {
            Ok(None) => {},
            Ok(Some(snapshot)) => {
                assert(after.snapshots == before.snapshots.push(snapshot));
                assert(parse_trace(texts).snapshots[before.snapshots.len() as int] == snapshot);
                on_progress_update(snapshot);
                assert forall|k: int| 0 <= k < after.snapshots.len() implies call_ensures(
                    on_progress_update,
                    (#[trigger] after.snapshots[k],),
                    (),
                ) by {
                    if k < before.snapshots.len() {
                        assert(after.snapshots[k] == before.snapshots[k]);
                    }
                }
            },
            Err(error) => {
                proof {
                    lemma_parse_trace_stopped(texts, i + 1);
                }
                return Err(error);
            },
        }
        i += 1;
    }
    assert(texts.take(i as int) =~= texts);
    Ok(())
}

/// The snapshots of the first lines of a stream are the first snapshots of
/// the stream.
pub proof fn lemma_parse_trace_prefix(lines: Seq<Seq<char>>, k: int)
    requires
        0 <= k <= lines.len(),
    ensures
        parse_trace(lines.take(k)).snapshots.len() <= parse_trace(lines).snapshots.len(),
        forall|i: int|
            0 <= i < parse_trace(lines.take(k)).snapshots.len() ==> parse_trace(
                lines.take(k),
            ).snapshots[i] == parse_trace(lines).snapshots[i],
    decreases lines.len() - k,
{
    if k == lines.len() {
        assert(lines.take(k) =~= lines);
    } else {
        let front = lines.drop_last();
        assert(front.take(k) =~= lines.take(k));
        lemma_parse_trace_prefix(front, k);
    }
}

/// Once the parser has stopped on an error, more lines change nothing.
pub proof fn lemma_parse_trace_stopped(lines: Seq<Seq<char>>, k: int)
    requires
        0 <= k <= lines.len(),
        parse_trace(lines.take(k)).error is Some,
    ensures
        parse_trace(lines) == parse_trace(lines.take(k)),
    decreases lines.len() - k,
{
    if k == lines.len() {
        assert(lines.take(k) =~= lines);
    } else {
        let front = lines.drop_last();
        assert(front.take(k) =~= lines.take(k));
        lemma_parse_trace_stopped(front, k);
    }
}

} // verus!
