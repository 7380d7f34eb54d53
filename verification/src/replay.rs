//! The replay: frame by frame, the terminal interprets the bytes on a
//! cleared screen, the game state is sampled from what the screen shows,
//! and the frame is classified into log lines.

use crate::classifier::{
    classify_keystroke, classify_message, cleaned, keystroke_for, message_for,
};
use crate::container::{frames, parse_ttyrec, ContainerError, Frame, TtyrecRecord, decode};
use crate::logger::{deduplicate, dedup, line_views, renderings, strings, Entry, LogLine};
use crate::sampler::{GameState, Status};
use crate::screen::{Grid, Screen};
use crate::terminal::{actions_of, Terminal};
use crate::text::{chars_of, lowercase_of, string_of};
use vstd::prelude::*;

verus! {

/// The row that holds the game's messages.
pub const MESSAGE_ROW: usize = 0;

/// The entry with the given prefix for a body, if there is a body.
pub open spec fn entry_for(prefix: Seq<char>, body: Option<Seq<char>>) -> Seq<Entry> {
    match body {
        Some(text) => seq![Entry { prefix, body: text }],
        None => Seq::empty(),
    }
}

/// The entries logged for a frame with bytes `payload` that left the
/// screen as `grid`, in the game status `status`: one for a command
/// keystroke, then one for the message of the top row; each only where
/// there is one.
pub open spec fn frame_entries(status: Status, grid: Grid, payload: Seq<u8>) -> Seq<Entry> {
    let top = cleaned(grid.row_text(MESSAGE_ROW as int));
    entry_for(status.prefix(), keystroke_for(payload)) + entry_for(
        status.prefix(),
        message_for(top, lowercase_of(top)),
    )
}

/// Classifies a frame: the log lines for its bytes and for the message
/// that the screen shows, each with the prefix of the game state.
pub fn classify_frame(state: &GameState, screen: &Screen, payload: &[u8]) -> (lines: Vec<
    LogLine,
>)
    requires
        screen@.wf(),
    ensures
        line_views(lines@) == frame_entries(state@, screen@, payload@),
{
    let mut lines: Vec<LogLine> = Vec::new();
    assert(line_views(lines@) =~= Seq::<Entry>::empty());
    match classify_keystroke(payload) {
        Some(description) => {
            let line = LogLine {
                prefix: state.prefix(),
                body: string_of(&chars_of(description)),
            };
            assert(line_views(lines@.push(line)) =~= seq![line@]);
            lines.push(line);
        },
        None => {},
    }
    let ghost first = line_views(lines@);
    match screen.get_row(MESSAGE_ROW) {
        Some(row) => {
            match classify_message(row.as_str()) {
                Some(body) => {
                    let line = LogLine { prefix: state.prefix(), body };
                    assert(line_views(lines@.push(line)) =~= first + seq![line@]);
                    lines.push(line);
                },
                None => {
                    assert(first + Seq::<Entry>::empty() =~= first);
                },
            }
        },
        None => {},
    }
    lines
}

/// The mathematical model of a replay in progress.
pub struct Progress {
    /// The bytes interpreted so far.
    pub consumed: Seq<u8>,
    /// The game status as last sampled.
    pub status: Status,
    /// The entries logged so far.
    pub entries: Seq<Entry>,
}

/// The payloads of a list of frames.
pub open spec fn payloads(list: Seq<Frame>) -> Seq<Seq<u8>> {
    Seq::new(list.len(), |i: int| list[i].payload)
}

impl Progress {
    /// Before the first frame.
    pub open spec fn start() -> Progress {
        Progress { consumed: Seq::empty(), status: Status::unknown(), entries: Seq::empty() }
    }

    /// What the screen shows after a frame with bytes `payload`: the
    /// cleared screen with the frame's actions performed on it.
    pub open spec fn frame_grid(self, payload: Seq<u8>) -> Grid {
        Grid::blank().run(actions_of(self.consumed, payload))
    }

    /// The replay after one more frame.
    pub open spec fn step(self, payload: Seq<u8>) -> Progress {
        let grid = self.frame_grid(payload);
        let status = self.status.sampled(grid);
        Progress {
            consumed: self.consumed + payload,
            status,
            entries: self.entries + frame_entries(status, grid, payload),
        }
    }

    /// The replay after more frames, in order.
    pub open spec fn steps(self, list: Seq<Seq<u8>>) -> Progress
        decreases list.len(),
    {
        if list.len() == 0 {
            self
        } else {
            self.steps(list.drop_last()).step(list.last())
        }
    }

    /// The log: the rendered entries, each once.
    pub open spec fn log(self) -> Seq<Seq<char>> {
        dedup(renderings(self.entries))
    }
}

/// A replay in progress.
pub struct Replay {
    terminal: Terminal,
    state: GameState,
    lines: Vec<LogLine>,
}

impl View for Replay {
    type V = Progress;

    closed spec fn view(&self) -> Progress {
        Progress {
            consumed: self.terminal.consumed(),
            status: self.state@,
            entries: line_views(self.lines@),
        }
    }
}

impl Replay {
    /// A replay before its first frame.
    pub fn new() -> (replay: Replay)
        ensures
            replay@ == Progress::start(),
    {
        let replay = Replay { terminal: Terminal::new(), state: GameState::new(), lines: Vec::new() };
        assert(line_views(replay.lines@) =~= Seq::<Entry>::empty());
        replay
    }

    /// The game state as last sampled.
    pub fn state(&self) -> (state: &GameState)
        ensures
            state@ == self@.status,
    {
        &self.state
    }

    /// The lines logged so far, duplicates included.
    pub fn lines(&self) -> (lines: &Vec<LogLine>)
        ensures
            line_views(lines@) == self@.entries,
    {
        &self.lines
    }

    /// Replays one frame: clears the screen, interprets the bytes, samples
    /// the game state and logs what the frame is classified as.
    pub fn process_frame(&mut self, payload: &[u8])
        ensures
            final(self)@ == old(self)@.step(payload@),
    {
        self.terminal.clear();
        self.terminal.interpret(payload);
        self.state.sample(self.terminal.screen());
        let mut found = classify_frame(&self.state, self.terminal.screen(), payload);
        let ghost before = line_views(self.lines@);
        let ghost added = line_views(found@);
        let ghost joined = self.lines@ + found@;
        self.lines.append(&mut found);
        assert(self.lines@ == joined);
        assert(line_views(joined) =~= before + added);
    }

    /// Ends the replay: the log, with each line once.
    pub fn finish(self) -> (log: Vec<String>)
        ensures
            strings(log@) == self@.log(),
    {
        deduplicate(&self.lines)
    }
}

/// Replays the records of a capture in order and gives the log.
pub fn extract_log(records: &Vec<TtyrecRecord>) -> (log: Vec<String>)
    ensures
        strings(log@) == Progress::start().steps(payloads(frames(records@))).log(),
{
    let ghost all = payloads(frames(records@));
    let mut replay = Replay::new();
    let mut i: usize = 0;
    assert(all.take(0) == Seq::<Seq<u8>>::empty());
    while i < records.len()
        invariant
            i <= records.len(),
            all == payloads(frames(records@)),
            replay@ == Progress::start().steps(all.take(i as int)),
        decreases records.len() - i,
    {
        assert(all.take(i + 1).drop_last() == all.take(i as int));
        assert(all.take(i + 1).last() == records@[i as int].data@);
        replay.process_frame(records[i].data.as_slice());
        i += 1;
    }
    assert(all.take(i as int) == all);
    replay.finish()
}

/// The log of a capture given as bytes, or why the capture cannot be
/// decoded.
pub open spec fn log_of(bytes: Seq<u8>) -> Result<Seq<Seq<char>>, ContainerError> {
    match decode(bytes, 0) {
        Ok(list) => Ok(Progress::start().steps(payloads(list)).log()),
        Err(error) => Err(error),
    }
}

/// Decodes a capture and replays it: the log, or the error of the
/// container.
pub fn replay_capture(bytes: &[u8]) -> (r: Result<Vec<String>, ContainerError>)
    ensures
        match r {
            Ok(log) => log_of(bytes@) == Ok::<Seq<Seq<char>>, ContainerError>(strings(log@)),
            Err(error) => log_of(bytes@) == Err::<Seq<Seq<char>>, ContainerError>(error),
        },
{
    match parse_ttyrec(bytes) {
        Ok(records) => Ok(extract_log(&records)),
        Err(error) => Err(error),
    }
}

} // verus!
