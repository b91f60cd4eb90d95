//! The streaming loop as a state machine.
//!
//! The caller owns the byte source, the sink and the clock. Once per cycle it
//! reads from the source, tells the pipeline what the read gave and what time
//! it is, and carries out what the pipeline decides: what to write, whether a
//! rate report is due, and whether to stop.
//!
//! A read that fails for any reason other than a timeout ends the stream: the
//! pipeline answers it with [`Action::Halt`], writes nothing and leaves its
//! state as it was.

use crate::counters::{
    lemma_counting_nothing, lemma_occurrences_bounded, occurrences, saturated, Counters, COMMA,
    NEWLINE, SPACE,
};
use crate::transform::{ConvertFrom, Output, OutputView};
use vstd::prelude::*;

verus! {

/// The length of a reporting window, in nanoseconds.
pub const WINDOW_NANOS: u64 = 1_000_000_000;

/// What one read on the byte source gave.
#[derive(Debug)]
pub enum ReadEvent<'a> {
    /// The bytes that were read; there may be none.
    Data(&'a [u8]),
    /// Nothing arrived within the source's timeout.
    TimedOut,
    /// The source failed.
    Failed,
}

/// What the caller does with the sink after a read.
#[derive(Debug)]
pub enum Action {
    /// Append this to the sink.
    Write(Output),
    /// Write nothing in this cycle.
    Skip,
    /// Write nothing and leave the loop.
    Halt,
}

/// The mathematical content of an [`Action`].
pub enum ActionView {
    Write(OutputView),
    Skip,
    Halt,
}

impl View for Action {
    type V = ActionView;

    open spec fn view(&self) -> ActionView {
        match self {
            Action::Write(output) => ActionView::Write(output@),
            Action::Skip => ActionView::Skip,
            Action::Halt => ActionView::Halt,
        }
    }
}

/// The totals of a reporting window that has ended. The rate of each counter
/// is its value divided by `elapsed`.
#[derive(Clone, Copy, Debug, PartialEq, Eq, Structural)]
pub struct Report {
    /// What passed through during the window.
    pub counters: Counters,
    /// How long the window lasted, in nanoseconds.
    pub elapsed: u64,
}

/// What the pipeline decided in one cycle.
#[derive(Debug)]
pub struct Cycle {
    pub action: Action,
    /// The report of the window that this cycle closed, if it closed one.
    pub report: Option<Report>,
}

/// The state of the streaming loop between two cycles.
#[derive(Debug)]
pub struct Pipeline {
    mode: ConvertFrom,
    counters: Counters,
    window_start: u64,
}

/// The mathematical content of a [`Pipeline`].
pub struct PipelineView {
    /// The conversion mode, fixed when the pipeline is made.
    pub mode: ConvertFrom,
    /// What has passed through since the window began.
    pub counters: Counters,
    /// The time at which the window began, in nanoseconds on the caller's
    /// clock.
    pub window_start: u64,
}

impl PipelineView {
    /// A pipeline whose first window begins at `now`.
    pub open spec fn fresh(mode: ConvertFrom, now: u64) -> PipelineView {
        PipelineView { mode, counters: Counters::zero(), window_start: now }
    }

    /// The state after a read gave `bytes`. Every mode counts the bytes;
    /// `Raw` also counts words, commas and lines.
    pub open spec fn received(self, bytes: Seq<u8>) -> PipelineView {
        let counted = self.counters.with_bytes(bytes.len());
        PipelineView {
            counters: if self.mode == ConvertFrom::Raw {
                counted.with_marks(bytes)
            } else {
                counted
            },
            ..self
        }
    }

    /// The time since the window began. A clock that reads earlier than the
    /// start of the window counts as no time passed.
    pub open spec fn elapsed(self, now: u64) -> u64 {
        if now >= self.window_start {
            (now - self.window_start) as u64
        } else {
            0
        }
    }

    /// Whether the window has lasted a second or more at `now`.
    pub open spec fn report_due(self, now: u64) -> bool {
        self.elapsed(now) >= WINDOW_NANOS
    }

    /// The report that the reporting check at `now` gives, if one is due.
    pub open spec fn report_at(self, now: u64) -> Option<Report> {
        if self.report_due(now) {
            Some(Report { counters: self.counters, elapsed: self.elapsed(now) })
        } else {
            None
        }
    }

    /// The state after the reporting check at `now`: where a report is due,
    /// the counters are zero and a new window begins at `now`.
    pub open spec fn reported(self, now: u64) -> PipelineView {
        if self.report_due(now) {
            PipelineView { counters: Counters::zero(), window_start: now, ..self }
        } else {
            self
        }
    }
}

impl View for Pipeline {
    type V = PipelineView;

    closed spec fn view(&self) -> PipelineView {
        PipelineView { mode: self.mode, counters: self.counters, window_start: self.window_start }
    }
}

impl Pipeline {
    /// A pipeline in the given mode whose first window begins at `now`.
    pub fn new(mode: ConvertFrom, now: u64) -> (pipeline: Pipeline)
        ensures
            pipeline@ == PipelineView::fresh(mode, now),
    {
        Pipeline { mode, counters: Counters::new(), window_start: now }
    }

    /// The conversion mode.
    pub fn mode(&self) -> (mode: ConvertFrom)
        ensures
            mode == self@.mode,
    {
        self.mode
    }

    /// What has passed through since the window began.
    pub fn counters(&self) -> (counters: Counters)
        ensures
            counters == self@.counters,
    {
        self.counters
    }

    /// The time at which the current window began.
    pub fn window_start(&self) -> (start: u64)
        ensures
            start == self@.window_start,
    {
        self.window_start
    }

    /// Takes in the bytes of one read: counts them and renders them for the
    /// sink.
    pub fn receive(&mut self, bytes: &[u8]) -> (output: Output)
        ensures
            output@ == old(self)@.mode.transformed(bytes@),
            final(self)@ == old(self)@.received(bytes@),
    {
        self.counters.add_bytes(bytes.len());
        if self.mode == ConvertFrom::Raw {
            self.counters.scan(bytes);
        }
        self.mode.transform(bytes)
    }

    /// The reporting check: if the window has lasted a second or more at
    /// `now`, hands out its report, zeroes the counters and begins a new
    /// window at `now`. Otherwise nothing changes.
    pub fn report_if_due(&mut self, now: u64) -> (report: Option<Report>)
        ensures
            report == old(self)@.report_at(now),
            final(self)@ == old(self)@.reported(now),
            now - final(self)@.window_start < WINDOW_NANOS,
    {
        let elapsed: u64 = now.saturating_sub(self.window_start);
        if elapsed >= WINDOW_NANOS {
            let report = Report { counters: self.counters, elapsed };
            self.counters = Counters::new();
            self.window_start = now;
            Some(report)
        } else {
            None
        }
    }

    /// One cycle of the loop, from the outcome of the read to the decisions
    /// of that cycle.
    ///
    /// Data is counted and rendered, and the rendering is to be written. A
    /// timeout writes nothing and counts nothing. Either way the reporting
    /// check at `now` follows. A failed read halts: nothing is written,
    /// nothing is reported and the state stays as it was.
    pub fn cycle(&mut self, event: ReadEvent<'_>, now: u64) -> (cycle: Cycle)
        ensures
            match event {
                ReadEvent::Data(bytes) => {
                    &&& cycle.action@ == ActionView::Write(old(self)@.mode.transformed(bytes@))
                    &&& cycle.report == old(self)@.received(bytes@).report_at(now)
                    &&& final(self)@ == old(self)@.received(bytes@).reported(now)
                    &&& now - final(self)@.window_start < WINDOW_NANOS
                },
                ReadEvent::TimedOut => {
                    &&& cycle.action@ == ActionView::Skip
                    &&& cycle.report == old(self)@.report_at(now)
                    &&& final(self)@ == old(self)@.reported(now)
                    &&& now - final(self)@.window_start < WINDOW_NANOS
                },
                ReadEvent::Failed => {
                    &&& cycle.action@ == ActionView::Halt
                    &&& cycle.report is None
                    &&& final(self)@ == old(self)@
                },
            },
            final(self)@.mode == old(self)@.mode,
    {
        match event {
            ReadEvent::Data(bytes) => {
                let output = self.receive(bytes);
                let report = self.report_if_due(now);
                Cycle { action: Action::Write(output), report }
            },
            ReadEvent::TimedOut => {
                let report = self.report_if_due(now);
                Cycle { action: Action::Skip, report }
            },
            ReadEvent::Failed => Cycle { action: Action::Halt, report: None },
        }
    }
}

impl PipelineView {
    /// The state after a run of reads, each of which gave one of `chunks`, with
    /// no reporting check between them.
    pub open spec fn received_all(self, chunks: Seq<Seq<u8>>) -> PipelineView
        decreases chunks.len(),
    {
        if chunks.len() == 0 {
            self
        } else {
            self.received_all(chunks.drop_last()).received(chunks.last())
        }
    }
}

/// The number of bytes in a run of chunks.
pub open spec fn total_len(chunks: Seq<Seq<u8>>) -> nat
    decreases chunks.len(),
{
    if chunks.len() == 0 {
        0
    } else {
        total_len(chunks.drop_last()) + chunks.last().len()
    }
}

/// What the reporting checks give over `windows.len()` windows in a row, each
/// of which takes in its chunks and then meets one reporting check, exactly
/// one second after it began; with the state that the last check leaves.
pub open spec fn run_windows(start: PipelineView, windows: Seq<Seq<Seq<u8>>>) -> (
    PipelineView,
    Seq<Option<Report>>,
)
    decreases windows.len(),
{
    if windows.len() == 0 {
        (start, Seq::empty())
    } else {
        let (state, reports) = run_windows(start, windows.drop_last());
        let full = state.received_all(windows.last());
        let now = (state.window_start + WINDOW_NANOS) as u64;
        (full.reported(now), reports.push(full.report_at(now)))
    }
}

/// In a fresh window under `Raw`, the counters after one read are the
/// literal counts of that read: its length, its spaces, its commas and its
/// newlines.
pub proof fn lemma_raw_counts_are_literal(now: u64, bytes: Seq<u8>)
    requires
        bytes.len() <= u64::MAX,
    ensures
        PipelineView::fresh(ConvertFrom::Raw, now).received(bytes).counters == (Counters {
            bytes: bytes.len() as u64,
            words: occurrences(bytes, SPACE) as u64,
            commas: occurrences(bytes, COMMA) as u64,
            lines: occurrences(bytes, NEWLINE) as u64,
        }),
        occurrences(bytes, SPACE) <= u64::MAX,
        occurrences(bytes, COMMA) <= u64::MAX,
        occurrences(bytes, NEWLINE) <= u64::MAX,
{
    lemma_occurrences_bounded(bytes, SPACE);
    lemma_occurrences_bounded(bytes, COMMA);
    lemma_occurrences_bounded(bytes, NEWLINE);
}

/// Only `Raw` counts words, commas and lines; every mode counts bytes.
pub proof fn lemma_converted_modes_count_bytes_only(state: PipelineView, bytes: Seq<u8>)
    requires
        state.mode != ConvertFrom::Raw,
    ensures
        state.received(bytes).counters == (Counters {
            bytes: saturated(state.counters.bytes + bytes.len()),
            ..state.counters
        }),
{
}

/// A read that gave no bytes changes nothing.
pub proof fn lemma_empty_read_changes_nothing(state: PipelineView)
    ensures
        state.received(Seq::empty()) == state,
{
    lemma_counting_nothing(state.counters);
}

/// Within a window the counters only grow, and neither the mode nor the
/// start of the window moves.
pub proof fn lemma_receiving_only_grows(state: PipelineView, bytes: Seq<u8>)
    ensures
        state.counters.not_above(state.received(bytes).counters),
        state.received(bytes).mode == state.mode,
        state.received(bytes).window_start == state.window_start,
{
}

/// The reporting check keeps the mode. It either leaves the state alone,
/// which it does exactly when less than a second has passed, or zeroes the
/// counters and starts the window at `now`. Either way less than a second
/// lies between the start of the window and `now` afterwards.
pub proof fn lemma_report_resets_window(state: PipelineView, now: u64)
    ensures
        state.reported(now).mode == state.mode,
        state.report_at(now) is None <==> now - state.window_start < WINDOW_NANOS,
        state.report_at(now) is None ==> state.reported(now) == state,
        state.report_at(now) is Some ==> state.reported(now) == PipelineView::fresh(
            state.mode,
            now,
        ),
        state.report_at(now) is Some ==> state.report_at(now)->0.counters == state.counters,
        state.report_at(now) is Some ==> state.report_at(now)->0.elapsed == now
            - state.window_start,
        now - state.reported(now).window_start < WINDOW_NANOS,
{
}

/// A run of reads counts the bytes of all of them.
pub proof fn lemma_received_all_counts_bytes(state: PipelineView, chunks: Seq<Seq<u8>>)
    ensures
        state.received_all(chunks).counters.bytes == saturated(
            state.counters.bytes + total_len(chunks),
        ),
        state.received_all(chunks).mode == state.mode,
        state.received_all(chunks).window_start == state.window_start,
    decreases chunks.len(),
{
    if chunks.len() > 0 {
        lemma_received_all_counts_bytes(state, chunks.drop_last());
    }
}

/// A source of constant rate gives the same report in every window: when each
/// of the windows takes in `rate` bytes and meets its reporting check one
/// second after it began, every check gives a report, and each report shows
/// `rate` bytes in one second. The state left behind is that of a fresh
/// window.
pub proof fn lemma_constant_rate_reports(
    mode: ConvertFrom,
    start: u64,
    windows: Seq<Seq<Seq<u8>>>,
    rate: u64,
)
    requires
        start + windows.len() * WINDOW_NANOS <= u64::MAX,
        forall|w: int| 0 <= w < windows.len() ==> total_len(#[trigger] windows[w]) == rate,
    ensures
        run_windows(PipelineView::fresh(mode, start), windows).1.len() == windows.len(),
        forall|w: int|
            0 <= w < windows.len() ==> {
                let report = #[trigger] run_windows(PipelineView::fresh(mode, start), windows).1[w];
                &&& report is Some
                &&& report->0.counters.bytes == rate
                &&& report->0.elapsed == WINDOW_NANOS
            },
        run_windows(PipelineView::fresh(mode, start), windows).0 == PipelineView::fresh(
            mode,
            (start + windows.len() * WINDOW_NANOS) as u64,
        ),
    decreases windows.len(),
{
    let fresh = PipelineView::fresh(mode, start);
    if windows.len() > 0 {
        let earlier = windows.drop_last();
        assert(start + earlier.len() * WINDOW_NANOS <= u64::MAX) by (nonlinear_arith)
            requires
                start + windows.len() * WINDOW_NANOS <= u64::MAX,
                earlier.len() == windows.len() - 1,
        ;
        assert forall|w: int| 0 <= w < earlier.len() implies total_len(#[trigger] earlier[w])
            == rate by {
            assert(earlier[w] == windows[w]);
        }
        lemma_constant_rate_reports(mode, start, earlier, rate);
        let (state, reports) = run_windows(fresh, earlier);
        assert(state.window_start + WINDOW_NANOS == start + windows.len() * WINDOW_NANOS)
            by (nonlinear_arith)
            requires
                state.window_start == start + earlier.len() * WINDOW_NANOS,
                earlier.len() == windows.len() - 1,
        ;
        lemma_received_all_counts_bytes(state, windows.last());
        assert(total_len(windows[windows.len() - 1]) == rate);
        let all = run_windows(fresh, windows).1;
        assert forall|w: int| 0 <= w < windows.len() implies {
            let report = #[trigger] all[w];
            &&& report is Some
            &&& report->0.counters.bytes == rate
            &&& report->0.elapsed == WINDOW_NANOS
        } by {
            if w < earlier.len() {
                assert(all[w] == reports[w]);
            }
        }
    }
}

} // verus!
