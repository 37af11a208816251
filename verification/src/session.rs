//! The recording session: the menu's actions, the capture buffer that the
//! audio callback fills, the state machine of one recording, and the rule
//! that recognises the user's request to stop.

use vstd::prelude::*;

verus! {

/// The actions offered by the main menu, in their presented order.
#[derive(Clone, Copy, PartialEq, Eq, Structural, Debug)]
pub enum MenuAction {
    SelectInputDevice,
    SelectOutputDevice,
    RecordAudio,
    PlayAudio,
    NotAvailable,
}

/// The menu action denoted by a selection index.
pub open spec fn menu_action_spec(selection: int) -> MenuAction {
    if selection == 0 {
        MenuAction::SelectInputDevice
    } else if selection == 1 {
        MenuAction::SelectOutputDevice
    } else if selection == 2 {
        MenuAction::RecordAudio
    } else if selection == 3 {
        MenuAction::PlayAudio
    } else {
        MenuAction::NotAvailable
    }
}

/// Map the index the user picked in the main menu to an action. Playback
/// is listed but inert; anything outside the menu is not available.
pub fn menu_action(selection: usize) -> (a: MenuAction)
    ensures
        a == menu_action_spec(selection as int),
{
    if selection == 0 {
        MenuAction::SelectInputDevice
    } else if selection == 1 {
        MenuAction::SelectOutputDevice
    } else if selection == 2 {
        MenuAction::RecordAudio
    } else if selection == 3 {
        MenuAction::PlayAudio
    } else {
        MenuAction::NotAvailable
    }
}

/// A byte of ASCII whitespace, as trimmed from interactive input.
pub open spec fn is_space(b: u8) -> bool {
    b == 32 || b == 9 || b == 10 || b == 13 || b == 11 || b == 12
}

/// The line asks to stop recording: after trimming whitespace exactly the
/// single letter `q` or `Q` remains. Equivalently, the line holds exactly
/// one non-whitespace byte and that byte is `q` or `Q`.
pub open spec fn stop_requested(line: Seq<u8>) -> bool {
    exists|i: int|
        0 <= i < line.len() && (line[i] == 81 || line[i] == 113) && (forall|k: int|
            0 <= k < line.len() && k != i ==> is_space(line[k]))
}

/// Exec test for a whitespace byte.
fn is_space_byte(b: u8) -> (r: bool)
    ensures
        r == is_space(b),
{
    b == 32 || b == 9 || b == 10 || b == 13 || b == 11 || b == 12
}

/// Decide whether an input line is the stop command: `q` or `Q` alone up
/// to surrounding whitespace. Any other line leaves the recording running.
pub fn is_stop_command(line: &[u8]) -> (r: bool)
    ensures
        r == stop_requested(line@),
{
    let n = line.len();
    let mut i: usize = 0;
    while i < n && is_space_byte(line[i])
        invariant
            i <= n,
            n == line@.len(),
            forall|k: int| 0 <= k < i ==> is_space(line@[k]),
        decreases n - i,
    {
        i = i + 1;
    }
    if i == n {
        // Only whitespace: any witness for the stop request would have to
        // be a non-whitespace byte.
        return false;
    }
    let c = line[i];
    let mut j = i + 1;
    while j < n && is_space_byte(line[j])
        invariant
            i < j <= n,
            n == line@.len(),
            forall|k: int| i < k < j ==> is_space(line@[k]),
        decreases n - j,
    {
        j = j + 1;
    }
    if j < n {
        // A second non-whitespace byte: no single witness can make every
        // other byte whitespace.
        assert forall|w: int|
            !(0 <= w < line@.len() && (line@[w] == 81 || line@[w] == 113) && (forall|k: int|
                0 <= k < line@.len() && k != w ==> is_space(line@[k]))) by {
            if 0 <= w < line@.len() && (forall|k: int|
                0 <= k < line@.len() && k != w ==> is_space(line@[k])) {
                if w != i as int {
                    assert(is_space(line@[i as int]));
                } else {
                    assert(is_space(line@[j as int]));
                }
            }
        }
        return false;
    }
    let hit = c == 81 || c == 113;
    proof {
        if hit {
            assert(0 <= i < line@.len() && (line@[i as int] == 81 || line@[i as int] == 113) && (
            forall|k: int| 0 <= k < line@.len() && k != i ==> is_space(line@[k])));
        } else {
            if stop_requested(line@) {
                let w = choose|w: int|
                    0 <= w < line@.len() && (line@[w] == 81 || line@[w] == 113) && (forall|k: int|
                        0 <= k < line@.len() && k != w ==> is_space(line@[k]));
                if w != i as int {
                    assert(is_space(line@[i as int]));
                }
            }
        }
    }
    hit
}

/// The phases of one recording session.
#[derive(Clone, Copy, PartialEq, Eq, Structural, Debug)]
pub enum SessionState {
    Idle,
    Recording,
    Stopped,
    Exported,
}

/// What the surrounding program must do after a line of input was judged
/// during recording.
#[derive(Clone, Copy, PartialEq, Eq, Structural, Debug)]
pub enum RecordingAction {
    PauseStream,
    Reprompt,
}

/// Start a recording session: the only step out of `Idle`.
pub fn start_recording(state: SessionState) -> (s: SessionState)
    requires
        state == SessionState::Idle,
    ensures
        s == SessionState::Recording,
{
    SessionState::Recording
}

/// Judge one line of user input while recording. The stop command moves
/// the session to `Stopped` and asks for the stream to be paused; any
/// other line keeps it `Recording` and asks for a fresh prompt.
pub fn recording_step(state: SessionState, line: &[u8]) -> (r: (SessionState, RecordingAction))
    requires
        state == SessionState::Recording,
    ensures
        stop_requested(line@) ==> r == (SessionState::Stopped, RecordingAction::PauseStream),
        !stop_requested(line@) ==> r == (SessionState::Recording, RecordingAction::Reprompt),
{
    if is_stop_command(line) {
        (SessionState::Stopped, RecordingAction::PauseStream)
    } else {
        (SessionState::Recording, RecordingAction::Reprompt)
    }
}

/// Mark the session exported: the only step out of `Stopped`, taken after
/// the captured buffer has been handed to the WAV encoder.
pub fn finish_export(state: SessionState) -> (s: SessionState)
    requires
        state == SessionState::Stopped,
    ensures
        s == SessionState::Exported,
{
    SessionState::Exported
}

/// The buffer of captured samples, appended to block by block as the
/// audio callback delivers data, and read once after the stream stopped.
/// Samples are kept as the 16-bit values the WAV file will hold.
pub struct CaptureBuffer {
    samples: Vec<i16>,
}

impl View for CaptureBuffer {
    type V = Seq<i16>;

    closed spec fn view(&self) -> Seq<i16> {
        self.samples@
    }
}

impl CaptureBuffer {
    /// A fresh, empty buffer for a new recording session.
    pub fn new() -> (b: CaptureBuffer)
        ensures
            b@ == Seq::<i16>::empty(),
    {
        CaptureBuffer { samples: Vec::new() }
    }

    /// Append one callback block. The new contents are the old contents
    /// followed by the block, in arrival order.
    pub fn push_block(&mut self, block: &[i16])
        requires
            old(self)@.len() + block@.len() <= usize::MAX,
        ensures
            final(self)@ == old(self)@ + block@,
    {
        self.samples.extend_from_slice(block);
    }

    /// How many samples have been captured.
    pub fn len(&self) -> (n: usize)
        ensures
            n == self@.len(),
    {
        self.samples.len()
    }

    /// The captured samples, read for export once recording has stopped.
    pub fn samples(&self) -> (s: &Vec<i16>)
        ensures
            s@ == self@,
    {
        &self.samples
    }
}

} // verus!
