//! What is sent to a terminal: commands, frames and whole playbacks.
//!
//! A playback is a finite script. Each frame holds the commands to queue;
//! after them the output is flushed and the caller waits for the frame's
//! pause. The finale is queued and flushed once the last frame is over,
//! with no pause after it. Nothing here writes to a terminal.

use vstd::prelude::*;

verus! {

/// A 24-bit colour of the terminal.
#[derive(Clone, Copy, Debug, PartialEq, Eq, Structural)]
pub struct Rgb {
    pub r: u8,
    pub g: u8,
    pub b: u8,
}

/// One command for the terminal.
#[derive(Clone, Copy, Debug, PartialEq, Eq, Structural)]
pub enum TermCommand {
    /// Remember where the cursor stands.
    SavePosition,
    /// Put the cursor back where it was remembered.
    RestorePosition,
    /// Write what follows in this colour.
    SetForeground(Rgb),
    /// Write what follows in the terminal's own colour.
    ResetColor,
    /// Write one character.
    Print(char),
}

/// One frame of an animation.
#[derive(Clone, Debug)]
pub struct Frame {
    /// The commands of the frame, in the order in which they are queued.
    pub commands: Vec<TermCommand>,
    /// How many milliseconds to wait once the frame is flushed.
    pub pause_ms: u64,
}

/// A frame as contracts see it.
pub struct FrameView {
    pub commands: Seq<TermCommand>,
    pub pause_ms: u64,
}

impl View for Frame {
    type V = FrameView;

    open spec fn view(&self) -> FrameView {
        FrameView { commands: self.commands@, pause_ms: self.pause_ms }
    }
}

/// An animation from its first frame to its last command.
#[derive(Clone, Debug)]
pub struct Playback {
    /// The frames, in the order in which they are shown.
    pub frames: Vec<Frame>,
    /// The commands that follow the last frame.
    pub finale: Vec<TermCommand>,
}

/// A playback as contracts see it.
pub struct PlaybackView {
    pub frames: Seq<FrameView>,
    pub finale: Seq<TermCommand>,
}

impl View for Playback {
    type V = PlaybackView;

    open spec fn view(&self) -> PlaybackView {
        PlaybackView {
            frames: Seq::new(self.frames@.len(), |i: int| self.frames@[i]@),
            finale: self.finale@,
        }
    }
}

/// The command that writes `c`.
pub open spec fn print_of(c: char) -> TermCommand {
    TermCommand::Print(c)
}

/// The commands that write `text`, character by character.
pub open spec fn printed(text: Seq<char>) -> Seq<TermCommand> {
    Seq::new(text.len(), |i: int| print_of(text[i]))
}

/// The pauses of `frames` added up, in milliseconds.
pub open spec fn total_pause(frames: Seq<FrameView>) -> nat
    decreases frames.len(),
{
    if frames.len() == 0 {
        0
    } else {
        total_pause(frames.drop_last()) + frames.last().pause_ms as nat
    }
}

/// Frames that all pause for `speed` milliseconds pause, together, as long
/// as there are frames times `speed`.
pub proof fn law_equal_pauses_add_up(frames: Seq<FrameView>, speed: u64)
    requires
        forall|k: int| 0 <= k < frames.len() ==> (#[trigger] frames[k]).pause_ms == speed,
    ensures
        total_pause(frames) == frames.len() * speed,
    decreases frames.len(),
{
    if frames.len() > 0 {
        let front = frames.drop_last();
        assert forall|k: int| 0 <= k < front.len() implies (#[trigger] front[k]).pause_ms
            == speed by {
            assert(front[k] == frames[k]);
        }
        law_equal_pauses_add_up(front, speed);
        assert(frames.len() * speed == front.len() * speed + speed) by (nonlinear_arith)
            requires
                frames.len() == front.len() + 1,
        ;
    }
}

/// Queues the commands that write `text`.
pub fn queue_text(commands: &mut Vec<TermCommand>, text: &Vec<char>)
    ensures
        final(commands)@ == old(commands)@ + printed(text@),
{
    let ghost before = commands@;
    let mut i: usize = 0;
    while i < text.len()
        invariant
            i <= text.len(),
            commands@.len() == before.len() + i,
            forall|j: int| 0 <= j < before.len() ==> commands@[j] == before[j],
            forall|j: int| 0 <= j < i ==> commands@[before.len() + j] == print_of(text@[j]),
        decreases text.len() - i,
    {
        commands.push(TermCommand::Print(text[i]));
        i += 1;
    }
    assert(commands@ =~= before + printed(text@));
}

impl Playback {
    /// How many frames the playback has.
    pub fn frame_count(&self) -> (count: usize)
        ensures
            count == self@.frames.len(),
    {
        self.frames.len()
    }

    /// The characters that the finale writes, in order.
    pub fn finale_text(&self) -> (text: String)
        ensures
            text@ == printed_chars(self@.finale),
    {
        written_by(&self.finale)
    }
}

impl Frame {
    /// The characters that the frame writes, in order.
    pub fn text(&self) -> (text: String)
        ensures
            text@ == printed_chars(self@.commands),
    {
        written_by(&self.commands)
    }
}

/// The characters that `commands` write, in order.
pub open spec fn printed_chars(commands: Seq<TermCommand>) -> Seq<char>
    decreases commands.len(),
{
    if commands.len() == 0 {
        Seq::empty()
    } else {
        match commands.last() {
            TermCommand::Print(c) => printed_chars(commands.drop_last()).push(c),
            _ => printed_chars(commands.drop_last()),
        }
    }
}

/// The characters that `commands` write, in order, as a string.
pub fn written_by(commands: &Vec<TermCommand>) -> (text: String)
    ensures
        text@ == printed_chars(commands@),
{
    let mut text = String::new();
    let mut i: usize = 0;
    assert(commands@.take(0) =~= Seq::<TermCommand>::empty());
    while i < commands.len()
        invariant
            i <= commands.len(),
            text@ == printed_chars(commands@.take(i as int)),
        decreases commands.len() - i,
    {
        proof {
            let upto = commands@.take(i + 1);
            assert(upto.drop_last() =~= commands@.take(i as int));
            assert(upto.last() == commands@[i as int]);
        }
        match commands[i] {
            TermCommand::Print(c) => {
                crate::text::push_char(&mut text, c);
            },
            _ => {},
        }
        i += 1;
    }
    assert(commands@.take(commands.len() as int) =~= commands@);
    text
}

/// What `printed` queues writes the text again.
pub proof fn lemma_printed_chars_of_printed(text: Seq<char>)
    ensures
        printed_chars(printed(text)) == text,
    decreases text.len(),
{
    if text.len() == 0 {
        assert(printed(text) =~= Seq::<TermCommand>::empty());
        assert(text =~= Seq::<char>::empty());
    } else {
        let front = text.drop_last();
        lemma_printed_chars_of_printed(front);
        assert(printed(text).drop_last() =~= printed(front));
        assert(printed(text).last() == TermCommand::Print(text.last()));
        assert(front.push(text.last()) =~= text);
    }
}

/// What two runs of commands write, one after the other, is what the first
/// writes followed by what the second writes.
pub proof fn lemma_printed_chars_concat(first: Seq<TermCommand>, second: Seq<TermCommand>)
    ensures
        printed_chars(first + second) == printed_chars(first) + printed_chars(second),
    decreases second.len(),
{
    if second.len() == 0 {
        assert(first + second =~= first);
        assert(printed_chars(first) + printed_chars(second) =~= printed_chars(first));
    } else {
        let both = first + second;
        assert(both.drop_last() =~= first + second.drop_last());
        assert(both.last() == second.last());
        lemma_printed_chars_concat(first, second.drop_last());
        match second.last() {
            TermCommand::Print(c) => {
                assert((printed_chars(first) + printed_chars(second.drop_last())).push(c)
                    =~= printed_chars(first) + printed_chars(second.drop_last()).push(c));
            },
            _ => {},
        }
    }
}

} // verus!
