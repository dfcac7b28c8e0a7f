//! Animated text: each style is a finite script of frames.
//!
//! The scripts are computed here and played elsewhere. A player queues the
//! commands of a frame, flushes, waits for the frame's pause and goes on to
//! the next frame; after the last one it queues and flushes the finale.

use vstd::prelude::*;
use rand::rngs::ThreadRng;
use rand::Rng;
use crate::term::{
    print_of,
    printed,
    law_equal_pauses_add_up,
    lemma_printed_chars_concat,
    lemma_printed_chars_of_printed,
    printed_chars,
    queue_text,
    total_pause,
    Frame,
    FrameView,
    Playback,
    PlaybackView,
    Rgb,
    TermCommand,
};
use crate::text::chars_of;

verus! {

/// The way in which a text is animated.
#[derive(Clone, Copy, Debug, PartialEq, Eq, Structural)]
pub enum AnimationStyle {
    /// One character after the other, as if typed.
    Type,
    /// The whole text, in five steps from grey to white.
    Fade,
    /// Each character in a colour of the rainbow, the colours moving on
    /// from frame to frame.
    Rainbow,
    /// Characters flickering between themselves and random glyphs.
    Matrix,
    /// No animation: the text is written once.
    Off,
}

/// The way in which an animation is coloured.
#[derive(Clone, Debug)]
pub enum ColorMode {
    Gradient(Vec<Rgb>),
    Rainbow,
    Static(Rgb),
    Off,
}

/// The settings of an animation.
#[derive(Clone, Debug)]
pub struct AnimationConfig {
    /// Milliseconds for which each frame stays.
    pub speed: u64,
    pub style: AnimationStyle,
    pub color_mode: ColorMode,
}

impl Default for AnimationConfig {
    fn default() -> (config: AnimationConfig)
        ensures
            config.speed == 100,
            config.style == AnimationStyle::Off,
            config.color_mode is Off,
    {
        AnimationConfig { speed: 100, style: AnimationStyle::Off, color_mode: ColorMode::Off }
    }
}

/// How many frames the fade animation has.
pub const FADE_FRAMES: usize = 5;

/// How many frames the rainbow animation has.
pub const RAINBOW_FRAMES: usize = 50;

/// How many frames the matrix animation has.
pub const MATRIX_FRAMES: usize = 15;

/// A grey with all three parts equal to `level`.
pub open spec fn grey(level: u8) -> Rgb {
    Rgb { r: level, g: level, b: level }
}

/// The greys of the fade animation, darkest first.
pub open spec fn fade_shades() -> Seq<Rgb> {
    seq![grey(128), grey(160), grey(192), grey(224), grey(255)]
}

/// The colours of the rainbow animation: red, orange, yellow, green, blue,
/// indigo, violet.
pub open spec fn rainbow_palette() -> Seq<Rgb> {
    seq![
        Rgb { r: 255, g: 0, b: 0 },
        Rgb { r: 255, g: 127, b: 0 },
        Rgb { r: 255, g: 255, b: 0 },
        Rgb { r: 0, g: 255, b: 0 },
        Rgb { r: 0, g: 0, b: 255 },
        Rgb { r: 75, g: 0, b: 130 },
        Rgb { r: 148, g: 0, b: 211 },
    ]
}

/// A palette turned left by one place: its first colour goes to the end.
pub open spec fn rotate_left(palette: Seq<Rgb>) -> Seq<Rgb> {
    if palette.len() == 0 {
        palette
    } else {
        palette.drop_first().push(palette[0])
    }
}

/// A palette turned left `times` times.
pub open spec fn turned(palette: Seq<Rgb>, times: nat) -> Seq<Rgb>
    decreases times,
{
    if times == 0 {
        palette
    } else {
        rotate_left(turned(palette, (times - 1) as nat))
    }
}

/// The palette with which frame `frame` of the rainbow animation is drawn,
/// counting from 0: the first frame has the palette in its own order, and
/// each later frame the palette of the frame before it, turned left once.
pub open spec fn palette_at(frame: nat) -> Seq<Rgb> {
    turned(rainbow_palette(), frame)
}

/// The bright green of the matrix animation.
pub open spec fn bright_green() -> Rgb {
    Rgb { r: 0, g: 255, b: 0 }
}

/// The dim green of the matrix animation.
pub open spec fn dim_green() -> Rgb {
    Rgb { r: 0, g: 200, b: 0 }
}

/// The glyphs that the matrix animation puts in place of characters.
pub open spec fn matrix_glyphs() -> Seq<char> {
    seq![
        '\u{ff8a}', '\u{ff90}', '\u{ff8b}', '\u{ff70}', '\u{ff73}', '\u{ff7c}', '\u{ff85}',
        '\u{ff93}', '\u{ff86}', '\u{ff7b}', '\u{ff9c}', '\u{ff82}', '\u{ff75}', '\u{ff98}',
        '\u{ff71}', '\u{ff8e}', '\u{ff83}', '\u{ff8f}', '\u{ff79}', '\u{ff92}', '\u{ff74}',
        '\u{ff76}', '\u{ff77}', '\u{ff91}', '\u{ff95}', '\u{ff97}', '\u{ff7e}', '\u{ff88}',
        '\u{ff7d}', '\u{ff80}', '\u{ff87}', '\u{ff8d}',
    ]
}

/// Frame `index` of the type animation: it writes one character.
pub open spec fn type_frame(text: Seq<char>, index: int, speed: u64) -> FrameView {
    FrameView { commands: seq![print_of(text[index])], pause_ms: speed }
}

/// The type animation of `text`: one frame for each character, in order,
/// and nothing after them.
pub open spec fn type_playback(text: Seq<char>, speed: u64) -> PlaybackView {
    PlaybackView {
        frames: Seq::new(text.len(), |k: int| type_frame(text, k, speed)),
        finale: Seq::empty(),
    }
}

/// Frame `index` of the fade animation: the whole text in one grey, drawn
/// from the remembered place, to which the cursor then goes back.
pub open spec fn fade_frame(text: Seq<char>, index: int, speed: u64) -> FrameView {
    FrameView {
        commands: seq![TermCommand::SavePosition, TermCommand::SetForeground(fade_shades()[index])]
            + printed(text) + seq![TermCommand::RestorePosition],
        pause_ms: speed,
    }
}

/// The fade animation of `text`: five frames, then the text in the
/// terminal's own colour.
pub open spec fn fade_playback(text: Seq<char>, speed: u64) -> PlaybackView {
    PlaybackView {
        frames: Seq::new(FADE_FRAMES as nat, |k: int| fade_frame(text, k, speed)),
        finale: seq![TermCommand::ResetColor] + printed(text),
    }
}

/// The characters of `text` with their rainbow colours: character `i` is
/// written in colour `i` modulo 7 of `palette`.
pub open spec fn rainbow_cells(text: Seq<char>, palette: Seq<Rgb>) -> Seq<TermCommand>
    decreases text.len(),
{
    if text.len() == 0 {
        Seq::empty()
    } else {
        rainbow_cells(text.drop_last(), palette) + seq![
            TermCommand::SetForeground(palette[(text.len() - 1) % 7]),
            print_of(text.last()),
        ]
    }
}

/// What stands at the head of a frame that is drawn over the one before
/// it: from the second frame on, the cursor goes back first.
pub open spec fn frame_lead(index: int) -> Seq<TermCommand> {
    if index == 0 {
        Seq::empty()
    } else {
        seq![TermCommand::RestorePosition]
    }
}

/// The head of a frame that is drawn from the place where the animation
/// began: from the second frame on the cursor goes back there, and in
/// every frame that place is remembered before anything is written.
pub open spec fn frame_head(index: int) -> Seq<TermCommand> {
    frame_lead(index) + seq![TermCommand::SavePosition]
}

/// Frame `index` of the rainbow animation: the head, then each character
/// in its colour.
pub open spec fn rainbow_frame(text: Seq<char>, index: int, speed: u64) -> FrameView {
    FrameView {
        commands: frame_head(index) + rainbow_cells(text, palette_at(index as nat)),
        pause_ms: speed,
    }
}

/// The rainbow animation of `text`: fifty frames, then the text in the
/// terminal's own colour, drawn over the last frame.
pub open spec fn rainbow_playback(text: Seq<char>, speed: u64) -> PlaybackView {
    PlaybackView {
        frames: Seq::new(RAINBOW_FRAMES as nat, |k: int| rainbow_frame(text, k, speed)),
        finale: seq![TermCommand::RestorePosition, TermCommand::ResetColor] + printed(text),
    }
}

/// One character of a matrix frame: a glyph in bright green where the
/// character is scrambled, the character itself in dim green where not.
pub open spec fn matrix_cell_of(character: char, scramble: bool, pick: int) -> (
    TermCommand,
    TermCommand,
) {
    if scramble {
        (TermCommand::SetForeground(bright_green()), print_of(matrix_glyphs()[pick]))
    } else {
        (TermCommand::SetForeground(dim_green()), print_of(character))
    }
}

/// `first` and `second` are what a matrix frame may hold for `character`.
pub open spec fn is_matrix_cell(first: TermCommand, second: TermCommand, character: char) -> bool {
    exists|scramble: bool, pick: int|
        0 <= pick < matrix_glyphs().len() && (first, second) == #[trigger] matrix_cell_of(
            character,
            scramble,
            pick,
        )
}

/// How many commands stand in a matrix frame before its first character.
pub open spec fn matrix_lead(index: int) -> int {
    frame_lead(index).len() as int + 1
}

/// `frame` is a frame `index` of the matrix animation of `text`: the
/// cursor's place is remembered, and then each character of the text has
/// its cell, in order.
pub open spec fn is_matrix_frame(frame: FrameView, text: Seq<char>, index: int, speed: u64) -> bool {
    let lead = matrix_lead(index);
    &&& frame.pause_ms == speed
    &&& frame.commands.len() == lead + 2 * text.len()
    &&& frame.commands.take(lead) == frame_lead(index) + seq![TermCommand::SavePosition]
    &&& forall|i: int|
        0 <= i < text.len() ==> is_matrix_cell(
            #[trigger] frame.commands[lead + 2 * i],
            frame.commands[lead + 2 * i + 1],
            text[i],
        )
}

/// The commands after the last matrix frame: the text itself in bright
/// green, drawn over the frame, and the colour set back.
pub open spec fn matrix_finale(text: Seq<char>) -> Seq<TermCommand> {
    seq![TermCommand::RestorePosition, TermCommand::SetForeground(bright_green())] + printed(text)
        + seq![TermCommand::ResetColor]
}

/// `play` is a matrix animation of `text`: fifteen frames, then the text.
pub open spec fn is_matrix_playback(play: PlaybackView, text: Seq<char>, speed: u64) -> bool {
    &&& play.frames.len() == MATRIX_FRAMES
    &&& forall|k: int|
        0 <= k < MATRIX_FRAMES ==> is_matrix_frame(#[trigger] play.frames[k], text, k, speed)
    &&& play.finale == matrix_finale(text)
}

/// The text written once, with no frame.
pub open spec fn plain_playback(text: Seq<char>) -> PlaybackView {
    PlaybackView { frames: Seq::empty(), finale: printed(text) }
}

/// `play` is an animation of `text` in `style`.
pub open spec fn is_playback_of(
    play: PlaybackView,
    style: AnimationStyle,
    text: Seq<char>,
    speed: u64,
) -> bool {
    match style {
        AnimationStyle::Type => play == type_playback(text, speed),
        AnimationStyle::Fade => play == fade_playback(text, speed),
        AnimationStyle::Rainbow => play == rainbow_playback(text, speed),
        AnimationStyle::Matrix => is_matrix_playback(play, text, speed),
        AnimationStyle::Off => play == plain_playback(text),
    }
}

/// A generator of random numbers that belongs to the running thread.
#[verifier::external_type_specification]
#[verifier::external_body]
pub struct ExThreadRng(ThreadRng);

/// The random number generator of the running thread. Trusted: this is
/// `rand::thread_rng`.
#[verifier::external_body]
fn thread_generator() -> (rng: ThreadRng) {
    rand::thread_rng()
}

/// A random truth value. Trusted: this is `Rng::gen` of `rand`, for `bool`;
/// either value may come back.
#[verifier::external_body]
fn random_flip(rng: &mut ThreadRng) -> (heads: bool) {
    rng.gen::<bool>()
}

/// A random index below `bound`. Trusted: this is `Rng::gen_range` of
/// `rand` on the range from 0 up to and without `bound`, which gives a
/// value of that range and panics on an empty one.
#[verifier::external_body]
fn random_below(rng: &mut ThreadRng, bound: usize) -> (pick: usize)
    requires
        bound > 0,
    ensures
        pick < bound,
{
    rng.gen_range(0..bound)
}

/// The grey of frame `index` of the fade animation.
fn fade_shade(index: usize) -> (shade: Rgb)
    requires
        index < FADE_FRAMES,
    ensures
        shade == fade_shades()[index as int],
{
    let level: u8 = if index == 0 {
        128
    } else if index == 1 {
        160
    } else if index == 2 {
        192
    } else if index == 3 {
        224
    } else {
        255
    };
    Rgb { r: level, g: level, b: level }
}

/// The rainbow palette in its own order.
fn fresh_palette() -> (palette: Vec<Rgb>)
    ensures
        palette@ == rainbow_palette(),
{
    let mut palette: Vec<Rgb> = Vec::new();
    palette.push(Rgb { r: 255, g: 0, b: 0 });
    palette.push(Rgb { r: 255, g: 127, b: 0 });
    palette.push(Rgb { r: 255, g: 255, b: 0 });
    palette.push(Rgb { r: 0, g: 255, b: 0 });
    palette.push(Rgb { r: 0, g: 0, b: 255 });
    palette.push(Rgb { r: 75, g: 0, b: 130 });
    palette.push(Rgb { r: 148, g: 0, b: 211 });
    assert(palette@ =~= rainbow_palette());
    palette
}

/// Turns a palette left by one place.
fn rotate_palette(palette: &mut Vec<Rgb>)
    requires
        old(palette)@.len() > 0,
    ensures
        final(palette)@ == rotate_left(old(palette)@),
{
    let ghost before = palette@;
    let first = palette[0];
    let last = palette.len() - 1;
    let mut i: usize = 0;
    while i < last
        invariant
            i <= last,
            last + 1 == before.len(),
            palette@.len() == before.len(),
            forall|j: int| 0 <= j < i ==> palette@[j] == before[j + 1],
            forall|j: int| i <= j < before.len() ==> palette@[j] == before[j],
        decreases last - i,
    {
        let next = palette[i + 1];
        palette.set(i, next);
        i += 1;
    }
    palette.set(last, first);
    assert(palette@ =~= rotate_left(before));
}

/// Queues the characters of `text` with their rainbow colours.
fn queue_rainbow_cells(commands: &mut Vec<TermCommand>, text: &Vec<char>, palette: &Vec<Rgb>)
    requires
        palette@.len() == 7,
    ensures
        final(commands)@ == old(commands)@ + rainbow_cells(text@, palette@),
{
    let ghost before = commands@;
    let mut i: usize = 0;
    assert(text@.take(0) =~= Seq::<char>::empty());
    assert(before + rainbow_cells(text@.take(0), palette@) =~= before);
    while i < text.len()
        invariant
            i <= text.len(),
            palette@.len() == 7,
            commands@ == before + rainbow_cells(text@.take(i as int), palette@),
        decreases text.len() - i,
    {
        let color = palette[i % 7];
        let ghost held = commands@;
        commands.push(TermCommand::SetForeground(color));
        commands.push(TermCommand::Print(text[i]));
        proof {
            let upto = text@.take(i + 1);
            assert(upto.drop_last() =~= text@.take(i as int));
            assert(upto.last() == text@[i as int]);
            assert(commands@ =~= held + seq![
                TermCommand::SetForeground(color),
                print_of(text@[i as int]),
            ]);
            assert(commands@ =~= before + rainbow_cells(upto, palette@));
        }
        i += 1;
    }
    assert(text@.take(text.len() as int) =~= text@);
}

/// The glyph at `index` of the matrix glyphs.
fn matrix_glyph(index: usize) -> (glyph: char)
    requires
        index < 32,
    ensures
        glyph == matrix_glyphs()[index as int],
{
    let table: [char; 32] = [
        '\u{ff8a}', '\u{ff90}', '\u{ff8b}', '\u{ff70}', '\u{ff73}', '\u{ff7c}', '\u{ff85}',
        '\u{ff93}', '\u{ff86}', '\u{ff7b}', '\u{ff9c}', '\u{ff82}', '\u{ff75}', '\u{ff98}',
        '\u{ff71}', '\u{ff8e}', '\u{ff83}', '\u{ff8f}', '\u{ff79}', '\u{ff92}', '\u{ff74}',
        '\u{ff76}', '\u{ff77}', '\u{ff91}', '\u{ff95}', '\u{ff97}', '\u{ff7e}', '\u{ff88}',
        '\u{ff7d}', '\u{ff80}', '\u{ff87}', '\u{ff8d}',
    ];
    assert(table@ =~= matrix_glyphs());
    table[index]
}

/// One character of a matrix frame, for a given outcome of the two random
/// draws: whether the character is scrambled, and which glyph takes its
/// place if it is.
pub fn matrix_cell(character: char, scramble: bool, pick: usize) -> (cell: (
    TermCommand,
    TermCommand,
))
    requires
        pick < 32,
    ensures
        cell == matrix_cell_of(character, scramble, pick as int),
        is_matrix_cell(cell.0, cell.1, character),
{
    let cell = if scramble {
        let glyph = matrix_glyph(pick);
        (TermCommand::SetForeground(Rgb { r: 0, g: 255, b: 0 }), TermCommand::Print(glyph))
    } else {
        (TermCommand::SetForeground(Rgb { r: 0, g: 200, b: 0 }), TermCommand::Print(character))
    };
    assert((cell.0, cell.1) == matrix_cell_of(character, scramble, pick as int));
    cell
}

/// Frame `index` of a matrix animation of `text`, with fresh random draws
/// for each character.
fn matrix_frame(text: &Vec<char>, index: usize, speed: u64, rng: &mut ThreadRng) -> (frame: Frame)
    ensures
        is_matrix_frame(frame@, text@, index as int, speed),
{
    let mut commands: Vec<TermCommand> = Vec::new();
    if index > 0 {
        commands.push(TermCommand::RestorePosition);
    }
    commands.push(TermCommand::SavePosition);
    let ghost lead = matrix_lead(index as int);
    let ghost head = commands@;
    assert(head =~= frame_lead(index as int) + seq![TermCommand::SavePosition]);
    let mut i: usize = 0;
    while i < text.len()
        invariant
            i <= text.len(),
            lead == matrix_lead(index as int),
            head.len() == lead,
            commands@.len() == lead + 2 * i,
            commands@.take(lead) == head,
            forall|j: int|
                0 <= j < i ==> is_matrix_cell(
                    #[trigger] commands@[lead + 2 * j],
                    commands@[lead + 2 * j + 1],
                    text@[j],
                ),
        decreases text.len() - i,
    {
        let scramble = random_flip(rng);
        let pick = if scramble {
            random_below(rng, 32)
        } else {
            0
        };
        let cell = matrix_cell(text[i], scramble, pick);
        let ghost held = commands@;
        commands.push(cell.0);
        commands.push(cell.1);
        proof {
            assert(commands@.take(lead) =~= held.take(lead));
            assert forall|j: int| 0 <= j < i + 1 implies is_matrix_cell(
                #[trigger] commands@[lead + 2 * j],
                commands@[lead + 2 * j + 1],
                text@[j],
            ) by {
                if j < i {
                    assert(commands@[lead + 2 * j] == held[lead + 2 * j]);
                    assert(commands@[lead + 2 * j + 1] == held[lead + 2 * j + 1]);
                }
            }
        }
        i += 1;
    }
    Frame { commands, pause_ms: speed }
}

/// Plays a text frame by frame.
pub struct TextAnimator {
    config: AnimationConfig,
}

impl TextAnimator {
    /// The pause of each frame, in milliseconds.
    pub closed spec fn speed(self) -> u64 {
        self.config.speed
    }

    /// The style in which the animator plays.
    pub closed spec fn style(self) -> AnimationStyle {
        self.config.style
    }

    /// The way in which the animator is to colour.
    pub closed spec fn color_mode(self) -> ColorMode {
        self.config.color_mode
    }

    /// An animator with the given settings.
    pub fn new(config: AnimationConfig) -> (animator: TextAnimator)
        ensures
            animator.speed() == config.speed,
            animator.style() == config.style,
            animator.color_mode() == config.color_mode,
    {
        TextAnimator { config }
    }

    /// The settings of the animator.
    pub fn config(&self) -> (config: &AnimationConfig)
        ensures
            config.speed == self.speed(),
            config.style == self.style(),
            config.color_mode == self.color_mode(),
    {
        &self.config
    }

    /// The animation of `text` in the animator's style.
    pub fn animate(&self, text: &str) -> (play: Playback)
        ensures
            is_playback_of(play@, self.style(), text@, self.speed()),
    {
        match self.config.style {
            AnimationStyle::Type => self.type_animation(text),
            AnimationStyle::Fade => self.fade_animation(text),
            AnimationStyle::Rainbow => self.rainbow_animation(text),
            AnimationStyle::Matrix => self.matrix_animation(text),
            AnimationStyle::Off => {
                let chars = chars_of(text);
                let mut finale: Vec<TermCommand> = Vec::new();
                queue_text(&mut finale, &chars);
                let play = Playback { frames: Vec::new(), finale };
                assert(play@.frames =~= Seq::<FrameView>::empty());
                assert(play@.finale =~= printed(text@));
                play
            },
        }
    }

    /// The type animation of `text`: one frame for each character.
    pub fn type_animation(&self, text: &str) -> (play: Playback)
        ensures
            play@ == type_playback(text@, self.speed()),
    {
        let chars = chars_of(text);
        let speed = self.config.speed;
        let mut frames: Vec<Frame> = Vec::new();
        let mut i: usize = 0;
        while i < chars.len()
            invariant
                i <= chars.len(),
                frames@.len() == i,
                forall|k: int| 0 <= k < i ==> (#[trigger] frames@[k])@ == type_frame(chars@, k, speed),
            decreases chars.len() - i,
        {
            let mut commands: Vec<TermCommand> = Vec::new();
            commands.push(TermCommand::Print(chars[i]));
            assert(commands@ =~= seq![print_of(chars@[i as int])]);
            frames.push(Frame { commands, pause_ms: speed });
            i += 1;
        }
        let play = Playback { frames, finale: Vec::new() };
        assert(play@.frames =~= type_playback(text@, speed).frames);
        assert(play@.finale =~= type_playback(text@, speed).finale);
        play
    }

    /// The fade animation of `text`: five frames from grey to white.
    pub fn fade_animation(&self, text: &str) -> (play: Playback)
        ensures
            play@ == fade_playback(text@, self.speed()),
    {
        let chars = chars_of(text);
        let speed = self.config.speed;
        let mut frames: Vec<Frame> = Vec::new();
        let mut k: usize = 0;
        while k < FADE_FRAMES
            invariant
                k <= FADE_FRAMES,
                frames@.len() == k,
                forall|f: int| 0 <= f < k ==> (#[trigger] frames@[f])@ == fade_frame(chars@, f, speed),
            decreases FADE_FRAMES - k,
        {
            let mut commands: Vec<TermCommand> = Vec::new();
            commands.push(TermCommand::SavePosition);
            commands.push(TermCommand::SetForeground(fade_shade(k)));
            queue_text(&mut commands, &chars);
            commands.push(TermCommand::RestorePosition);
            assert(commands@ =~= fade_frame(chars@, k as int, speed).commands);
            frames.push(Frame { commands, pause_ms: speed });
            k += 1;
        }
        let mut finale: Vec<TermCommand> = Vec::new();
        finale.push(TermCommand::ResetColor);
        queue_text(&mut finale, &chars);
        let play = Playback { frames, finale };
        assert(play@.frames =~= fade_playback(text@, speed).frames);
        assert(play@.finale =~= fade_playback(text@, speed).finale);
        play
    }

    /// The rainbow animation of `text`: fifty frames, the palette turned
    /// left by one place after each.
    pub fn rainbow_animation(&self, text: &str) -> (play: Playback)
        ensures
            play@ == rainbow_playback(text@, self.speed()),
    {
        let chars = chars_of(text);
        let speed = self.config.speed;
        let mut colors = fresh_palette();
        let mut frames: Vec<Frame> = Vec::new();
        let mut k: usize = 0;
        while k < RAINBOW_FRAMES
            invariant
                k <= RAINBOW_FRAMES,
                frames@.len() == k,
                colors@ == palette_at(k as nat),
                colors@.len() == 7,
                forall|f: int|
                    0 <= f < k ==> (#[trigger] frames@[f])@ == rainbow_frame(chars@, f, speed),
            decreases RAINBOW_FRAMES - k,
        {
            let mut commands: Vec<TermCommand> = Vec::new();
            if k > 0 {
                commands.push(TermCommand::RestorePosition);
            }
            commands.push(TermCommand::SavePosition);
            assert(commands@ =~= frame_head(k as int));
            queue_rainbow_cells(&mut commands, &chars, &colors);
            frames.push(Frame { commands, pause_ms: speed });
            rotate_palette(&mut colors);
            k += 1;
        }
        let mut finale: Vec<TermCommand> = Vec::new();
        finale.push(TermCommand::RestorePosition);
        finale.push(TermCommand::ResetColor);
        queue_text(&mut finale, &chars);
        let play = Playback { frames, finale };
        assert(play@.frames =~= rainbow_playback(text@, speed).frames);
        assert(play@.finale =~= rainbow_playback(text@, speed).finale);
        play
    }

    /// A matrix animation of `text`: fifteen frames of flickering
    /// characters, then the text itself.
    pub fn matrix_animation(&self, text: &str) -> (play: Playback)
        ensures
            is_matrix_playback(play@, text@, self.speed()),
    {
        let chars = chars_of(text);
        let speed = self.config.speed;
        let mut rng = thread_generator();
        let mut frames: Vec<Frame> = Vec::new();
        let mut k: usize = 0;
        while k < MATRIX_FRAMES
            invariant
                k <= MATRIX_FRAMES,
                frames@.len() == k,
                forall|f: int|
                    0 <= f < k ==> is_matrix_frame((#[trigger] frames@[f])@, chars@, f, speed),
            decreases MATRIX_FRAMES - k,
        {
            let frame = matrix_frame(&chars, k, speed, &mut rng);
            frames.push(frame);
            k += 1;
        }
        let mut finale: Vec<TermCommand> = Vec::new();
        finale.push(TermCommand::RestorePosition);
        finale.push(TermCommand::SetForeground(Rgb { r: 0, g: 255, b: 0 }));
        queue_text(&mut finale, &chars);
        finale.push(TermCommand::ResetColor);
        let play = Playback { frames, finale };
        assert(play@.finale =~= matrix_finale(text@));
        assert forall|f: int| 0 <= f < MATRIX_FRAMES implies is_matrix_frame(
            #[trigger] play@.frames[f],
            text@,
            f,
            speed,
        ) by {
            assert(play@.frames[f] == play.frames@[f]@);
        }
        play
    }
}

/// How many frames an animation of a text of `length` characters has.
pub open spec fn frame_count(style: AnimationStyle, length: nat) -> nat {
    match style {
        AnimationStyle::Type => length,
        AnimationStyle::Fade => FADE_FRAMES as nat,
        AnimationStyle::Rainbow => RAINBOW_FRAMES as nat,
        AnimationStyle::Matrix => MATRIX_FRAMES as nat,
        AnimationStyle::Off => 0,
    }
}

/// An animation has as many frames as its style says: one for each
/// character when typed, 5 when faded, 50 for the rainbow, 15 for the
/// matrix, none without a style. Each frame pauses for the speed, so that
/// the whole animation pauses for the number of frames times the speed.
pub proof fn law_frames_and_duration(
    play: PlaybackView,
    style: AnimationStyle,
    text: Seq<char>,
    speed: u64,
)
    requires
        is_playback_of(play, style, text, speed),
    ensures
        play.frames.len() == frame_count(style, text.len()),
        forall|k: int| 0 <= k < play.frames.len() ==> (#[trigger] play.frames[k]).pause_ms == speed,
        total_pause(play.frames) == frame_count(style, text.len()) * speed,
{
    law_equal_pauses_add_up(play.frames, speed);
}

/// Frame `index` of the type animation writes character `index` of the
/// text and nothing else.
pub proof fn law_type_frame_writes_one_character(text: Seq<char>, speed: u64, index: int)
    requires
        0 <= index < text.len(),
    ensures
        type_playback(text, speed).frames.len() == text.len(),
        type_playback(text, speed).frames[index].commands == seq![TermCommand::Print(text[index])],
        printed_chars(type_playback(text, speed).frames[index].commands) == seq![text[index]],
{
    let commands = type_playback(text, speed).frames[index].commands;
    assert(commands.last() == TermCommand::Print(text[index]));
    assert(commands.drop_last() =~= Seq::<TermCommand>::empty());
    assert(printed_chars(commands.drop_last()) =~= Seq::<char>::empty());
    assert(printed_chars(commands) =~= seq![text[index]]);
}

/// The first frame of the rainbow animation has the palette in its own
/// order, and each later frame has the palette of the frame before it
/// turned left by one place. So frame `frame`, counted from 0, has at place
/// `j` the colour that stands `frame` places further on in the palette,
/// going round, and after seven frames the palette is as it was.
pub proof fn law_rainbow_palette_turns(frame: nat)
    ensures
        palette_at(0) == rainbow_palette(),
        palette_at(frame + 1) == rotate_left(palette_at(frame)),
        palette_at(frame).len() == 7,
        forall|j: int|
            0 <= j < 7 ==> (#[trigger] palette_at(frame)[j]) == rainbow_palette()[(j + frame) % 7],
        palette_at(frame + 7) == palette_at(frame),
{
    let base = rainbow_palette();
    assert(base.len() == 7);
    lemma_turned(base, frame);
    lemma_turned_round(base, frame);
}

/// A palette of seven colours turned left seven times more is as it was.
proof fn lemma_turned_round(palette: Seq<Rgb>, times: nat)
    requires
        palette.len() == 7,
    ensures
        turned(palette, times + 7) == turned(palette, times),
{
    let once = turned(palette, times);
    let round = turned(palette, times + 7);
    lemma_turned(palette, times);
    lemma_turned(palette, times + 7);
    assert forall|j: int| 0 <= j < 7 implies round[j] == once[j] by {
        assert((j + (times + 7)) % 7 == (j + times) % 7);
    }
    assert(round =~= once);
}

/// A palette of seven colours turned left `times` times, place by place.
proof fn lemma_turned(palette: Seq<Rgb>, times: nat)
    requires
        palette.len() == 7,
    ensures
        turned(palette, times).len() == 7,
        forall|j: int|
            0 <= j < 7 ==> (#[trigger] turned(palette, times)[j]) == palette[(j + times) % 7],
    decreases times,
{
    if times > 0 {
        lemma_turned(palette, (times - 1) as nat);
        let before = turned(palette, (times - 1) as nat);
        let after = turned(palette, times);
        assert(after == before.drop_first().push(before[0]));
        assert forall|j: int| 0 <= j < 7 implies (#[trigger] after[j]) == palette[(j + times)
            % 7] by {
            if j < 6 {
                assert(after[j] == before[j + 1]);
                assert((j + 1 + (times - 1)) % 7 == (j + times) % 7);
            } else {
                assert(after[j] == before[0]);
                assert((0 + (times - 1)) % 7 == (6 + times) % 7);
            }
        }
    }
}

/// In a frame of the rainbow animation each character of the text takes
/// two commands: the colour is set to the one that the palette has for the
/// character's place modulo 7, and the character is written.
pub proof fn law_rainbow_cells(text: Seq<char>, palette: Seq<Rgb>, place: int)
    requires
        0 <= place < text.len(),
    ensures
        rainbow_cells(text, palette).len() == 2 * text.len(),
        rainbow_cells(text, palette)[2 * place] == TermCommand::SetForeground(palette[place % 7]),
        rainbow_cells(text, palette)[2 * place + 1] == TermCommand::Print(text[place]),
    decreases text.len(),
{
    let front = text.drop_last();
    lemma_rainbow_cells_len(front, palette);
    if place < text.len() - 1 {
        law_rainbow_cells(front, palette, place);
    }
}

/// Every frame of the rainbow animation is drawn from one place: the
/// cursor's place is remembered once, at the head of the frame and before
/// any character, and from the second frame on the cursor goes back to the
/// remembered place first. No other command of a frame moves the cursor
/// back or remembers its place.
pub proof fn law_rainbow_frames_start_in_one_place(text: Seq<char>, speed: u64, frame: int)
    requires
        0 <= frame < RAINBOW_FRAMES,
    ensures
        ({
            let commands = rainbow_frame(text, frame, speed).commands;
            let head = frame_head(frame).len() as int;
            &&& rainbow_playback(text, speed).frames[frame] == rainbow_frame(text, frame, speed)
            &&& commands.len() == head + 2 * text.len()
            &&& commands.take(head) == frame_head(frame)
            &&& frame > 0 ==> commands[0] == TermCommand::RestorePosition
            &&& commands[head - 1] == TermCommand::SavePosition
            &&& forall|i: int|
                head <= i < commands.len() ==> (#[trigger] commands[i]) is SetForeground
                    || commands[i] is Print
        }),
{
    let palette = palette_at(frame as nat);
    let cells = rainbow_cells(text, palette);
    let commands = rainbow_frame(text, frame, speed).commands;
    let head = frame_head(frame).len() as int;
    lemma_rainbow_cells_len(text, palette);
    assert(commands.take(head) =~= frame_head(frame));
    assert forall|i: int| head <= i < commands.len() implies (#[trigger] commands[i])
        is SetForeground || commands[i] is Print by {
        let j = i - head;
        let place = j / 2;
        assert(commands[i] == cells[j]);
        law_rainbow_cells(text, palette, place);
        assert(j == 2 * place || j == 2 * place + 1);
    }
}

/// In frame `frame` of the rainbow animation, counted from 0, the
/// character at `place` is written in the colour that stands `place` plus
/// `frame` places on in the palette, going round.
pub proof fn law_rainbow_colours_move_on(text: Seq<char>, speed: u64, frame: int, place: int)
    requires
        0 <= frame < RAINBOW_FRAMES,
        0 <= place < text.len(),
    ensures
        rainbow_playback(text, speed).frames[frame] == rainbow_frame(text, frame, speed),
        rainbow_frame(text, frame, speed).commands.len() == frame_head(frame).len() + 2
            * text.len(),
        rainbow_frame(text, frame, speed).commands[frame_head(frame).len() + 2 * place]
            == TermCommand::SetForeground(rainbow_palette()[(place + frame) % 7]),
        rainbow_frame(text, frame, speed).commands[frame_head(frame).len() + 2 * place + 1]
            == TermCommand::Print(text[place]),
{
    lemma_cells_after_head(text, palette_at(frame as nat), frame_head(frame), place);
    lemma_palette_place(frame as nat, place);
}

/// The colour that the palette of a frame has for a place.
proof fn lemma_palette_place(frame: nat, place: int)
    requires
        0 <= place,
    ensures
        palette_at(frame)[place % 7] == rainbow_palette()[(place + frame) % 7],
{
    let base = rainbow_palette();
    assert(base.len() == 7);
    lemma_turned(base, frame);
    let j = place % 7;
    assert(turned(base, frame)[j] == base[(j + frame) % 7]);
    assert((j + frame) % 7 == (place + frame) % 7);
}

/// The cells of a frame stand behind its head, two commands to a place.
proof fn lemma_cells_after_head(
    text: Seq<char>,
    palette: Seq<Rgb>,
    head: Seq<TermCommand>,
    place: int,
)
    requires
        0 <= place < text.len(),
    ensures
        (head + rainbow_cells(text, palette)).len() == head.len() + 2 * text.len(),
        (head + rainbow_cells(text, palette))[head.len() + 2 * place]
            == TermCommand::SetForeground(palette[place % 7]),
        (head + rainbow_cells(text, palette))[head.len() + 2 * place + 1] == TermCommand::Print(
            text[place],
        ),
{
    law_rainbow_cells(text, palette, place);
}

/// A run of rainbow cells has two commands for each character.
proof fn lemma_rainbow_cells_len(text: Seq<char>, palette: Seq<Rgb>)
    ensures
        rainbow_cells(text, palette).len() == 2 * text.len(),
    decreases text.len(),
{
    if text.len() > 0 {
        lemma_rainbow_cells_len(text.drop_last(), palette);
    }
}

/// What follows the last frame of an animation writes the text itself,
/// unless the animation is typed: a typed text is complete with its last
/// frame, and nothing follows.
pub proof fn law_finale_writes_text(
    play: PlaybackView,
    style: AnimationStyle,
    text: Seq<char>,
    speed: u64,
)
    requires
        is_playback_of(play, style, text, speed),
    ensures
        style != AnimationStyle::Type ==> printed_chars(play.finale) == text,
        style == AnimationStyle::Type ==> play.finale.len() == 0,
{
    lemma_printed_chars_of_printed(text);
    let reset = seq![TermCommand::ResetColor];
    let back = seq![TermCommand::RestorePosition, TermCommand::ResetColor];
    let green = seq![TermCommand::RestorePosition, TermCommand::SetForeground(bright_green())];
    lemma_writes_nothing(reset);
    lemma_writes_nothing(back);
    lemma_writes_nothing(green);
    lemma_printed_chars_concat(reset, printed(text));
    lemma_printed_chars_concat(back, printed(text));
    lemma_printed_chars_concat(green, printed(text));
    lemma_printed_chars_concat(green + printed(text), reset);
    assert(Seq::<char>::empty() + text =~= text);
    assert(text + Seq::<char>::empty() =~= text);
}

/// Commands of which none is a `Print` write nothing.
proof fn lemma_writes_nothing(commands: Seq<TermCommand>)
    requires
        forall|i: int| 0 <= i < commands.len() ==> !((#[trigger] commands[i]) is Print),
    ensures
        printed_chars(commands) == Seq::<char>::empty(),
    decreases commands.len(),
{
    if commands.len() > 0 {
        let front = commands.drop_last();
        assert forall|i: int| 0 <= i < front.len() implies !((#[trigger] front[i]) is Print) by {
            assert(front[i] == commands[i]);
        }
        lemma_writes_nothing(front);
        assert(!(commands[commands.len() - 1] is Print));
    }
}

} // verus!
