use greetme::animation::{
    matrix_cell, AnimationConfig, AnimationStyle, ColorMode, TextAnimator, FADE_FRAMES,
    MATRIX_FRAMES, RAINBOW_FRAMES,
};
use greetme::term::{queue_text, written_by, Playback, Rgb, TermCommand};

const PALETTE: [Rgb; 7] = [
    Rgb { r: 255, g: 0, b: 0 },
    Rgb { r: 255, g: 127, b: 0 },
    Rgb { r: 255, g: 255, b: 0 },
    Rgb { r: 0, g: 255, b: 0 },
    Rgb { r: 0, g: 0, b: 255 },
    Rgb { r: 75, g: 0, b: 130 },
    Rgb { r: 148, g: 0, b: 211 },
];

const GLYPHS: &str = "\u{ff8a}\u{ff90}\u{ff8b}\u{ff70}\u{ff73}\u{ff7c}\u{ff85}\u{ff93}\u{ff86}\u{ff7b}\u{ff9c}\u{ff82}\u{ff75}\u{ff98}\u{ff71}\u{ff8e}\u{ff83}\u{ff8f}\u{ff79}\u{ff92}\u{ff74}\u{ff76}\u{ff77}\u{ff91}\u{ff95}\u{ff97}\u{ff7e}\u{ff88}\u{ff7d}\u{ff80}\u{ff87}\u{ff8d}";

const BRIGHT: Rgb = Rgb { r: 0, g: 255, b: 0 };
const DIM: Rgb = Rgb { r: 0, g: 200, b: 0 };

fn animator(style: AnimationStyle, speed: u64) -> TextAnimator {
    TextAnimator::new(AnimationConfig { speed, style, color_mode: ColorMode::Off })
}

fn prints(text: &str) -> Vec<TermCommand> {
    text.chars().map(TermCommand::Print).collect()
}

fn total_pause(play: &Playback) -> u64 {
    play.frames.iter().map(|f| f.pause_ms).sum()
}

#[test]
fn default_config_has_no_animation() {
    let config = AnimationConfig::default();
    assert_eq!(config.speed, 100);
    assert_eq!(config.style, AnimationStyle::Off);
    assert!(matches!(config.color_mode, ColorMode::Off));
    let animator = TextAnimator::new(config);
    assert_eq!(animator.config().speed, 100);
    assert_eq!(animator.config().style, AnimationStyle::Off);
    assert!(matches!(animator.config().color_mode, ColorMode::Off));
    let coloured = TextAnimator::new(AnimationConfig {
        speed: 1,
        style: AnimationStyle::Fade,
        color_mode: ColorMode::Static(Rgb { r: 1, g: 2, b: 3 }),
    });
    assert!(matches!(
        coloured.config().color_mode,
        ColorMode::Static(Rgb { r: 1, g: 2, b: 3 })
    ));
}

#[test]
fn type_animation_has_one_frame_per_character() {
    for text in ["", "a", "Hello", "h\u{e9}llo \u{4e16}\u{754c}"] {
        let play = animator(AnimationStyle::Type, 30).type_animation(text);
        let chars: Vec<char> = text.chars().collect();
        assert_eq!(play.frame_count(), chars.len());
        for (k, frame) in play.frames.iter().enumerate() {
            assert_eq!(frame.commands, vec![TermCommand::Print(chars[k])]);
            assert_eq!(frame.pause_ms, 30);
        }
        assert!(play.finale.is_empty());
        assert_eq!(total_pause(&play), 30 * chars.len() as u64);
    }
}

#[test]
fn fade_animation_has_five_frames_of_rising_grey() {
    let play = animator(AnimationStyle::Fade, 40).fade_animation("Hi");
    assert_eq!(FADE_FRAMES, 5);
    assert_eq!(play.frame_count(), 5);
    let levels = [128u8, 160, 192, 224, 255];
    for (k, frame) in play.frames.iter().enumerate() {
        let grey = Rgb { r: levels[k], g: levels[k], b: levels[k] };
        assert_eq!(
            frame.commands,
            vec![
                TermCommand::SavePosition,
                TermCommand::SetForeground(grey),
                TermCommand::Print('H'),
                TermCommand::Print('i'),
                TermCommand::RestorePosition,
            ]
        );
        assert_eq!(frame.pause_ms, 40);
        assert_eq!(frame.text(), "Hi");
    }
    assert_eq!(
        play.finale,
        vec![TermCommand::ResetColor, TermCommand::Print('H'), TermCommand::Print('i')]
    );
    assert_eq!(play.finale_text(), "Hi");
    assert_eq!(total_pause(&play), 200);
}

#[test]
fn rainbow_animation_has_fifty_frames() {
    let play = animator(AnimationStyle::Rainbow, 7).rainbow_animation("rainbow text");
    assert_eq!(RAINBOW_FRAMES, 50);
    assert_eq!(play.frame_count(), 50);
    assert_eq!(total_pause(&play), 350);
    assert_eq!(play.finale_text(), "rainbow text");
    let mut finale = vec![TermCommand::RestorePosition, TermCommand::ResetColor];
    finale.extend(prints("rainbow text"));
    assert_eq!(play.finale, finale);
}

#[test]
fn first_rainbow_frame_has_the_palette_in_order() {
    let play = animator(AnimationStyle::Rainbow, 7).rainbow_animation("abcdefghij");
    let frame = &play.frames[0];
    let mut expected = vec![TermCommand::SavePosition];
    for (i, c) in "abcdefghij".chars().enumerate() {
        expected.push(TermCommand::SetForeground(PALETTE[i % 7]));
        expected.push(TermCommand::Print(c));
    }
    assert_eq!(frame.commands, expected);
}

#[test]
fn rainbow_palette_turns_left_after_each_frame() {
    let text = "abcdefghijklmnop";
    let play = animator(AnimationStyle::Rainbow, 7).rainbow_animation(text);
    let mut palette = PALETTE.to_vec();
    for (k, frame) in play.frames.iter().enumerate() {
        let mut expected = Vec::new();
        if k > 0 {
            expected.push(TermCommand::RestorePosition);
        }
        expected.push(TermCommand::SavePosition);
        for (i, c) in text.chars().enumerate() {
            expected.push(TermCommand::SetForeground(palette[i % 7]));
            expected.push(TermCommand::Print(c));
            assert_eq!(palette[i % 7], PALETTE[(i + k) % 7]);
        }
        assert_eq!(frame.commands, expected, "frame {}", k);
        assert_eq!(frame.text(), text);
        palette.rotate_left(1);
    }
    assert_eq!(play.frames[7].commands, play.frames[14].commands);
}

#[test]
fn every_rainbow_frame_is_drawn_from_one_place() {
    let play = animator(AnimationStyle::Rainbow, 7).rainbow_animation("two or more");
    for (k, frame) in play.frames.iter().enumerate() {
        let saves = frame.commands.iter().filter(|c| **c == TermCommand::SavePosition).count();
        let restores =
            frame.commands.iter().filter(|c| **c == TermCommand::RestorePosition).count();
        assert_eq!(saves, 1, "frame {}", k);
        assert_eq!(restores, if k == 0 { 0 } else { 1 }, "frame {}", k);
        let save_at =
            frame.commands.iter().position(|c| *c == TermCommand::SavePosition).unwrap();
        let first_print =
            frame.commands.iter().position(|c| matches!(c, TermCommand::Print(_))).unwrap();
        assert_eq!(save_at, if k == 0 { 0 } else { 1 });
        assert!(save_at < first_print);
    }
    assert_eq!(play.finale[0], TermCommand::RestorePosition);
}

#[test]
fn matrix_animation_has_fifteen_frames_and_ends_on_the_text() {
    let text = "wake up, neo";
    let play = animator(AnimationStyle::Matrix, 20).matrix_animation(text);
    assert_eq!(MATRIX_FRAMES, 15);
    assert_eq!(play.frame_count(), 15);
    assert_eq!(total_pause(&play), 300);
    let mut finale = vec![TermCommand::RestorePosition, TermCommand::SetForeground(BRIGHT)];
    finale.extend(prints(text));
    finale.push(TermCommand::ResetColor);
    assert_eq!(play.finale, finale);
    assert_eq!(play.finale_text(), text);
}

#[test]
fn matrix_frames_hold_glyphs_or_the_characters() {
    let text = "the matrix has you, follow the white rabbit";
    let chars: Vec<char> = text.chars().collect();
    let play = animator(AnimationStyle::Matrix, 20).matrix_animation(text);
    let mut scrambled = 0;
    let mut kept = 0;
    for (k, frame) in play.frames.iter().enumerate() {
        let lead = if k == 0 { 1 } else { 2 };
        assert_eq!(frame.commands.len(), lead + 2 * chars.len());
        if k > 0 {
            assert_eq!(frame.commands[0], TermCommand::RestorePosition);
        }
        assert_eq!(frame.commands[lead - 1], TermCommand::SavePosition);
        assert_eq!(frame.pause_ms, 20);
        for (i, c) in chars.iter().enumerate() {
            let set = frame.commands[lead + 2 * i];
            let print = frame.commands[lead + 2 * i + 1];
            match (set, print) {
                (TermCommand::SetForeground(color), TermCommand::Print(g)) if color == BRIGHT => {
                    assert!(GLYPHS.contains(g), "glyph {:?}", g);
                    scrambled += 1;
                }
                (TermCommand::SetForeground(color), TermCommand::Print(g)) if color == DIM => {
                    assert_eq!(g, *c);
                    kept += 1;
                }
                other => panic!("unexpected cell {:?}", other),
            }
        }
    }
    assert_eq!(scrambled + kept, 15 * chars.len());
    assert!(scrambled > 0);
    assert!(kept > 0);
}

#[test]
fn matrix_cell_follows_the_draws() {
    let glyphs: Vec<char> = GLYPHS.chars().collect();
    assert_eq!(glyphs.len(), 32);
    for (pick, glyph) in glyphs.iter().enumerate() {
        assert_eq!(
            matrix_cell('x', true, pick),
            (TermCommand::SetForeground(BRIGHT), TermCommand::Print(*glyph))
        );
        assert_eq!(
            matrix_cell('x', false, pick),
            (TermCommand::SetForeground(DIM), TermCommand::Print('x'))
        );
    }
}

#[test]
fn animate_follows_the_style() {
    let text = "abc";
    assert_eq!(animator(AnimationStyle::Type, 5).animate(text).frame_count(), 3);
    assert_eq!(animator(AnimationStyle::Fade, 5).animate(text).frame_count(), 5);
    assert_eq!(animator(AnimationStyle::Rainbow, 5).animate(text).frame_count(), 50);
    assert_eq!(animator(AnimationStyle::Matrix, 5).animate(text).frame_count(), 15);
    let still = animator(AnimationStyle::Off, 5).animate(text);
    assert_eq!(still.frame_count(), 0);
    assert_eq!(still.finale, prints(text));

    let typed = animator(AnimationStyle::Type, 5).animate(text);
    assert_eq!(typed.frames[1].commands, vec![TermCommand::Print('b')]);
    let faded = animator(AnimationStyle::Fade, 5).animate(text);
    assert_eq!(faded.frames[0].commands[0], TermCommand::SavePosition);
    let rainbow = animator(AnimationStyle::Rainbow, 5).animate(text);
    assert_eq!(rainbow.frames[1].commands[2], TermCommand::SetForeground(PALETTE[1]));
    assert_eq!(rainbow.frames[1].commands[3], TermCommand::Print('a'));
    let matrix = animator(AnimationStyle::Matrix, 5).animate(text);
    assert_eq!(matrix.finale_text(), text);
}

#[test]
fn animations_of_the_empty_text_keep_their_frames() {
    assert_eq!(animator(AnimationStyle::Type, 5).animate("").frame_count(), 0);
    assert_eq!(animator(AnimationStyle::Fade, 5).animate("").frame_count(), 5);
    let rainbow = animator(AnimationStyle::Rainbow, 5).animate("");
    assert_eq!(rainbow.frame_count(), 50);
    assert_eq!(rainbow.frames[0].commands, vec![TermCommand::SavePosition]);
    let matrix = animator(AnimationStyle::Matrix, 5).animate("");
    assert_eq!(matrix.frame_count(), 15);
    assert_eq!(matrix.frames[0].commands, vec![TermCommand::SavePosition]);
    assert_eq!(
        matrix.frames[1].commands,
        vec![TermCommand::RestorePosition, TermCommand::SavePosition]
    );
}

#[test]
fn commands_write_their_characters() {
    let mut commands = vec![TermCommand::ResetColor];
    queue_text(&mut commands, &"h\u{e9}y".chars().collect());
    assert_eq!(
        commands,
        vec![
            TermCommand::ResetColor,
            TermCommand::Print('h'),
            TermCommand::Print('\u{e9}'),
            TermCommand::Print('y'),
        ]
    );
    commands.push(TermCommand::SavePosition);
    assert_eq!(written_by(&commands), "h\u{e9}y");
    assert_eq!(written_by(&Vec::new()), "");
}
