use hapcli::desktop::keys::{key_event_to_bytes, Key, Modifiers};
use hapcli::desktop::line::{
    delete_last_word, looks_absolute_remote, resolve_cd_target, shell_quote_path,
    shell_quote_path_for_windows,
};
use hapcli::desktop::paint::{
    base_colors, build_theme, image_frame, image_source, mix_foreground, resolve_colors,
    terminal_ui, ImagePlacement, ImageSource, ImageTextureCache, MixedColors, PaintContext,
    PaintOp, PaintedCell, Rgba,
};
use hapcli::desktop::recording::{decode, PlaybackState, Recording};
use hapcli::desktop::screen::{
    cell_on_screen, scroll_offset_for_line, scrollbar, select_all, select_line, select_word_at,
    selected_text, viewport_highlights, ScrollCommand, ScrollPointer, TerminalAttrs, TerminalCell,
    TerminalColor, TerminalCursorShape, TerminalRow, TerminalSearchMatch, TerminalSearchRange,
    TerminalSnapshot, TextSelection, TrackPlace, ViewportHighlight,
};
use hapcli::desktop::search::SearchState;
use hapcli::desktop::settings::ThemeChoice;

const NONE: Modifiers =
    Modifiers { alt: false, ctrl: false, shift: false, mac_cmd: false, command: false };
const CTRL: Modifiers =
    Modifiers { alt: false, ctrl: true, shift: false, mac_cmd: false, command: false };
const SHIFT: Modifiers =
    Modifiers { alt: false, ctrl: false, shift: true, mac_cmd: false, command: false };
const ALT: Modifiers =
    Modifiers { alt: true, ctrl: false, shift: false, mac_cmd: false, command: false };
const COMMAND: Modifiers =
    Modifiers { alt: false, ctrl: false, shift: false, mac_cmd: false, command: true };

fn rgb(r: u8, g: u8, b: u8) -> TerminalColor {
    TerminalColor { r, g, b }
}

fn opaque(r: u8, g: u8, b: u8) -> Rgba {
    Rgba { r, g, b, a: 0xff }
}

fn plain_attrs() -> TerminalAttrs {
    TerminalAttrs { bold: false, dim: false, inverse: false, underline: false, strikeout: false }
}

fn cell(ch: char) -> TerminalCell {
    TerminalCell {
        ch,
        zerowidth: String::new(),
        wide: false,
        fg: rgb(0xf8, 0xf8, 0xf2),
        bg: rgb(0x28, 0x2a, 0x36),
        attrs: plain_attrs(),
        cursor: false,
    }
}

fn snapshot_of(cols: usize, lines: Vec<TerminalRow>) -> TerminalSnapshot {
    TerminalSnapshot {
        cols,
        rows: lines.len(),
        cursor_shape: TerminalCursorShape::Block,
        display_offset: 0,
        scrollback_lines: 0,
        lines,
    }
}

fn text_snapshot(rows: usize, cols: usize) -> TerminalSnapshot {
    let mut lines = Vec::new();
    for _ in 0..rows {
        lines.push(TerminalRow { absolute_line: 0, cells: vec![cell('x'); cols], wrapped: false });
    }
    snapshot_of(cols, lines)
}

fn painted(ch: char, fg: Rgba, bg: Rgba) -> PaintedCell {
    PaintedCell {
        ch,
        zerowidth: String::new(),
        wide: false,
        cursor: false,
        underline: false,
        strikeout: false,
        fg,
        bg,
    }
}

fn found(line: i32, start_col: usize, end_col: usize) -> TerminalSearchMatch {
    TerminalSearchMatch { line, ranges: vec![TerminalSearchRange { line, start_col, end_col }] }
}

#[test]
fn ctrl_letter_maps_to_control_byte() {
    assert_eq!(key_event_to_bytes(Key::C, CTRL, true), Some(vec![0x03]));
    assert_eq!(key_event_to_bytes(Key::D, CTRL, true), Some(vec![0x04]));
    assert_eq!(key_event_to_bytes(Key::Z, CTRL, true), Some(vec![0x1a]));
}

#[test]
fn ctrl_punctuation_maps_to_xterm_controls() {
    assert_eq!(key_event_to_bytes(Key::Num3, CTRL, true), Some(vec![0x1b]));
    assert_eq!(key_event_to_bytes(Key::Num8, CTRL, true), Some(vec![0x7f]));
    assert_eq!(key_event_to_bytes(Key::OpenBracket, CTRL, true), Some(vec![0x1b]));
}

#[test]
fn special_keys_map_to_escape_sequences() {
    assert_eq!(key_event_to_bytes(Key::Enter, NONE, true), Some(b"\r".to_vec()));
    assert_eq!(key_event_to_bytes(Key::Backspace, NONE, true), Some(vec![0x7f]));
    assert_eq!(key_event_to_bytes(Key::Tab, NONE, true), Some(b"\t".to_vec()));
    assert_eq!(key_event_to_bytes(Key::Escape, NONE, true), Some(vec![0x1b]));
    assert_eq!(key_event_to_bytes(Key::ArrowUp, NONE, true), Some(b"\x1b[A".to_vec()));
}

#[test]
fn arrow_with_modifiers_uses_xterm_modifier_codes() {
    assert_eq!(key_event_to_bytes(Key::ArrowLeft, SHIFT, true), Some(b"\x1b[1;2D".to_vec()));
    assert_eq!(key_event_to_bytes(Key::ArrowUp, CTRL, true), Some(b"\x1b[1;5A".to_vec()));
    assert_eq!(key_event_to_bytes(Key::ArrowDown, ALT, true), Some(b"\x1b[1;3B".to_vec()));
}

#[test]
fn mac_cmd_shortcuts_are_not_forwarded() {
    assert_eq!(key_event_to_bytes(Key::C, COMMAND, true), None);
    assert_eq!(key_event_to_bytes(Key::V, COMMAND, true), None);
}

#[test]
fn key_release_is_ignored() {
    assert_eq!(key_event_to_bytes(Key::Enter, NONE, false), None);
}

#[test]
fn recording_round_trip_preserves_chunks() {
    let mut recording = Recording::new(1000);
    recording.append(b"hello", 1000);
    recording.append(b"world", 1005);
    let chunks = decode(&recording.encode()).unwrap();
    assert_eq!(chunks.len(), 2);
    assert_eq!(chunks[0].1, b"hello");
    assert_eq!(chunks[1].1, b"world");
    assert!(chunks[1].0 > 0);
    assert_eq!(chunks[1].0, 5);
    assert_eq!(recording.event_count(), 2);
    assert_eq!(recording.total_bytes(), 10);
}

#[test]
fn recordings_count_what_came() {
    let mut recording = Recording::new(1000);
    assert_eq!((recording.event_count(), recording.total_bytes()), (0, 0));
    recording.append(b"", 1001);
    assert_eq!((recording.event_count(), recording.total_bytes()), (0, 0));
    recording.append(b"ab", 1002);
    recording.append(b"", 1003);
    recording.append(b"cde", 1003);
    assert_eq!((recording.event_count(), recording.total_bytes()), (2, 5));
    assert_eq!((recording.chunks[0].0, recording.chunks[1].0), (2, 3));
}

#[test]
fn load_rejects_invalid_file() {
    assert!(decode(b"not a recording").is_err());
}

#[test]
fn playback_advances_through_chunks() {
    let chunks = vec![(0, b"a".to_vec()), (10, b"b".to_vec())];
    let mut state = PlaybackState::new(chunks, "test.hrec".to_string());
    assert_eq!(state.advance(0), b"a");
    assert!(!state.finished());
    assert_eq!(state.advance(20), b"b");
    assert!(state.finished());
}

#[test]
fn playback_is_silent_between_chunks() {
    let chunks = vec![(0, b"a".to_vec()), (10, b"b".to_vec())];
    let mut state = PlaybackState::new(chunks, "test.hrec".to_string());
    state.advance(0);
    assert!(state.advance(9).is_empty());
    assert!(state.playing);
}

#[test]
fn terminal_ui_paints_shapes_without_panicking() {
    let theme = build_theme(ThemeChoice::Dark, 0xff);
    let fg = opaque(0xf8, 0xf8, 0xf2);
    let bg = theme.background;
    let mut row = vec![
        painted('h', opaque(0xff, 0, 0), bg),
        painted('i', opaque(0, 0xff, 0), bg),
        painted('你', fg, opaque(0, 0, 0x99)),
        painted(' ', fg, bg),
        painted('!', fg, bg),
        painted('_', fg, bg),
        painted(' ', fg, bg),
    ];
    row[2].wide = true;
    row[5].cursor = true;
    let context = PaintContext {
        theme,
        cursor_visible: true,
        cursor_shape: TerminalCursorShape::Block,
        selection: None,
        search: None,
    };
    let ops = terminal_ui(&vec![row], &context);
    assert!(ops.len() > 5);
    assert!(matches!(ops[0], PaintOp::Screen { .. }));
    assert!(ops.iter().any(|op| matches!(op, PaintOp::Cursor { col: 5, .. })));
}

#[test]
fn wide_char_text_is_drawn_after_trailing_cell_background() {
    let fg = opaque(0xf8, 0xf8, 0xf2);
    let bg = opaque(0xd0, 0x40, 0x40);
    let mut row = vec![painted('中', fg, bg), painted('\0', fg, bg), painted('\0', fg, bg)];
    row[0].wide = true;
    let context = PaintContext {
        theme: build_theme(ThemeChoice::Dark, 0xff),
        cursor_visible: false,
        cursor_shape: TerminalCursorShape::Block,
        selection: None,
        search: None,
    };
    let ops = terminal_ui(&vec![row], &context);
    let text = ops.iter().position(|op| matches!(op, PaintOp::Text { .. })).unwrap();
    let spacer = ops.iter().position(|op| matches!(op, PaintOp::Fill { col: 1, .. })).unwrap();
    assert!(text > spacer);
}

#[test]
fn resolve_colors_applies_inverse_and_bold() {
    let theme = build_theme(ThemeChoice::Dark, 0xff);
    let (fg, bg) = base_colors(rgb(0xf8, 0xf8, 0xf2), rgb(0x28, 0x2a, 0x36), plain_attrs());
    let (fg, bg) = resolve_colors(fg, bg, true, true, &theme);
    assert_eq!(bg, theme.background);
    assert_eq!(fg, opaque(0xf8, 0xf8, 0xf2));

    let inverse = TerminalAttrs { inverse: true, ..plain_attrs() };
    let (fg, bg) = base_colors(rgb(0xf8, 0xf8, 0xf2), rgb(0xff, 0x00, 0x00), inverse);
    let (fg, bg) = resolve_colors(fg, bg, false, false, &theme);
    assert_eq!(fg, opaque(0xff, 0x00, 0x00));
    assert_eq!(bg, opaque(0xf8, 0xf8, 0xf2));
}

#[test]
fn resolve_colors_maps_kernel_defaults_to_light_theme() {
    let theme = build_theme(ThemeChoice::Light, 0xff);
    let (fg, bg) =
        resolve_colors(rgb(0xf8, 0xf8, 0xf2), rgb(0x28, 0x2a, 0x36), true, true, &theme);
    assert_eq!(bg, opaque(0xff, 0xff, 0xff));
    assert_eq!(fg, opaque(0x1c, 0x1e, 0x21));
    let (fg, bg) =
        resolve_colors(rgb(0xd4, 0xd4, 0xd4), rgb(0x0a, 0x0a, 0x0a), true, true, &theme);
    assert_eq!(bg, opaque(0xff, 0xff, 0xff));
    assert_eq!(fg, opaque(0x1c, 0x1e, 0x21));
}

#[test]
fn bold_and_dim_take_the_mixed_colors() {
    let mixed = MixedColors { brightened: rgb(9, 9, 9), dimmed: rgb(1, 1, 1) };
    let bold = TerminalAttrs { bold: true, ..plain_attrs() };
    let dim = TerminalAttrs { dim: true, ..plain_attrs() };
    assert_eq!(mix_foreground(rgb(5, 5, 5), bold, mixed), rgb(9, 9, 9));
    assert_eq!(mix_foreground(rgb(5, 5, 5), dim, mixed), rgb(1, 1, 1));
    assert_eq!(mix_foreground(rgb(5, 5, 5), plain_attrs(), mixed), rgb(5, 5, 5));
}

#[test]
fn selected_text_joins_rows_with_newlines() {
    let snapshot = text_snapshot(3, 8);
    let selection = TextSelection { anchor: (0, 1), active: (2, 3) };
    assert_eq!(selected_text(&snapshot, &selection), "xxxxxxx\nxxxxxxxx\nxxxx");
}

#[test]
fn selected_text_skips_newline_on_wrapped_rows() {
    let mut snapshot = text_snapshot(3, 8);
    snapshot.lines[0].wrapped = true;
    let selection = TextSelection { anchor: (0, 1), active: (2, 3) };
    assert_eq!(selected_text(&snapshot, &selection), "xxxxxxxxxxxxxxx\nxxxx");
}

#[test]
fn selected_text_skips_wide_char_spacer() {
    let mut cells = vec![cell('你'), cell(' '), cell('!')];
    cells[0].wide = true;
    let snapshot = snapshot_of(3, vec![TerminalRow { absolute_line: 0, cells, wrapped: false }]);
    let selection = TextSelection { anchor: (0, 0), active: (0, 2) };
    assert_eq!(selected_text(&snapshot, &selection), "你!");
}

#[test]
fn selection_contains_handles_reversed_ranges() {
    let selection = TextSelection { anchor: (2, 5), active: (0, 2) };
    assert!(selection.contains(0, 2));
    assert!(selection.contains(1, 7));
    assert!(selection.contains(2, 5));
    assert!(!selection.contains(0, 1));
    assert!(!selection.contains(2, 6));
    assert!(!selection.contains(3, 0));
}

#[test]
fn selections_of_both_directions_hold_the_same_text() {
    let snapshot = text_snapshot(2, 4);
    let forth = TextSelection { anchor: (0, 1), active: (1, 2) };
    let back = TextSelection { anchor: (1, 2), active: (0, 1) };
    assert_eq!(selected_text(&snapshot, &forth), "xxx\nxxx");
    assert_eq!(selected_text(&snapshot, &back), "xxx\nxxx");
}

#[test]
fn select_word_at_expands_over_visible_chars() {
    let snapshot = text_snapshot(1, 5);
    let selection = select_word_at(&snapshot, 0, 0);
    assert_eq!(selection, TextSelection { anchor: (0, 0), active: (0, 4) });
}

#[test]
fn whole_lines_and_screens_are_selected() {
    assert_eq!(select_line(3, 80), TextSelection { anchor: (3, 0), active: (3, 79) });
    let snapshot = text_snapshot(2, 5);
    assert_eq!(select_all(&snapshot), TextSelection { anchor: (0, 0), active: (1, 4) });
    assert_eq!(cell_on_screen(&snapshot, Some((1, 4))), Some((1, 4)));
    assert_eq!(cell_on_screen(&snapshot, Some((2, 0))), None);
}

#[test]
fn viewport_highlights_maps_absolute_lines_to_rows() {
    let mut snapshot = text_snapshot(3, 8);
    snapshot.lines[0].absolute_line = -2;
    snapshot.lines[1].absolute_line = -1;
    snapshot.lines[2].absolute_line = 0;
    let matches = vec![found(-1, 1, 4), found(0, 2, 5)];
    let highlights = viewport_highlights(&snapshot, &matches, Some(1));
    assert_eq!(
        highlights,
        vec![
            ViewportHighlight { row: 1, start_col: 1, end_col: 4, current: false },
            ViewportHighlight { row: 2, start_col: 2, end_col: 5, current: true },
        ]
    );
}

#[test]
fn viewport_highlights_skips_lines_outside_viewport() {
    let snapshot = text_snapshot(1, 8);
    let matches = vec![found(-5, 0, 2)];
    assert!(viewport_highlights(&snapshot, &matches, None).is_empty());
}

#[test]
fn scroll_offset_for_line_brings_history_into_view() {
    assert_eq!(scroll_offset_for_line(-5), 5);
    assert_eq!(scroll_offset_for_line(0), 0);
    assert_eq!(scroll_offset_for_line(3), 0);
}

#[test]
fn scrollbar_hidden_without_history() {
    let press = ScrollPointer::Clicked { pressed_on_thumb: false, place: TrackPlace::AboveThumb };
    assert_eq!(scrollbar(0, ScrollPointer::Idle), None);
    assert_eq!(scrollbar(0, press), None);
}

#[test]
fn scrollbar_click_above_thumb_returns_page_up() {
    let above = ScrollPointer::Clicked { pressed_on_thumb: false, place: TrackPlace::AboveThumb };
    let below = ScrollPointer::Clicked { pressed_on_thumb: false, place: TrackPlace::BelowThumb };
    assert_eq!(scrollbar(8, above), Some(ScrollCommand::PageUp));
    assert_eq!(scrollbar(8, below), Some(ScrollCommand::PageDown));
}

#[test]
fn image_cache_keeps_the_newest_version() {
    let mut cache = ImageTextureCache::new();
    assert!(!cache.is_fresh(1, 1));
    assert_eq!(cache.insert(1, 1), None);
    assert!(cache.is_fresh(1, 1));
    assert!(!cache.is_fresh(1, 2));
    cache.insert(1, 2);
    assert!(cache.is_fresh(1, 2));
}

#[test]
fn images_are_placed_whole_or_in_part() {
    let mut image = ImagePlacement {
        row: 0,
        col: 0,
        cols: 4,
        rows: 1,
        source_x: 0,
        source_y: 0,
        source_width: 0,
        source_height: 0,
        width: 2,
        height: 1,
    };
    assert!(matches!(image_source(&image), Some(ImageSource::Whole)));
    image.source_width = 1;
    image.source_height = 1;
    assert!(matches!(image_source(&image), Some(ImageSource::Part { .. })));
    assert_eq!(image_frame(0, 0), None);
    assert_eq!(image_frame(3, 1), Some(1));
}

#[test]
fn cd_resolves_relative_paths_against_panel_cwd() {
    assert_eq!(
        resolve_cd_target("cd cert", "/home/user", None),
        Some("/home/user/cert".to_string())
    );
    assert_eq!(
        resolve_cd_target("cd ../www", "/home/user", None),
        Some("/home/user/../www".to_string())
    );
    assert_eq!(
        resolve_cd_target("cd cert && make", "/home/user", None),
        Some("/home/user/cert".to_string())
    );
}

#[test]
fn cd_resolves_absolute_home_and_previous() {
    assert_eq!(resolve_cd_target("cd /etc", "/home/user", None), Some("/etc".to_string()));
    assert_eq!(
        resolve_cd_target("cd ~/projects", "/home/user", None),
        Some("~/projects".to_string())
    );
    assert_eq!(resolve_cd_target("cd", "/var/www", None), Some("~".to_string()));
    assert_eq!(
        resolve_cd_target("cd $HOME/code", "/var/www", None),
        Some("~/code".to_string())
    );
    assert_eq!(
        resolve_cd_target("cd -", "/var/www", Some("/var/log")),
        Some("/var/log".to_string())
    );
}

#[test]
fn cd_skips_unreliable_or_non_cd_commands() {
    assert_eq!(resolve_cd_target("ls cert", "/home/user", None), None);
    assert_eq!(resolve_cd_target("git cd x", "/home/user", None), None);
    assert_eq!(resolve_cd_target("cd && pwd", "/home/user", None), None);
    assert_eq!(resolve_cd_target("cd $MYDIR", "/home/user", None), None);
    assert_eq!(resolve_cd_target("cd --", "/home/user", None), None);
    assert_eq!(resolve_cd_target("cd -", "/home/user", None), None);
    assert_eq!(resolve_cd_target("cd \"my dir\"", "/home/user", None), None);
}

#[test]
fn windows_cd_paths_are_absolute() {
    assert_eq!(
        resolve_cd_target("cd C:\\Users\\demo", "/home/user", None),
        Some("C:\\Users\\demo".to_string())
    );
    assert_eq!(
        resolve_cd_target("cd D:/Data", "/home/user", None),
        Some("D:/Data".to_string())
    );
    assert!(looks_absolute_remote("D:/Data"));
    assert!(!looks_absolute_remote("Data"));
}

#[test]
fn ctrl_w_deletes_last_word() {
    let mut line = "cd cert ".to_string();
    delete_last_word(&mut line);
    assert_eq!(line, "cd");
    let mut line = "cd cert".to_string();
    delete_last_word(&mut line);
    assert_eq!(line, "cd");
    let mut line = "cd".to_string();
    delete_last_word(&mut line);
    assert_eq!(line, "");
}

#[test]
fn shell_quote_path_handles_spaces_and_quotes() {
    let quoted = shell_quote_path("/Users/me/My Documents/a.txt");
    assert_eq!(quoted, "'/Users/me/My Documents/a.txt'");
    let quoted = shell_quote_path("/it's/a/path");
    assert_eq!(quoted, "'/it'\\''s/a/path'");
    assert_eq!(shell_quote_path_for_windows("a\"b"), "\"a\"\"b\"");
}

#[test]
fn search_walks_around_its_results() {
    let mut search = SearchState::new();
    search.query = " x ".to_string();
    assert_eq!(search.wanted(), Some("x".to_string()));
    search.refresh_search(vec![found(-7, 0, 1), found(2, 0, 1)]);
    assert_eq!(search.position(), (1, 2));
    assert_eq!(search.search_next(), Some(0));
    assert_eq!(search.search_next(), Some(7));
    assert_eq!(search.search_prev(), Some(0));
    assert_eq!(search.position(), (2, 2));
}
