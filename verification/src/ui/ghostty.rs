//! The terminal of a session in the window: its keys, its scrolling, its colours
//! and its theme.

use crate::sessions;
use crate::text;
use vstd::prelude::*;

verus! {

pub const DEFAULT_COLS: u16 = 120;

pub const DEFAULT_ROWS: u16 = 40;

pub const MAX_SCROLLBACK: usize = 20_000;

/// How many lines one tick of the wheel scrolls.
pub const SCROLL_LINES_PER_TICK: i64 = 3;

/// A key that was pressed. A key that writes a character is that character.
#[derive(Debug, Clone, Copy, PartialEq, Eq, Structural)]
pub enum Key {
    Return,
    Tab,
    BackSpace,
    Escape,
    Up,
    Down,
    Right,
    Left,
    Home,
    End,
    PageUp,
    PageDown,
    Delete,
    Insert,
    Character(char),
    Unknown,
}

/// The keys that are held while another one is pressed.
#[derive(Debug, Clone, Copy, PartialEq, Eq, Structural)]
pub struct Modifiers {
    pub control: bool,
    pub shift: bool,
    pub alt: bool,
}

/// The control character of a key.
pub open spec fn control_char(ch: char) -> Option<u8> {
    if ch == '@' || ch == '`' || ch == ' ' {
        Some(0x00u8)
    } else if 'a' <= ch <= 'z' {
        Some((ch as int - 'a' as int + 1) as u8)
    } else if 'A' <= ch <= 'Z' {
        Some((ch as int - 'A' as int + 1) as u8)
    } else if ch == '[' {
        Some(0x1bu8)
    } else if ch == '\\' {
        Some(0x1cu8)
    } else if ch == ']' {
        Some(0x1du8)
    } else if ch == '^' {
        Some(0x1eu8)
    } else if ch == '_' {
        Some(0x1fu8)
    } else {
        None
    }
}

/// The control character of a key.
pub fn encode_ctrl_char(ch: char) -> (r: Option<u8>)
    ensures
        r == control_char(ch),
{
    if ch == '@' || ch == '`' || ch == ' ' {
        Some(0x00)
    } else if 'a' <= ch && ch <= 'z' {
        Some((ch as u32 - 'a' as u32 + 1) as u8)
    } else if 'A' <= ch && ch <= 'Z' {
        Some((ch as u32 - 'A' as u32 + 1) as u8)
    } else if ch == '[' {
        Some(0x1b)
    } else if ch == '\\' {
        Some(0x1c)
    } else if ch == ']' {
        Some(0x1d)
    } else if ch == '^' {
        Some(0x1e)
    } else if ch == '_' {
        Some(0x1f)
    } else {
        None
    }
}

/// An escape sequence.
pub open spec fn escape(tail: Seq<u8>) -> Seq<u8> {
    seq![0x1bu8, 0x5bu8] + tail
}

/// What a key sends to the terminal.
pub open spec fn key_bytes(key: Key, modifiers: Modifiers) -> Seq<u8> {
    match key {
        Key::Return => seq![13u8],
        Key::Tab => seq![9u8],
        Key::BackSpace => seq![0x7fu8],
        Key::Escape => seq![0x1bu8],
        Key::Up => escape(seq![0x41u8]),
        Key::Down => escape(seq![0x42u8]),
        Key::Right => escape(seq![0x43u8]),
        Key::Left => escape(seq![0x44u8]),
        Key::Home => escape(seq![0x48u8]),
        Key::End => escape(seq![0x46u8]),
        Key::PageUp => escape(seq![0x35u8, 0x7eu8]),
        Key::PageDown => escape(seq![0x36u8, 0x7eu8]),
        Key::Delete => escape(seq![0x33u8, 0x7eu8]),
        Key::Character(ch) => if modifiers.control {
            match control_char(ch) {
                Some(byte) => seq![byte],
                None => seq![],
            }
        } else if modifiers.alt {
            seq![0x1bu8] + vstd::utf8::encode_utf8(seq![ch])
        } else {
            vstd::utf8::encode_utf8(seq![ch])
        },
        Key::Insert | Key::Unknown => seq![],
    }
}

fn escape_bytes(tail: Vec<u8>) -> (r: Vec<u8>)
    ensures
        r@ == escape(tail@),
{
    let mut out: Vec<u8> = vec![0x1b, 0x5b];
    let mut tail = tail;
    out.append(&mut tail);
    out
}

/// What a key sends to the terminal.
pub fn encode_key(key: Key, modifiers: Modifiers) -> (r: Vec<u8>)
    ensures
        r@ == key_bytes(key, modifiers),
{
    match key {
        Key::Return => vec![13],
        Key::Tab => vec![9],
        Key::BackSpace => vec![0x7f],
        Key::Escape => vec![0x1b],
        Key::Up => escape_bytes(vec![0x41]),
        Key::Down => escape_bytes(vec![0x42]),
        Key::Right => escape_bytes(vec![0x43]),
        Key::Left => escape_bytes(vec![0x44]),
        Key::Home => escape_bytes(vec![0x48]),
        Key::End => escape_bytes(vec![0x46]),
        Key::PageUp => escape_bytes(vec![0x35, 0x7e]),
        Key::PageDown => escape_bytes(vec![0x36, 0x7e]),
        Key::Delete => escape_bytes(vec![0x33, 0x7e]),
        Key::Character(ch) => {
            if modifiers.control {
                return match encode_ctrl_char(ch) {
                    Some(byte) => vec![byte],
                    None => Vec::new(),
                };
            }
            let mut out: Vec<u8> = Vec::new();
            if modifiers.alt {
                out.push(0x1b);
            }
            let mut text = String::new();
            text.push(ch);
            proof {
                assert(text@ =~= seq![ch]);
            }
            out.extend_from_slice(text.as_str().as_bytes());
            proof {
                assert(out@ =~= key_bytes(key, modifiers));
            }
            out
        },
        Key::Insert => Vec::new(),
        Key::Unknown => Vec::new(),
    }
}

/// Whether keys mean to paste: `Ctrl-Shift-V`, or `Shift-Insert` alone.
pub open spec fn pastes(key: Key, modifiers: Modifiers) -> bool {
    ||| modifiers.control && modifiers.shift && (key == Key::Character('V') || key
        == Key::Character('v'))
    ||| modifiers.shift && !modifiers.control && !modifiers.alt && key == Key::Insert
}

/// Tells whether keys mean to paste.
pub fn is_paste_shortcut(key: Key, modifiers: Modifiers) -> (r: bool)
    ensures
        r == pastes(key, modifiers),
{
    let ctrl_shift: bool = modifiers.control && modifiers.shift;
    let shift_only: bool = modifiers.shift && !modifiers.control && !modifiers.alt;
    (ctrl_shift && (key == Key::Character('V') || key == Key::Character('v'))) || (shift_only && key
        == Key::Insert)
}

/// Where the visible lines of a terminal stand: how many lines there are, how
/// many stand above them, and how many are visible.
#[derive(Debug, Clone, Copy, PartialEq, Eq, Structural)]
pub struct ScrollPosition {
    pub total: u64,
    pub offset: u64,
    pub len: u64,
}

/// Whether new output moves the visible lines: the last line is visible, and no
/// program draws the whole screen.
pub open spec fn follows_output(position: Option<ScrollPosition>, alternate: bool) -> bool {
    match position {
        Some(p) => !alternate && p.offset + p.len >= p.total,
        None => false,
    }
}

/// Tells whether new output moves the visible lines.
pub fn should_follow_output(position: Option<ScrollPosition>, alternate: bool) -> (r: bool)
    ensures
        r == follows_output(position, alternate),
{
    match position {
        Some(p) => !alternate && (p.offset >= p.total || p.len >= p.total - p.offset),
        None => false,
    }
}

/// How the visible lines are moved.
#[derive(Debug, Clone, Copy, PartialEq, Eq, Structural)]
pub enum Scroll {
    Stay,
    Top,
    Bottom,
    Delta(i64),
}

/// The number of lines above the visible ones once they are moved to a place, as
/// far as that is possible.
pub open spec fn scroll_target(position: ScrollPosition, value: u64) -> int {
    let last = if position.total >= position.len {
        position.total - position.len
    } else {
        0
    };
    if value as int <= last {
        value as int
    } else {
        last
    }
}

/// How the visible lines are moved to a place.
pub open spec fn scroll_to(position: ScrollPosition, value: u64) -> Scroll {
    let target = scroll_target(position, value);
    if target == position.offset {
        Scroll::Stay
    } else if target == 0 {
        Scroll::Top
    } else if target + position.len >= position.total {
        Scroll::Bottom
    } else {
        Scroll::Delta((target - position.offset) as i64)
    }
}

/// Decides how the visible lines are moved to a place. A terminal has no more
/// lines than a signed number counts.
pub fn handle_adjustment_change(position: ScrollPosition, value: u64) -> (r: Scroll)
    requires
        position.total <= i64::MAX,
        position.offset <= i64::MAX,
    ensures
        r == scroll_to(position, value),
{
    let last: u64 = if position.total >= position.len {
        position.total - position.len
    } else {
        0
    };
    let target: u64 = if value <= last {
        value
    } else {
        last
    };
    if target == position.offset {
        Scroll::Stay
    } else if target == 0 {
        Scroll::Top
    } else if position.len >= position.total - target {
        Scroll::Bottom
    } else {
        Scroll::Delta(target as i64 - position.offset as i64)
    }
}

/// How a turn of the wheel moves the visible lines. A program that draws the
/// whole screen has none to move.
pub open spec fn wheel(sign: i64, alternate: bool) -> Scroll {
    if sign == 0 || alternate {
        Scroll::Stay
    } else if sign > 0 {
        Scroll::Delta(SCROLL_LINES_PER_TICK)
    } else {
        Scroll::Delta((-SCROLL_LINES_PER_TICK) as i64)
    }
}

/// Decides how a turn of the wheel moves the visible lines.
pub fn scroll_by_delta(sign: i64, alternate: bool) -> (r: Scroll)
    ensures
        r == wheel(sign, alternate),
{
    if sign == 0 || alternate {
        Scroll::Stay
    } else if sign > 0 {
        Scroll::Delta(SCROLL_LINES_PER_TICK)
    } else {
        Scroll::Delta(-SCROLL_LINES_PER_TICK)
    }
}

/// How the scrollbar is shown.
#[derive(Debug, Clone, Copy, PartialEq, Eq, Structural)]
pub struct ScrollbarModel {
    pub upper: u64,
    pub page_size: u64,
    pub page_increment: u64,
    pub value: u64,
    pub visible: bool,
}

/// How the scrollbar is shown. It is seen only where there is something to
/// scroll to.
pub open spec fn scrollbar_of(position: ScrollPosition, alternate: bool) -> ScrollbarModel {
    ScrollbarModel {
        upper: if position.total >= position.len {
            position.total
        } else {
            position.len
        },
        page_size: position.len,
        page_increment: if position.len >= 1 {
            position.len
        } else {
            1
        },
        value: position.offset,
        visible: position.total > position.len && !alternate,
    }
}

/// Decides how the scrollbar is shown.
pub fn sync_scrollbar(position: ScrollPosition, alternate: bool) -> (r: ScrollbarModel)
    ensures
        r == scrollbar_of(position, alternate),
{
    ScrollbarModel {
        upper: if position.total >= position.len {
            position.total
        } else {
            position.len
        },
        page_size: position.len,
        page_increment: if position.len >= 1 {
            position.len
        } else {
            1
        },
        value: position.offset,
        visible: position.total > position.len && !alternate,
    }
}

/// A colour.
#[derive(Debug, Clone, Copy, PartialEq, Eq, Structural)]
pub struct Rgb {
    pub r: u8,
    pub g: u8,
    pub b: u8,
}

/// Two hexadecimal digits.
pub open spec fn hex_pair(byte: u8) -> Seq<char> {
    seq![text::digit_char(byte as nat / 16), text::digit_char(byte as nat % 16)]
}

/// `#rrggbb`.
pub open spec fn hex_color(color: Rgb) -> Seq<char> {
    "#"@ + hex_pair(color.r) + hex_pair(color.g) + hex_pair(color.b)
}

fn hex_byte(byte: u8) -> (r: String)
    ensures
        r@ == hex_pair(byte),
{
    let mut out = String::new();
    out.push(text::digit_of((byte / 16) as u64));
    out.push(text::digit_of((byte % 16) as u64));
    proof {
        assert(out@ =~= hex_pair(byte));
    }
    out
}

/// A colour as `#rrggbb`.
pub fn color_to_hex(color: Rgb) -> (r: String)
    ensures
        r@ == hex_color(color),
{
    let mut out = "#".to_owned();
    out.append(hex_byte(color.r).as_str());
    out.append(hex_byte(color.g).as_str());
    out.append(hex_byte(color.b).as_str());
    out
}

/// The background of the theme.
pub open spec fn theme_background() -> Rgb {
    Rgb { r: 0x10, g: 0x14, b: 0x1c }
}

/// The foreground of the theme.
pub open spec fn theme_foreground() -> Rgb {
    Rgb { r: 0xe6, g: 0xed, b: 0xf3 }
}

/// The cursor of the theme.
pub open spec fn theme_cursor() -> Rgb {
    Rgb { r: 0x8b, g: 0xc2, b: 0xff }
}

/// The sixteen colours of the theme.
pub open spec fn theme_palette() -> Seq<Rgb> {
    seq![
        Rgb { r: 0x22, g: 0x28, b: 0x33 },
        Rgb { r: 0xf0, g: 0x71, b: 0x78 },
        Rgb { r: 0xa6, g: 0xda, b: 0x95 },
        Rgb { r: 0xe6, g: 0xc3, b: 0x84 },
        Rgb { r: 0x7d, g: 0xb7, b: 0xff },
        Rgb { r: 0xc6, g: 0xa0, b: 0xf6 },
        Rgb { r: 0x6c, g: 0xd4, b: 0xe3 },
        Rgb { r: 0xd8, g: 0xdf, b: 0xe7 },
        Rgb { r: 0x55, g: 0x61, b: 0x73 },
        Rgb { r: 0xff, g: 0x8b, b: 0x92 },
        Rgb { r: 0xb8, g: 0xf2, b: 0xa7 },
        Rgb { r: 0xf4, g: 0xd1, b: 0x9a },
        Rgb { r: 0x98, g: 0xc7, b: 0xff },
        Rgb { r: 0xd7, g: 0xb7, b: 0xff },
        Rgb { r: 0x8c, g: 0xe5, b: 0xf0 },
        Rgb { r: 0xf4, g: 0xf8, b: 0xfc },
    ]
}

fn palette() -> (r: Vec<Rgb>)
    ensures
        r@ == theme_palette(),
{
    let r = vec![
        Rgb { r: 0x22, g: 0x28, b: 0x33 },
        Rgb { r: 0xf0, g: 0x71, b: 0x78 },
        Rgb { r: 0xa6, g: 0xda, b: 0x95 },
        Rgb { r: 0xe6, g: 0xc3, b: 0x84 },
        Rgb { r: 0x7d, g: 0xb7, b: 0xff },
        Rgb { r: 0xc6, g: 0xa0, b: 0xf6 },
        Rgb { r: 0x6c, g: 0xd4, b: 0xe3 },
        Rgb { r: 0xd8, g: 0xdf, b: 0xe7 },
        Rgb { r: 0x55, g: 0x61, b: 0x73 },
        Rgb { r: 0xff, g: 0x8b, b: 0x92 },
        Rgb { r: 0xb8, g: 0xf2, b: 0xa7 },
        Rgb { r: 0xf4, g: 0xd1, b: 0x9a },
        Rgb { r: 0x98, g: 0xc7, b: 0xff },
        Rgb { r: 0xd7, g: 0xb7, b: 0xff },
        Rgb { r: 0x8c, g: 0xe5, b: 0xf0 },
        Rgb { r: 0xf4, g: 0xf8, b: 0xfc },
    ];
    proof {
        assert(r@ =~= theme_palette());
    }
    r
}

/// The sequence that sets a colour of the terminal by its number.
pub open spec fn set_color(number: Seq<char>, color: Rgb) -> Seq<char> {
    "\u{1b}]"@ + number + ";"@ + hex_color(color) + "\u{7}"@
}

/// The sequences that set the first `n` colours of a palette.
pub open spec fn set_palette(colors: Seq<Rgb>, n: int) -> Seq<char>
    decreases n,
{
    if n <= 0 {
        seq![]
    } else {
        set_palette(colors, n - 1) + set_color(
            "4;"@ + text::decimal((n - 1) as nat),
            colors[n - 1],
        )
    }
}

/// The sequences that set the theme.
pub open spec fn theme_text() -> Seq<char> {
    set_color("10"@, theme_foreground()) + set_color("11"@, theme_background()) + set_color(
        "12"@,
        theme_cursor(),
    ) + set_palette(theme_palette(), 16)
}

fn color_sequence(number: &str, color: Rgb) -> (r: String)
    ensures
        r@ == set_color(number@, color),
{
    let mut out = "\u{1b}]".to_owned();
    out.append(number);
    out.append(";");
    out.append(color_to_hex(color).as_str());
    out.append("\u{7}");
    out
}

/// The sequences that set the theme.
pub fn theme_escape() -> (r: String)
    ensures
        r@ == theme_text(),
{
    let mut out = color_sequence("10", Rgb { r: 0xe6, g: 0xed, b: 0xf3 });
    out.append(color_sequence("11", Rgb { r: 0x10, g: 0x14, b: 0x1c }).as_str());
    out.append(color_sequence("12", Rgb { r: 0x8b, g: 0xc2, b: 0xff }).as_str());
    let ghost head = out@;
    let colors = palette();
    let mut i: usize = 0;
    proof {
        assert(head + set_palette(theme_palette(), 0) =~= head);
    }
    while i < colors.len()
        invariant
            i <= colors.len(),
            colors@ == theme_palette(),
            out@ == head + set_palette(theme_palette(), i as int),
        decreases colors.len() - i,
    {
        let mut number = "4;".to_owned();
        number.append(text::decimal_text(i as u64).as_str());
        out.append(color_sequence(number.as_str(), colors[i]).as_str());
        i += 1;
        proof {
            assert(out@ =~= head + set_palette(theme_palette(), i as int));
        }
    }
    out
}

/// The colours of a cell: its own or the terminal's, changed over where the cell
/// is inverse.
pub open spec fn cell_colors(
    foreground: Option<Rgb>,
    background: Option<Rgb>,
    inverse: bool,
    default_foreground: Rgb,
    default_background: Rgb,
) -> (Rgb, Rgb) {
    let fg = match foreground {
        Some(color) => color,
        None => default_foreground,
    };
    let bg = match background {
        Some(color) => color,
        None => default_background,
    };
    if inverse {
        (bg, fg)
    } else {
        (fg, bg)
    }
}

/// The colours of a cell, before a faint cell is dimmed.
pub fn resolved_colors(
    foreground: Option<Rgb>,
    background: Option<Rgb>,
    inverse: bool,
    default_foreground: Rgb,
    default_background: Rgb,
) -> (r: (Rgb, Rgb))
    ensures
        r == cell_colors(
            foreground,
            background,
            inverse,
            default_foreground,
            default_background,
        ),
{
    let fg = match foreground {
        Some(color) => color,
        None => default_foreground,
    };
    let bg = match background {
        Some(color) => color,
        None => default_background,
    };
    if inverse {
        (bg, fg)
    } else {
        (fg, bg)
    }
}

/// A part of a colour, made brighter as far as possible.
pub open spec fn brighter(part: u8) -> u8 {
    if part <= 231 {
        (part + 24) as u8
    } else {
        255
    }
}

/// The colour that fills a block cursor.
pub open spec fn block_fill(color: Rgb) -> Rgb {
    Rgb { r: brighter(color.r), g: brighter(color.g), b: brighter(color.b) }
}

fn brighten(part: u8) -> (r: u8)
    ensures
        r == brighter(part),
{
    if part <= 231 {
        part + 24
    } else {
        255
    }
}

/// The colour that fills a block cursor.
pub fn block_cursor_fill(color: Rgb) -> (r: Rgb)
    ensures
        r == block_fill(color),
{
    Rgb { r: brighten(color.r), g: brighten(color.g), b: brighten(color.b) }
}

/// The colour of the cursor: its own, else the terminal's for cursors, else that of
/// text.
pub fn cursor_color(own: Option<Rgb>, shared: Option<Rgb>, foreground: Rgb) -> (r: Rgb)
    ensures
        r == (match (own, shared) {
            (Some(color), _) => color,
            (None, Some(color)) => color,
            (None, None) => foreground,
        }),
{
    match own {
        Some(color) => color,
        None => match shared {
            Some(color) => color,
            None => foreground,
        },
    }
}

/// Whether the text of a cell is drawn.
pub fn draws_text(invisible: bool, cell: &str) -> (r: bool)
    ensures
        r == (!invisible && cell@.len() > 0 && cell@ != " "@),
{
    !invisible && cell.unicode_len() > 0 && !text::same(cell, " ")
}

/// Whether a session's socket is connected to: the session has not ended, and
/// the socket exists.
pub fn connects_to_socket(status: &str, exists: bool) -> (r: bool)
    ensures
        r == (sessions::is_live(status@) && exists),
{
    sessions::status_is_live(status) && exists
}

/// What reading from a session's socket gave.
#[derive(Debug, Clone, Copy, PartialEq, Eq, Structural)]
pub enum SocketRead {
    Closed,
    Data,
    WouldBlock,
    Interrupted,
    Failed,
}

/// What follows a read: more reads, or an end that keeps or drops the socket.
#[derive(Debug, Clone, Copy, PartialEq, Eq, Structural)]
pub enum AfterRead {
    Feed,
    Again,
    Stop,
    Close,
}

/// What follows a read.
pub open spec fn read_follow(read: SocketRead) -> AfterRead {
    match read {
        SocketRead::Data => AfterRead::Feed,
        SocketRead::Interrupted => AfterRead::Again,
        SocketRead::WouldBlock => AfterRead::Stop,
        SocketRead::Closed | SocketRead::Failed => AfterRead::Close,
    }
}

/// Decides what follows a read.
pub fn after_read(read: SocketRead) -> (r: AfterRead)
    ensures
        r == read_follow(read),
{
    match read {
        SocketRead::Data => AfterRead::Feed,
        SocketRead::Interrupted => AfterRead::Again,
        SocketRead::WouldBlock => AfterRead::Stop,
        SocketRead::Closed => AfterRead::Close,
        SocketRead::Failed => AfterRead::Close,
    }
}

/// The fonts that a terminal is shown in, the best first.
pub open spec fn font_families() -> Seq<Seq<char>> {
    seq![
        "JetBrainsMono Nerd Font"@,
        "JetBrains Mono"@,
        "Iosevka Term"@,
        "SF Mono"@,
        "Menlo"@,
        "Monospace"@,
    ]
}

/// The first font from a position on that is there.
pub open spec fn available_font(families: Seq<Seq<char>>, from: int) -> Seq<char>
    decreases font_families().len() - from,
{
    if from < 0 || from >= font_families().len() {
        "Monospace"@
    } else if families.contains(font_families()[from]) {
        font_families()[from]
    } else {
        available_font(families, from + 1)
    }
}

fn has_family(families: &Vec<String>, name: &str) -> (r: bool)
    ensures
        r == families.deep_view().contains(name@),
{
    crate::repos::has_column(families, name)
}

/// Picks the font that a terminal is shown in.
pub fn select_terminal_font_family(families: &Vec<String>) -> (r: String)
    ensures
        r@ == available_font(families.deep_view(), 0),
{
    proof {
        reveal_with_fuel(available_font, 8);
    }
    if has_family(families, "JetBrainsMono Nerd Font") {
        "JetBrainsMono Nerd Font".to_owned()
    } else if has_family(families, "JetBrains Mono") {
        "JetBrains Mono".to_owned()
    } else if has_family(families, "Iosevka Term") {
        "Iosevka Term".to_owned()
    } else if has_family(families, "SF Mono") {
        "SF Mono".to_owned()
    } else if has_family(families, "Menlo") {
        "Menlo".to_owned()
    } else {
        "Monospace".to_owned()
    }
}

/// The terminal of a process.
pub fn tty_path(pid: u32) -> (r: String)
    ensures
        r@ == "/proc/"@ + text::decimal(pid as nat) + "/fd/0"@,
{
    let mut out = "/proc/".to_owned();
    out.append(text::decimal_text(pid as u64).as_str());
    out.append("/fd/0");
    out
}

/// Moving the visible lines goes where it was meant to, as far as there are
/// lines: no further than the last of them.
pub proof fn law_scrolling_stays_within_the_lines(position: ScrollPosition, value: u64)
    requires
        position.total <= i64::MAX,
        position.offset <= i64::MAX,
    ensures
        0 <= scroll_target(position, value) <= value,
        position.len <= position.total ==> scroll_target(position, value) + position.len
            <= position.total,
        scroll_to(position, value) matches Scroll::Delta(d) ==> position.offset + d
            == scroll_target(position, value),
{
}

/// The keys that paste send nothing else: `Ctrl-Shift-V` is no control
/// character of the terminal's own, and `Shift-Insert` sends nothing.
pub proof fn law_paste_is_told_before_keys(key: Key, modifiers: Modifiers)
    requires
        pastes(key, modifiers),
    ensures
        key == Key::Insert ==> key_bytes(key, modifiers).len() == 0,
        key != Key::Insert ==> key_bytes(key, modifiers) == seq![0x16u8],
{
}

/// What the keys that write no character send, byte by byte, whatever is held with them.
pub proof fn law_keys_written_out(modifiers: Modifiers)
    ensures
        key_bytes(Key::Return, modifiers) == seq![13u8],
        key_bytes(Key::Tab, modifiers) == seq![9u8],
        key_bytes(Key::BackSpace, modifiers) == seq![127u8],
        key_bytes(Key::Escape, modifiers) == seq![27u8],
        key_bytes(Key::Up, modifiers) == seq![27u8, '[' as u8, 'A' as u8],
        key_bytes(Key::Down, modifiers) == seq![27u8, '[' as u8, 'B' as u8],
        key_bytes(Key::Right, modifiers) == seq![27u8, '[' as u8, 'C' as u8],
        key_bytes(Key::Left, modifiers) == seq![27u8, '[' as u8, 'D' as u8],
        key_bytes(Key::Home, modifiers) == seq![27u8, '[' as u8, 'H' as u8],
        key_bytes(Key::End, modifiers) == seq![27u8, '[' as u8, 'F' as u8],
        key_bytes(Key::PageUp, modifiers) == seq![27u8, '[' as u8, '5' as u8, '~' as u8],
        key_bytes(Key::PageDown, modifiers) == seq![27u8, '[' as u8, '6' as u8, '~' as u8],
        key_bytes(Key::Delete, modifiers) == seq![27u8, '[' as u8, '3' as u8, '~' as u8],
        key_bytes(Key::Insert, modifiers) == Seq::<u8>::empty(),
        key_bytes(Key::Unknown, modifiers) == Seq::<u8>::empty(),
{
    assert(escape(seq![0x41u8]) =~= seq![27u8, '[' as u8, 'A' as u8]);
    assert(escape(seq![0x42u8]) =~= seq![27u8, '[' as u8, 'B' as u8]);
    assert(escape(seq![0x43u8]) =~= seq![27u8, '[' as u8, 'C' as u8]);
    assert(escape(seq![0x44u8]) =~= seq![27u8, '[' as u8, 'D' as u8]);
    assert(escape(seq![0x48u8]) =~= seq![27u8, '[' as u8, 'H' as u8]);
    assert(escape(seq![0x46u8]) =~= seq![27u8, '[' as u8, 'F' as u8]);
    assert(escape(seq![0x35u8, 0x7eu8]) =~= seq![27u8, '[' as u8, '5' as u8, '~' as u8]);
    assert(escape(seq![0x36u8, 0x7eu8]) =~= seq![27u8, '[' as u8, '6' as u8, '~' as u8]);
    assert(escape(seq![0x33u8, 0x7eu8]) =~= seq![27u8, '[' as u8, '3' as u8, '~' as u8]);
}

/// A character is sent as its bytes, behind an escape with `Alt`; with `Control` its control
/// character is sent, or nothing where it has none.
pub proof fn law_characters_are_sent(ch: char, modifiers: Modifiers)
    ensures
        ({
            let sent = key_bytes(Key::Character(ch), modifiers);
            let own = vstd::utf8::encode_utf8(seq![ch]);
            &&& modifiers.control && control_char(ch) is Some ==> sent == seq![control_char(ch)->0]
            &&& modifiers.control && control_char(ch) is None ==> sent.len() == 0
            &&& !modifiers.control && modifiers.alt ==> sent == seq![27u8] + own
            &&& !modifiers.control && !modifiers.alt ==> sent == own
        }),
{
}

/// The control character of a letter is its place in the alphabet, for small letters and for
/// capitals; those of the characters round the capitals stand 64 before them, and the blank and
/// the back quote stand for the first.
pub proof fn law_control_characters(ch: char)
    ensures
        'a' <= ch <= 'z' ==> (control_char(ch) matches Some(b) && b == ch as int - 96),
        '@' <= ch <= '_' ==> (control_char(ch) matches Some(b) && b == ch as int - 64),
        ch == ' ' || ch == '`' ==> control_char(ch) == Some(0u8),
        control_char(ch) is Some ==> ('@' <= ch <= 'z' && ch != '{') || ch == ' ',
{
}

/// What pastes: `V` with `Control` and `Shift`, and `Insert` with `Shift` alone.
pub proof fn law_pasting_keys(key: Key, modifiers: Modifiers)
    ensures
        pastes(key, modifiers) <==> (modifiers.shift && modifiers.control && (key
            == Key::Character('v') || key == Key::Character('V'))) || (modifiers == (Modifiers {
            control: false,
            shift: true,
            alt: false,
        }) && key == Key::Insert),
{
}

/// New output is followed exactly where the last line can be seen and no program draws the whole
/// screen.
pub proof fn law_output_is_followed_at_the_end(position: ScrollPosition, alternate: bool)
    ensures
        follows_output(Some(position), alternate) <==> !alternate && position.offset
            + position.len >= position.total,
        !follows_output(None, alternate),
{
}

/// Moving to a place goes there, as far as there are lines: nothing where the lines stand there
/// already, to the top, to the end, or by the difference.
pub proof fn law_moving_goes_to_the_place(position: ScrollPosition, value: u64)
    requires
        position.total <= i64::MAX,
        position.offset <= i64::MAX,
        position.len <= position.total,
    ensures
        ({
            let last = position.total - position.len;
            let target = if value <= last {
                value as int
            } else {
                last
            };
            let reached = match scroll_to(position, value) {
                Scroll::Stay => position.offset as int,
                Scroll::Top => 0,
                Scroll::Bottom => last,
                Scroll::Delta(d) => position.offset + d,
            };
            &&& reached == target
            &&& scroll_to(position, value) == Scroll::Stay <==> target == position.offset
        }),
{
}

/// A turn of the wheel moves three lines, down or up, unless a program draws the whole screen.
pub proof fn law_wheel_moves_three_lines(sign: i64, alternate: bool)
    ensures
        wheel(sign, true) == Scroll::Stay,
        wheel(0, alternate) == Scroll::Stay,
        sign > 0 ==> wheel(sign, false) == Scroll::Delta(3),
        sign < 0 ==> wheel(sign, false) == Scroll::Delta(-3i64),
{
}

/// The scrollbar covers all lines, stands where they stand, pages by what can be seen, by one at
/// least, and can be seen where there is more than that.
pub proof fn law_scrollbar_written_out(position: ScrollPosition, alternate: bool)
    ensures
        ({
            let bar = scrollbar_of(position, alternate);
            &&& bar.upper == if position.total > position.len {
                position.total
            } else {
                position.len
            }
            &&& bar.page_size == position.len
            &&& bar.page_increment == if position.len == 0 {
                1
            } else {
                position.len
            }
            &&& bar.value == position.offset
            &&& bar.visible <==> position.total > position.len && !alternate
        }),
{
}

/// A colour is written as `#` and two digits in base sixteen for each of red, green and blue,
/// which read back.
pub proof fn law_colours_read_back(color: Rgb)
    ensures
        ({
            let s = hex_color(color);
            &&& s.len() == 7
            &&& s[0] == '#'
            &&& text::hex_value(s.subrange(1, 3)) == color.r
            &&& text::hex_value(s.subrange(3, 5)) == color.g
            &&& text::hex_value(s.subrange(5, 7)) == color.b
        }),
{
    reveal_strlit("#");
    let s = hex_color(color);
    lemma_hex_pair(color.r);
    lemma_hex_pair(color.g);
    lemma_hex_pair(color.b);
    assert(s.subrange(1, 3) =~= hex_pair(color.r));
    assert(s.subrange(3, 5) =~= hex_pair(color.g));
    assert(s.subrange(5, 7) =~= hex_pair(color.b));
}

proof fn lemma_hex_pair(byte: u8)
    ensures
        hex_pair(byte).len() == 2,
        text::hex_value(hex_pair(byte)) == byte,
{
    let s = hex_pair(byte);
    let high = byte as nat / 16;
    let low = byte as nat % 16;
    assert(high < 16 && low < 16);
    assert(s.drop_last() =~= seq![text::digit_char(high)]);
    assert(s.drop_last().drop_last() =~= Seq::<char>::empty());
    reveal_with_fuel(text::hex_value, 3);
    assert(text::hex_value(s.drop_last()) == high);
    assert(byte as nat == 16 * high + low);
}

/// The sequences that set the theme: the foreground, the background and the cursor by their
/// numbers, and then the colours of the palette by theirs, from 0 on.
pub proof fn law_theme_written_out(colors: Seq<Rgb>, n: nat, number: Seq<char>, color: Rgb)
    ensures
        set_color(number, color) == seq!['\u{1b}', ']'] + number + seq![';'] + hex_color(color)
            + seq!['\u{7}'],
        set_palette(colors, 0) == Seq::<char>::empty(),
        set_palette(colors, n as int + 1) == set_palette(colors, n as int) + set_color(
            seq!['4', ';'] + text::decimal(n),
            colors[n as int],
        ),
        theme_text() == set_color("10"@, Rgb { r: 0xe6, g: 0xed, b: 0xf3 }) + set_color(
            "11"@,
            Rgb { r: 0x10, g: 0x14, b: 0x1c },
        ) + set_color("12"@, Rgb { r: 0x8b, g: 0xc2, b: 0xff }) + set_palette(theme_palette(), 16),
        theme_palette().len() == 16,
{
    reveal_strlit("\u{1b}]");
    reveal_strlit(";");
    reveal_strlit("\u{7}");
    reveal_strlit("4;");
    assert("\u{1b}]"@ =~= seq!['\u{1b}', ']']);
    assert(";"@ =~= seq![';']);
    assert("\u{7}"@ =~= seq!['\u{7}']);
    assert("4;"@ =~= seq!['4', ';']);
}

/// The palette of the theme: eight colours, and then the bright ones in the same order.
pub proof fn law_palette_written_out()
    ensures
        theme_palette() == seq![
            Rgb { r: 34, g: 40, b: 51 },
            Rgb { r: 240, g: 113, b: 120 },
            Rgb { r: 166, g: 218, b: 149 },
            Rgb { r: 230, g: 195, b: 132 },
            Rgb { r: 125, g: 183, b: 255 },
            Rgb { r: 198, g: 160, b: 246 },
            Rgb { r: 108, g: 212, b: 227 },
            Rgb { r: 216, g: 223, b: 231 },
            Rgb { r: 85, g: 97, b: 115 },
            Rgb { r: 255, g: 139, b: 146 },
            Rgb { r: 184, g: 242, b: 167 },
            Rgb { r: 244, g: 209, b: 154 },
            Rgb { r: 152, g: 199, b: 255 },
            Rgb { r: 215, g: 183, b: 255 },
            Rgb { r: 140, g: 229, b: 240 },
            Rgb { r: 244, g: 248, b: 252 },
        ],
{
}

/// A cell has its own colours, and the terminal's where it has none; an inverse cell has them
/// changed over, so that inverting is undone by inverting again.
pub proof fn law_colours_of_cells(
    own_text: Option<Rgb>,
    own_ground: Option<Rgb>,
    text_color: Rgb,
    ground: Rgb,
)
    ensures
        ({
            let plain = cell_colors(own_text, own_ground, false, text_color, ground);
            let inverse = cell_colors(own_text, own_ground, true, text_color, ground);
            &&& plain.0 == (if own_text is Some {
                own_text->0
            } else {
                text_color
            })
            &&& plain.1 == (if own_ground is Some {
                own_ground->0
            } else {
                ground
            })
            &&& inverse == (plain.1, plain.0)
        }),
{
}

/// A block cursor is filled with a colour that is 24 brighter in each of its parts, and never
/// beyond the brightest.
pub proof fn law_block_cursors_are_brighter(color: Rgb, part: u8)
    ensures
        brighter(part) == (if part + 24 > 255 {
            255
        } else {
            part + 24
        }),
        block_fill(color).r == brighter(color.r),
        block_fill(color).g == brighter(color.g),
        block_fill(color).b == brighter(color.b),
{
}

/// What was read is fed, an interrupted read is tried again, a read that would wait ends the
/// reading, and a session that has closed or fails is let go of.
pub proof fn law_reads_are_followed(read: SocketRead)
    ensures
        read_follow(read) == AfterRead::Feed <==> read == SocketRead::Data,
        read_follow(read) == AfterRead::Again <==> read == SocketRead::Interrupted,
        read_follow(read) == AfterRead::Stop <==> read == SocketRead::WouldBlock,
        read_follow(read) == AfterRead::Close <==> read == SocketRead::Closed || read
            == SocketRead::Failed,
{
}

/// The font is the first of those that are preferred that is there, and without any `Monospace`.
pub proof fn law_preferred_fonts(families: Seq<Seq<char>>, k: int)
    requires
        0 <= k < 6,
        families.contains(
            seq![
                "JetBrainsMono Nerd Font"@,
                "JetBrains Mono"@,
                "Iosevka Term"@,
                "SF Mono"@,
                "Menlo"@,
                "Monospace"@,
            ][k],
        ),
        forall|j: int| 0 <= j < k ==> !families.contains(#[trigger] font_families()[j]),
    ensures
        available_font(families, 0) == seq![
            "JetBrainsMono Nerd Font"@,
            "JetBrains Mono"@,
            "Iosevka Term"@,
            "SF Mono"@,
            "Menlo"@,
            "Monospace"@,
        ][k],
        available_font(seq![], 0) == "Monospace"@,
{
    lemma_available_font(families, 0, k);
    lemma_no_font(0);
}

proof fn lemma_available_font(families: Seq<Seq<char>>, from: int, k: int)
    requires
        0 <= from <= k < 6,
        families.contains(font_families()[k]),
        forall|j: int| from <= j < k ==> !families.contains(#[trigger] font_families()[j]),
    ensures
        available_font(families, from) == font_families()[k],
    decreases k - from,
{
    if from < k {
        assert(!families.contains(font_families()[from]));
        lemma_available_font(families, from + 1, k);
    }
}

proof fn lemma_no_font(from: int)
    requires
        0 <= from <= 6,
    ensures
        available_font(seq![], from) == "Monospace"@,
    decreases 6 - from,
{
    if from < 6 {
        lemma_no_font(from + 1);
    }
}

/// A terminal has 120 columns and 40 rows at first, and keeps 20000 lines.
pub proof fn law_sizes_of_a_terminal()
    ensures
        DEFAULT_COLS == 120,
        DEFAULT_ROWS == 40,
        MAX_SCROLLBACK == 20000,
{
}

} // verus!
