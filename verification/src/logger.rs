//! What the logger lets through and how it writes a record.
use crate::text::{a_sum_is_framed, framed};
use vstd::prelude::*;
use vstd::string::*;

verus! {

/// The colors that this crate uses.
#[derive(Clone, Copy, Debug, PartialEq, Eq, Structural)]
pub enum Color {
    Black,
    Red,
    Green,
    Yellow,
    BrightBlack,
}

/// How serious a record is.
#[derive(Clone, Copy, Debug, PartialEq, Eq, Structural)]
pub enum Level {
    Error,
    Warn,
    Info,
    Debug,
    Trace,
}

/// The least serious level that is let through.
#[derive(Clone, Copy, Debug, PartialEq, Eq, Structural)]
pub enum LevelFilter {
    Warn,
    Info,
    Debug,
    Trace,
}

/// One color for each level.
#[derive(Clone, Copy, Debug, PartialEq, Eq, Structural)]
pub struct LevelColors {
    pub error: Color,
    pub warn: Color,
    pub info: Color,
    pub debug: Color,
    pub trace: Color,
}

/// The number by which a terminal knows `color` as a foreground.
pub open spec fn foreground(color: Color) -> Seq<char> {
    match color {
        Color::Black => "30"@,
        Color::Red => "31"@,
        Color::Green => "32"@,
        Color::Yellow => "33"@,
        Color::BrightBlack => "90"@,
    }
}

/// The name of a level.
pub open spec fn level_name(level: Level) -> Seq<char> {
    match level {
        Level::Error => "ERROR"@,
        Level::Warn => "WARN"@,
        Level::Info => "INFO"@,
        Level::Debug => "DEBUG"@,
        Level::Trace => "TRACE"@,
    }
}

/// The escape sequence that switches the foreground to `color`.
pub open spec fn switch_to(color: Color) -> Seq<char> {
    "\x1B["@ + foreground(color) + "m"@
}

/// The name of `level` in `color`, with the color switched off behind it.
pub open spec fn colored_name(color: Color, level: Level) -> Seq<char> {
    switch_to(color) + level_name(level) + "\x1B[0m"@
}

/// Calls `fern::colors::Color::to_fg_str`.
///
/// Trusted: the result is the number by which a terminal knows the color as a
/// foreground.
#[verifier::external_body]
fn foreground_text(color: Color) -> (res: String)
    ensures
        res@ == foreground(color),
{
    let color = match color {
        Color::Black => fern::colors::Color::Black,
        Color::Red => fern::colors::Color::Red,
        Color::Green => fern::colors::Color::Green,
        Color::Yellow => fern::colors::Color::Yellow,
        Color::BrightBlack => fern::colors::Color::BrightBlack,
    };
    color.to_fg_str().to_string()
}

/// Calls `fern::colors::ColoredLevelConfig::color`, with a configuration that
/// has `color` for every level, and displays what it returns.
///
/// Trusted: the result is the level's name, as `log::Level` displays it, in
/// capitals between the escape sequence that switches to `color` and the one
/// that switches colors off.
#[verifier::external_body]
fn colored_level(color: Color, level: Level) -> (res: String)
    ensures
        res@ == colored_name(color, level),
{
    let c = match color {
        Color::Black => fern::colors::Color::Black,
        Color::Red => fern::colors::Color::Red,
        Color::Green => fern::colors::Color::Green,
        Color::Yellow => fern::colors::Color::Yellow,
        Color::BrightBlack => fern::colors::Color::BrightBlack,
    };
    let colors = fern::colors::ColoredLevelConfig { error: c, warn: c, info: c, debug: c, trace: c };
    match level {
        Level::Error => colors.color(log::Level::Error).to_string(),
        Level::Warn => colors.color(log::Level::Warn).to_string(),
        Level::Info => colors.color(log::Level::Info).to_string(),
        Level::Debug => colors.color(log::Level::Debug).to_string(),
        Level::Trace => colors.color(log::Level::Trace).to_string(),
    }
}

/// The escape sequence that switches the foreground to `color`.
pub fn switch_text(color: Color) -> (res: String)
    ensures
        res@ == switch_to(color),
{
    "\x1B[".to_string().concat(foreground_text(color).as_str()).concat("m")
}

impl LevelColors {
    /// The color of a level.
    pub open spec fn of(self, level: Level) -> Color {
        match level {
            Level::Error => self.error,
            Level::Warn => self.warn,
            Level::Info => self.info,
            Level::Debug => self.debug,
            Level::Trace => self.trace,
        }
    }

    /// The color of a level.
    pub fn get_color(&self, level: Level) -> (res: Color)
        ensures
            res == self.of(level),
    {
        match level {
            Level::Error => self.error,
            Level::Warn => self.warn,
            Level::Info => self.info,
            Level::Debug => self.debug,
            Level::Trace => self.trace,
        }
    }
}

/// How the logger is to be set up.
#[derive(Clone, Copy, Debug, PartialEq, Eq)]
pub struct LoggerSettings {
    /// The least serious level that is let through.
    pub level: LevelFilter,
    /// A target with a level of its own.
    pub exception: (&'static str, LevelFilter),
    /// The colors of whole lines.
    pub line_colors: LevelColors,
    /// The colors of the names of the levels.
    pub level_colors: LevelColors,
}

impl LoggerSettings {
    /// A record as one line: in the color of its level, with the target and
    /// the name of the level in front of the message.
    pub open spec fn line_of(self, level: Level, target: Seq<char>, message: Seq<char>) -> Seq<
        char,
    > {
        let color_line = switch_to(self.line_colors.of(level));
        color_line + "["@ + target + "]["@ + colored_name(self.level_colors.of(level), level)
            + color_line + "] "@ + message + "\x1B[0m"@
    }

    /// Writes a record as one line.
    pub fn format(&self, level: Level, target: &str, message: &str) -> (res: String)
        ensures
            res@ == self.line_of(level, target@, message@),
    {
        let color_line: String = switch_text(self.line_colors.get_color(level));
        let name: String = colored_level(self.level_colors.get_color(level), level);
        color_line.clone().concat("[").concat(target).concat("][").concat(name.as_str()).concat(
            color_line.as_str(),
        ).concat("] ").concat(message).concat("\x1B[0m")
    }
}

/// Each color has its own number.
pub proof fn colors_are_told_apart(a: Color, b: Color)
    ensures
        foreground(a) == foreground(b) <==> a == b,
{
    reveal_strlit("30");
    reveal_strlit("31");
    reveal_strlit("32");
    reveal_strlit("33");
    reveal_strlit("90");
    assert(foreground(a).len() == 2 && foreground(b).len() == 2);
    if foreground(a) == foreground(b) {
        assert(foreground(a)[0] == foreground(b)[0]);
        assert(foreground(a)[1] == foreground(b)[1]);
    }
}

/// An escape sequence frames the number of its color.
pub proof fn a_switch_frames_the_number(color: Color)
    ensures
        framed(switch_to(color), "\x1B["@, foreground(color), "m"@),
{
    a_sum_is_framed("\x1B["@, foreground(color), "m"@);
}

/// Each level has the color of its own.
pub proof fn each_level_has_its_color(colors: LevelColors)
    ensures
        colors.of(Level::Error) == colors.error,
        colors.of(Level::Warn) == colors.warn,
        colors.of(Level::Info) == colors.info,
        colors.of(Level::Debug) == colors.debug,
        colors.of(Level::Trace) == colors.trace,
{
}

/// A line opens in the color of its level, shows the target in brackets, then
/// the name of the level in its own color, goes back to the color of the line
/// for the message, and switches colors off at its end.
pub proof fn a_line_shows_target_level_and_message(
    settings: LoggerSettings,
    level: Level,
    target: Seq<char>,
    message: Seq<char>,
)
    ensures
        ({
            let text = settings.line_of(level, target, message);
            let color = switch_to(settings.line_colors.of(level));
            let name = switch_to(settings.level_colors.of(level)) + level_name(level) + "\x1B[0m"@;
            &&& framed(
                text,
                color + "["@,
                target,
                "]["@ + name + color + "] "@ + message + "\x1B[0m"@,
            )
            &&& framed(
                text,
                color + "["@ + target + "]["@ + name + color + "] "@,
                message,
                "\x1B[0m"@,
            )
        }),
{
    let text = settings.line_of(level, target, message);
    let color = switch_to(settings.line_colors.of(level));
    let name = colored_name(settings.level_colors.of(level), level);
    let after = "]["@ + name + color + "] "@ + message + "\x1B[0m"@;
    assert(color + "["@ + target + after =~= text);
    a_sum_is_framed(color + "["@, target, after);
    a_sum_is_framed(
        color + "["@ + target + "]["@ + name + color + "] "@,
        message,
        "\x1B[0m"@,
    );
}

/// Each level has its own name, and each color that a line may have its number.
pub proof fn levels_and_colors_have_their_names(a: Level, b: Level)
    ensures
        level_name(a) == level_name(b) <==> a == b,
        level_name(Level::Error) == "ERROR"@,
        level_name(Level::Warn) == "WARN"@,
        level_name(Level::Info) == "INFO"@,
        level_name(Level::Debug) == "DEBUG"@,
        level_name(Level::Trace) == "TRACE"@,
        foreground(Color::Black) == seq!['3', '0'],
        foreground(Color::Red) == seq!['3', '1'],
        foreground(Color::Green) == seq!['3', '2'],
        foreground(Color::Yellow) == seq!['3', '3'],
        foreground(Color::BrightBlack) == seq!['9', '0'],
{
    reveal_strlit("ERROR");
    reveal_strlit("WARN");
    reveal_strlit("INFO");
    reveal_strlit("DEBUG");
    reveal_strlit("TRACE");
    reveal_strlit("30");
    reveal_strlit("31");
    reveal_strlit("32");
    reveal_strlit("33");
    reveal_strlit("90");
    if level_name(a) == level_name(b) {
        assert(level_name(a).len() == level_name(b).len());
        assert(level_name(a)[0] == level_name(b)[0]);
    }
}

} // verus!
