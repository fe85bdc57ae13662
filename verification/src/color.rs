//! Colours for the level tag: which colour each level gets, and the escape
//! sequence that paints a text in it. The colours are those of `colored`.

use crate::formater::FixedLevel;
use crate::level::Level;
use vstd::prelude::*;
use vstd::string::*;

verus! {

/// `colored::Color`, carried through unread.
#[verifier::external_type_specification]
#[verifier::external_body]
pub struct ExColor(colored::Color);

/// Trusted: `colored::Color::to_fg_str`, the code that selects the colour as
/// foreground in an escape sequence. For a true colour it depends on what
/// the terminal is said to support, so nothing is claimed of the code.
#[verifier::external_body]
fn fg_code(color: &colored::Color) -> (code: String) {
    color.to_fg_str().into_owned()
}

/// Trusted: the variant `BrightRed` of `colored::Color`.
#[verifier::external_body]
fn bright_red() -> (color: colored::Color) {
    colored::Color::BrightRed
}

/// Trusted: the variant `Yellow` of `colored::Color`.
#[verifier::external_body]
fn yellow() -> (color: colored::Color) {
    colored::Color::Yellow
}

/// Trusted: the variant `Green` of `colored::Color`.
#[verifier::external_body]
fn green() -> (color: colored::Color) {
    colored::Color::Green
}

/// Trusted: the variant `Cyan` of `colored::Color`.
#[verifier::external_body]
fn cyan() -> (color: colored::Color) {
    colored::Color::Cyan
}

/// Trusted: the variant `BrightBlue` of `colored::Color`.
#[verifier::external_body]
fn bright_blue() -> (color: colored::Color) {
    colored::Color::BrightBlue
}

/// The text between the escape sequence that selects the colour of the
/// given code and the one that resets it.
pub open spec fn painted(code: Seq<char>, text: Seq<char>) -> Seq<char> {
    "\x1B["@ + code + "m"@ + text + "\x1B[0m"@
}

/// Wraps the text in the escape sequences for the colour of the given code.
pub fn paint(code: &str, text: &str) -> (r: String)
    ensures
        r@ == painted(code@, text@),
{
    let mut r = String::from_str("\x1B[");
    r.append(code);
    r.append("m");
    r.append(text);
    r.append("\x1B[0m");
    r
}

/// A text with the colour to show it in, if any.
pub struct ColoredFgWith {
    text: String,
    color: Option<colored::Color>,
}

impl ColoredFgWith {
    pub closed spec fn spec_text(&self) -> Seq<char> {
        self.text@
    }

    pub closed spec fn spec_color(&self) -> Option<colored::Color> {
        self.color
    }

    pub fn new(text: &str, color: Option<colored::Color>) -> (r: ColoredFgWith)
        ensures
            r.spec_text() == text@,
            r.spec_color() == color,
    {
        Self { text: String::from_str(text), color }
    }

    /// What is shown once the colour's code is known: the text as it is
    /// where there is no colour, and the painted text where there is one.
    pub open spec fn shown(&self, code: Seq<char>) -> Seq<char> {
        if self.spec_color() is Some {
            painted(code, self.spec_text())
        } else {
            self.spec_text()
        }
    }

    /// The text as it is shown. A text without colour is shown unchanged.
    pub fn to_string(&self) -> (r: String)
        ensures
            exists|code: Seq<char>| r@ == #[trigger] self.shown(code),
            self.spec_color() is None ==> r@ == self.spec_text(),
    {
        match &self.color {
            Some(color) => {
                let code = fg_code(color);
                let r = paint(code.as_str(), self.text.as_str());
                assert(r@ == self.shown(code@));
                r
            },
            None => {
                assert(self.text@ == self.shown(Seq::empty()));
                self.text.clone()
            },
        }
    }
}

/// The colour of each level, and whether colours are used at all.
#[derive(Debug, Clone, Copy)]
pub struct ColoredLogConfig {
    pub error: colored::Color,
    pub warn: colored::Color,
    pub info: colored::Color,
    pub debug: colored::Color,
    pub trace: colored::Color,
    pub color: bool,
}

impl ColoredLogConfig {
    /// The colour that the configuration gives to a level, if colours are
    /// used.
    pub open spec fn spec_pick(&self, level: Level) -> Option<colored::Color> {
        if self.color {
            Some(
                match level {
                    Level::Error => self.error,
                    Level::Warn => self.warn,
                    Level::Info => self.info,
                    Level::Debug => self.debug,
                    Level::Trace => self.trace,
                },
            )
        } else {
            None
        }
    }

    /// Bright red for errors, yellow for warnings, green for information,
    /// cyan for debugging and bright blue for traces, with colours in use.
    pub fn new() -> (c: ColoredLogConfig)
        ensures
            c.color,
    {
        Self {
            error: bright_red(),
            warn: yellow(),
            info: green(),
            debug: cyan(),
            trace: bright_blue(),
            color: true,
        }
    }

    pub fn error(self, error: colored::Color) -> (c: ColoredLogConfig)
        ensures
            c == (ColoredLogConfig { error, ..self }),
    {
        let mut c = self;
        c.error = error;
        c
    }

    pub fn warn(self, warn: colored::Color) -> (c: ColoredLogConfig)
        ensures
            c == (ColoredLogConfig { warn, ..self }),
    {
        let mut c = self;
        c.warn = warn;
        c
    }

    pub fn info(self, info: colored::Color) -> (c: ColoredLogConfig)
        ensures
            c == (ColoredLogConfig { info, ..self }),
    {
        let mut c = self;
        c.info = info;
        c
    }

    pub fn debug(self, debug: colored::Color) -> (c: ColoredLogConfig)
        ensures
            c == (ColoredLogConfig { debug, ..self }),
    {
        let mut c = self;
        c.debug = debug;
        c
    }

    pub fn trace(self, trace: colored::Color) -> (c: ColoredLogConfig)
        ensures
            c == (ColoredLogConfig { trace, ..self }),
    {
        let mut c = self;
        c.trace = trace;
        c
    }

    /// Switches the colours on or off.
    pub fn color(self, color: bool) -> (c: ColoredLogConfig)
        ensures
            c == (ColoredLogConfig { color, ..self }),
    {
        let mut c = self;
        c.color = color;
        c
    }

    /// The colour for a level, if colours are used.
    #[verifier::when_used_as_spec(spec_pick)]
    pub fn pick(&self, level: Level) -> (color: Option<colored::Color>)
        ensures
            color == self.spec_pick(level),
    {
        if self.color {
            let colored = match level {
                Level::Error => self.error,
                Level::Warn => self.warn,
                Level::Info => self.info,
                Level::Debug => self.debug,
                Level::Trace => self.trace,
            };
            Some(colored)
        } else {
            None
        }
    }

    /// The text with the colour that the configuration gives to the level.
    pub fn coloredfg(&self, level: Level, text: &str) -> (r: ColoredFgWith)
        ensures
            r.spec_text() == text@,
            r.spec_color() == self.pick(level),
    {
        ColoredFgWith::new(text, self.pick(level))
    }
}

impl Default for ColoredLogConfig {
    fn default() -> (c: ColoredLogConfig)
        ensures
            c.color,
    {
        Self::new()
    }
}

/// A level tag on its way to being shown in its colour.
#[derive(Debug, Clone, Copy)]
pub struct ColoredFixedLevel(pub FixedLevel);

impl ColoredFixedLevel {
    pub fn new(fl: FixedLevel) -> (r: ColoredFixedLevel)
        ensures
            r.0 == fl,
    {
        ColoredFixedLevel(fl)
    }

    /// The tag's text with the tag's colour.
    pub fn into_coloredfg(self) -> (r: ColoredFgWith)
        ensures
            r.spec_text() == self.0.text(),
            r.spec_color() == self.0.spec_color(),
    {
        ColoredFgWith::new(self.0.as_str(), self.0.color())
    }
}

} // verus!
