//! Rendering of a record into the line that the sinks receive.

use crate::color::{ColoredFgWith, ColoredFixedLevel, ColoredLogConfig};
use crate::error::Error;
use crate::level::Level;
use crate::record::Record;
use vstd::prelude::*;
use vstd::string::*;

verus! {

/// The character of one decimal digit.
pub open spec fn digit(d: nat) -> char {
    if d == 0 {
        '0'
    } else if d == 1 {
        '1'
    } else if d == 2 {
        '2'
    } else if d == 3 {
        '3'
    } else if d == 4 {
        '4'
    } else if d == 5 {
        '5'
    } else if d == 6 {
        '6'
    } else if d == 7 {
        '7'
    } else if d == 8 {
        '8'
    } else {
        '9'
    }
}

/// A number in decimal, without sign or leading zeros.
pub open spec fn decimal(n: nat) -> Seq<char>
    decreases n,
{
    if n < 10 {
        seq![digit(n)]
    } else {
        decimal(n / 10).push(digit(n % 10))
    }
}

fn digit_text(d: u64) -> (text: &'static str)
    requires
        d < 10,
    ensures
        text@ == seq![digit(d as nat)],
{
    proof {
        reveal_strlit("0");
        reveal_strlit("1");
        reveal_strlit("2");
        reveal_strlit("3");
        reveal_strlit("4");
        reveal_strlit("5");
        reveal_strlit("6");
        reveal_strlit("7");
        reveal_strlit("8");
        reveal_strlit("9");
    }
    let text = if d == 0 {
        "0"
    } else if d == 1 {
        "1"
    } else if d == 2 {
        "2"
    } else if d == 3 {
        "3"
    } else if d == 4 {
        "4"
    } else if d == 5 {
        "5"
    } else if d == 6 {
        "6"
    } else if d == 7 {
        "7"
    } else if d == 8 {
        "8"
    } else {
        "9"
    };
    assert(text@ =~= seq![digit(d as nat)]);
    text
}

/// The number in decimal.
pub fn decimal_text(n: u64) -> (text: String)
    ensures
        text@ == decimal(n as nat),
    decreases n,
{
    if n < 10 {
        String::from_str(digit_text(n))
    } else {
        let mut text = decimal_text(n / 10);
        text.append(digit_text(n % 10));
        assert(text@ =~= decimal((n / 10) as nat).push(digit((n % 10) as nat)));
        text
    }
}

/// The number that the digits of a text spell when all else is left out;
/// zero for a text without digits.
pub open spec fn number_in(text: Seq<u8>) -> nat
    decreases text.len(),
{
    if text.len() == 0 {
        0
    } else if 48 <= text.last() <= 57 {
        number_in(text.drop_last()) * 10 + (text.last() - 48) as nat
    } else {
        number_in(text.drop_last())
    }
}

/// The number of a thread, read from the text that shows its identity: the
/// number that the digits spell, or zero where that is too large.
pub fn thread_number(shown: &str) -> (n: u64)
    ensures
        n == if number_in(shown.spec_bytes()) <= u64::MAX {
            number_in(shown.spec_bytes())
        } else {
            0
        },
{
    let bytes = shown.as_bytes();
    let mut n: u64 = 0;
    let mut fits = true;
    let mut i: usize = 0;
    while i < bytes.len()
        invariant
            i <= bytes@.len(),
            bytes@ == shown.spec_bytes(),
            fits ==> n == number_in(bytes@.take(i as int)),
            !fits ==> number_in(bytes@.take(i as int)) > u64::MAX,
        decreases bytes@.len() - i,
    {
        let b = bytes[i];
        proof {
            assert(bytes@.take(i + 1).drop_last() =~= bytes@.take(i as int));
            assert(bytes@.take(i + 1).last() == b);
        }
        if 48 <= b && b <= 57 && fits {
            let d: u64 = (b - 48) as u64;
            if n > (u64::MAX - d) / 10 {
                fits = false;
            } else {
                n = n * 10 + d;
            }
        }
        i += 1;
    }
    proof {
        assert(bytes@.take(i as int) =~= bytes@);
    }
    if fits {
        n
    } else {
        0
    }
}

/// How a thread is named in a rendered line: its number, a dot, and its
/// name, or four stars for a thread without one.
pub open spec fn thread_label_text(id: nat, name: Option<Seq<char>>) -> Seq<char> {
    decimal(id) + "."@ + match name {
        Some(n) => n,
        None => "****"@,
    }
}

/// The label of a thread, from its number and its name.
pub fn thread_label(id: u64, name: Option<&str>) -> (label: String)
    ensures
        label@ == thread_label_text(
            id as nat,
            match name {
                Some(n) => Some(n@),
                None => None,
            },
        ),
{
    let mut label = decimal_text(id);
    label.append(".");
    match name {
        Some(n) => label.append(n),
        None => label.append("****"),
    }
    label
}

/// The five-letter tag of a level, padded with a blank where the name is
/// shorter.
pub open spec fn level_tag(level: Level) -> Seq<char> {
    match level {
        Level::Trace => "TRACE"@,
        Level::Debug => "DEBUG"@,
        Level::Info => "INFO "@,
        Level::Warn => "WARN "@,
        Level::Error => "ERROR"@,
    }
}

/// Every tag has five characters, all of them ASCII.
pub proof fn lemma_level_tag(level: Level)
    ensures
        level_tag(level).len() == 5,
        vstd::utf8::is_ascii_chars(level_tag(level)),
{
    reveal_strlit("TRACE");
    reveal_strlit("DEBUG");
    reveal_strlit("INFO ");
    reveal_strlit("WARN ");
    reveal_strlit("ERROR");
}

/// The tag of a level, cut to a fixed number of characters.
#[derive(Debug, Clone, Copy)]
pub struct FixedLevel {
    str: &'static str,
    length: usize,
    color: Option<colored::Color>,
}

impl FixedLevel {
    #[verifier::type_invariant]
    spec fn well_formed(self) -> bool {
        &&& self.length <= 5
        &&& self.str@.len() == 5
        &&& self.str.is_ascii()
    }

    /// The uncut tag.
    pub closed spec fn tag(self) -> Seq<char> {
        self.str@
    }

    /// The number of characters that are shown.
    pub closed spec fn width(self) -> nat {
        self.length as nat
    }

    /// The colour of the tag, if it has one.
    pub closed spec fn spec_color(self) -> Option<colored::Color> {
        self.color
    }

    /// What is shown: the first `width` characters of the tag.
    pub open spec fn text(self) -> Seq<char> {
        self.tag().take(self.width() as int)
    }

    fn tag_of(level: Level) -> (str: &'static str)
        ensures
            str@ == level_tag(level),
            str@.len() == 5,
            str.is_ascii(),
    {
        proof {
            lemma_level_tag(level);
        }
        match level {
            Level::Trace => "TRACE",
            Level::Debug => "DEBUG",
            Level::Info => "INFO ",
            Level::Warn => "WARN ",
            Level::Error => "ERROR",
        }
    }

    /// The whole tag of the level, without colour.
    pub fn new(level: Level) -> (f: FixedLevel)
        ensures
            f.tag() == level_tag(level),
            f.width() == 5,
            f.spec_color() is None,
    {
        Self { str: Self::tag_of(level), length: 5, color: None }
    }

    /// The whole tag of the level, in the colour that the configuration
    /// gives to the level.
    pub fn with_color(level: Level, color_: &ColoredLogConfig) -> (f: FixedLevel)
        ensures
            f.tag() == level_tag(level),
            f.width() == 5,
            f.spec_color() == color_.pick(level),
    {
        Self { str: Self::tag_of(level), length: 5, color: color_.pick(level) }
    }

    pub fn color(&self) -> (c: Option<colored::Color>)
        ensures
            c == self.spec_color(),
    {
        self.color
    }

    /// The tag on its way to being shown in its colour.
    pub fn into_colored(self) -> (c: ColoredFixedLevel)
        ensures
            c.0 == self,
    {
        ColoredFixedLevel::new(self)
    }

    /// Cuts the tag to `length` characters, which are at most five.
    pub fn length(self, length: usize) -> (f: FixedLevel)
        requires
            length <= 5,
        ensures
            f.tag() == self.tag(),
            f.width() == length,
            f.spec_color() == self.spec_color(),
    {
        proof {
            use_type_invariant(self);
        }
        Self { str: self.str, length, color: self.color }
    }

    /// The text that is shown.
    pub fn as_str(&self) -> (text: &'static str)
        ensures
            text@ == self.text(),
    {
        proof {
            use_type_invariant(self);
        }
        self.str.substring_ascii(0, self.length)
    }
}

/// Whether chrono accepts a timestamp pattern: whether
/// `chrono::format::DelayedFormat::write_to` succeeds for a date and time
/// with their offset under the pattern. A date and time of our era, with
/// its offset, has every field that a pattern can ask for, so the pattern
/// alone decides.
pub uninterp spec fn pattern_accepted(pattern: Seq<char>) -> bool;

/// Trusted: `chrono::Utc::now` and `chrono::DateTime::format`, written out
/// with `chrono::format::DelayedFormat::write_to`. The text depends on the
/// clock, so nothing is claimed of it; there is a text exactly where chrono
/// accepts the pattern. On a machine whose clock stands before 1970 chrono
/// panics, and behind the year 9999 it refuses patterns that it accepts
/// today.
#[verifier::external_body]
fn utc_timestamp(pattern: &str) -> (stamp: Option<String>)
    ensures
        stamp is Some <==> pattern_accepted(pattern@),
{
    let mut text = String::new();
    match chrono::Utc::now().format(pattern).write_to(&mut text) {
        Ok(()) => Some(text),
        Err(_) => None,
    }
}

/// Trusted: `chrono::Local::now` and `chrono::DateTime::format`, written out
/// with `chrono::format::DelayedFormat::write_to`. The text depends on the
/// clock and on the machine's time zone, so nothing is claimed of it; `None`
/// is returned exactly where chrono refuses the pattern. On a machine whose
/// clock stands before 1970, or whose time zone cannot be found, chrono
/// panics, and behind the year 9999 it refuses patterns that it accepts
/// today.
#[verifier::external_body]
fn local_timestamp(pattern: &str) -> (stamp: Option<String>)
    ensures
        stamp is Some <==> pattern_accepted(pattern@),
{
    let mut text = String::new();
    match chrono::Local::now().format(pattern).write_to(&mut text) {
        Ok(()) => Some(text),
        Err(_) => None,
    }
}

/// The text of the error that reports a refused timestamp pattern.
pub open spec fn pattern_error_text() -> Seq<char> {
    "invalid datetime format"@
}

/// The rendered line: timestamp, level, thread, place in the source, target
/// and body, ended by a newline.
pub open spec fn rendered(
    stamp: Seq<char>,
    level: Seq<char>,
    thread: Seq<char>,
    file: Seq<char>,
    line: nat,
    target: Seq<char>,
    body: Seq<char>,
) -> Seq<char> {
    stamp + " "@ + level + " ["@ + thread + "] ("@ + file + ":"@ + decimal(line) + ") ["@ + target
        + "] -- "@ + body + "\n"@
}

/// Renders one line from its parts.
pub fn render(
    stamp: &str,
    level: &str,
    thread: &str,
    file: &str,
    line: u32,
    target: &str,
    body: &str,
) -> (text: String)
    ensures
        text@ == rendered(stamp@, level@, thread@, file@, line as nat, target@, body@),
{
    let number = decimal_text(line as u64);
    let mut text = String::from_str(stamp);
    text.append(" ");
    text.append(level);
    text.append(" [");
    text.append(thread);
    text.append("] (");
    text.append(file);
    text.append(":");
    text.append(number.as_str());
    text.append(") [");
    text.append(target);
    text.append("] -- ");
    text.append(body);
    text.append("\n");
    text
}

/// The file of a record as it is rendered: a star where it is unknown.
pub open spec fn file_text(record: Record) -> Seq<char> {
    match record.file {
        Some(f) => f@,
        None => "*"@,
    }
}

/// The line of a record as it is rendered: zero where it is unknown.
pub open spec fn line_number(record: Record) -> nat {
    match record.line {
        Some(l) => l as nat,
        None => 0,
    }
}

/// A formatter renders a record, emitted on the thread of the given label,
/// into the text that is written to the sinks, or reports why it cannot.
/// `spec_renders` says which texts are renderings of a record by this
/// formatter.
pub trait Formater: Send + Sync + 'static {
    spec fn spec_renders(&self, record: &Record, thread: &str, text: &String) -> bool;

    /// The formatter itself, boxed to be put behind a logger.
    fn boxed(self) -> (b: Box<Self>) where Self: Sized
        ensures
            *b == self,
    ;

    fn format(&self, record: &Record, thread: &str) -> (r: Result<String, Error>)
        ensures
            r matches Ok(text) ==> self.spec_renders(record, thread, &text),
    ;
}

/// The built-in formatter: a timestamp pattern, the clock to read, the width
/// of the level tag and its colours.
#[derive(Debug)]
pub struct BaseFormater {
    local: bool,
    level: usize,
    datetime: String,
    color: ColoredLogConfig,
}

impl BaseFormater {
    #[verifier::type_invariant]
    spec fn well_formed(self) -> bool {
        self.level <= 5
    }

    /// Whether the timestamp is in local time (`true`) or in UTC.
    pub closed spec fn spec_local_get(&self) -> bool {
        self.local
    }

    /// The width of the level tag.
    pub closed spec fn spec_level_get(&self) -> usize {
        self.level
    }

    /// The pattern of the timestamp.
    pub closed spec fn spec_datetime_get(&self) -> Seq<char> {
        self.datetime@
    }

    /// The colours of the level tag.
    pub closed spec fn spec_color_get(&self) -> ColoredLogConfig {
        self.color
    }

    /// The level tag as it is rendered: cut to the width, and painted where
    /// the level has a colour, whose code is `code`.
    pub open spec fn tag_text(&self, level: Level, code: Seq<char>) -> Seq<char> {
        let cut = level_tag(level).take(self.spec_level_get() as int);
        if self.spec_color_get().pick(level) is Some {
            crate::color::painted(code, cut)
        } else {
            cut
        }
    }

    /// What the formatter makes of a record once the timestamp and the code
    /// of the level's colour are known.
    pub open spec fn line(
        &self,
        record: Record,
        stamp: Seq<char>,
        thread: Seq<char>,
        code: Seq<char>,
    ) -> Seq<char> {
        rendered(
            stamp,
            self.tag_text(record.level, code),
            thread,
            file_text(record),
            line_number(record),
            record.target@,
            record.args@,
        )
    }

    /// UTC timestamps to the millisecond and the whole level tag, without
    /// colour.
    pub fn new() -> (f: BaseFormater)
        ensures
            !f.spec_local_get(),
            f.spec_level_get() == 5,
            f.spec_datetime_get() == "%Y-%m-%d %H:%M:%S.%3f"@,
            !f.spec_color_get().color,
    {
        Self {
            local: false,
            level: 5,
            datetime: String::from_str("%Y-%m-%d %H:%M:%S.%3f"),
            color: ColoredLogConfig::new().color(false),
        }
    }

    /// Chooses local time (`true`) or UTC (`false`) for the timestamp.
    pub fn local(self, local: bool) -> (f: BaseFormater)
        ensures
            f.spec_local_get() == local,
            f.spec_level_get() == self.spec_level_get(),
            f.spec_datetime_get() == self.spec_datetime_get(),
            f.spec_color_get() == self.spec_color_get(),
    {
        proof {
            use_type_invariant(&self);
        }
        let mut f = self;
        f.local = local;
        f
    }

    #[verifier::when_used_as_spec(spec_local_get)]
    pub fn local_get(&self) -> (r: bool)
        ensures
            r == self.spec_local_get(),
    {
        self.local
    }

    /// Sets the width of the level tag, at most five characters.
    pub fn level(self, chars: usize) -> (f: BaseFormater)
        requires
            chars <= 5,
        ensures
            f.spec_level_get() == chars,
            f.spec_local_get() == self.spec_local_get(),
            f.spec_datetime_get() == self.spec_datetime_get(),
            f.spec_color_get() == self.spec_color_get(),
    {
        let mut f = self;
        f.level = chars;
        f
    }

    #[verifier::when_used_as_spec(spec_level_get)]
    pub fn level_get(&self) -> (r: usize)
        ensures
            r == self.spec_level_get(),
            r <= 5,
    {
        proof {
            use_type_invariant(self);
        }
        self.level
    }

    /// Sets the pattern of the timestamp.
    pub fn datetime(self, datetime: &str) -> (f: BaseFormater)
        ensures
            f.spec_datetime_get() == datetime@,
            f.spec_local_get() == self.spec_local_get(),
            f.spec_level_get() == self.spec_level_get(),
            f.spec_color_get() == self.spec_color_get(),
    {
        proof {
            use_type_invariant(&self);
        }
        let mut f = self;
        f.datetime = String::from_str(datetime);
        f
    }

    pub fn datetime_get(&self) -> (r: &str)
        ensures
            r@ == self.spec_datetime_get(),
    {
        self.datetime.as_str()
    }

    /// Switches the colours of the level tag on or off.
    pub fn color(self, color_: bool) -> (f: BaseFormater)
        ensures
            f.spec_color_get() == (ColoredLogConfig { color: color_, ..self.spec_color_get() }),
            f.spec_local_get() == self.spec_local_get(),
            f.spec_level_get() == self.spec_level_get(),
            f.spec_datetime_get() == self.spec_datetime_get(),
    {
        proof {
            use_type_invariant(&self);
        }
        let mut f = self;
        f.color = f.color.color(color_);
        f
    }

    pub fn color_get(&self) -> (r: &ColoredLogConfig)
        ensures
            *r == self.spec_color_get(),
    {
        &self.color
    }

    /// Sets the colours of the level tag.
    pub fn colored(self, color: ColoredLogConfig) -> (f: BaseFormater)
        ensures
            f.spec_color_get() == color,
            f.spec_local_get() == self.spec_local_get(),
            f.spec_level_get() == self.spec_level_get(),
            f.spec_datetime_get() == self.spec_datetime_get(),
    {
        proof {
            use_type_invariant(&self);
        }
        let mut f = self;
        f.color = color;
        f
    }

    /// Renders the record with the given timestamp. Where the level has no
    /// colour the line is a function of the arguments alone.
    pub fn format_at(&self, record: &Record, stamp: &str, thread: &str) -> (text: String)
        ensures
            exists|code: Seq<char>| text@ == #[trigger] self.line(*record, stamp@, thread@, code),
            self.spec_color_get().pick(record.level) is None ==> text@ == self.line(
                *record,
                stamp@,
                thread@,
                Seq::empty(),
            ),
    {
        let width = self.level_get();
        let tag = FixedLevel::with_color(record.level, &self.color).length(width);
        let shown = tag.into_colored().into_coloredfg();
        let tag_text = shown.to_string();
        let ghost code = choose|code: Seq<char>| tag_text@ == #[trigger] shown.shown(code);
        let file = match &record.file {
            Some(f) => f.as_str(),
            None => "*",
        };
        let line = match record.line {
            Some(l) => l,
            None => 0,
        };
        let text = render(
            stamp,
            tag_text.as_str(),
            thread,
            file,
            line,
            record.target.as_str(),
            record.args.as_str(),
        );
        assert(tag_text@ == self.tag_text(record.level, code));
        assert(text@ == self.line(*record, stamp@, thread@, code));
        text
    }
}

/// Renders the record with the timestamp that was read, if one was: the
/// line where there is a timestamp, and the error of a refused pattern where
/// there is none.
pub fn format_stamped(
    base: &BaseFormater,
    record: &Record,
    stamp: Option<String>,
    thread: &str,
) -> (r: Result<String, Error>)
    ensures
        r is Ok <==> stamp is Some,
        r matches Ok(text) ==> exists|code: Seq<char>|
            text@ == #[trigger] base.line(*record, stamp->0@, thread@, code),
        r matches Ok(text) ==> (base.spec_color_get().pick(record.level) is None ==> text@
            == base.line(*record, stamp->0@, thread@, Seq::empty())),
        r matches Err(e) ==> e matches Error::Desc(s) && s@ == pattern_error_text(),
{
    match stamp {
        Some(stamp) => Ok(base.format_at(record, stamp.as_str(), thread)),
        None => Err(Error::desc("invalid datetime format")),
    }
}

/// Renders the record as the formatter is configured, with the time that the
/// clock gives now. It succeeds exactly where the timestamp pattern is
/// accepted.
pub fn format(base: &BaseFormater, record: &Record, thread: &str) -> (r: Result<String, Error>)
    ensures
        r is Ok <==> pattern_accepted(base.spec_datetime_get()),
        r matches Ok(text) ==> exists|stamp: Seq<char>, code: Seq<char>|
            text@ == #[trigger] base.line(*record, stamp, thread@, code),
        r matches Err(e) ==> e matches Error::Desc(s) && s@ == pattern_error_text(),
{
    let stamp = if base.local_get() {
        local_timestamp(base.datetime_get())
    } else {
        utc_timestamp(base.datetime_get())
    };
    let ghost read = stamp;
    let r = format_stamped(base, record, stamp, thread);
    proof {
        if r is Ok {
            let text = r->Ok_0;
            let code = choose|code: Seq<char>|
                text@ == #[trigger] base.line(*record, read->0@, thread@, code);
            assert(text@ == base.line(*record, read->0@, thread@, code));
        }
    }
    r
}

impl Formater for BaseFormater {
    open spec fn spec_renders(&self, record: &Record, thread: &str, text: &String) -> bool {
        exists|stamp: Seq<char>, code: Seq<char>|
            text@ == #[trigger] self.line(*record, stamp, thread@, code)
    }

    fn boxed(self) -> (b: Box<Self>) {
        Box::new(self)
    }

    fn format(&self, record: &Record, thread: &str) -> (r: Result<String, Error>)
        ensures
            r is Ok <==> pattern_accepted(self.spec_datetime_get()),
            r matches Err(e) ==> e matches Error::Desc(s) && s@ == pattern_error_text(),
    {
        format(self, record, thread)
    }
}

/// A formatter that renders with a function of its own, which is handed
/// the built-in formatter's configuration beside the record and the thread's
/// label.
pub struct FnFormater<R: Fn(&BaseFormater, &Record, &str) -> String + Send + Sync + 'static> {
    base: BaseFormater,
    render: R,
}

impl<R: Fn(&BaseFormater, &Record, &str) -> String + Send + Sync + 'static> FnFormater<R> {
    #[verifier::type_invariant]
    spec fn well_formed(self) -> bool {
        forall|base: &BaseFormater, record: &Record, thread: &str|
            call_requires(self.render, (base, record, thread))
    }

    /// The configuration that the function is handed.
    pub closed spec fn spec_base(&self) -> BaseFormater {
        self.base
    }

    /// The function that renders.
    pub closed spec fn spec_render(&self) -> R {
        self.render
    }

    /// The function that renders.
    pub fn formater_get(&self) -> (render: &R)
        ensures
            *render == self.spec_render(),
    {
        &self.render
    }
}

impl<R: Fn(&BaseFormater, &Record, &str) -> String + Send + Sync + 'static> Formater for FnFormater<
    R,
> {
    open spec fn spec_renders(&self, record: &Record, thread: &str, text: &String) -> bool {
        call_ensures(self.spec_render(), (&self.spec_base(), record, thread), *text)
    }

    fn boxed(self) -> (b: Box<Self>) {
        Box::new(self)
    }

    fn format(&self, record: &Record, thread: &str) -> (r: Result<String, Error>)
        ensures
            r is Ok,
    {
        proof {
            use_type_invariant(self);
        }
        Ok((self.render)(&self.base, record, thread))
    }
}

impl BaseFormater {
    /// Replaces the rendering by a function that can be called on every
    /// record. The configuration goes along and is handed to the function.
    pub fn formater<R: Fn(&BaseFormater, &Record, &str) -> String + Send + Sync + 'static>(
        self,
        formater: R,
    ) -> (f: FnFormater<R>)
        requires
            forall|base: &BaseFormater, record: &Record, thread: &str|
                call_requires(formater, (base, record, thread)),
        ensures
            f.spec_base() == self,
            f.spec_render() == formater,
    {
        FnFormater { base: self, render: formater }
    }
}

impl Clone for BaseFormater {
    fn clone(&self) -> (f: BaseFormater)
        ensures
            f.spec_local_get() == self.spec_local_get(),
            f.spec_level_get() == self.spec_level_get(),
            f.spec_datetime_get() == self.spec_datetime_get(),
            f.spec_color_get() == self.spec_color_get(),
    {
        proof {
            use_type_invariant(self);
        }
        Self { local: self.local, level: self.level, datetime: self.datetime.clone(), color: self.color }
    }
}

impl Default for BaseFormater {
    fn default() -> (f: BaseFormater)
        ensures
            !f.spec_local_get(),
            f.spec_level_get() == 5,
            f.spec_datetime_get() == "%Y-%m-%d %H:%M:%S.%3f"@,
            !f.spec_color_get().color,
    {
        Self::new()
    }
}

} // verus!
