//! The lines of the structured log.
//!
//! An event is a level, a source place, a moment, a message and an ordered
//! list of keys with values that were rendered at the call site. This module
//! says what is written for an event, on a terminal and to the system
//! journal; writing it is the caller's business.
use crate::ansi::Ansi;
use crate::text::digits;
use crate::text::push_digits;
use std::fmt::Write;
use vstd::prelude::*;
use vstd::string::*;

verus! {

#[derive(Debug, Clone, Copy, PartialEq, Eq, Structural)]
pub enum Level {
    Butt,
    Info,
    Warn,
    Crit,
}

impl Level {
    pub open spec fn name(self) -> Seq<char> {
        match self {
            Level::Butt => "butt"@,
            Level::Info => "info"@,
            Level::Warn => "warn"@,
            Level::Crit => "crit"@,
        }
    }

    /// The syslog priority of the level: debug, informational, warning,
    /// error.
    pub open spec fn priority(self) -> nat {
        match self {
            Level::Butt => 7,
            Level::Info => 6,
            Level::Warn => 4,
            Level::Crit => 3,
        }
    }

    pub fn as_str(&self) -> (s: &'static str)
        ensures
            s@ == self.name(),
    {
        match self {
            Level::Butt => "butt",
            Level::Info => "info",
            Level::Warn => "warn",
            Level::Crit => "crit",
        }
    }

    pub fn color(&self) -> (a: Ansi)
        ensures
            a.0@ == (match *self {
                Level::Butt => "\x1b[38;5;12m"@,
                Level::Info => "\x1b[38;5;10m"@,
                Level::Warn => "\x1b[38;5;11m"@,
                Level::Crit => "\x1b[38;5;9m"@,
            }),
    {
        match self {
            Level::Butt => Ansi::blue(),
            Level::Info => Ansi::green(),
            Level::Warn => Ansi::yellow(),
            Level::Crit => Ansi::red(),
        }
    }

    /// The priority value is one of LOG_EMERG, LOG_ALERT, LOG_CRIT, LOG_ERR, LOG_WARNING,
    /// LOG_NOTICE, LOG_INFO, LOG_DEBUG, as defined in syslog.h
    pub fn as_priority(&self) -> (p: i32)
        ensures
            p == self.priority(),
    {
        match self {
            Level::Butt => 7,
            Level::Info => 6,
            Level::Warn => 4,
            Level::Crit => 3,
        }
    }
}

/// A place in the source: file and line.
#[derive(Debug, Clone)]
pub struct FileLineNo(pub &'static str, pub u32);

impl FileLineNo {
    pub open spec fn rendered(&self) -> Seq<char> {
        self.0@ + seq![':'] + digits(self.1 as nat)
    }

    pub fn file(&self) -> (f: &'static str)
        ensures
            f@ == self.0@,
    {
        self.0
    }

    pub fn line(&self) -> (l: u32)
        ensures
            l == self.1,
    {
        self.1
    }

    /// The place as `file:line`.
    pub fn to_string(&self) -> (s: String)
        ensures
            s@ == self.rendered(),
    {
        let mut s = String::from_str(self.0);
        s.push(':');
        push_digits(&mut s, self.1 as u64);
        s
    }
}

/// One key of an event with its value, rendered where the event was raised.
#[derive(Debug)]
pub struct KeyValue {
    pub k: &'static str,
    pub v: String,
}

/// One event of the log.
#[derive(Debug)]
pub struct Event {
    pub lvl: Level,
    pub wher: FileLineNo,
    /// the moment of the event, as it is to be shown
    pub when: String,
    pub what: String,
    pub kv: Vec<KeyValue>,
}

/// A key as it is shown: in magenta on a terminal, plain elsewhere.
pub open spec fn shown_key(k: Seq<char>, colors: bool) -> Seq<char> {
    if colors {
        "\x1b[38;5;13m"@ + k + crate::ansi::RESET@
    } else {
        k
    }
}

/// The lines that list the keys of an event: for each key, in order, a line
/// break, a tab, a guillemet, the key and its value.
pub open spec fn kv_lines(kvs: Seq<KeyValue>, colors: bool) -> Seq<char>
    decreases kvs.len(),
{
    if kvs.len() == 0 {
        Seq::empty()
    } else {
        kv_lines(kvs.drop_last(), colors) + "\n\t» "@ + shown_key(kvs.last().k@, colors) + seq![
            ' ',
        ] + kvs.last().v@
    }
}

pub fn fmt_kv_slice(kvs: &Vec<KeyValue>, colors: bool) -> (s: String)
    ensures
        s@ == kv_lines(kvs@, colors),
{
    let mut s = String::new();
    let mut i: usize = 0;
    while i < kvs.len()
        invariant
            i <= kvs@.len(),
            s@ == kv_lines(kvs@.subrange(0, i as int), colors),
        decreases kvs@.len() - i,
    {
        proof {
            assert(kvs@.subrange(0, i + 1).drop_last() =~= kvs@.subrange(0, i as int));
        }
        let ghost before = s@;
        s.append("\n\t» ");
        if colors {
            let shown = Ansi::magenta().fg(kvs[i].k).to_string();
            s.append(shown.as_str());
        } else {
            s.append(kvs[i].k);
        }
        s.push(' ');
        s.append(kvs[i].v.as_str());
        assert(s@ =~= before + "\n\t» "@ + shown_key(kvs@[i as int].k@, colors) + seq![' ']
            + kvs@[i as int].v@);
        i += 1;
    }
    assert(kvs@.subrange(0, i as int) =~= kvs@);
    s
}

/// Displays a result with the side it took.
pub fn result(r: &Result<String, String>) -> (s: String)
    ensures
        s@ == (match *r {
            Ok(ok) => "Ok#"@ + ok@,
            Err(err) => "Err#"@ + err@,
        }),
{
    match r {
        Ok(ok) => String::from_str("Ok#").concat(ok.as_str()),
        Err(err) => String::from_str("Err#").concat(err.as_str()),
    }
}

/// displays an optional value without Some
pub fn opt(d: &Option<String>) -> (s: String)
    ensures
        s@ == (match *d {
            Some(v) => v@,
            None => "None"@,
        }),
{
    match d {
        Some(v) => v.clone(),
        None => String::from_str("None"),
    }
}

/// `write!` with `{:?}`: the value as its `Debug` impl writes it. Nothing is
/// claimed of the text.
#[verifier::external_body]
pub fn dbg<D: std::fmt::Debug>(d: D) -> String {
    let mut s = String::new();
    let _ = write!(s, "{:?}", d);
    s
}

/// `write!` with `{:#}`: the value as its `Display` impl writes it in the
/// alternate form. Nothing is claimed of the text.
#[verifier::external_body]
pub fn alt<D: std::fmt::Display>(d: D) -> String {
    let mut s = String::new();
    let _ = write!(s, "{:#}", d);
    s
}

/// A duration, or anything else, as its `Debug` impl writes it.
pub fn time<D: std::fmt::Debug>(d: D) -> String {
    dbg(d)
}

/// An error with its causes, as its `Debug` impl writes them.
pub fn err<E: std::fmt::Debug>(e: E) -> String {
    dbg(e)
}

/// How the log shows a moment: the day of the month, the month's short name,
/// the year, and the time of day to the millisecond.
pub const MOMENT_FORMAT: &'static str = "%_d %b %Y %T%.3f";

/// The present moment in the machine's time zone, written as `format` asks;
/// empty where the system's clock stands outside the years that `jiff`
/// knows. `jiff::Timestamp::try_from` a `std::time::SystemTime`,
/// `Timestamp::to_zoned` and `Zoned::strftime`; nothing is claimed of the
/// text.
#[verifier::external_body]
fn moment_now(format: &str) -> String {
    let mut s = String::new();
    if let Ok(t) = jiff::Timestamp::try_from(std::time::SystemTime::now()) {
        let zoned = t.to_zoned(jiff::tz::TimeZone::system());
        let _ = write!(s, "{}", zoned.strftime(format));
    }
    s
}

impl Event {
    /// An event that happens now.
    pub fn now(lvl: Level, what: &str, wher: FileLineNo, kv: Vec<KeyValue>) -> (e: Event)
        ensures
            e.lvl == lvl,
            e.what@ == what@,
            e.wher == wher,
            e.kv == kv,
    {
        Event { lvl, wher, when: moment_now(MOMENT_FORMAT), what: what.to_owned(), kv }
    }
}

/// Writes events as lines of text, in colour where the reader is a terminal.
#[derive(Debug)]
pub struct WriteLogger {
    pub use_colors: bool,
}

/// `text` wrapped in the colour `code`.
pub open spec fn in_color(code: Seq<char>, text: Seq<char>) -> Seq<char> {
    code + text + crate::ansi::RESET@
}

impl WriteLogger {
    /// The line of an event: moment, level, place, message, then one line
    /// per key, and a line break.
    pub open spec fn spec_line(&self, e: &Event) -> Seq<char> {
        if self.use_colors {
            in_color("\x1b[38;5;8m"@, e.when@) + seq![' '] + in_color(
                match e.lvl {
                    Level::Butt => "\x1b[38;5;12m"@,
                    Level::Info => "\x1b[38;5;10m"@,
                    Level::Warn => "\x1b[38;5;11m"@,
                    Level::Crit => "\x1b[38;5;9m"@,
                },
                e.lvl.name(),
            ) + seq![' '] + in_color("\x1b[3m"@, e.wher.rendered()) + "  "@ + e.what@ + kv_lines(
                e.kv@,
                true,
            ) + seq!['\n']
        } else {
            e.when@ + seq![' '] + e.lvl.name() + seq![' '] + e.wher.rendered() + seq!['\t']
                + e.what@ + kv_lines(e.kv@, false) + seq!['\n']
        }
    }

    /// What is written for `e`.
    pub fn line(&self, e: &Event) -> (s: String)
        ensures
            s@ == self.spec_line(e),
    {
        let mut s = String::new();
        if self.use_colors {
            s.append(Ansi::dark_grey().fg(e.when.as_str()).to_string().as_str());
            s.push(' ');
            s.append(e.lvl.color().fg(e.lvl.as_str()).to_string().as_str());
            s.push(' ');
            s.append(Ansi::italic().fg(e.wher.to_string().as_str()).to_string().as_str());
            s.append("  ");
            s.append(e.what.as_str());
            s.append(fmt_kv_slice(&e.kv, true).as_str());
            s.push('\n');
        } else {
            s.append(e.when.as_str());
            s.push(' ');
            s.append(e.lvl.as_str());
            s.push(' ');
            s.append(e.wher.to_string().as_str());
            s.push('\t');
            s.append(e.what.as_str());
            s.append(fmt_kv_slice(&e.kv, false).as_str());
            s.push('\n');
        }
        assert(s@ =~= self.spec_line(e));
        s
    }
}

/// Whether `c` is an ASCII letter or digit.
pub open spec fn is_alnum(c: char) -> bool {
    ('a' <= c <= 'z') || ('A' <= c <= 'Z') || ('0' <= c <= '9')
}

/// The number of bytes that `c` takes in UTF-8.
pub open spec fn utf8_len(c: char) -> nat {
    if (c as u32) < 0x80 {
        1
    } else if (c as u32) < 0x800 {
        2
    } else if (c as u32) < 0x10000 {
        3
    } else {
        4
    }
}

/// `n` underscores.
pub open spec fn underscores(n: nat) -> Seq<char> {
    Seq::new(n, |i: int| '_')
}

/// What one character of a key becomes in the journal: capitals and digits
/// stay, small letters become capitals, and each byte of anything else
/// becomes an underscore.
pub open spec fn journal_char(c: char) -> Seq<char> {
    if ('A' <= c <= 'Z') || ('0' <= c <= '9') {
        seq![c]
    } else if 'a' <= c <= 'z' {
        seq![((c as u32) - 32) as char]
    } else {
        underscores(utf8_len(c))
    }
}

/// Every character of `s` as the journal takes it.
pub open spec fn journal_chars(s: Seq<char>) -> Seq<char>
    decreases s.len(),
{
    if s.len() == 0 {
        Seq::empty()
    } else {
        journal_chars(s.drop_last()) + journal_char(s.last())
    }
}

/// The number of characters at the start of `s` that are neither letter nor
/// digit.
pub open spec fn leading_junk(s: Seq<char>) -> nat
    decreases s.len(),
{
    if s.len() > 0 && !is_alnum(s[0]) {
        1 + leading_junk(s.skip(1))
    } else {
        0
    }
}

/// The key as the journal takes it: without what stands before its first
/// letter or digit, and the rest character by character.
pub open spec fn journal_key(dirty: Seq<char>) -> Seq<char> {
    journal_chars(dirty.skip(leading_junk(dirty) as int))
}

/// The variable name must be in uppercase and consist only of characters,
/// numbers and underscores, and may not begin with an underscore.
///
/// This can return an empty string.
pub fn clean_journal_key(dirty: &str) -> (key: String)
    ensures
        key@ == journal_key(dirty@),
{
    let v = crate::types::chars_of(dirty);
    let len = v.len();
    let mut start: usize = 0;
    proof {
        assert(v@.skip(0) =~= v@);
    }
    while start < len && !is_alnum_char(v[start])
        invariant
            len == v@.len(),
            start <= len,
            leading_junk(v@) == start + leading_junk(v@.skip(start as int)),
        decreases len - start,
    {
        proof {
            assert(v@.skip(start as int).skip(1) =~= v@.skip(start + 1));
        }
        start += 1;
    }
    let ghost rest = v@.skip(start as int);
    let mut key = String::new();
    let mut i: usize = start;
    while i < len
        invariant
            len == v@.len(),
            start <= i <= len,
            rest == v@.skip(start as int),
            key@ == journal_chars(rest.subrange(0, i - start)),
        decreases len - i,
    {
        proof {
            assert(rest.subrange(0, i + 1 - start).drop_last() =~= rest.subrange(0, i - start));
        }
        let c = v[i];
        let ghost before = key@;
        if ('A' <= c && c <= 'Z') || ('0' <= c && c <= '9') {
            key.push(c);
        } else if 'a' <= c && c <= 'z' {
            key.push(((c as u8) - 32) as char);
        } else {
            let n: usize = if (c as u32) < 0x80 {
                1
            } else if (c as u32) < 0x800 {
                2
            } else if (c as u32) < 0x10000 {
                3
            } else {
                4
            };
            let mut j: usize = 0;
            while j < n
                invariant
                    j <= n,
                    key@ == before + underscores(j as nat),
                decreases n - j,
            {
                key.push('_');
                assert(key@ =~= before + underscores((j + 1) as nat));
                j += 1;
            }
        }
        assert(key@ =~= before + journal_char(c));
        i += 1;
    }
    assert(rest.subrange(0, len - start) =~= rest);
    key
}

fn is_alnum_char(c: char) -> (r: bool)
    ensures
        r == is_alnum(c),
{
    ('a' <= c && c <= 'z') || ('A' <= c && c <= 'Z') || ('0' <= c && c <= '9')
}

/// Hands events to the system journal, each key under a common prefix.
#[derive(Debug)]
pub struct JournalLogger {
    pub prefix: String,
}

/// The journal fields of the keys of an event, in order; a key that cleans
/// to nothing has no field.
pub open spec fn journal_kv(prefix: Seq<char>, kvs: Seq<KeyValue>) -> Seq<Seq<char>>
    decreases kvs.len(),
{
    if kvs.len() == 0 {
        Seq::empty()
    } else {
        let head = journal_kv(prefix, kvs.drop_last());
        let k = journal_key(kvs.last().k@);
        if k.len() == 0 {
            head
        } else {
            head.push(prefix + seq!['_'] + k + seq!['='] + kvs.last().v@)
        }
    }
}

impl JournalLogger {
    /// The journal fields of an event: message, priority, file and line,
    /// then one field per key.
    pub open spec fn spec_fields(&self, e: &Event) -> Seq<Seq<char>> {
        seq![
            "MESSAGE="@ + e.what@ + kv_lines(e.kv@, false),
            "PRIORITY="@ + digits(e.lvl.priority()),
            "CODE_FILE="@ + e.wher.0@,
            "CODE_LINE="@ + digits(e.wher.1 as nat),
        ] + journal_kv(self.prefix@, e.kv@)
    }

    /// What is sent to the journal for `e`.
    pub fn fields(&self, e: &Event) -> (entries: Vec<String>)
        ensures
            entries@.map_values(|s: String| s@) == self.spec_fields(e),
    {
        let mut entries: Vec<String> = Vec::new();
        let message = String::from_str("MESSAGE=").concat(e.what.as_str()).concat(
            fmt_kv_slice(&e.kv, false).as_str(),
        );
        entries.push(message);
        let mut priority = String::from_str("PRIORITY=");
        push_digits(&mut priority, e.lvl.as_priority() as u64);
        entries.push(priority);
        entries.push(String::from_str("CODE_FILE=").concat(e.wher.file()));
        let mut line = String::from_str("CODE_LINE=");
        push_digits(&mut line, e.wher.line() as u64);
        entries.push(line);
        let ghost fixed = entries@.map_values(|s: String| s@);
        assert(fixed =~= seq![
            "MESSAGE="@ + e.what@ + kv_lines(e.kv@, false),
            "PRIORITY="@ + digits(e.lvl.priority()),
            "CODE_FILE="@ + e.wher.0@,
            "CODE_LINE="@ + digits(e.wher.1 as nat),
        ]);
        let mut i: usize = 0;
        while i < e.kv.len()
            invariant
                i <= e.kv@.len(),
                entries@.map_values(|s: String| s@) == fixed + journal_kv(
                    self.prefix@,
                    e.kv@.subrange(0, i as int),
                ),
            decreases e.kv@.len() - i,
        {
            proof {
                assert(e.kv@.subrange(0, i + 1).drop_last() =~= e.kv@.subrange(0, i as int));
                assert(e.kv@.subrange(0, i + 1).last() == e.kv@[i as int]);
            }
            let ghost done = journal_kv(self.prefix@, e.kv@.subrange(0, i as int));
            let k = clean_journal_key(e.kv[i].k);
            if k.as_str().unicode_len() > 0 {
                let mut field = self.prefix.clone();
                field.push('_');
                field.append(k.as_str());
                field.push('=');
                field.append(e.kv[i].v.as_str());
                let ghost before = entries@.map_values(|s: String| s@);
                entries.push(field);
                assert(entries@.map_values(|s: String| s@) =~= before.push(field@));
                assert(field@ =~= self.prefix@ + seq!['_'] + k@ + seq!['='] + e.kv@[i as int].v@);
                assert(journal_kv(self.prefix@, e.kv@.subrange(0, i + 1)) == done.push(field@));
                assert((fixed + done).push(field@) =~= fixed + done.push(field@));
            }
            assert(entries@.map_values(|s: String| s@) =~= fixed + journal_kv(
                self.prefix@,
                e.kv@.subrange(0, i + 1),
            ));
            i += 1;
        }
        assert(e.kv@.subrange(0, i as int) =~= e.kv@);
        entries
    }
}

} // verus!
