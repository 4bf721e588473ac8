//! Colours for a terminal, in the 256-colour mode of ANSI escape codes.
use vstd::prelude::*;
use vstd::string::*;

verus! {

/// The code that ends every coloured stretch.
pub const RESET: &'static str = "\x1b[0m";

/// One foreground colour, held as the escape code that switches it on.
#[derive(Debug, Clone, Copy)]
pub struct Ansi(pub &'static str);

/// A text in a colour.
#[derive(Debug)]
pub struct Fg {
    pub fg: &'static str,
    pub inner: String,
}

impl Ansi {
    /// `inner` in this colour.
    pub fn fg(&self, inner: &str) -> (f: Fg)
        ensures
            f.fg@ == self.0@,
            f.inner@ == inner@,
    {
        Fg { fg: self.0, inner: inner.to_owned() }
    }

    pub fn black() -> (a: Ansi)
        ensures
            a.0@ == "\x1b[38;5;0m"@,
    {
        Ansi("\x1b[38;5;0m")
    }

    pub fn dark_red() -> (a: Ansi)
        ensures
            a.0@ == "\x1b[38;5;1m"@,
    {
        Ansi("\x1b[38;5;1m")
    }

    pub fn dark_green() -> (a: Ansi)
        ensures
            a.0@ == "\x1b[38;5;2m"@,
    {
        Ansi("\x1b[38;5;2m")
    }

    pub fn dark_yellow() -> (a: Ansi)
        ensures
            a.0@ == "\x1b[38;5;3m"@,
    {
        Ansi("\x1b[38;5;3m")
    }

    pub fn dark_blue() -> (a: Ansi)
        ensures
            a.0@ == "\x1b[38;5;4m"@,
    {
        Ansi("\x1b[38;5;4m")
    }

    pub fn dark_magenta() -> (a: Ansi)
        ensures
            a.0@ == "\x1b[38;5;5m"@,
    {
        Ansi("\x1b[38;5;5m")
    }

    pub fn dark_teal() -> (a: Ansi)
        ensures
            a.0@ == "\x1b[38;5;6m"@,
    {
        Ansi("\x1b[38;5;6m")
    }

    pub fn grey() -> (a: Ansi)
        ensures
            a.0@ == "\x1b[38;5;7m"@,
    {
        Ansi("\x1b[38;5;7m")
    }

    pub fn dark_grey() -> (a: Ansi)
        ensures
            a.0@ == "\x1b[38;5;8m"@,
    {
        Ansi("\x1b[38;5;8m")
    }

    pub fn red() -> (a: Ansi)
        ensures
            a.0@ == "\x1b[38;5;9m"@,
    {
        Ansi("\x1b[38;5;9m")
    }

    pub fn green() -> (a: Ansi)
        ensures
            a.0@ == "\x1b[38;5;10m"@,
    {
        Ansi("\x1b[38;5;10m")
    }

    pub fn yellow() -> (a: Ansi)
        ensures
            a.0@ == "\x1b[38;5;11m"@,
    {
        Ansi("\x1b[38;5;11m")
    }

    pub fn blue() -> (a: Ansi)
        ensures
            a.0@ == "\x1b[38;5;12m"@,
    {
        Ansi("\x1b[38;5;12m")
    }

    pub fn magenta() -> (a: Ansi)
        ensures
            a.0@ == "\x1b[38;5;13m"@,
    {
        Ansi("\x1b[38;5;13m")
    }

    pub fn teal() -> (a: Ansi)
        ensures
            a.0@ == "\x1b[38;5;14m"@,
    {
        Ansi("\x1b[38;5;14m")
    }

    pub fn white() -> (a: Ansi)
        ensures
            a.0@ == "\x1b[38;5;15m"@,
    {
        Ansi("\x1b[38;5;15m")
    }

    /// Slanted letters in place of a colour.
    pub fn italic() -> (a: Ansi)
        ensures
            a.0@ == "\x1b[3m"@,
    {
        Ansi("\x1b[3m")
    }
}

impl Fg {
    /// What a terminal is sent: the colour's code, the text, the reset code.
    pub open spec fn rendered(&self) -> Seq<char> {
        self.fg@ + self.inner@ + RESET@
    }

    /// The text wrapped in its colour.
    pub fn to_string(&self) -> (s: String)
        ensures
            s@ == self.rendered(),
    {
        String::from_str(self.fg).concat(self.inner.as_str()).concat(RESET)
    }
}

} // verus!
