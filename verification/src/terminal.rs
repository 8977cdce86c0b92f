//! An abstraction over a terminal device.

use crate::connui::Change;
use crate::text::{decimal, decimal_text};
use vstd::prelude::*;

verus! {

/// The size of the terminal screen, in rows and columns of character cells and
/// where it is known the size of those cells in pixels.
#[derive(Debug, Clone, Copy, PartialEq, Eq, Structural)]
pub struct ScreenSize {
    /// The number of rows of text.
    pub rows: usize,
    /// The number of columns per row.
    pub cols: usize,
    /// The width of a cell in pixels, or zero.
    pub xpixel: usize,
    /// The height of a cell in pixels, or zero.
    pub ypixel: usize,
}

#[derive(Debug, Clone, Copy, PartialEq, Eq, Structural)]
pub enum Blocking {
    DoNotWait,
    Wait,
}

/// Why a terminal operation failed.
#[derive(Debug)]
pub enum TerminalError {
    /// There is no terminal on this kind of system.
    Unsupported(String),
    /// A number does not fit.
    OutOfBounds(usize),
    Other(String),
}

impl TerminalError {
    pub open spec fn text(self) -> Seq<char> {
        match self {
            TerminalError::Unsupported(s) => s@,
            TerminalError::OutOfBounds(n) => decimal(n as nat)
                + " is out of bounds for this system"@,
            TerminalError::Other(s) => s@,
        }
    }

    /// The error as it is reported.
    pub fn message(&self) -> (s: String)
        ensures
            s@ == self.text(),
    {
        match self {
            TerminalError::Unsupported(s) => s.clone(),
            TerminalError::OutOfBounds(n) => {
                let mut s = decimal_text(*n as u64);
                s.append(" is out of bounds for this system");
                s
            },
            TerminalError::Other(s) => s.clone(),
        }
    }
}

/// What a user does at a terminal.
#[derive(Debug)]
pub enum InputEvent {
    Key(char),
    Paste(String),
    Resized { cols: usize, rows: usize },
    Wake,
}

/// A terminal. Where raw or cooked mode are set, the mode that was in effect at
/// first is restored at the end.
pub trait Terminal {
    /// Raw mode hands on keys as they are pressed and does not echo them.
    fn set_raw_mode(&mut self) -> Result<(), TerminalError>;

    fn set_cooked_mode(&mut self) -> Result<(), TerminalError>;

    /// Enters the alternate screen, which is left at the end.
    fn enter_alternate_screen(&mut self) -> Result<(), TerminalError>;

    fn exit_alternate_screen(&mut self) -> Result<(), TerminalError>;

    fn get_screen_size(&mut self) -> Result<ScreenSize, TerminalError>;

    /// What the terminal says it can do when it is asked by escape sequences. A
    /// terminal that cannot be asked says nothing.
    fn probe_capabilities(&mut self) -> (r: Option<Capabilities>)
        default_ensures
            r is None,
    {
        None
    }

    fn set_screen_size(&mut self, size: ScreenSize) -> Result<(), TerminalError>;

    /// Renders a series of changes.
    fn render(&mut self, changes: &Vec<Change>) -> Result<(), TerminalError>;

    /// Flushes any buffered output.
    fn flush(&mut self) -> Result<(), TerminalError>;

    /// Checks for input. Without a bound on the wait, in nanoseconds, it does
    /// not return until there is some.
    fn poll_input(&mut self, wait: Option<u128>) -> Result<Option<InputEvent>, TerminalError>;

    fn waker(&self) -> TerminalWaker;
}

/// What wakes a terminal on a system that has none: nothing.
#[derive(Debug, Clone, Copy)]
pub struct TerminalWaker;

impl TerminalWaker {
    /// Waking is unsupported where there is no terminal to wake.
    pub fn wake(&self) -> (r: Result<(), TerminalError>)
        ensures
            r is Err,
            r->Err_0 is Unsupported,
            r->Err_0.text() == "TerminalWaker is unavailable on Apple mobile targets"@,
    {
        Err(
            TerminalError::Unsupported(
                "TerminalWaker is unavailable on Apple mobile targets".to_owned(),
            ),
        )
    }
}

/// What a terminal can do, as far as it is asked for one.
#[derive(Debug, Clone, Copy, PartialEq, Eq, Structural)]
pub struct Capabilities {
    pub bracketed_paste: bool,
    pub mouse_reporting: bool,
}

/// The terminal of a system that has none. No value of it is ever made, and
/// nothing can be done with one.
#[derive(Debug)]
pub struct MobileStubTerminal {
    never: (),
}

/// Whether a call was refused because there is no terminal.
pub open spec fn is_refused<T>(r: Result<T, TerminalError>) -> bool {
    &&& r is Err
    &&& r->Err_0 is Unsupported
    &&& r->Err_0.text() == "new_terminal is unavailable on Apple mobile targets"@
}

fn unsupported() -> (e: TerminalError)
    ensures
        e is Unsupported,
        e.text() == "new_terminal is unavailable on Apple mobile targets"@,
{
    TerminalError::Unsupported("new_terminal is unavailable on Apple mobile targets".to_owned())
}

/// Makes a terminal on a system that has none, which fails.
pub fn new_terminal(_caps: Capabilities) -> (r: Result<MobileStubTerminal, TerminalError>)
    ensures
        is_refused(r),
{
    Err(unsupported())
}

impl Terminal for MobileStubTerminal {
    fn set_raw_mode(&mut self) -> (r: Result<(), TerminalError>)
        ensures
            is_refused(r),
            *final(self) == *old(self),
    {
        Err(unsupported())
    }

    fn set_cooked_mode(&mut self) -> (r: Result<(), TerminalError>)
        ensures
            is_refused(r),
            *final(self) == *old(self),
    {
        Err(unsupported())
    }

    fn enter_alternate_screen(&mut self) -> (r: Result<(), TerminalError>)
        ensures
            is_refused(r),
            *final(self) == *old(self),
    {
        Err(unsupported())
    }

    fn exit_alternate_screen(&mut self) -> (r: Result<(), TerminalError>)
        ensures
            is_refused(r),
            *final(self) == *old(self),
    {
        Err(unsupported())
    }

    fn get_screen_size(&mut self) -> (r: Result<ScreenSize, TerminalError>)
        ensures
            is_refused(r),
            *final(self) == *old(self),
    {
        Err(unsupported())
    }

    fn set_screen_size(&mut self, _size: ScreenSize) -> (r: Result<(), TerminalError>)
        ensures
            is_refused(r),
            *final(self) == *old(self),
    {
        Err(unsupported())
    }

    fn render(&mut self, _changes: &Vec<Change>) -> (r: Result<(), TerminalError>)
        ensures
            is_refused(r),
            *final(self) == *old(self),
    {
        Err(unsupported())
    }

    fn flush(&mut self) -> (r: Result<(), TerminalError>)
        ensures
            is_refused(r),
            *final(self) == *old(self),
    {
        Err(unsupported())
    }

    fn poll_input(&mut self, _wait: Option<u128>) -> (r: Result<Option<InputEvent>, TerminalError>)
        ensures
            is_refused(r),
            *final(self) == *old(self),
    {
        Err(unsupported())
    }

    fn waker(&self) -> TerminalWaker {
        TerminalWaker
    }
}

/// `num_traits::cast` from `usize` to `u16`: the same number where it fits, and
/// nothing where it does not.
#[verifier::external_body]
fn usize_to_u16(n: usize) -> (r: Option<u16>)
    ensures
        match r {
            Some(v) => v == n,
            None => n > u16::MAX,
        },
{
    num_traits::cast(n)
}

/// A row or column number as the system's calls take it.
pub fn cast(n: usize) -> (r: Result<u16, TerminalError>)
    ensures
        match r {
            Ok(v) => v == n,
            Err(e) => n > u16::MAX && e == TerminalError::OutOfBounds(n),
        },
{
    match usize_to_u16(n) {
        Some(v) => Ok(v),
        None => Err(TerminalError::OutOfBounds(n)),
    }
}

} // verus!
