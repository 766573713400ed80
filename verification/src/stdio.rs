//! Thin shells around the process's standard streams.
//!
//! [`Out`] wraps a sink and [`In`] wraps a buffered source; each carries a
//! marker type that picks how write errors are treated. The streams
//! themselves are opaque devices: what is written or read is decided by
//! callers, and the shells only carry values through trusted wrappers
//! around std's I/O calls.

use vstd::prelude::*;

verus! {

#[verifier::external_type_specification]
#[verifier::external_body]
pub struct ExIoError(std::io::Error);

#[verifier::external_type_specification]
#[verifier::external_body]
pub struct ExStdout(std::io::Stdout);

#[verifier::external_type_specification]
#[verifier::external_body]
pub struct ExStderr(std::io::Stderr);

#[verifier::external_type_specification]
#[verifier::external_body]
pub struct ExStdin(std::io::Stdin);

#[verifier::external_type_specification]
#[verifier::external_body]
pub struct ExStdoutLock<'a>(std::io::StdoutLock<'a>);

#[verifier::external_type_specification]
#[verifier::external_body]
pub struct ExStderrLock<'a>(std::io::StderrLock<'a>);

#[verifier::external_type_specification]
#[verifier::external_body]
pub struct ExStdinLock<'a>(std::io::StdinLock<'a>);

/// Relies on std::io::Write::write_all: writes the whole string to the
/// sink, or reports the first error.
#[verifier::external_body]
fn write_all_str<T: std::io::Write>(w: &mut T, s: &str) -> Result<(), std::io::Error> {
    std::io::Write::write_all(w, s.as_bytes())
}

/// Relies on std::io::Write::flush.
#[verifier::external_body]
fn flush_sink<T: std::io::Write>(w: &mut T) -> Result<(), std::io::Error> {
    std::io::Write::flush(w)
}

/// Relies on String::clear.
#[verifier::external_body]
fn clear_string(s: &mut String)
    ensures
        final(s)@ == Seq::<char>::empty(),
{
    s.clear();
}

/// Relies on std::io::BufRead::read_line: appends the next line, any
/// newline included, to the buffer and never disturbs what the buffer
/// already held; the count of bytes read.
#[verifier::external_body]
fn read_line_into<T: std::io::BufRead>(io: &mut T, buf: &mut String) -> (r: Result<
    usize,
    std::io::Error,
>)
    ensures
        final(buf)@.len() >= old(buf)@.len(),
        final(buf)@.take(old(buf)@.len() as int) == old(buf)@,
{
    std::io::BufRead::read_line(io, buf)
}

/// Relies on std::io::stdout.
#[verifier::external_body]
fn acquire_stdout() -> std::io::Stdout {
    std::io::stdout()
}

/// Relies on std::io::stderr.
#[verifier::external_body]
fn acquire_stderr() -> std::io::Stderr {
    std::io::stderr()
}

/// Relies on std::io::stdin.
#[verifier::external_body]
fn acquire_stdin() -> std::io::Stdin {
    std::io::stdin()
}

/// Relies on std::io::Stdout::lock.
#[verifier::external_body]
fn lock_stdout(s: &std::io::Stdout) -> std::io::StdoutLock<'static> {
    s.lock()
}

/// Relies on std::io::Stderr::lock.
#[verifier::external_body]
fn lock_stderr(s: &std::io::Stderr) -> std::io::StderrLock<'static> {
    s.lock()
}

/// Relies on std::io::Stdin::lock.
#[verifier::external_body]
fn lock_stdin(s: &std::io::Stdin) -> std::io::StdinLock<'static> {
    s.lock()
}

/// Marker: errors come back to the caller.
#[derive(Copy, Clone)]
pub struct Fallible;

/// Marker: errors are discarded.
#[derive(Copy, Clone)]
pub struct Ignore;

/// A sink together with an error-handling marker.
pub struct Out<T, B> {
    inner: T,
    _behavior: B,
}

impl<T, B> Out<T, B> {
    /// The wrapped sink.
    pub closed spec fn device(&self) -> T {
        self.inner
    }

    /// Wrap a sink.
    pub fn new(inner: T, _behavior: B) -> (r: Self)
        ensures
            r.device() == inner,
    {
        Out { inner, _behavior }
    }

    /// The same sink, with write errors discarded from here on.
    pub fn ignore_errors(self) -> (r: Out<T, Ignore>)
        ensures
            r.device() == self.device(),
    {
        Out { inner: self.inner, _behavior: Ignore }
    }
}

impl<T: std::io::Write> Out<T, Fallible> {
    /// Write the string and flush, reporting the first error.
    pub fn write_str(&mut self, s: &str) -> Result<(), std::io::Error> {
        match write_all_str(&mut self.inner, s) {
            Err(e) => Err(e),
            Ok(u) => flush_sink(&mut self.inner),
        }
    }

    /// Write the string, a line break, and flush, reporting the first
    /// error.
    pub fn write_strn(&mut self, s: &str) -> Result<(), std::io::Error> {
        match write_all_str(&mut self.inner, s) {
            Err(e) => Err(e),
            Ok(u) => match write_all_str(&mut self.inner, "\n") {
                Err(e) => Err(e),
                Ok(v) => flush_sink(&mut self.inner),
            },
        }
    }
}

impl<T: std::io::Write> Out<T, Ignore> {
    /// Write the string and flush; errors are discarded.
    pub fn write_str(&mut self, s: &str) {
        let _ = write_all_str(&mut self.inner, s);
        let _ = flush_sink(&mut self.inner);
    }

    /// Write the string and a line break and flush; errors are discarded.
    pub fn write_strn(&mut self, s: &str) {
        let _ = write_all_str(&mut self.inner, s);
        let _ = write_all_str(&mut self.inner, "\n");
        let _ = flush_sink(&mut self.inner);
    }
}

/// A buffered source together with its line buffer and an error-handling
/// marker.
pub struct In<T, B> {
    io: T,
    buffer: String,
    _behavior: B,
}

impl<T, B> In<T, B> {
    /// What the line buffer holds.
    pub closed spec fn buffer_view(&self) -> Seq<char> {
        self.buffer@
    }

    fn new(io: T, _behavior: B) -> (r: Self)
        ensures
            r.buffer_view() == Seq::<char>::empty(),
    {
        In { io, buffer: String::new(), _behavior }
    }

    /// Current buffer content.
    pub fn current_line(&self) -> (r: &str)
        ensures
            r@ == self.buffer_view(),
    {
        self.buffer.as_str()
    }
}

impl<T: std::io::BufRead> In<T, Fallible> {
    /// Clear the buffer, fill it with the next line alone, and return
    /// that line: what was in the buffer before is discarded, and the
    /// result is exactly what [`In::current_line`] then holds.
    pub fn read_line(&mut self) -> (r: Result<String, std::io::Error>)
        ensures
            r matches Ok(line) ==> line@ == final(self).buffer_view(),
    {
        clear_string(&mut self.buffer);
        match read_line_into(&mut self.io, &mut self.buffer) {
            Ok(count) => Ok(self.current_line().to_owned()),
            Err(e) => Err(e),
        }
    }
}

/// The process's standard streams.
pub struct Io {
    stdout: std::io::Stdout,
    stderr: std::io::Stderr,
    stdin: std::io::Stdin,
}

impl Io {
    /// Take handles on the standard streams.
    pub fn new() -> Io {
        Io { stdout: acquire_stdout(), stdin: acquire_stdin(), stderr: acquire_stderr() }
    }

    /// A fallible writer on standard output.
    pub fn stdout(&self) -> Out<std::io::StdoutLock<'static>, Fallible> {
        Out::new(lock_stdout(&self.stdout), Fallible)
    }

    /// A fallible writer on standard error.
    pub fn stderr(&self) -> Out<std::io::StderrLock<'static>, Fallible> {
        Out::new(lock_stderr(&self.stderr), Fallible)
    }

    /// A fallible reader on standard input, with an empty line buffer.
    pub fn stdin(&self) -> (r: In<std::io::StdinLock<'static>, Fallible>)
        ensures
            r.buffer_view() == Seq::<char>::empty(),
    {
        In::new(lock_stdin(&self.stdin), Fallible)
    }
}

} // verus!
