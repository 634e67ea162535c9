//! The decisions made when the shell is started on the pseudo-terminal:
//! which shell, its `argv[0]`, and the value of `TERM`.

use vstd::prelude::*;
use vstd::string::StringExecFns;
use crate::text::{str_chars, str_slice};

verus! {

broadcast use vstd::string::group_string_axioms;

#[verifier::external_type_specification]
#[verifier::external_body]
pub struct ExPath(std::path::Path);

/// Options for spawning a PTY.
pub struct SpawnOptions<'a> {
    pub cols: u16,
    pub rows: u16,
    pub shell: Option<&'a str>,
    pub term: Option<&'a str>,
    pub pixel_width: u16,
    pub pixel_height: u16,
    pub login: bool,
    pub command: Option<&'a [String]>,
    pub working_directory: Option<&'a std::path::Path>,
}

/// Index of the last `/` in `s[..j]`, if any.
pub open spec fn last_slash(s: Seq<char>, j: int) -> Option<int>
    decreases j,
{
    if j <= 0 {
        None
    } else if s[j - 1] == '/' {
        Some(j - 1)
    } else {
        last_slash(s, j - 1)
    }
}

/// The last component of a path: what follows its last `/`, or the whole
/// path when it has none.
pub open spec fn spec_shell_basename(path: Seq<char>) -> Seq<char> {
    match last_slash(path, path.len() as int) {
        Some(k) => path.skip(k + 1),
        None => path,
    }
}

/// The last component of `path`.
pub fn shell_basename(path: &str) -> (r: &str)
    ensures
        r@ == spec_shell_basename(path@),
{
    let c = str_chars(path);
    let n = c.len();
    let mut j: usize = n;
    while j > 0 && c[j - 1] != '/'
        invariant
            j <= n == c@.len(),
            c@ == path@,
            last_slash(c@, n as int) == last_slash(c@, j as int),
        decreases j,
    {
        j = j - 1;
    }
    let r = str_slice(path, j, n);
    proof {
        if j > 0 {
            assert(last_slash(c@, j as int) == Some(j - 1));
        }
        assert(r@ =~= spec_shell_basename(path@));
    }
    r
}

/// `argv[0]` for the shell: its basename, with a leading `-` for a login
/// shell.
pub open spec fn spec_shell_argv0(path: Seq<char>, login: bool) -> Seq<char> {
    if login { seq!['-'] + spec_shell_basename(path) } else { spec_shell_basename(path) }
}

/// `argv[0]` for the shell at `path`.
pub fn shell_argv0(path: &str, login: bool) -> (r: String)
    ensures
        r@ == spec_shell_argv0(path@, login),
{
    let base = shell_basename(path);
    if login {
        let mut s = String::from_str("-");
        proof {
            reveal_strlit("-");
        }
        s.append(base);
        s
    } else {
        base.to_owned()
    }
}

/// The shell to start: `$SHELL` when set and not empty, else the login
/// shell of the user's password entry when not empty, else `/bin/bash`
/// (not `/bin/sh`: bash started as `sh` runs in POSIX mode).
pub open spec fn spec_default_shell(env_shell: Option<Seq<char>>, passwd_shell: Option<Seq<char>>) -> Seq<char> {
    match env_shell {
        Some(s) if s.len() > 0 => s,
        _ => match passwd_shell {
            Some(p) if p.len() > 0 => p,
            _ => "/bin/bash"@,
        },
    }
}

/// Pick the shell from `$SHELL` and the password entry's shell.
pub fn choose_default_shell(env_shell: Option<String>, passwd_shell: Option<String>) -> (r: String)
    ensures
        r@ == spec_default_shell(
            match env_shell {
                Some(s) => Some(s@),
                None => None,
            },
            match passwd_shell {
                Some(s) => Some(s@),
                None => None,
            },
        ),
{
    if let Some(s) = env_shell {
        if !s.as_str().is_empty() {
            return s;
        }
    }
    if let Some(p) = passwd_shell {
        if !p.as_str().is_empty() {
            return p;
        }
    }
    String::from_str("/bin/bash")
}

/// `TERM` for the child: the configured value, else `xterm-256color`.
pub fn term_value<'a>(term: Option<&'a str>) -> (r: &'a str)
    ensures
        r@ == match term {
            Some(t) => t@,
            None => "xterm-256color"@,
        },
{
    match term {
        Some(t) => t,
        None => "xterm-256color",
    }
}

/// Environment variables of other terminal emulators, and variables that
/// change how a shell starts, removed from the child's environment.
pub const STALE_ENV_VARS: [&'static str; 21] = [
    "WEZTERM_EXECUTABLE",
    "WEZTERM_CONFIG_DIR",
    "WEZTERM_CONFIG_FILE",
    "WEZTERM_PANE",
    "WEZTERM_UNIX_SOCKET",
    "KITTY_WINDOW_ID",
    "KITTY_PID",
    "KITTY_INSTALLATION_DIR",
    "ALACRITTY_LOG",
    "ALACRITTY_SOCKET",
    "ALACRITTY_WINDOW_ID",
    "FOOT_SERVER_SOCKET",
    "GHOSTTY_RESOURCES_DIR",
    "GHOSTTY_BIN_DIR",
    "VTE_VERSION",
    "TERMINAL_EMULATOR",
    "TERM_PROGRAM",
    "TERM_PROGRAM_VERSION",
    "POSIXLY_CORRECT",
    "ENV",
    "BASH_ENV",
];

/// Bytes queued for the pseudo-terminal that a non-blocking write has not
/// taken yet, oldest first.
pub struct PendingWrites {
    buf: Vec<u8>,
}

impl View for PendingWrites {
    type V = Seq<u8>;

    closed spec fn view(&self) -> Seq<u8> {
        self.buf@
    }
}

impl PendingWrites {
    /// An empty queue.
    pub fn new() -> (q: PendingWrites)
        ensures
            q@ == Seq::<u8>::empty(),
    {
        PendingWrites { buf: Vec::new() }
    }

    /// Queue `data` after what is already queued.
    pub fn push(&mut self, data: &[u8])
        ensures
            final(self)@ == old(self)@ + data@,
    {
        let mut i: usize = 0;
        while i < data.len()
            invariant
                i <= data@.len(),
                self@ == old(self)@ + data@.subrange(0, i as int),
            decreases data@.len() - i,
        {
            self.buf.push(data[i]);
            assert(data@.subrange(0, i as int + 1) =~= data@.subrange(0, i as int).push(data@[i as int]));
            i = i + 1;
        }
        assert(data@.subrange(0, data@.len() as int) =~= data@);
    }

    /// The queued bytes, oldest first.
    pub fn pending(&self) -> (s: &[u8])
        ensures
            s@ == self@,
    {
        self.buf.as_slice()
    }

    /// Drop the first `n` queued bytes, which a write has taken.
    pub fn consume(&mut self, n: usize)
        requires
            n <= old(self)@.len(),
        ensures
            final(self)@ == old(self)@.skip(n as int),
    {
        let mut rest: Vec<u8> = Vec::new();
        let mut i: usize = n;
        while i < self.buf.len()
            invariant
                n <= i <= self.buf@.len(),
                self.buf@ == old(self)@,
                rest@ == old(self)@.subrange(n as int, i as int),
            decreases self.buf@.len() - i,
        {
            rest.push(self.buf[i]);
            assert(old(self)@.subrange(n as int, i as int + 1) =~= old(self)@.subrange(n as int, i as int).push(
                old(self)@[i as int],
            ));
            i = i + 1;
        }
        self.buf = rest;
        assert(self@ =~= old(self)@.skip(n as int));
    }

    /// Whether nothing is queued.
    pub fn is_empty(&self) -> (b: bool)
        ensures
            b == (self@.len() == 0),
    {
        self.buf.len() == 0
    }
}

} // verus!
