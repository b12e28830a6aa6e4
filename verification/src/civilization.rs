//! The civilization: the per-test sandbox.
//!
//! Each test owns one civilization: a lazily created temp directory, a lazily
//! picked port, an environment map, the output of the last command, handles
//! to the servers and background tasks it started, and at most one browser
//! window. The I/O itself (spawning, binding, writing) happens at the
//! program's edge; this model holds the state those actions leave behind, and
//! shutdown marks every owned resource released exactly once.

use vstd::prelude::*;

use crate::text::{chars_of, string_from_chars};

verus! {

/// What the last finished command printed, decoded and stripped of ANSI
/// escapes.
#[derive(Debug)]
pub struct CommandOutput {
    pub stdout: String,
    pub stderr: String,
}

/// One background task the civilization owns.
#[derive(Debug, Clone, Copy, PartialEq, Eq, Structural)]
pub enum TaskState {
    Running,
    Aborted,
}

/// One server the civilization owns.
#[derive(Debug, Clone, Copy, PartialEq, Eq, Structural)]
pub enum ServerState {
    Running,
    Stopped,
}

/// The browser window a test opened.
#[derive(Debug, Clone, Copy, PartialEq, Eq, Structural)]
pub enum WindowState {
    Open,
    Closed,
}

/// The per-test sandbox state. The handles themselves (temp dir guards,
/// join handles, server handles, the driver's window) live with the I/O
/// shell, one for one with the entries here.
#[derive(Debug)]
pub struct Civilization {
    /// The sandbox directory, as a slash path, once materialized.
    pub tmp_dir: Option<String>,
    pub last_command_output: Option<CommandOutput>,
    pub assigned_server_port: Option<u16>,
    pub window: Option<WindowState>,
    pub threads: Vec<TaskState>,
    pub handles: Vec<ServerState>,
    pub env_vars: Vec<(String, String)>,
}

/// Relies on `portpicker::pick_unused_port`: it asks the operating system
/// for a free port, so nothing holds of the result beyond its presence.
#[verifier::external_body]
fn pick_unused_port() -> (r: Option<u16>) {
    portpicker::pick_unused_port()
}

/// What `strip_ansi_escapes::strip` returns: a function of the bytes alone.
pub uninterp spec fn ansi_stripped(b: Seq<u8>) -> Seq<u8>;

/// Relies on `strip_ansi_escapes::strip`: it parses the bytes as a terminal
/// stream and keeps only the printable ones, a function of the bytes alone.
#[verifier::external_body]
fn strip_ansi(data: &Vec<u8>) -> (r: Vec<u8>)
    ensures
        r@ == ansi_stripped(data@),
{
    strip_ansi_escapes::strip(data)
}

/// Whether a byte sequence is valid UTF-8: a function of the bytes alone.
pub uninterp spec fn utf8_valid(b: Seq<u8>) -> bool;

/// What decoding a byte sequence as UTF-8 yields when it is valid: a function
/// of the bytes alone.
pub uninterp spec fn utf8_decoded(b: Seq<u8>) -> Seq<char>;

/// Relies on `core::str::from_utf8`: it returns the string the bytes encode
/// exactly when they are valid UTF-8, and an error otherwise.
#[verifier::external_body]
fn decode_utf8(data: &Vec<u8>) -> (r: Option<String>)
    ensures
        r is Some <==> utf8_valid(data@),
        r matches Option::Some(s) ==> s@ == utf8_decoded(data@),
{
    match core::str::from_utf8(data.as_slice()) {
        Ok(s) => Option::Some(s.to_string()),
        Err(_) => Option::None,
    }
}

/// The sentinel stored when a captured stream is not valid UTF-8.
pub open spec fn failed_utf8_chars() -> Seq<char> {
    seq!['f', 'a', 'i', 'l', 'e', 'd', ' ', 'u', 't', 'f', '8']
}

/// Decode one captured stream: ANSI escapes stripped, then UTF-8 — the
/// decoded text when the stripped bytes are valid UTF-8, and the literal
/// `failed utf8` sentinel exactly when they are not.
pub fn decode_captured_stream(data: &Vec<u8>) -> (r: String)
    ensures
        utf8_valid(ansi_stripped(data@)) ==> r@ == utf8_decoded(ansi_stripped(data@)),
        !utf8_valid(ansi_stripped(data@)) ==> r@ == failed_utf8_chars(),
{
    let stripped = strip_ansi(data);
    match decode_utf8(&stripped) {
        Option::Some(s) => s,
        Option::None => {
            let mut out: Vec<char> = Vec::new();
            out.push('f');
            out.push('a');
            out.push('i');
            out.push('l');
            out.push('e');
            out.push('d');
            out.push(' ');
            out.push('u');
            out.push('t');
            out.push('f');
            out.push('8');
            proof {
                assert(out@ =~= failed_utf8_chars());
            }
            string_from_chars(&out)
        },
    }
}

impl Civilization {
    /// A fresh sandbox: no directory, no port, no output, no environment, no
    /// owned resources. Every test receives its own, so no two tests can
    /// observe each other's directory, port, environment or command output.
    pub fn new() -> (r: Civilization)
        ensures
            r.tmp_dir is None,
            r.last_command_output is None,
            r.assigned_server_port is None,
            r.window is None,
            r.threads@.len() == 0,
            r.handles@.len() == 0,
            r.env_vars@.len() == 0,
    {
        Civilization {
            tmp_dir: Option::None,
            last_command_output: Option::None,
            assigned_server_port: Option::None,
            window: Option::None,
            threads: Vec::new(),
            handles: Vec::new(),
            env_vars: Vec::new(),
        }
    }

    /// The port this civilization serves on, picked once and then kept: a
    /// port that was already assigned is never changed.
    pub fn ensure_port(&mut self) -> (r: Option<u16>)
        ensures
            old(self).assigned_server_port matches Option::Some(p) ==> final(self).assigned_server_port == Option::Some(p) && r == Option::Some(p),
            final(self).assigned_server_port == r,
            final(self).tmp_dir == old(self).tmp_dir,
            final(self).last_command_output == old(self).last_command_output,
            final(self).window == old(self).window,
            final(self).threads@ == old(self).threads@,
            final(self).handles@ == old(self).handles@,
            final(self).env_vars@ == old(self).env_vars@,
    {
        if self.assigned_server_port.is_none() {
            self.assigned_server_port = pick_unused_port();
        }
        self.assigned_server_port
    }

    /// Forget the assigned port, so that a retry can pick another.
    pub fn purge_port(&mut self)
        ensures
            final(self).assigned_server_port is None,
            final(self).tmp_dir == old(self).tmp_dir,
            final(self).last_command_output == old(self).last_command_output,
            final(self).window == old(self).window,
            final(self).threads@ == old(self).threads@,
            final(self).handles@ == old(self).handles@,
            final(self).env_vars@ == old(self).env_vars@,
    {
        self.assigned_server_port = Option::None;
    }

    /// Record the sandbox directory the shell created, on first use only: a
    /// directory that was already materialized is never replaced.
    pub fn materialize_tmp_dir(&mut self, path: String) -> (r: String)
        ensures
            old(self).tmp_dir matches Option::Some(p) ==> final(self).tmp_dir == Option::Some(p)
                && r@ == p@,
            old(self).tmp_dir is None ==> final(self).tmp_dir == Option::Some(path) && r@ == path@,
            final(self).assigned_server_port == old(self).assigned_server_port,
            final(self).last_command_output == old(self).last_command_output,
            final(self).window == old(self).window,
            final(self).threads@ == old(self).threads@,
            final(self).handles@ == old(self).handles@,
            final(self).env_vars@ == old(self).env_vars@,
    {
        match &self.tmp_dir {
            Option::Some(existing) => existing.clone(),
            Option::None => {
                let out = path.clone();
                self.tmp_dir = Option::Some(path);
                out
            },
        }
    }

    /// The path of a file inside the sandbox directory.
    pub fn tmp_file_path(&self, filename: &str) -> (r: Option<String>)
        ensures
            match self.tmp_dir {
                Option::Some(dir) => r matches Option::Some(p) && p@ == dir@ + seq!['/']
                    + filename@,
                Option::None => r is None,
            },
    {
        match &self.tmp_dir {
            Option::Some(dir) => {
                let mut out = chars_of(dir.as_str());
                out.push('/');
                crate::text::extend_str(&mut out, filename);
                proof {
                    assert(out@ =~= self.tmp_dir->Some_0@ + seq!['/'] + filename@);
                }
                Option::Some(string_from_chars(&out))
            },
            Option::None => Option::None,
        }
    }

    /// Store an environment variable for later commands: an existing binding
    /// of the same name is replaced, any other is kept, and a new name is
    /// appended. Only child processes see these; the test runner's own
    /// environment never changes.
    pub fn set_env(&mut self, name: String, value: String)
        ensures
            env_lookup(final(self).env_vars@, name@) == Option::Some(value@),
            final(self).env_vars@.len() == (match env_index(old(self).env_vars@, name@, 0) {
                Option::Some(_) => old(self).env_vars@.len() as int,
                Option::None => old(self).env_vars@.len() as int + 1,
            }),
            forall|other: Seq<char>|
                other != name@ ==> #[trigger] env_lookup(final(self).env_vars@, other)
                    == env_lookup(old(self).env_vars@, other),
            final(self).tmp_dir == old(self).tmp_dir,
            final(self).assigned_server_port == old(self).assigned_server_port,
            final(self).last_command_output == old(self).last_command_output,
            final(self).window == old(self).window,
            final(self).threads@ == old(self).threads@,
            final(self).handles@ == old(self).handles@,
    {
        set_pair(&mut self.env_vars, name, value);
    }

    /// Mark every owned resource released: each server stopped, each
    /// background task aborted, the browser window (if one was opened)
    /// closed. On a sandbox that owns nothing this is a no-op, and running it
    /// twice is the same as running it once.
    pub fn shutdown(&mut self)
        ensures
            final(self).handles@.len() == old(self).handles@.len(),
            forall|i: int|
                0 <= i < old(self).handles@.len() ==> final(self).handles@[i]
                    == ServerState::Stopped,
            final(self).threads@.len() == old(self).threads@.len(),
            forall|i: int|
                0 <= i < old(self).threads@.len() ==> final(self).threads@[i]
                    == TaskState::Aborted,
            final(self).window == (match old(self).window {
                Option::Some(_) => Option::Some(WindowState::Closed),
                Option::None => Option::<WindowState>::None,
            }),
            final(self).tmp_dir == old(self).tmp_dir,
            final(self).assigned_server_port == old(self).assigned_server_port,
            final(self).last_command_output == old(self).last_command_output,
            final(self).env_vars@ == old(self).env_vars@,
    {
        stop_all(&mut self.handles);
        abort_all(&mut self.threads);
        match self.window {
            Option::Some(_) => {
                self.window = Option::Some(WindowState::Closed);
            },
            Option::None => {},
        }
    }
}

/// Mark every server stopped.
fn stop_all(handles: &mut Vec<ServerState>)
    ensures
        final(handles)@.len() == old(handles)@.len(),
        forall|i: int| 0 <= i < old(handles)@.len() ==> final(handles)@[i] == ServerState::Stopped,
{
    let n = handles.len();
    let mut i: usize = 0;
    while i < n
        invariant
            i <= n,
            handles@.len() == n,
            forall|j: int| 0 <= j < i ==> handles@[j] == ServerState::Stopped,
        decreases n - i,
    {
        handles.set(i, ServerState::Stopped);
        i += 1;
    }
}

/// Mark every background task aborted.
fn abort_all(threads: &mut Vec<TaskState>)
    ensures
        final(threads)@.len() == old(threads)@.len(),
        forall|i: int| 0 <= i < old(threads)@.len() ==> final(threads)@[i] == TaskState::Aborted,
{
    let n = threads.len();
    let mut i: usize = 0;
    while i < n
        invariant
            i <= n,
            threads@.len() == n,
            forall|j: int| 0 <= j < i ==> threads@[j] == TaskState::Aborted,
        decreases n - i,
    {
        threads.set(i, TaskState::Aborted);
        i += 1;
    }
}

/// The value bound to `name` in an association list, scanning from the front.
pub open spec fn env_index(pairs: Seq<(String, String)>, name: Seq<char>, k: int) -> Option<int>
    decreases pairs.len() - k + 1,
{
    if k < 0 || k >= pairs.len() {
        Option::None
    } else if pairs[k].0@ == name {
        Option::Some(k)
    } else {
        env_index(pairs, name, k + 1)
    }
}

/// The value bound to `name`, if any.
pub open spec fn env_lookup(pairs: Seq<(String, String)>, name: Seq<char>) -> Option<Seq<char>> {
    match env_index(pairs, name, 0) {
        Option::Some(i) => Option::Some(pairs[i].1@),
        Option::None => Option::None,
    }
}

/// Bind `name` to `value` in an association list: replace the first existing
/// binding, or append a new one.
#[verifier::loop_isolation(false)]
pub fn set_pair(pairs: &mut Vec<(String, String)>, name: String, value: String)
    ensures
        env_lookup(final(pairs)@, name@) == Option::Some(value@),
        final(pairs)@.len() == (match env_index(old(pairs)@, name@, 0) {
            Option::Some(_) => old(pairs)@.len() as int,
            Option::None => old(pairs)@.len() as int + 1,
        }),
        forall|other: Seq<char>|
            other != name@ ==> #[trigger] env_lookup(final(pairs)@, other) == env_lookup(
                old(pairs)@,
                other,
            ),
{
    let n = pairs.len();
    let mut i: usize = 0;
    while i < n
        invariant
            i <= n,
            pairs@.len() == n,
            pairs@ == old(pairs)@,
            env_index(pairs@, name@, 0) == env_index(pairs@, name@, i as int),
            forall|j: int| 0 <= j < i ==> pairs@[j].0@ != name@,
        decreases n - i,
    {
        if pairs[i].0.eq(&name) {
            proof {
                assert(env_index(pairs@, name@, i as int) == Option::Some(i as int));
            }
            pairs.set(i, (name, value));
            proof {
                lemma_env_set(old(pairs)@, pairs@, i as int, name@, value@);
            }
            return ;
        }
        i += 1;
    }
    proof {
        assert(env_index(pairs@, name@, 0) is None);
    }
    pairs.push((name, value));
    proof {
        lemma_env_append(old(pairs)@, pairs@, name@, value@);
    }
}

/// After replacing index `i` (the first binding of `name`), lookups of `name`
/// find the new value and every other name resolves as before.
proof fn lemma_env_set(
    before: Seq<(String, String)>,
    after: Seq<(String, String)>,
    i: int,
    name: Seq<char>,
    value: Seq<char>,
)
    requires
        0 <= i < before.len(),
        after.len() == before.len(),
        after[i].0@ == name,
        after[i].1@ == value,
        forall|j: int| 0 <= j < before.len() && j != i ==> after[j] == before[j],
        forall|j: int| 0 <= j < i ==> before[j].0@ != name,
        before[i].0@ == name,
    ensures
        env_lookup(after, name) == Option::Some(value),
        forall|other: Seq<char>|
            other != name ==> #[trigger] env_lookup(after, other) == env_lookup(before, other),
{
    lemma_env_index_prefix(after, name, 0, i);
    assert(env_index(after, name, i) == Option::Some(i));
    assert forall|other: Seq<char>| other != name implies #[trigger] env_lookup(after, other)
        == env_lookup(before, other) by {
        lemma_env_index_same(before, after, other, 0, i);
    }
}

/// Walking forward over non-matching entries leaves the found index the same.
proof fn lemma_env_index_prefix(pairs: Seq<(String, String)>, name: Seq<char>, k: int, i: int)
    requires
        0 <= k <= i < pairs.len(),
        forall|j: int| k <= j < i ==> pairs[j].0@ != name,
    ensures
        env_index(pairs, name, k) == env_index(pairs, name, i),
    decreases i - k,
{
    if k < i {
        lemma_env_index_prefix(pairs, name, k + 1, i);
    }
}

/// Two lists that differ only at an index bound to a different name resolve
/// every other name alike.
proof fn lemma_env_index_same(
    before: Seq<(String, String)>,
    after: Seq<(String, String)>,
    other: Seq<char>,
    k: int,
    i: int,
)
    requires
        before.len() == after.len(),
        0 <= i < before.len(),
        forall|j: int| 0 <= j < before.len() && j != i ==> after[j] == before[j],
        before[i].0@ != other,
        after[i].0@ != other,
        k >= 0,
    ensures
        env_index(after, other, k) == env_index(before, other, k),
        env_index(after, other, k) matches Option::Some(j) ==> after[j].1@ == before[j].1@,
    decreases after.len() - k + 1,
{
    if 0 <= k && k < after.len() {
        lemma_env_index_same(before, after, other, k + 1, i);
    }
}

/// Appending a binding of a fresh name leaves every other name resolving as
/// before and makes the fresh name resolve to the new value.
proof fn lemma_env_append(
    before: Seq<(String, String)>,
    after: Seq<(String, String)>,
    name: Seq<char>,
    value: Seq<char>,
)
    requires
        after.len() == before.len() + 1,
        forall|j: int| 0 <= j < before.len() ==> after[j] == before[j],
        after[before.len() as int].0@ == name,
        after[before.len() as int].1@ == value,
        forall|j: int| 0 <= j < before.len() ==> before[j].0@ != name,
    ensures
        env_lookup(after, name) == Option::Some(value),
        forall|other: Seq<char>|
            other != name ==> #[trigger] env_lookup(after, other) == env_lookup(before, other),
{
    lemma_env_index_prefix(after, name, 0, before.len() as int);
    assert(env_index(after, name, before.len() as int) == Option::Some(before.len() as int));
    assert forall|other: Seq<char>| other != name implies #[trigger] env_lookup(after, other)
        == env_lookup(before, other) by {
        lemma_env_append_other(before, after, other, 0);
    }
}

proof fn lemma_env_append_other(
    before: Seq<(String, String)>,
    after: Seq<(String, String)>,
    other: Seq<char>,
    k: int,
)
    requires
        after.len() == before.len() + 1,
        forall|j: int| 0 <= j < before.len() ==> after[j] == before[j],
        after[before.len() as int].0@ != other,
        k >= 0,
    ensures
        env_index(after, other, k) == env_index(before, other, k),
        env_index(after, other, k) matches Option::Some(j) ==> 0 <= j < before.len()
            && after[j].1@ == before[j].1@,
    decreases after.len() - k + 1,
{
    if k < after.len() {
        lemma_env_append_other(before, after, other, k + 1);
    }
}

} // verus!
