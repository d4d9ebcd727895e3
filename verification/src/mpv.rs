//! The commands the desktop client sends to the mpv player over its IPC
//! socket, and how it reads mpv's version.

use vstd::prelude::*;
use vstd::string::StringExecFns;
use crate::text::{chars_of, concat, string_of};

verus! {

/// Where the client's mpv listens for IPC commands: a named pipe on
/// Windows, a Unix socket elsewhere.
pub fn ipc_path(windows: bool) -> (p: String)
    ensures
        windows ==> p@ == "\\\\.\\pipe\\mpv-sametime"@,
        !windows ==> p@ == "/tmp/mpv-sametime.sock"@,
{
    if windows {
        String::from_str("\\\\.\\pipe\\mpv-sametime")
    } else {
        String::from_str("/tmp/mpv-sametime.sock")
    }
}

/// The command-line arguments mpv is started with to play `file_path`:
/// IPC on `ipc_path`, paused, kept open at the end, in a borderless
/// always-on-top window of 70% size, centred.
pub open spec fn launch_args(ipc_path: Seq<char>, file_path: Seq<char>) -> Seq<Seq<char>> {
    seq![
        "--input-ipc-server="@ + ipc_path,
        "--pause"@,
        "--keep-open=yes"@,
        "--idle=no"@,
        "--force-window=yes"@,
        "--ontop"@,
        "--no-border"@,
        "--autofit=70%"@,
        "--geometry=50%:50%"@,
        file_path,
    ]
}

/// The arguments to start mpv with, as `launch_args` says.
pub fn mpv_launch_args(ipc_path: &str, file_path: &str) -> (args: Vec<String>)
    ensures
        args@.len() == 10,
        forall|i: int| 0 <= i < 10 ==> #[trigger] args@[i]@ == launch_args(ipc_path@, file_path@)[i],
{
    let mut args: Vec<String> = Vec::new();
    args.push(concat("--input-ipc-server=", ipc_path));
    args.push(String::from_str("--pause"));
    args.push(String::from_str("--keep-open=yes"));
    args.push(String::from_str("--idle=no"));
    args.push(String::from_str("--force-window=yes"));
    args.push(String::from_str("--ontop"));
    args.push(String::from_str("--no-border"));
    args.push(String::from_str("--autofit=70%"));
    args.push(String::from_str("--geometry=50%:50%"));
    args.push(String::from_str(file_path));
    args
}

/// How long the client waits between attempts to reach a starting mpv,
/// in milliseconds.
pub const IPC_RETRY_MS: u64 = 100;

/// Whether the client keeps trying to reach a starting mpv: for five
/// seconds after starting it.
pub fn ipc_keep_waiting(elapsed_ms: u128) -> (b: bool)
    ensures
        b == (elapsed_ms < 5000),
{
    elapsed_ms < 5000
}

/// How many times the client tries to open mpv's named pipe for one
/// command, and how long it waits between tries, in milliseconds.
pub const PIPE_ATTEMPTS: u32 = 5;
pub const PIPE_RETRY_MS: u64 = 50;

/// Whether the client tries to open the pipe again after try number
/// `attempt` (counting from zero) failed: while tries are left.
pub fn pipe_try_again(attempt: u32) -> (b: bool)
    ensures
        b == (attempt as int + 1 < PIPE_ATTEMPTS),
{
    attempt < PIPE_ATTEMPTS - 1
}

/// The JSON IPC command that pauses (`true`) or resumes (`false`) mpv.
pub fn pause_command(paused: bool) -> (c: String)
    ensures
        paused ==> c@ == "{ \"command\": [\"set_property\", \"pause\", true] }"@,
        !paused ==> c@ == "{ \"command\": [\"set_property\", \"pause\", false] }"@,
{
    if paused {
        String::from_str("{ \"command\": [\"set_property\", \"pause\", true] }")
    } else {
        String::from_str("{ \"command\": [\"set_property\", \"pause\", false] }")
    }
}

/// The first line of `text` as std's `str::lines` yields it: up to the
/// first line feed, without a carriage return just before it; nothing when
/// `text` is empty.
pub open spec fn first_line(text: Seq<char>) -> Option<Seq<char>> {
    if text.len() == 0 {
        None
    } else if exists|i: int| 0 <= i < text.len() && text[i] == '\n' {
        let i = choose|i: int|
            0 <= i < text.len() && text[i] == '\n' && forall|j: int| 0 <= j < i ==> text[j] != '\n';
        let line = text.take(i);
        if line.len() > 0 && line.last() == '\r' {
            Some(line.drop_last())
        } else {
            Some(line)
        }
    } else {
        Some(text)
    }
}

/// What the client reports as mpv's version: the first line of
/// `mpv --version`, or `unknown` when it printed nothing.
pub fn version_line(output: &str) -> (r: String)
    ensures
        match first_line(output@) {
            Some(l) => r@ == l,
            None => r@ == "unknown"@,
        },
{
    let cs = chars_of(output);
    let n = cs.len();
    if n == 0 {
        return String::from_str("unknown");
    }
    let mut i: usize = 0;
    while i < n
        invariant
            i <= n,
            n == cs@.len(),
            cs@ == output@,
            forall|j: int| 0 <= j < i ==> cs@[j] != '\n',
        ensures
            i <= n,
            i < n ==> cs@[i as int] == '\n',
            forall|j: int| 0 <= j < i ==> cs@[j] != '\n',
        decreases n - i,
    {
        if cs[i] == '\n' {
            break;
        }
        i = i + 1;
    }
    if i == n {
        assert(!exists|k: int| 0 <= k < output@.len() && output@[k] == '\n');
        return string_of(cs.as_slice());
    }
    proof {
        let k = choose|k: int|
            0 <= k < output@.len() && output@[k] == '\n' && forall|j: int| 0 <= j < k ==> output@[j]
                != '\n';
        assert(output@[i as int] == '\n');
        if k < i {
            assert(output@[k] != '\n');
        }
        if k > i {
            assert(output@[i as int] != '\n');
        }
        assert(k == i);
    }
    let end = if i > 0 && cs[i - 1] == '\r' {
        i - 1
    } else {
        i
    };
    let line = vstd::slice::slice_subrange(cs.as_slice(), 0, end);
    proof {
        if end < i {
            assert(cs@.subrange(0, end as int) =~= cs@.take(i as int).drop_last());
        } else {
            assert(cs@.subrange(0, end as int) =~= cs@.take(i as int));
        }
    }
    string_of(line)
}

}
