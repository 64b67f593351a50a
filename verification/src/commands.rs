//! Argument lists for the daemon's command-line interface, and the shell
//! quoting used when a directory has to be created on a remote endpoint.
//! Building the exact words that run is logic; running them is not, and
//! stays with the caller.

use vstd::prelude::*;
use vstd::string::StrSliceExecFns;
use vstd::string::StringExecFns;

use crate::text::contains_seq;
use crate::text::str_contains;

verus! {

/// The lock file the daemon keeps beside a project file: the same path
/// with `.lock` appended.
pub fn get_project_lock_path(project_file: &str) -> (r: String)
    ensures
        r@ == project_file@ + ".lock"@,
{
    proof {
        reveal_strlit(".lock");
    }
    let mut out = project_file.to_owned();
    out.append(".lock");
    out
}

/// Whether a failed project start reported that the project is already
/// running, the message that a stale lock file also produces.
pub fn stderr_indicates_already_running(stderr: &str) -> (r: bool)
    ensures
        r == contains_seq(stderr@, "project already running"@),
{
    str_contains(stderr, "project already running")
}

/// A character a POSIX shell takes literally, needing no quoting.
pub open spec fn shell_safe_char(c: char) -> bool {
    ||| (97 <= (c as u32) <= 122)
    ||| (65 <= (c as u32) <= 90)
    ||| (48 <= (c as u32) <= 57)
    ||| c == '-'
    ||| c == '_'
    ||| c == '='
    ||| c == '/'
    ||| c == ','
    ||| c == '.'
    ||| c == '+'
}

/// How one character appears inside a single-quoted shell word: a quote or
/// a bang breaks out of the quotes, backslash-escaped.
pub open spec fn sh_escaped_char(c: char) -> Seq<char> {
    if c == '\'' || c == '!' {
        seq!['\'', '\\', c, '\'']
    } else {
        seq![c]
    }
}

/// The body of a single-quoted shell word.
pub open spec fn sh_escaped_body(s: Seq<char>) -> Seq<char>
    decreases s.len(),
{
    if s.len() == 0 {
        Seq::empty()
    } else {
        sh_escaped_char(s[0]) + sh_escaped_body(s.drop_first())
    }
}

/// A string quoted for a POSIX shell: passed through when non-empty and
/// wholly safe, wrapped in single quotes otherwise.
pub open spec fn sh_quoted(s: Seq<char>) -> Seq<char> {
    if s.len() > 0 && (forall|i: int| 0 <= i < s.len() ==> shell_safe_char(#[trigger] s[i])) {
        s
    } else {
        seq!['\''] + sh_escaped_body(s) + seq!['\'']
    }
}

/// Relies on shell-escape's `unix::escape`: an argument of safe characters
/// passes through unchanged; any other is wrapped in single quotes, with
/// embedded quotes and bangs backslash-escaped outside them.
#[verifier::external_body]
fn shell_quote(s: &str) -> (r: String)
    ensures
        r@ == sh_quoted(s@),
{
    shell_escape::unix::escape(std::borrow::Cow::Borrowed(s)).into_owned()
}

/// The SSH destination: `user@host`, or the bare host.
pub open spec fn ssh_host_rep(user: Option<Seq<char>>, host: Seq<char>) -> Seq<char> {
    match user {
        Some(u) => u + "@"@ + host,
        None => host,
    }
}

/// The arguments of the `ssh` call that creates a directory on a remote
/// endpoint: the destination, then one quoted `mkdir -p` command.
pub fn ssh_mkdir_args(user: Option<&str>, host: &str, path: &str) -> (r: Vec<String>)
    ensures
        r.deep_view() == seq![
            ssh_host_rep(user.deep_view(), host@),
            "mkdir -p "@ + sh_quoted(path@),
        ],
{
    proof {
        reveal_strlit("@");
        reveal_strlit("mkdir -p ");
    }
    let destination = match user {
        Some(u) => {
            let mut d = u.to_owned();
            d.append("@");
            d.append(host);
            d
        },
        None => host.to_owned(),
    };
    let mut command = String::from_str("mkdir -p ");
    let quoted = shell_quote(path);
    command.append(quoted.as_str());
    let mut out: Vec<String> = Vec::new();
    out.push(destination);
    out.push(command);
    proof {
        assert(out.deep_view() =~= seq![
            ssh_host_rep(user.deep_view(), host@),
            "mkdir -p "@ + sh_quoted(path@),
        ]);
    }
    out
}

/// The arguments of the `docker exec` call that creates a directory inside
/// a container.
pub fn docker_mkdir_args(container: &str, path: &str) -> (r: Vec<String>)
    ensures
        r.deep_view() == seq![
            "exec"@,
            container@,
            "sh"@,
            "-c"@,
            "mkdir -p "@ + sh_quoted(path@),
        ],
{
    proof {
        reveal_strlit("exec");
        reveal_strlit("sh");
        reveal_strlit("-c");
        reveal_strlit("mkdir -p ");
    }
    let mut command = String::from_str("mkdir -p ");
    let quoted = shell_quote(path);
    command.append(quoted.as_str());
    let mut out: Vec<String> = Vec::new();
    out.push(String::from_str("exec"));
    out.push(container.to_owned());
    out.push(String::from_str("sh"));
    out.push(String::from_str("-c"));
    out.push(command);
    proof {
        assert(out.deep_view() =~= seq![
            "exec"@,
            container@,
            "sh"@,
            "-c"@,
            "mkdir -p "@ + sh_quoted(path@),
        ]);
    }
    out
}

/// The arguments that list every session as one JSON document.
pub fn sync_list_args() -> (r: Vec<String>)
    ensures
        r.deep_view() == seq!["sync"@, "list"@, "--template"@, "{{json .}}"@],
{
    proof {
        reveal_strlit("sync");
        reveal_strlit("list");
        reveal_strlit("--template");
        reveal_strlit("{{json .}}");
    }
    let mut out: Vec<String> = Vec::new();
    out.push(String::from_str("sync"));
    out.push(String::from_str("list"));
    out.push(String::from_str("--template"));
    out.push(String::from_str("{{json .}}"));
    proof {
        assert(out.deep_view() =~= seq!["sync"@, "list"@, "--template"@, "{{json .}}"@]);
    }
    out
}

/// The arguments of one per-session action: pause, resume, terminate or
/// flush one session by its stable identifier.
pub fn sync_session_args(action: &str, identifier: &str) -> (r: Vec<String>)
    ensures
        r.deep_view() == seq!["sync"@, action@, identifier@],
{
    proof {
        reveal_strlit("sync");
    }
    let mut out: Vec<String> = Vec::new();
    out.push(String::from_str("sync"));
    out.push(action.to_owned());
    out.push(identifier.to_owned());
    proof {
        assert(out.deep_view() =~= seq!["sync"@, action@, identifier@]);
    }
    out
}

/// The arguments of one whole-project action: start, terminate, pause or
/// resume every session of a project file.
pub fn project_file_args(action: &str, path: &str) -> (r: Vec<String>)
    ensures
        r.deep_view() == seq!["project"@, action@, "-f"@, path@],
{
    proof {
        reveal_strlit("project");
        reveal_strlit("-f");
    }
    let mut out: Vec<String> = Vec::new();
    out.push(String::from_str("project"));
    out.push(action.to_owned());
    out.push(String::from_str("-f"));
    out.push(path.to_owned());
    proof {
        assert(out.deep_view() =~= seq!["project"@, action@, "-f"@, path@]);
    }
    out
}

/// The `--ignore` flag pairs for the first `n` patterns.
pub open spec fn ignore_flags_rep(patterns: Seq<Seq<char>>, n: int) -> Seq<Seq<char>>
    decreases n,
{
    if n <= 0 {
        Seq::empty()
    } else {
        ignore_flags_rep(patterns, n - 1) + seq!["--ignore"@, patterns[n - 1]]
    }
}

/// The daemon's mode word for a new session.
pub open spec fn create_mode_rep(one_way: bool) -> Seq<char> {
    if one_way {
        "one-way-replica"@
    } else {
        "two-way-safe"@
    }
}

/// The arguments that create a session between two endpoints, one-way or
/// two-way, with one `--ignore` flag per pattern.
pub fn sync_create_args(
    name: &str,
    alpha: &str,
    beta: &str,
    one_way: bool,
    ignore: &[String],
) -> (r: Vec<String>)
    ensures
        r.deep_view() == seq![
            "sync"@,
            "create"@,
            alpha@,
            beta@,
            "-m"@,
            create_mode_rep(one_way),
            "-n"@,
            name@,
        ] + ignore_flags_rep(ignore.deep_view(), ignore.deep_view().len() as int),
{
    proof {
        reveal_strlit("sync");
        reveal_strlit("create");
        reveal_strlit("-m");
        reveal_strlit("one-way-replica");
        reveal_strlit("two-way-safe");
        reveal_strlit("-n");
        reveal_strlit("--ignore");
    }
    let ghost base = seq![
        "sync"@,
        "create"@,
        alpha@,
        beta@,
        "-m"@,
        create_mode_rep(one_way),
        "-n"@,
        name@,
    ];
    let ghost patterns = ignore.deep_view();
    let mut out: Vec<String> = Vec::new();
    out.push(String::from_str("sync"));
    out.push(String::from_str("create"));
    out.push(alpha.to_owned());
    out.push(beta.to_owned());
    out.push(String::from_str("-m"));
    if one_way {
        out.push(String::from_str("one-way-replica"));
    } else {
        out.push(String::from_str("two-way-safe"));
    }
    out.push(String::from_str("-n"));
    out.push(name.to_owned());
    proof {
        assert(out.deep_view() =~= base + ignore_flags_rep(patterns, 0));
    }
    let n = ignore.len();
    let mut i: usize = 0;
    while i < n
        invariant
            n == patterns.len(),
            patterns == ignore.deep_view(),
            i <= n,
            base == seq![
                "sync"@,
                "create"@,
                alpha@,
                beta@,
                "-m"@,
                create_mode_rep(one_way),
                "-n"@,
                name@,
            ],
            out.deep_view() == base + ignore_flags_rep(patterns, i as int),
        decreases n - i,
    {
        let ghost prev = out.deep_view();
        out.push(String::from_str("--ignore"));
        out.push(ignore[i].clone());
        proof {
            assert(out.deep_view() =~= prev.push("--ignore"@).push(patterns[i as int]));
            assert(ignore_flags_rep(patterns, i + 1) == ignore_flags_rep(patterns, i as int)
                + seq!["--ignore"@, patterns[i as int]]);
            assert(out.deep_view() =~= base + ignore_flags_rep(patterns, i + 1));
        }
        i = i + 1;
    }
    out
}

} // verus!
