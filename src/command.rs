//! The control-plane commands the orchestrator issues, as argument lists with
//! their own time limits.

use vstd::prelude::*;

verus! {

/// One control-plane invocation: its arguments and how long it may run.
#[derive(Debug, Clone)]
pub struct CommandSpec {
    pub args: Vec<String>,
    pub timeout_secs: u64,
}

/// The arguments of a command as character sequences.
pub open spec fn args_view(args: Seq<String>) -> Seq<Seq<char>> {
    args.map_values(|a: String| a@)
}

impl CommandSpec {
    /// The arguments of this command as character sequences.
    pub open spec fn words(&self) -> Seq<Seq<char>> {
        args_view(self.args@)
    }
}

fn push_arg(args: &mut Vec<String>, s: &str)
    ensures
        args_view(final(args)@) == args_view(old(args)@).push(s@),
{
    args.push(String::from_str(s));
    assert(args_view(args@) =~= args_view(old(args)@).push(s@));
}

fn command_of(words: &[&str], timeout_secs: u64) -> (r: CommandSpec)
    ensures
        r.words() == words@.map_values(|w: &str| w@),
        r.timeout_secs == timeout_secs,
{
    let mut args: Vec<String> = Vec::new();
    let mut i: usize = 0;
    while i < words.len()
        invariant
            i <= words@.len(),
            args_view(args@) == words@.subrange(0, i as int).map_values(|w: &str| w@),
        decreases words@.len() - i,
    {
        push_arg(&mut args, words[i]);
        assert(words@.subrange(0, i + 1) =~= words@.subrange(0, i as int).push(words@[i as int]));
        i = i + 1;
    }
    assert(words@.subrange(0, words@.len() as int) =~= words@);
    CommandSpec { args, timeout_secs }
}

/// The identity query: resolves a credential to its login.
pub fn username_command() -> (r: CommandSpec)
    ensures
        r.words() == seq!["api"@, "user"@, "--jq"@, ".login"@],
        r.timeout_secs == 90,
{
    let r = command_of(&["api", "user", "--jq", ".login"], 90);
    assert(r.words() =~= seq!["api"@, "user"@, "--jq"@, ".login"@]);
    r
}


/// The billing endpoint of an account.
pub open spec fn billing_endpoint(username: Seq<char>) -> Seq<char> {
    "/users/"@ + username + "/settings/billing/usage"@
}

/// The usage query of the account `username`.
pub fn billing_command(username: &str) -> (r: CommandSpec)
    ensures
        r.words() == seq![
            "api"@,
            billing_endpoint(username@),
            "-H"@,
            "Accept: application/vnd.github+json"@,
        ],
        r.timeout_secs == 30,
{
    let endpoint = String::from_str("/users/").concat(username).concat("/settings/billing/usage");
    let r = command_of(
        &["api", endpoint.as_str(), "-H", "Accept: application/vnd.github+json"],
        30,
    );
    assert(r.words() =~= seq![
        "api"@,
        billing_endpoint(username@),
        "-H"@,
        "Accept: application/vnd.github+json"@,
    ]);
    r
}

/// Lists the instances of the account, with the fields reconciliation reads.
pub fn list_command() -> (r: CommandSpec)
    ensures
        r.words() == seq![
            "codespace"@,
            "list"@,
            "--json"@,
            "name,repository,state,displayName"@,
        ],
        r.timeout_secs == 90,
{
    let r = command_of(&["codespace", "list", "--json", "name,repository,state,displayName"], 90);
    assert(r.words() =~= seq![
        "codespace"@,
        "list"@,
        "--json"@,
        "name,repository,state,displayName"@,
    ]);
    r
}

/// Asks for the reported state of the instance `name`.
pub fn view_state_command(name: &str) -> (r: CommandSpec)
    ensures
        r.words() == seq![
            "codespace"@,
            "view"@,
            "-c"@,
            name@,
            "--json"@,
            "state"@,
            "-q"@,
            ".state"@,
        ],
        r.timeout_secs == 30,
{
    let r = command_of(&["codespace", "view", "-c", name, "--json", "state", "-q", ".state"], 30);
    assert(r.words() =~= seq![
        "codespace"@,
        "view"@,
        "-c"@,
        name@,
        "--json"@,
        "state"@,
        "-q"@,
        ".state"@,
    ]);
    r
}

/// The shell text of the health probe: it reports whether the marker left by
/// a completed startup exists.
pub open spec fn health_probe_text() -> Seq<char> {
    "test -f /tmp/mawari_auto_start_done && echo 'healthy' || echo 'unhealthy'"@
}

/// Runs `text` on the instance `name` over the remote shell.
pub open spec fn remote_words(name: Seq<char>, text: Seq<char>) -> Seq<Seq<char>> {
    seq!["codespace"@, "ssh"@, "-c"@, name, "--"@, text]
}

fn remote_command(name: &str, text: &str, timeout_secs: u64) -> (r: CommandSpec)
    ensures
        r.words() == remote_words(name@, text@),
        r.timeout_secs == timeout_secs,
{
    let r = command_of(&["codespace", "ssh", "-c", name, "--", text], timeout_secs);
    assert(r.words() =~= remote_words(name@, text@));
    r
}

/// The health probe of the instance `name`.
pub fn health_command(name: &str) -> (r: CommandSpec)
    ensures
        r.words() == remote_words(name@, health_probe_text()),
        r.timeout_secs == 25,
{
    remote_command(
        name,
        "test -f /tmp/mawari_auto_start_done && echo 'healthy' || echo 'unhealthy'",
        25,
    )
}

/// The reachability probe of the instance `name`: it echoes a fixed word.
pub fn ready_command(name: &str) -> (r: CommandSpec)
    ensures
        r.words() == remote_words(name@, "echo 'ready'"@),
        r.timeout_secs == 20,
{
    remote_command(name, "echo 'ready'", 20)
}

/// The shell text that starts the startup script `script` in the background
/// with the given setup mode and prints its process id.
pub open spec fn launch_text(script: Seq<char>, mode: Seq<char>) -> Seq<char> {
    "bash -l -c 'export SETUP_MODE="@ + mode + " && nohup bash "@ + script
        + " > /tmp/mawari_startup.log 2>&1 & echo $!'"@
}

/// Starts the startup script on the instance `name` in the given mode.
pub fn launch_command(name: &str, script: &str, mode: &str) -> (r: CommandSpec)
    ensures
        r.words() == remote_words(name@, launch_text(script@, mode@)),
        r.timeout_secs == 30,
{
    let text = String::from_str("bash -l -c 'export SETUP_MODE=").concat(mode).concat(
        " && nohup bash ",
    ).concat(script).concat(" > /tmp/mawari_startup.log 2>&1 & echo $!'");
    assert(text@ =~= launch_text(script@, mode@));
    remote_command(name, text.as_str(), 30)
}

/// Stops the instance `name`.
pub fn stop_command(name: &str) -> (r: CommandSpec)
    ensures
        r.words() == seq!["codespace"@, "stop"@, "-c"@, name@],
        r.timeout_secs == 45,
{
    let r = command_of(&["codespace", "stop", "-c", name], 45);
    assert(r.words() =~= seq!["codespace"@, "stop"@, "-c"@, name@]);
    r
}

/// Deletes the instance `name` without asking.
pub fn delete_command(name: &str) -> (r: CommandSpec)
    ensures
        r.words() == seq!["codespace"@, "delete"@, "-c"@, name@, "--force"@],
        r.timeout_secs == 45,
{
    let r = command_of(&["codespace", "delete", "-c", name, "--force"], 45);
    assert(r.words() =~= seq!["codespace"@, "delete"@, "-c"@, name@, "--force"@]);
    r
}

/// Creates an instance of the repository `repo` labelled `display_name`.
pub fn create_command(repo: &str, display_name: &str) -> (r: CommandSpec)
    ensures
        r.words() == seq![
            "codespace"@,
            "create"@,
            "-r"@,
            repo@,
            "-m"@,
            "standardLinux32gb"@,
            "--display-name"@,
            display_name@,
            "--idle-timeout"@,
            "240m"@,
        ],
        r.timeout_secs == 120,
{
    let r = command_of(
        &[
            "codespace",
            "create",
            "-r",
            repo,
            "-m",
            "standardLinux32gb",
            "--display-name",
            display_name,
            "--idle-timeout",
            "240m",
        ],
        120,
    );
    assert(r.words() =~= seq![
        "codespace"@,
        "create"@,
        "-r"@,
        repo@,
        "-m"@,
        "standardLinux32gb"@,
        "--display-name"@,
        display_name@,
        "--idle-timeout"@,
        "240m"@,
    ]);
    r
}

/// Start of the last `/`-separated segment among the first `i` characters.
pub open spec fn segment_start(s: Seq<char>, i: int) -> int
    decreases i,
{
    if i <= 0 {
        0
    } else if s[i - 1] == '/' {
        i
    } else {
        segment_start(s, i - 1)
    }
}

/// The part of `s` after its last `/` (all of `s` when it has none).
pub open spec fn last_segment(s: Seq<char>) -> Seq<char> {
    s.subrange(segment_start(s, s.len() as int), s.len() as int)
}

proof fn lemma_segment_start_bounds(s: Seq<char>, i: int)
    requires
        0 <= i <= s.len(),
    ensures
        0 <= segment_start(s, i) <= i,
    decreases i,
{
    if i > 0 && s[i - 1] != '/' {
        lemma_segment_start_bounds(s, i - 1);
    }
}

/// Where the startup script lies inside an instance of the repository `repo`.
pub open spec fn script_path(repo: Seq<char>) -> Seq<char> {
    "/workspaces/"@ + last_segment(repo) + "/mawari/auto-start.sh"@
}

/// The path of the startup script in instances of the repository `repo`.
pub fn startup_script_path(repo: &str) -> (r: String)
    ensures
        r@ == script_path(repo@),
{
    let n: usize = repo.unicode_len();
    let mut i: usize = n;
    while i > 0 && repo.get_char(i - 1) != '/'
        invariant
            n == repo@.len(),
            i <= n,
            segment_start(repo@, n as int) == segment_start(repo@, i as int),
        decreases i,
    {
        i = i - 1;
    }
    proof {
        lemma_segment_start_bounds(repo@, i as int);
    }
    let base = repo.substring_char(i, n);
    String::from_str("/workspaces/").concat(base).concat("/mawari/auto-start.sh")
}


/// What a state machine of the orchestrator asks of its driver next.
#[derive(Debug, Clone)]
pub enum Step<T> {
    /// Wait `wait_secs` seconds, run `command`, and hand its classified result back.
    Run { wait_secs: u64, command: CommandSpec },
    /// The machine has finished with this result.
    Complete(T),
}

/// A planned command seen through views: the wait before it, its words and
/// its time limit.
pub struct Planned {
    pub wait_secs: u64,
    pub words: Seq<Seq<char>>,
    pub timeout_secs: u64,
}

impl<T> Step<T> {
    /// The command this step plans, if it plans one.
    pub open spec fn planned(&self) -> Option<Planned> {
        match self {
            Step::Run { wait_secs, command } => Some(
                Planned { wait_secs: *wait_secs, words: command.words(), timeout_secs: command.timeout_secs },
            ),
            Step::Complete(_) => None,
        }
    }
}

} // verus!
