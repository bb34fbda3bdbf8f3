use vstd::prelude::*;
use vstd::std_specs::iter::IteratorSpec;
use crate::texts;

verus! {

/// Text of a commit: message and author identity.
pub struct GitCommitOptions {
    pub message: String,
    pub author_name: String,
    pub author_email: String,
}

/// Settings for turning a workspace into a repository.
pub struct GitConfig {
    pub user_name: String,
    pub user_email: String,
    pub remote_url: String,
    pub remote_name: String,
    pub branch_name: String,
}

/// Working-tree state of a repository, computed afresh on each request.
pub struct GitStatus {
    pub branch: String,
    pub modified_count: usize,
    pub staged_count: usize,
    pub ahead: usize,
    pub behind: usize,
    pub is_clean: bool,
    pub modified_files: Vec<String>,
}

/// One run of the version-control executable: its arguments and how many
/// seconds it may take.
pub struct GitCommand {
    pub args: Vec<String>,
    pub timeout_secs: u64,
}

impl GitCommand {
    /// The arguments, as texts.
    pub open spec fn arg_texts(&self) -> Seq<Seq<char>> {
        texts(self.args@)
    }
}

/// A command from literal arguments.
fn command(args: Vec<String>, timeout_secs: u64) -> (r: GitCommand)
    ensures
        r.args@ == args@,
        r.timeout_secs == timeout_secs,
{
    GitCommand { args, timeout_secs }
}

/// Seconds allowed to quick local queries and settings.
pub const QUICK_SECS: u64 = 5;

/// Seconds allowed to staging and committing.
pub const LOCAL_SECS: u64 = 10;

/// Seconds allowed to exchanges with a remote.
pub const REMOTE_SECS: u64 = 30;

/// The remote to use: the one named, or `origin`.
pub open spec fn remote_or_origin(remote_name: Option<Seq<char>>) -> Seq<char> {
    match remote_name {
        Some(r) => r,
        None => "origin"@,
    }
}

/// The remote to use: `remote_name`, or `origin` when none is given.
pub fn remote_or_default(remote_name: Option<String>) -> (r: String)
    ensures
        r@ == remote_or_origin(crate::text_of(remote_name)),
{
    match remote_name {
        Some(r) => r,
        None => String::from_str("origin"),
    }
}

/// Asks for the name of the current branch.
pub fn current_branch_command() -> (r: GitCommand)
    ensures
        r.arg_texts() == seq!["branch"@, "--show-current"@],
        r.timeout_secs == QUICK_SECS,
{
    let r = command(vec![String::from_str("branch"), String::from_str("--show-current")], QUICK_SECS);
    assert(r.arg_texts() =~= seq!["branch"@, "--show-current"@]);
    r
}

/// Asks for the working-tree status in porcelain form.
pub fn status_command() -> (r: GitCommand)
    ensures
        r.arg_texts() == seq!["status"@, "--porcelain"@],
        r.timeout_secs == QUICK_SECS,
{
    let r = command(vec![String::from_str("status"), String::from_str("--porcelain")], QUICK_SECS);
    assert(r.arg_texts() =~= seq!["status"@, "--porcelain"@]);
    r
}

/// Asks how many commits the branch is ahead of and behind its upstream.
pub fn ahead_behind_command() -> (r: GitCommand)
    ensures
        r.arg_texts() == seq!["rev-list"@, "--left-right"@, "--count"@, "HEAD...@{u}"@],
        r.timeout_secs == QUICK_SECS,
{
    let r = command(
        vec![
            String::from_str("rev-list"),
            String::from_str("--left-right"),
            String::from_str("--count"),
            String::from_str("HEAD...@{u}"),
        ],
        QUICK_SECS,
    );
    assert(r.arg_texts() =~= seq!["rev-list"@, "--left-right"@, "--count"@, "HEAD...@{u}"@]);
    r
}

/// Asks whether the workspace is inside a repository.
pub fn is_repository_command() -> (r: GitCommand)
    ensures
        r.arg_texts() == seq!["rev-parse"@, "--git-dir"@],
        r.timeout_secs == QUICK_SECS,
{
    let r = command(vec![String::from_str("rev-parse"), String::from_str("--git-dir")], QUICK_SECS);
    assert(r.arg_texts() =~= seq!["rev-parse"@, "--git-dir"@]);
    r
}

/// Asks whether the large-file extension is installed.
pub fn lfs_version_command() -> (r: GitCommand)
    ensures
        r.arg_texts() == seq!["lfs"@, "version"@],
        r.timeout_secs == QUICK_SECS,
{
    let r = command(vec![String::from_str("lfs"), String::from_str("version")], QUICK_SECS);
    assert(r.arg_texts() =~= seq!["lfs"@, "version"@]);
    r
}

/// Probes whether `branch` has an upstream: the command succeeds exactly
/// when one is configured.
pub fn upstream_probe_command(branch: &String) -> (r: GitCommand)
    ensures
        r.arg_texts() == seq!["rev-parse"@, "--abbrev-ref"@, branch@ + "@{u}"@],
        r.timeout_secs == QUICK_SECS,
{
    let r = command(
        vec![
            String::from_str("rev-parse"),
            String::from_str("--abbrev-ref"),
            branch.clone().concat("@{u}"),
        ],
        QUICK_SECS,
    );
    assert(r.arg_texts() =~= seq!["rev-parse"@, "--abbrev-ref"@, branch@ + "@{u}"@]);
    r
}

/// Arguments of a push of `branch` to `remote`; without an upstream the push
/// also sets it.
pub open spec fn push_args(remote: Seq<char>, branch: Seq<char>, has_upstream: bool) -> Seq<Seq<char>> {
    if has_upstream {
        seq!["push"@, remote, branch]
    } else {
        seq!["push"@, "-u"@, remote, branch]
    }
}

/// Pushes `branch` to `remote`, setting the upstream when there is none yet.
pub fn push_command(remote: &String, branch: &String, has_upstream: bool) -> (r: GitCommand)
    ensures
        r.arg_texts() == push_args(remote@, branch@, has_upstream),
        r.timeout_secs == REMOTE_SECS,
{
    let r = if has_upstream {
        command(vec![String::from_str("push"), remote.clone(), branch.clone()], REMOTE_SECS)
    } else {
        command(
            vec![String::from_str("push"), String::from_str("-u"), remote.clone(), branch.clone()],
            REMOTE_SECS,
        )
    };
    assert(r.arg_texts() =~= push_args(remote@, branch@, has_upstream));
    r
}

/// Pulls `branch` from `remote`.
pub fn pull_command(remote: &String, branch: &String) -> (r: GitCommand)
    ensures
        r.arg_texts() == seq!["pull"@, remote@, branch@],
        r.timeout_secs == REMOTE_SECS,
{
    let r = command(vec![String::from_str("pull"), remote.clone(), branch.clone()], REMOTE_SECS);
    assert(r.arg_texts() =~= seq!["pull"@, remote@, branch@]);
    r
}

/// The commands that synchronise `branch` with `remote`, in order: pull,
/// then push; each must succeed.
pub fn sync_commands(remote: &String, branch: &String) -> (r: Vec<GitCommand>)
    ensures
        r@.map_values(|c: GitCommand| command_view(c)) == seq![
            (seq!["pull"@, remote@, branch@], REMOTE_SECS),
            (push_args(remote@, branch@, true), REMOTE_SECS),
        ],
{
    let r = vec![pull_command(remote, branch), push_command(remote, branch, true)];
    assert(r@.map_values(|c: GitCommand| command_view(c)) =~= seq![
        (seq!["pull"@, remote@, branch@], REMOTE_SECS),
        (push_args(remote@, branch@, true), REMOTE_SECS),
    ]);
    r
}

/// Whether a branch tracks its remote after a successful push with `args`:
/// it did already, or the push set the upstream.
pub open spec fn tracks_after_push(had_upstream: bool, args: Seq<Seq<char>>) -> bool {
    had_upstream || args.contains("-u"@)
}

/// The first push of a branch without an upstream sets the upstream, and the
/// next push of that branch, which then finds it set, does not set it again.
pub proof fn lemma_upstream_set_once(remote: Seq<char>, branch: Seq<char>)
    requires
        remote != "-u"@,
        branch != "-u"@,
    ensures
        push_args(remote, branch, false).contains("-u"@),
        tracks_after_push(false, push_args(remote, branch, false)),
        !push_args(remote, branch, tracks_after_push(false, push_args(remote, branch, false))).contains(
            "-u"@,
        ),
{
    reveal_strlit("push");
    reveal_strlit("-u");
    let first = push_args(remote, branch, false);
    assert(first[1] == "-u"@);
    let second = push_args(remote, branch, true);
    assert("push"@.len() == 4 && "-u"@.len() == 2);
    assert("push"@ != "-u"@);
    assert(second.contains("-u"@) ==> second[0] == "-u"@ || second[1] == "-u"@ || second[2] == "-u"@);
}

/// The characters of `s`, in order.
fn chars_of(s: &str) -> (r: Vec<char>)
    ensures
        r@ == s@,
{
    broadcast use vstd::string::group_string_axioms;

    let mut it = s.chars();
    let mut r: Vec<char> = Vec::new();
    loop
        invariant
            r@ + it.remaining() == s@,
        ensures
            r@ == s@,
        decreases s@.len() - r@.len(),
    {
        let ghost before = it.remaining();
        match it.next() {
            Some(c) => {
                r.push(c);
                assert(r@ + it.remaining() =~= s@) by {
                    assert(before == seq![c] + it.remaining());
                }
            },
            None => {
                assert(r@ =~= s@);
                break ;
            },
        }
    }
    r
}

/// Relies on std's `String::push`: the character is appended.
#[verifier::external_body]
fn push_char(s: &mut String, c: char)
    ensures
        final(s)@ == old(s)@.push(c),
{
    s.push(c)
}

/// A string of the given characters, in order.
fn string_of(chars: &[char]) -> (r: String)
    ensures
        r@ == chars@,
{
    let mut r = String::new();
    let mut i: usize = 0;
    while i < chars.len()
        invariant
            i <= chars@.len(),
            r@ == chars@.subrange(0, i as int),
        decreases chars@.len() - i,
    {
        push_char(&mut r, chars[i]);
        assert(r@ =~= chars@.subrange(0, i + 1));
        i = i + 1;
    }
    assert(r@ =~= chars@);
    r
}

/// The decimal digits, in order of value.
pub open spec fn digit_chars() -> Seq<char> {
    "0123456789"@
}

/// Decimal text of `n`, without leading zeros.
pub open spec fn decimal(n: nat) -> Seq<char>
    decreases n,
{
    if n < 10 {
        seq![digit_chars()[n as int]]
    } else {
        decimal(n / 10).push(digit_chars()[(n % 10) as int])
    }
}

fn push_decimal(n: u64, out: &mut Vec<char>)
    ensures
        final(out)@ == old(out)@ + decimal(n as nat),
    decreases n,
{
    let digits = "0123456789";
    proof {
        reveal_strlit("0123456789");
    }
    if n >= 10 {
        push_decimal(n / 10, out);
    }
    out.push(digits.get_char((n % 10) as usize));
    assert(final(out)@ =~= old(out)@ + decimal(n as nat));
}

/// Decimal text of `n`.
pub fn decimal_string(n: u64) -> (r: String)
    ensures
        r@ == decimal(n as nat),
{
    let mut out: Vec<char> = Vec::new();
    push_decimal(n, &mut out);
    assert(out@ =~= decimal(n as nat));
    string_of(out.as_slice())
}

/// Why a version-control command failed.
#[derive(Debug, PartialEq, Eq)]
pub enum GitError {
    /// The executable could not be started; the system's reason.
    SpawnFailed(String),
    /// Waiting for the process failed; the system's reason.
    WaitFailed(String),
    /// Its output could not be collected; the system's reason.
    OutputFailed(String),
    /// It exited unsuccessfully; what it wrote to standard error.
    CommandFailed(String),
    /// It ran past its time limit, in seconds, and was stopped.
    TimedOut(u64),
}

impl GitError {
    /// The text of the message for this error.
    pub open spec fn text(self) -> Seq<char> {
        match self {
            GitError::SpawnFailed(d) => "Failed to execute git: "@ + d@
                + ". Make sure Git is installed."@,
            GitError::WaitFailed(d) => "Error waiting for git: "@ + d@,
            GitError::OutputFailed(d) => "Failed to read git output: "@ + d@,
            GitError::CommandFailed(stderr) => stderr@,
            GitError::TimedOut(secs) => "Git operation timed out after "@ + decimal(secs as nat)
                + " seconds"@,
        }
    }

    /// A message fit to show to the user.
    pub fn message(&self) -> (r: String)
        ensures
            r@ == self.text(),
    {
        match self {
            GitError::SpawnFailed(d) => String::from_str("Failed to execute git: ").concat(
                d.as_str(),
            ).concat(". Make sure Git is installed."),
            GitError::WaitFailed(d) => String::from_str("Error waiting for git: ").concat(d.as_str()),
            GitError::OutputFailed(d) => String::from_str("Failed to read git output: ").concat(
                d.as_str(),
            ),
            GitError::CommandFailed(stderr) => stderr.clone(),
            GitError::TimedOut(secs) => {
                let n = decimal_string(*secs);
                String::from_str("Git operation timed out after ").concat(n.as_str()).concat(
                    " seconds",
                )
            },
        }
    }
}

/// What was observed of one run of the executable.
pub enum RunOutcome {
    /// It could not be started.
    SpawnFailed(String),
    /// Waiting for it failed.
    WaitFailed(String),
    /// It was still running at the time limit, and has been stopped.
    TimedOut,
    /// It exited; its output could not be collected.
    OutputFailed(String),
    /// It exited, successfully or not, with this output.
    Exited { success: bool, stdout: String, stderr: String },
}

/// The result of a run: its standard output when it succeeded, else the
/// error that tells why not. `timeout_secs` is the limit it ran under.
pub fn command_result(outcome: RunOutcome, timeout_secs: u64) -> (r: Result<String, GitError>)
    ensures
        match outcome {
            RunOutcome::SpawnFailed(d) => r == Err::<String, GitError>(GitError::SpawnFailed(d)),
            RunOutcome::WaitFailed(d) => r == Err::<String, GitError>(GitError::WaitFailed(d)),
            RunOutcome::TimedOut => r == Err::<String, GitError>(GitError::TimedOut(timeout_secs)),
            RunOutcome::OutputFailed(d) => r == Err::<String, GitError>(GitError::OutputFailed(d)),
            RunOutcome::Exited { success, stdout, stderr } => if success {
                r == Ok::<String, GitError>(stdout)
            } else {
                r == Err::<String, GitError>(GitError::CommandFailed(stderr))
            },
        },
{
    match outcome {
        RunOutcome::SpawnFailed(d) => Err(GitError::SpawnFailed(d)),
        RunOutcome::WaitFailed(d) => Err(GitError::WaitFailed(d)),
        RunOutcome::TimedOut => Err(GitError::TimedOut(timeout_secs)),
        RunOutcome::OutputFailed(d) => Err(GitError::OutputFailed(d)),
        RunOutcome::Exited { success, stdout, stderr } => if success {
            Ok(stdout)
        } else {
            Err(GitError::CommandFailed(stderr))
        },
    }
}

/// Segments of `s` between newlines, in order: one more than the newlines.
pub open spec fn split_newlines(s: Seq<char>) -> Seq<Seq<char>>
    decreases s.len(),
{
    if s.len() == 0 {
        seq![Seq::<char>::empty()]
    } else {
        let prev = split_newlines(s.drop_last());
        if s.last() == '\n' {
            prev.push(Seq::<char>::empty())
        } else {
            prev.update(prev.len() - 1, prev.last().push(s.last()))
        }
    }
}

proof fn lemma_split_nonempty(s: Seq<char>)
    ensures
        split_newlines(s).len() >= 1,
    decreases s.len(),
{
    if s.len() > 0 {
        lemma_split_nonempty(s.drop_last());
    }
}

/// A line without the carriage return of a `\r\n` ending.
pub open spec fn strip_cr(l: Seq<char>) -> Seq<char> {
    if l.len() > 0 && l.last() == '\r' {
        l.drop_last()
    } else {
        l
    }
}

/// The lines of a command's output: split at `\n`, a `\r` before a `\n`
/// dropped.
pub open spec fn output_lines(s: Seq<char>) -> Seq<Seq<char>> {
    let segs = split_newlines(s);
    Seq::new(
        segs.len(),
        |i: int|
            if i + 1 < segs.len() {
                strip_cr(segs[i])
            } else {
                segs[i]
            },
    )
}

/// The entries of porcelain status lines: staged-status character,
/// unstaged-status character, and the file name after the separating
/// space. Lines shorter than three characters carry no entry.
pub open spec fn status_entries(lines: Seq<Seq<char>>) -> Seq<(char, char, Seq<char>)>
    decreases lines.len(),
{
    if lines.len() == 0 {
        seq![]
    } else {
        let prev = status_entries(lines.drop_last());
        let l = lines.last();
        if l.len() >= 3 {
            prev.push((l[0], l[1], l.subrange(3, l.len() as int)))
        } else {
            prev
        }
    }
}

/// Whether an entry has staged changes.
pub open spec fn is_staged(e: (char, char, Seq<char>)) -> bool {
    e.0 != ' ' && e.0 != '?'
}

/// Whether an entry has unstaged changes, untracked files included.
pub open spec fn is_modified(e: (char, char, Seq<char>)) -> bool {
    e.1 != ' '
}

/// How many entries have staged changes.
pub open spec fn staged_total(es: Seq<(char, char, Seq<char>)>) -> nat
    decreases es.len(),
{
    if es.len() == 0 {
        0
    } else {
        staged_total(es.drop_last()) + if is_staged(es.last()) {
            1nat
        } else {
            0nat
        }
    }
}

/// How many entries have unstaged changes.
pub open spec fn modified_total(es: Seq<(char, char, Seq<char>)>) -> nat
    decreases es.len(),
{
    if es.len() == 0 {
        0
    } else {
        modified_total(es.drop_last()) + if is_modified(es.last()) {
            1nat
        } else {
            0nat
        }
    }
}

/// The file names of entries, in order.
pub open spec fn entry_files(es: Seq<(char, char, Seq<char>)>) -> Seq<Seq<char>> {
    es.map_values(|e: (char, char, Seq<char>)| e.2)
}

/// The views of a list of character vectors.
pub open spec fn char_rows(v: Seq<Vec<char>>) -> Seq<Seq<char>> {
    v.map_values(|r: Vec<char>| r@)
}

fn split_segments(chars: &Vec<char>) -> (r: Vec<Vec<char>>)
    ensures
        char_rows(r@) == split_newlines(chars@),
{
    let mut done: Vec<Vec<char>> = Vec::new();
    let mut cur: Vec<char> = Vec::new();
    let mut i: usize = 0;
    assert(chars@.subrange(0, 0) =~= Seq::<char>::empty());
    assert(char_rows(done@).push(cur@) =~= split_newlines(chars@.subrange(0, 0)));
    while i < chars.len()
        invariant
            i <= chars@.len(),
            char_rows(done@).push(cur@) == split_newlines(chars@.subrange(0, i as int)),
        decreases chars@.len() - i,
    {
        let c = chars[i];
        let ghost pre = chars@.subrange(0, i as int);
        let ghost next = chars@.subrange(0, i + 1);
        assert(next.drop_last() =~= pre);
        assert(next.last() == c);
        if c == '\n' {
            let finished = cur;
            done.push(finished);
            cur = Vec::new();
            assert(char_rows(done@).push(cur@) =~= split_newlines(pre).push(Seq::<char>::empty()));
        } else {
            let ghost before = char_rows(done@).push(cur@);
            cur.push(c);
            assert(char_rows(done@).push(cur@) =~= before.update(
                before.len() - 1,
                before.last().push(c),
            ));
        }
        i = i + 1;
    }
    assert(chars@.subrange(0, i as int) =~= chars@);
    done.push(cur);
    assert(char_rows(done@) =~= split_newlines(chars@));
    done
}

/// Counts and file names read from porcelain status output.
pub struct PorcelainSummary {
    pub staged_count: usize,
    pub modified_count: usize,
    pub files: Vec<String>,
}

/// Reads porcelain status output: one entry per line of three characters or
/// more, counted as staged and as modified by its two status characters.
pub fn parse_porcelain(output: &String) -> (r: PorcelainSummary)
    ensures
        r.staged_count == staged_total(status_entries(output_lines(output@))),
        r.modified_count == modified_total(status_entries(output_lines(output@))),
        texts(r.files@) == entry_files(status_entries(output_lines(output@))),
{
    let chars = chars_of(output.as_str());
    let segs = split_segments(&chars);
    let ghost lines = output_lines(output@);
    proof {
        lemma_split_nonempty(output@);
    }
    let mut staged: usize = 0;
    let mut modified: usize = 0;
    let mut files: Vec<String> = Vec::new();
    let mut j: usize = 0;
    assert(lines.subrange(0, 0) =~= Seq::<Seq<char>>::empty());
    while j < segs.len()
        invariant
            lines == output_lines(output@),
            char_rows(segs@) == split_newlines(output@),
            lines.len() == segs@.len(),
            j <= segs@.len(),
            staged <= files@.len(),
            modified <= files@.len(),
            files@.len() <= j,
            staged == staged_total(status_entries(lines.subrange(0, j as int))),
            modified == modified_total(status_entries(lines.subrange(0, j as int))),
            texts(files@) == entry_files(status_entries(lines.subrange(0, j as int))),
        decreases segs@.len() - j,
    {
        let seg = &segs[j];
        let mut len = seg.len();
        if j + 1 < segs.len() && len > 0 && seg[len - 1] == '\r' {
            len = len - 1;
        }
        let ghost line = lines[j as int];
        assert(seg@ == char_rows(segs@)[j as int]);
        assert(line =~= seg@.subrange(0, len as int));
        let ghost prev = status_entries(lines.subrange(0, j as int));
        assert(lines.subrange(0, j + 1).drop_last() =~= lines.subrange(0, j as int));
        assert(lines.subrange(0, j + 1).last() == line);
        if len >= 3 {
            let staged_char = seg[0];
            let unstaged_char = seg[1];
            let name = string_of(&seg.as_slice()[3..len]);
            assert(name@ =~= line.subrange(3, line.len() as int));
            let ghost e = (staged_char, unstaged_char, name@);
            assert(e == (line[0], line[1], line.subrange(3, line.len() as int)));
            assert(status_entries(lines.subrange(0, j + 1)) == prev.push(e));
            assert(prev.push(e).drop_last() =~= prev);
            if staged_char != ' ' && staged_char != '?' {
                staged = staged + 1;
            }
            if unstaged_char != ' ' {
                modified = modified + 1;
            }
            let ghost old_files = files@;
            files.push(name);
            assert(files@ == old_files.push(name));
            assert(texts(old_files).len() == old_files.len());
            assert(entry_files(prev).len() == prev.len());
            assert(old_files.len() == prev.len());
            assert forall|k: int| 0 <= k < files@.len() implies texts(files@)[k] == entry_files(
                prev.push(e),
            )[k] by {
                if k < old_files.len() {
                    assert(texts(old_files)[k] == entry_files(prev)[k]);
                }
            }
            assert(texts(files@) =~= entry_files(prev.push(e)));
        } else {
            assert(status_entries(lines.subrange(0, j + 1)) == prev);
        }
        j = j + 1;
    }
    assert(lines.subrange(0, j as int) =~= lines);
    PorcelainSummary { staged_count: staged, modified_count: modified, files }
}

/// Whether `c` has the Unicode White_Space property.
pub open spec fn is_white_space(c: char) -> bool {
    ('\t' <= c && c <= '\r') || c == ' ' || c == '\u{85}' || c == '\u{a0}' || c == '\u{1680}' || (
    '\u{2000}' <= c && c <= '\u{200a}') || c == '\u{2028}' || c == '\u{2029}' || c == '\u{202f}'
        || c == '\u{205f}' || c == '\u{3000}'
}

/// Whether `c` has the Unicode White_Space property.
pub fn white_space(c: char) -> (r: bool)
    ensures
        r == is_white_space(c),
{
    ('\t' <= c && c <= '\r') || c == ' ' || c == '\u{85}' || c == '\u{a0}' || c == '\u{1680}' || (
    '\u{2000}' <= c && c <= '\u{200a}') || c == '\u{2028}' || c == '\u{2029}' || c == '\u{202f}'
        || c == '\u{205f}' || c == '\u{3000}'
}

/// A text without its leading white space.
pub open spec fn trim_start(s: Seq<char>) -> Seq<char>
    decreases s.len(),
{
    if s.len() > 0 && is_white_space(s[0]) {
        trim_start(s.drop_first())
    } else {
        s
    }
}

/// A text without its trailing white space.
pub open spec fn trim_end(s: Seq<char>) -> Seq<char>
    decreases s.len(),
{
    if s.len() > 0 && is_white_space(s.last()) {
        trim_end(s.drop_last())
    } else {
        s
    }
}

/// A text without its leading and trailing white space.
pub open spec fn trim_of(s: Seq<char>) -> Seq<char> {
    trim_end(trim_start(s))
}

/// The white-space separated words of a text, in order.
pub open spec fn fields_of(s: Seq<char>) -> Seq<Seq<char>>
    decreases s.len(),
{
    if s.len() == 0 {
        seq![]
    } else {
        let prev = fields_of(s.drop_last());
        let c = s.last();
        if is_white_space(c) {
            prev
        } else if s.len() >= 2 && !is_white_space(s[s.len() - 2]) {
            prev.update(prev.len() - 1, prev.last().push(c))
        } else {
            prev.push(seq![c])
        }
    }
}

proof fn lemma_fields_in_word(s: Seq<char>)
    requires
        s.len() > 0,
        !is_white_space(s.last()),
    ensures
        fields_of(s).len() >= 1,
    decreases s.len(),
{
    if s.len() >= 2 && !is_white_space(s[s.len() - 2]) {
        lemma_fields_in_word(s.drop_last());
    }
}

/// `s` without leading and trailing white space.
fn trimmed(s: &str) -> (r: String)
    ensures
        r@ == trim_of(s@),
{
    let chars = chars_of(s);
    let n = chars.len();
    let mut a: usize = 0;
    assert(chars@.subrange(0, n as int) =~= chars@);
    while a < n && white_space(chars[a])
        invariant
            n == chars@.len(),
            chars@ == s@,
            a <= n,
            trim_start(s@) == trim_start(chars@.subrange(a as int, n as int)),
        decreases n - a,
    {
        assert(chars@.subrange(a as int, n as int).drop_first() =~= chars@.subrange(a + 1, n as int));
        a = a + 1;
    }
    assert(trim_start(s@) == chars@.subrange(a as int, n as int));
    let mut b: usize = n;
    while b > a && white_space(chars[b - 1])
        invariant
            n == chars@.len(),
            a <= b <= n,
            trim_of(s@) == trim_end(chars@.subrange(a as int, b as int)),
        decreases b - a,
    {
        assert(chars@.subrange(a as int, b as int).drop_last() =~= chars@.subrange(a as int, b - 1));
        b = b - 1;
    }
    assert(trim_end(chars@.subrange(a as int, b as int)) == chars@.subrange(a as int, b as int));
    string_of(&chars.as_slice()[a..b])
}

/// The white-space separated words of `s`, in order.
fn whitespace_fields(s: &str) -> (r: Vec<String>)
    ensures
        texts(r@) == fields_of(s@),
{
    let chars = chars_of(s);
    let n = chars.len();
    let mut done: Vec<Vec<char>> = Vec::new();
    let mut cur: Vec<char> = Vec::new();
    let mut in_word = false;
    let mut i: usize = 0;
    assert(chars@.subrange(0, 0) =~= Seq::<char>::empty());
    while i < n
        invariant
            n == chars@.len(),
            chars@ == s@,
            i <= n,
            in_word == (i > 0 && !is_white_space(chars@[i - 1])),
            in_word ==> char_rows(done@).push(cur@) == fields_of(chars@.subrange(0, i as int)),
            !in_word ==> char_rows(done@) == fields_of(chars@.subrange(0, i as int)) && cur@.len()
                == 0,
        decreases n - i,
    {
        let c = chars[i];
        let ghost pre = chars@.subrange(0, i as int);
        let ghost next = chars@.subrange(0, i + 1);
        assert(next.drop_last() =~= pre);
        assert(next.last() == c);
        assert(i > 0 ==> next[next.len() - 2] == chars@[i - 1]);
        if white_space(c) {
            if in_word {
                let word = cur;
                done.push(word);
                cur = Vec::new();
                assert(char_rows(done@) =~= fields_of(pre));
            }
            in_word = false;
        } else {
            let ghost before = char_rows(done@).push(cur@);
            cur.push(c);
            if in_word {
                assert(char_rows(done@).push(cur@) =~= before.update(
                    before.len() - 1,
                    before.last().push(c),
                ));
            } else {
                assert(cur@ =~= seq![c]);
            }
            in_word = true;
        }
        i = i + 1;
    }
    assert(chars@.subrange(0, n as int) =~= chars@);
    if in_word {
        done.push(cur);
    }
    let mut out: Vec<String> = Vec::new();
    let mut k: usize = 0;
    while k < done.len()
        invariant
            k <= done@.len(),
            texts(out@) == char_rows(done@).subrange(0, k as int),
        decreases done@.len() - k,
    {
        let word = string_of(done[k].as_slice());
        let ghost before = out@;
        out.push(word);
        assert(char_rows(done@)[k as int] == done@[k as int]@);
        assert(texts(before).len() == before.len());
        assert forall|j: int| 0 <= j < out@.len() implies texts(out@)[j] == char_rows(
            done@,
        ).subrange(0, k + 1)[j] by {
            if j < k {
                assert(texts(before)[j] == char_rows(done@).subrange(0, k as int)[j]);
            }
        }
        assert(texts(out@) =~= char_rows(done@).subrange(0, k + 1));
        k = k + 1;
    }
    assert(char_rows(done@).subrange(0, k as int) =~= char_rows(done@));
    out
}

/// A command's output without surrounding white space: a branch name or a
/// revision identifier.
pub fn trim_output(output: &String) -> (r: String)
    ensures
        r@ == trim_of(output@),
{
    trimmed(output.as_str())
}

/// Whether `c` is a decimal digit.
pub open spec fn is_digit(c: char) -> bool {
    '0' <= c <= '9'
}

/// Value of a run of decimal digits.
pub open spec fn digits_value(d: Seq<char>) -> nat
    decreases d.len(),
{
    if d.len() == 0 {
        0
    } else {
        digits_value(d.drop_last()) * 10 + ((d.last() as u32) - ('0' as u32)) as nat
    }
}

/// A text without its leading `+`, if any.
pub open spec fn unsigned_part(s: Seq<char>) -> Seq<char> {
    if s.len() > 0 && s[0] == '+' {
        s.drop_first()
    } else {
        s
    }
}

/// Whether every character of `d` is a decimal digit.
pub open spec fn all_digits(d: Seq<char>) -> bool {
    forall|i: int| 0 <= i < d.len() ==> is_digit(#[trigger] d[i])
}

/// The count that a text spells: an optional `+` and at least one decimal
/// digit, of a value that fits a `usize`.
pub open spec fn count_value(s: Seq<char>) -> Option<nat> {
    let d = unsigned_part(s);
    if d.len() > 0 && all_digits(d) && digits_value(d) <= usize::MAX {
        Some(digits_value(d))
    } else {
        None
    }
}

/// Reads a count written in decimal.
pub fn parse_count(s: &String) -> (r: Option<usize>)
    ensures
        match r {
            Some(n) => count_value(s@) == Some(n as nat),
            None => count_value(s@) is None,
        },
{
    let chars = chars_of(s.as_str());
    let len = chars.len();
    let start: usize = if len > 0 && chars[0] == '+' {
        1
    } else {
        0
    };
    let ghost d = chars@.subrange(start as int, len as int);
    assert(d =~= unsigned_part(s@));
    if start == len {
        return None;
    }
    let mut value: usize = 0;
    let mut overflow = false;
    let mut k: usize = start;
    assert(chars@.subrange(start as int, start as int) =~= Seq::<char>::empty());
    while k < len
        invariant
            len == chars@.len(),
            start <= k <= len,
            d == chars@.subrange(start as int, len as int),
            chars@ == s@,
            d == unsigned_part(s@),
            forall|i: int| start <= i < k ==> is_digit(#[trigger] chars@[i]),
            !overflow ==> value as nat == digits_value(chars@.subrange(start as int, k as int)),
            overflow ==> digits_value(chars@.subrange(start as int, k as int)) > usize::MAX,
        decreases len - k,
    {
        let c = chars[k];
        let ghost p = chars@.subrange(start as int, k as int);
        let ghost q = chars@.subrange(start as int, k + 1);
        assert(q.drop_last() =~= p);
        if !('0' <= c && c <= '9') {
            assert(!is_digit(d[k - start]));
            return None;
        }
        let digit = (c as u32) - ('0' as u32);
        if !overflow {
            let next: u128 = value as u128 * 10 + digit as u128;
            if next > usize::MAX as u128 {
                overflow = true;
            } else {
                value = next as usize;
            }
        }
        k = k + 1;
    }
    assert(chars@.subrange(start as int, k as int) =~= d);
    assert forall|i: int| 0 <= i < d.len() implies is_digit(#[trigger] d[i]) by {
        assert(d[i] == chars@[start + i]);
    }
    if overflow {
        None
    } else {
        Some(value)
    }
}

/// A count, or zero where the text spells none.
pub open spec fn count_or_zero(s: Seq<char>) -> nat {
    match count_value(s) {
        Some(n) => n,
        None => 0,
    }
}

/// Commits ahead of and behind the upstream, from the words of the
/// left-right count: zeros where there are fewer than two words.
pub open spec fn ahead_behind(fields: Seq<Seq<char>>) -> (nat, nat) {
    if fields.len() >= 2 {
        (count_or_zero(fields[0]), count_or_zero(fields[1]))
    } else {
        (0, 0)
    }
}

fn count_or_zero_exec(s: &String) -> (r: usize)
    ensures
        r as nat == count_or_zero(s@),
{
    match parse_count(s) {
        Some(n) => n,
        None => 0,
    }
}

/// Commits ahead of and behind the upstream, from the words of the
/// left-right count output.
pub fn ahead_behind_from_fields(fields: &Vec<String>) -> (r: (usize, usize))
    ensures
        (r.0 as nat, r.1 as nat) == ahead_behind(texts(fields@)),
{
    if fields.len() >= 2 {
        assert(texts(fields@)[0] == fields@[0]@);
        assert(texts(fields@)[1] == fields@[1]@);
        (count_or_zero_exec(&fields[0]), count_or_zero_exec(&fields[1]))
    } else {
        (0, 0)
    }
}

/// Commits ahead of and behind the upstream, from the output of the
/// left-right count, or zeros where it failed (no upstream).
pub fn ahead_behind_from_output(output: &Option<String>) -> (r: (usize, usize))
    ensures
        match output {
            Some(o) => (r.0 as nat, r.1 as nat) == ahead_behind(fields_of(trim_of(o@))),
            None => r == (0usize, 0usize),
        },
{
    match output {
        Some(o) => {
            let t = trimmed(o.as_str());
            let fields = whitespace_fields(t.as_str());
            ahead_behind_from_fields(&fields)
        },
        None => (0, 0),
    }
}

/// The status of a repository on branch `branch`, with the given porcelain
/// status output and upstream distance.
pub fn status_from_parts(branch: String, porcelain_output: &String, ahead: usize, behind: usize) -> (r:
    GitStatus)
    ensures
        r.branch == branch,
        r.staged_count == staged_total(status_entries(output_lines(porcelain_output@))),
        r.modified_count == modified_total(status_entries(output_lines(porcelain_output@))),
        texts(r.modified_files@) == entry_files(status_entries(output_lines(porcelain_output@))),
        r.ahead == ahead,
        r.behind == behind,
        r.is_clean == (r.staged_count == 0 && r.modified_count == 0),
{
    let summary = parse_porcelain(porcelain_output);
    let is_clean = summary.modified_count == 0 && summary.staged_count == 0;
    GitStatus {
        branch,
        modified_count: summary.modified_count,
        staged_count: summary.staged_count,
        ahead,
        behind,
        is_clean,
        modified_files: summary.files,
    }
}

/// Whether `st` is the status read from the outputs of the current-branch
/// query, the porcelain status, and the left-right count (`None` where it
/// failed, for want of an upstream).
pub open spec fn is_status_of(
    st: GitStatus,
    branch_output: Seq<char>,
    porcelain_output: Seq<char>,
    counts_output: Option<Seq<char>>,
) -> bool {
    let es = status_entries(output_lines(porcelain_output));
    &&& st.branch@ == trim_of(branch_output)
    &&& st.staged_count == staged_total(es)
    &&& st.modified_count == modified_total(es)
    &&& texts(st.modified_files@) == entry_files(es)
    &&& st.is_clean == (st.staged_count == 0 && st.modified_count == 0)
    &&& match counts_output {
        Some(o) => (st.ahead as nat, st.behind as nat) == ahead_behind(fields_of(trim_of(o))),
        None => st.ahead == 0 && st.behind == 0,
    }
}

/// The status of a repository from the outputs of the current-branch query,
/// the porcelain status, and the left-right count (`None` where it failed).
pub fn status_from_outputs(
    branch_output: &String,
    porcelain_output: &String,
    ahead_behind_output: &Option<String>,
) -> (r: GitStatus)
    ensures
        is_status_of(r, branch_output@, porcelain_output@, crate::text_of(*ahead_behind_output)),
{
    let branch = trim_output(branch_output);
    let (ahead, behind) = ahead_behind_from_output(ahead_behind_output);
    status_from_parts(branch, porcelain_output, ahead, behind)
}

/// Where a status request stands between two runs of the executable.
pub enum StatusFlow {
    /// Waiting for the name of the current branch.
    AwaitBranch,
    /// Waiting for the porcelain status.
    AwaitPorcelain { branch_output: String },
    /// Waiting for the left-right count against the upstream.
    AwaitCounts { branch_output: String, porcelain_output: String },
}

/// What a status request asks for next.
pub enum StatusAction {
    /// Run the command, then hand its result to the flow.
    Run(StatusFlow, GitCommand),
    /// The request is over, with this result.
    Finish(Result<GitStatus, GitError>),
}

/// Starts a status request: first the current branch is asked for.
pub fn status_start() -> (r: (StatusFlow, GitCommand))
    ensures
        r.0 == StatusFlow::AwaitBranch,
        command_view(r.1) == (seq!["branch"@, "--show-current"@], QUICK_SECS),
{
    (StatusFlow::AwaitBranch, current_branch_command())
}

/// Advances a status request with the result of the command it asked for
/// last. The branch query and the porcelain status must succeed; a failed
/// left-right count means no upstream, and zero distances.
pub fn status_step(flow: StatusFlow, outcome: Result<String, GitError>) -> (r: StatusAction)
    ensures
        match flow {
            StatusFlow::AwaitBranch => match outcome {
                Ok(out) => r matches StatusAction::Run(StatusFlow::AwaitPorcelain { branch_output }, cmd)
                    && branch_output == out && command_view(cmd) == (
                    seq!["status"@, "--porcelain"@],
                    QUICK_SECS,
                ),
                Err(e) => r == StatusAction::Finish(Err(e)),
            },
            StatusFlow::AwaitPorcelain { branch_output } => match outcome {
                Ok(out) => r matches StatusAction::Run(
                    StatusFlow::AwaitCounts { branch_output: b, porcelain_output },
                    cmd,
                ) && b == branch_output && porcelain_output == out && command_view(cmd) == (
                    seq!["rev-list"@, "--left-right"@, "--count"@, "HEAD...@{u}"@],
                    QUICK_SECS,
                ),
                Err(e) => r == StatusAction::Finish(Err(e)),
            },
            StatusFlow::AwaitCounts { branch_output, porcelain_output } => r matches StatusAction::Finish(
                Ok(st),
            ) && is_status_of(
                st,
                branch_output@,
                porcelain_output@,
                match outcome {
                    Ok(o) => Some(o@),
                    Err(_) => None,
                },
            ),
        },
{
    match flow {
        StatusFlow::AwaitBranch => match outcome {
            Ok(out) => StatusAction::Run(
                StatusFlow::AwaitPorcelain { branch_output: out },
                status_command(),
            ),
            Err(e) => StatusAction::Finish(Err(e)),
        },
        StatusFlow::AwaitPorcelain { branch_output } => match outcome {
            Ok(out) => StatusAction::Run(
                StatusFlow::AwaitCounts { branch_output, porcelain_output: out },
                ahead_behind_command(),
            ),
            Err(e) => StatusAction::Finish(Err(e)),
        },
        StatusFlow::AwaitCounts { branch_output, porcelain_output } => {
            let counts = match outcome {
                Ok(o) => Some(o),
                Err(_) => None,
            };
            StatusAction::Finish(Ok(status_from_outputs(&branch_output, &porcelain_output, &counts)))
        },
    }
}

/// What a command is, seen as arguments and time limit.
pub open spec fn command_view(c: GitCommand) -> (Seq<Seq<char>>, u64) {
    (c.arg_texts(), c.timeout_secs)
}

/// The runs that make a commit, in order: set the author identity, stage
/// everything, commit, and read the new revision.
pub open spec fn commit_runs(message: Seq<char>, name: Seq<char>, email: Seq<char>) -> Seq<
    (Seq<Seq<char>>, u64),
> {
    seq![
        (seq!["config"@, "user.name"@, name], QUICK_SECS),
        (seq!["config"@, "user.email"@, email], QUICK_SECS),
        (seq!["add"@, "-A"@], LOCAL_SECS),
        (seq!["commit"@, "-m"@, message], LOCAL_SECS),
        (seq!["rev-parse"@, "HEAD"@], QUICK_SECS),
    ]
}

/// The commands that make a commit with `options`, in order; each must
/// succeed, and the last one prints the new revision.
pub fn commit_commands(options: &GitCommitOptions) -> (r: Vec<GitCommand>)
    ensures
        r@.map_values(|c: GitCommand| command_view(c)) == commit_runs(
            options.message@,
            options.author_name@,
            options.author_email@,
        ),
{
    let r = vec![
        command(
            vec![String::from_str("config"), String::from_str("user.name"), options.author_name.clone()],
            QUICK_SECS,
        ),
        command(
            vec![
                String::from_str("config"),
                String::from_str("user.email"),
                options.author_email.clone(),
            ],
            QUICK_SECS,
        ),
        command(vec![String::from_str("add"), String::from_str("-A")], LOCAL_SECS),
        command(
            vec![String::from_str("commit"), String::from_str("-m"), options.message.clone()],
            LOCAL_SECS,
        ),
        command(vec![String::from_str("rev-parse"), String::from_str("HEAD")], QUICK_SECS),
    ];
    let ghost want = commit_runs(options.message@, options.author_name@, options.author_email@);
    assert forall|i: int| 0 <= i < r@.len() implies command_view(r@[i]) == want[i] by {
        assert(r@[i].arg_texts() =~= want[i].0);
    }
    assert(r@.map_values(|c: GitCommand| command_view(c)) =~= commit_runs(
        options.message@,
        options.author_name@,
        options.author_email@,
    ));
    r
}

/// A step of a plan: a command, and whether the plan may go on without it.
pub struct PlanStep {
    pub command: GitCommand,
    pub optional: bool,
}

/// What a step is, seen as arguments, time limit and optionality.
pub open spec fn step_view(s: PlanStep) -> (Seq<Seq<char>>, u64, bool) {
    (s.command.arg_texts(), s.command.timeout_secs, s.optional)
}

/// Directory whose files the large-file extension tracks.
pub open spec fn tracked_assets() -> Seq<char> {
    "workspace/.images/**"@
}

/// The steps that turn a workspace into a repository: create it, set the
/// identity, set up large-file tracking where the extension is available,
/// make the first commit, name the branch, and, where a remote address is
/// given, add the remote and push to it.
pub open spec fn initialize_steps(
    user_name: Seq<char>,
    user_email: Seq<char>,
    remote_url: Seq<char>,
    remote_name: Seq<char>,
    branch_name: Seq<char>,
) -> Seq<(Seq<Seq<char>>, u64, bool)> {
    let local = seq![
        (seq!["init"@], QUICK_SECS, false),
        (seq!["config"@, "user.name"@, user_name], QUICK_SECS, false),
        (seq!["config"@, "user.email"@, user_email], QUICK_SECS, false),
        (seq!["lfs"@, "install"@], QUICK_SECS, true),
        (seq!["lfs"@, "track"@, tracked_assets()], QUICK_SECS, true),
        (seq!["add"@, ".gitattributes"@], QUICK_SECS, true),
        (seq!["add"@, "-A"@], LOCAL_SECS, false),
        (seq!["commit"@, "-m"@, "Initial commit"@], LOCAL_SECS, false),
        (seq!["branch"@, "-M"@, branch_name], QUICK_SECS, false),
    ];
    if remote_url.len() == 0 {
        local
    } else {
        local + seq![
            (seq!["remote"@, "add"@, remote_name, remote_url], QUICK_SECS, false),
            (seq!["push"@, "-u"@, remote_name, branch_name], REMOTE_SECS, false),
        ]
    }
}

fn step(args: Vec<String>, timeout_secs: u64, optional: bool) -> (r: PlanStep)
    ensures
        r.command.args@ == args@,
        r.command.timeout_secs == timeout_secs,
        r.optional == optional,
{
    PlanStep { command: command(args, timeout_secs), optional }
}

/// The plan that turns a workspace into a repository with `config`.
pub fn initialize_plan(config: &GitConfig) -> (r: Vec<PlanStep>)
    ensures
        r@.map_values(|s: PlanStep| step_view(s)) == initialize_steps(
            config.user_name@,
            config.user_email@,
            config.remote_url@,
            config.remote_name@,
            config.branch_name@,
        ),
{
    let ghost want = initialize_steps(
        config.user_name@,
        config.user_email@,
        config.remote_url@,
        config.remote_name@,
        config.branch_name@,
    );
    let mut r: Vec<PlanStep> = Vec::new();
    r.push(step(vec![String::from_str("init")], QUICK_SECS, false));
    r.push(
        step(
            vec![String::from_str("config"), String::from_str("user.name"), config.user_name.clone()],
            QUICK_SECS,
            false,
        ),
    );
    r.push(
        step(
            vec![String::from_str("config"), String::from_str("user.email"), config.user_email.clone()],
            QUICK_SECS,
            false,
        ),
    );
    r.push(step(vec![String::from_str("lfs"), String::from_str("install")], QUICK_SECS, true));
    r.push(
        step(
            vec![
                String::from_str("lfs"),
                String::from_str("track"),
                String::from_str("workspace/.images/**"),
            ],
            QUICK_SECS,
            true,
        ),
    );
    r.push(step(vec![String::from_str("add"), String::from_str(".gitattributes")], QUICK_SECS, true));
    r.push(step(vec![String::from_str("add"), String::from_str("-A")], LOCAL_SECS, false));
    r.push(
        step(
            vec![String::from_str("commit"), String::from_str("-m"), String::from_str("Initial commit")],
            LOCAL_SECS,
            false,
        ),
    );
    r.push(
        step(
            vec![String::from_str("branch"), String::from_str("-M"), config.branch_name.clone()],
            QUICK_SECS,
            false,
        ),
    );
    let has_remote = config.remote_url.as_str().unicode_len() > 0;
    if has_remote {
        r.push(
            step(
                vec![
                    String::from_str("remote"),
                    String::from_str("add"),
                    config.remote_name.clone(),
                    config.remote_url.clone(),
                ],
                QUICK_SECS,
                false,
            ),
        );
        r.push(
            step(
                vec![
                    String::from_str("push"),
                    String::from_str("-u"),
                    config.remote_name.clone(),
                    config.branch_name.clone(),
                ],
                REMOTE_SECS,
                false,
            ),
        );
    }
    assert forall|i: int| 0 <= i < r@.len() implies step_view(r@[i]) == want[i] by {
        assert(step_view(r@[i]).0 =~= want[i].0);
    }
    assert(r@.map_values(|s: PlanStep| step_view(s)) =~= want);
    r
}

/// The first position from `from` on that is not an optional step, or the
/// end of the plan.
pub open spec fn skip_optional(optional: Seq<bool>, from: int) -> int
    decreases optional.len() - from,
{
    if from < 0 || from >= optional.len() || !optional[from] {
        from
    } else {
        skip_optional(optional, from + 1)
    }
}

/// What to do after a step of a plan has run.
pub enum PlanProgress {
    /// Run the step at this position next; the end of the plan means done.
    Continue(usize),
    /// Give the plan up with this error.
    Stop(GitError),
}

/// The optionality flags of a plan's steps.
pub open spec fn optional_flags(plan: Seq<PlanStep>) -> Seq<bool> {
    plan.map_values(|s: PlanStep| s.optional)
}

/// Where a plan goes after step `index` ran with `outcome`: on to the next
/// step when it succeeded; when it failed, to the next required step if it
/// was optional (the optional steps right after it depend on it and are
/// left out), else nowhere: the plan stops with its error.
pub fn next_step(plan: &Vec<PlanStep>, index: usize, outcome: Result<String, GitError>) -> (r:
    PlanProgress)
    requires
        index < plan@.len(),
    ensures
        match outcome {
            Ok(_) => r == PlanProgress::Continue((index + 1) as usize),
            Err(e) => if plan@[index as int].optional {
                r == PlanProgress::Continue(
                    skip_optional(optional_flags(plan@), index + 1) as usize,
                )
            } else {
                r == PlanProgress::Stop(e)
            },
        },
        r matches PlanProgress::Continue(j) ==> index < j <= plan@.len(),
{
    let n: usize = plan.len();
    assert(index + 1 <= n);
    match outcome {
        Ok(_) => PlanProgress::Continue(index + 1),
        Err(e) => {
            if plan[index].optional {
                let mut j: usize = index + 1;
                while j < plan.len() && plan[j].optional
                    invariant
                        index < j <= plan@.len(),
                        skip_optional(optional_flags(plan@), index + 1) == skip_optional(
                            optional_flags(plan@),
                            j as int,
                        ),
                    decreases plan@.len() - j,
                {
                    j = j + 1;
                }
                PlanProgress::Continue(j)
            } else {
                PlanProgress::Stop(e)
            }
        },
    }
}

/// Where a push stands between two runs of the executable.
pub enum PushFlow {
    /// Waiting for the name of the current branch.
    AwaitBranch { remote: String },
    /// Waiting for the upstream probe of `branch`.
    AwaitProbe { remote: String, branch: String },
    /// Waiting for the push itself.
    AwaitPush,
}

/// What a push asks for next.
pub enum PushAction {
    /// Run the command, then hand its result to the flow.
    Run(PushFlow, GitCommand),
    /// The push is over, with this result.
    Finish(Result<(), GitError>),
}

/// Starts a push to `remote_name`, or `origin`: first the current branch is
/// asked for.
pub fn push_start(remote_name: Option<String>) -> (r: (PushFlow, GitCommand))
    ensures
        r.0 matches PushFlow::AwaitBranch { remote } && remote@ == remote_or_origin(
            crate::text_of(remote_name),
        ),
        command_view(r.1) == (seq!["branch"@, "--show-current"@], QUICK_SECS),
{
    let remote = remote_or_default(remote_name);
    (PushFlow::AwaitBranch { remote }, current_branch_command())
}

/// Advances a push with the result of the command it asked for last. The
/// branch name is the trimmed output of the branch query; the upstream
/// probe's success decides whether the push sets the upstream; a failure of
/// the branch query or of the push ends the push with that error.
pub fn push_step(flow: PushFlow, outcome: Result<String, GitError>) -> (r: PushAction)
    ensures
        match flow {
            PushFlow::AwaitBranch { remote } => match outcome {
                Ok(out) => r matches PushAction::Run(PushFlow::AwaitProbe { remote: rem, branch }, cmd)
                    && rem == remote && branch@ == trim_of(out@) && command_view(cmd) == (
                    seq!["rev-parse"@, "--abbrev-ref"@, branch@ + "@{u}"@],
                    QUICK_SECS,
                ),
                Err(e) => r == PushAction::Finish(Err(e)),
            },
            PushFlow::AwaitProbe { remote, branch } => r matches PushAction::Run(PushFlow::AwaitPush, cmd)
                && command_view(cmd) == (push_args(remote@, branch@, outcome is Ok), REMOTE_SECS),
            PushFlow::AwaitPush => match outcome {
                Ok(_) => r == PushAction::Finish(Ok(())),
                Err(e) => r == PushAction::Finish(Err(e)),
            },
        },
{
    match flow {
        PushFlow::AwaitBranch { remote } => match outcome {
            Ok(out) => {
                let branch = trim_output(&out);
                let cmd = upstream_probe_command(&branch);
                PushAction::Run(PushFlow::AwaitProbe { remote, branch }, cmd)
            },
            Err(e) => PushAction::Finish(Err(e)),
        },
        PushFlow::AwaitProbe { remote, branch } => {
            let has_upstream = outcome.is_ok();
            let cmd = push_command(&remote, &branch, has_upstream);
            PushAction::Run(PushFlow::AwaitPush, cmd)
        },
        PushFlow::AwaitPush => match outcome {
            Ok(_) => PushAction::Finish(Ok(())),
            Err(e) => PushAction::Finish(Err(e)),
        },
    }
}

/// What a list of commands is, each seen as arguments and time limit.
pub open spec fn command_views(s: Seq<GitCommand>) -> Seq<(Seq<Seq<char>>, u64)> {
    s.map_values(|c: GitCommand| command_view(c))
}

/// The runs that follow the branch query of a pull (`sync` false) or of a
/// synchronisation (`sync` true) of `branch` with `remote`.
pub open spec fn branch_runs(remote: Seq<char>, branch: Seq<char>, sync: bool) -> Seq<
    (Seq<Seq<char>>, u64),
> {
    if sync {
        seq![
            (seq!["pull"@, remote, branch], REMOTE_SECS),
            (push_args(remote, branch, true), REMOTE_SECS),
        ]
    } else {
        seq![(seq!["pull"@, remote, branch], REMOTE_SECS)]
    }
}

/// Where a run of required commands stands between two runs of the
/// executable.
pub enum SequenceFlow {
    /// Waiting for the name of the current branch, to pull (and, for a
    /// synchronisation, then push) it.
    AwaitBranch { remote: String, sync: bool },
    /// Waiting for a command; `remaining` are the ones still to run after it.
    Running { remaining: Vec<GitCommand> },
}

/// What a run of required commands asks for next.
pub enum SequenceAction {
    /// Run the command, then hand its result to the flow.
    Run(SequenceFlow, GitCommand),
    /// All is over: the trimmed output of the last command, or the first
    /// failure.
    Finish(Result<String, GitError>),
}

/// Takes the first of a non-empty list of commands off the list.
fn first_and_rest(commands: Vec<GitCommand>) -> (r: (GitCommand, Vec<GitCommand>))
    requires
        commands@.len() > 0,
    ensures
        command_views(seq![r.0] + r.1@) == command_views(commands@),
{
    let mut rest = commands;
    let first = rest.remove(0);
    proof {
        let whole = seq![first] + rest@;
        assert(whole =~= commands@);
    }
    (first, rest)
}

/// Starts a commit with `options`: set the identity, stage everything,
/// commit, and read the new revision, which the flow finishes with.
pub fn commit_start(options: &GitCommitOptions) -> (r: (SequenceFlow, GitCommand))
    ensures
        r.0 matches SequenceFlow::Running { remaining } && command_views(seq![r.1] + remaining@)
            == commit_runs(options.message@, options.author_name@, options.author_email@),
{
    let commands = commit_commands(options);
    assert(command_views(commands@).len() == commands@.len());
    let (first, remaining) = first_and_rest(commands);
    (SequenceFlow::Running { remaining }, first)
}

/// Starts a pull from `remote_name`, or `origin`: first the current branch is
/// asked for.
pub fn pull_start(remote_name: Option<String>) -> (r: (SequenceFlow, GitCommand))
    ensures
        r.0 matches SequenceFlow::AwaitBranch { remote, sync } && !sync && remote@
            == remote_or_origin(crate::text_of(remote_name)),
        command_view(r.1) == (seq!["branch"@, "--show-current"@], QUICK_SECS),
{
    let remote = remote_or_default(remote_name);
    (SequenceFlow::AwaitBranch { remote, sync: false }, current_branch_command())
}

/// Starts a synchronisation with `remote_name`, or `origin`: first the
/// current branch is asked for, then it is pulled and pushed.
pub fn sync_start(remote_name: Option<String>) -> (r: (SequenceFlow, GitCommand))
    ensures
        r.0 matches SequenceFlow::AwaitBranch { remote, sync } && sync && remote@
            == remote_or_origin(crate::text_of(remote_name)),
        command_view(r.1) == (seq!["branch"@, "--show-current"@], QUICK_SECS),
{
    let remote = remote_or_default(remote_name);
    (SequenceFlow::AwaitBranch { remote, sync: true }, current_branch_command())
}

/// Advances a run of required commands with the result of the command it
/// asked for last: the first failure ends it with that error; after the
/// last command it ends with that command's trimmed output.
pub fn sequence_step(flow: SequenceFlow, outcome: Result<String, GitError>) -> (r: SequenceAction)
    ensures
        outcome matches Err(e) ==> r == SequenceAction::Finish(Err(e)),
        match flow {
            SequenceFlow::AwaitBranch { remote, sync } => outcome matches Ok(out) ==> (r matches SequenceAction::Run(
                SequenceFlow::Running { remaining },
                cmd,
            ) && command_views(seq![cmd] + remaining@) == branch_runs(remote@, trim_of(out@), sync)),
            SequenceFlow::Running { remaining } => outcome matches Ok(out) ==> if remaining@.len() == 0 {
                r matches SequenceAction::Finish(Ok(t)) && t@ == trim_of(out@)
            } else {
                r matches SequenceAction::Run(SequenceFlow::Running { remaining: rest }, cmd)
                    && command_views(seq![cmd] + rest@) == command_views(remaining@)
            },
        },
{
    match outcome {
        Err(e) => SequenceAction::Finish(Err(e)),
        Ok(out) => match flow {
            SequenceFlow::AwaitBranch { remote, sync } => {
                let branch = trim_output(&out);
                let commands = if sync {
                    sync_commands(&remote, &branch)
                } else {
                    vec![pull_command(&remote, &branch)]
                };
                proof {
                    assert(command_views(commands@) =~= branch_runs(remote@, branch@, sync));
                }
                let (first, remaining) = first_and_rest(commands);
                SequenceAction::Run(SequenceFlow::Running { remaining }, first)
            },
            SequenceFlow::Running { remaining } => {
                if remaining.len() == 0 {
                    SequenceAction::Finish(Ok(trim_output(&out)))
                } else {
                    let (first, rest) = first_and_rest(remaining);
                    SequenceAction::Run(SequenceFlow::Running { remaining: rest }, first)
                }
            },
        },
    }
}

/// Whether a probe command succeeded: the workspace is a repository, or the
/// large-file extension is installed.
pub fn command_succeeded(outcome: &Result<String, GitError>) -> (r: bool)
    ensures
        r == outcome is Ok,
{
    match outcome {
        Ok(_) => true,
        Err(_) => false,
    }
}

} // verus!
