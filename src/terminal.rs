use vstd::prelude::*;
use vstd::utf8::encode_utf8;
use crate::registry::Registry;
use crate::text_of;

verus! {

/// Rows of a freshly spawned terminal.
pub const INITIAL_ROWS: u16 = 30;

/// Columns of a freshly spawned terminal.
pub const INITIAL_COLS: u16 = 120;

/// Why a terminal request failed.
#[derive(Debug, Clone, Copy, PartialEq, Eq, Structural)]
pub enum TerminalError {
    /// No live session has the given identifier.
    SessionNotFound,
    /// Neither the configured shell nor any fallback shell is available.
    NoShell,
    /// The freshly drawn session identifier is already in use.
    IdUnavailable,
}

impl TerminalError {
    /// The text of the message for this error.
    pub open spec fn text(self) -> Seq<char> {
        match self {
            TerminalError::SessionNotFound => "Session not found"@,
            TerminalError::NoShell => "No suitable shell found (tried: $SHELL, zsh, bash, sh)"@,
            TerminalError::IdUnavailable => "Session identifier already in use"@,
        }
    }

    /// A message fit to show to the user.
    pub fn message(&self) -> (r: String)
        ensures
            r@ == self.text(),
    {
        match self {
            TerminalError::SessionNotFound => String::from_str("Session not found"),
            TerminalError::NoShell => String::from_str(
                "No suitable shell found (tried: $SHELL, zsh, bash, sh)",
            ),
            TerminalError::IdUnavailable => String::from_str("Session identifier already in use"),
        }
    }
}

/// A live terminal session: the handle through which its pseudo-terminal is
/// driven, and its current geometry.
pub struct TerminalSession<H> {
    pub handle: H,
    pub cols: u16,
    pub rows: u16,
}

/// Where a write to session `id` goes, given the live sessions.
pub open spec fn write_target<H>(sessions: Map<Seq<char>, TerminalSession<H>>, id: Seq<char>) -> Result<
    H,
    TerminalError,
> {
    if sessions.contains_key(id) {
        Ok(sessions[id].handle)
    } else {
        Err(TerminalError::SessionNotFound)
    }
}

/// Shells tried in turn when no configured shell is usable.
pub open spec fn fallback_shell_names() -> Seq<Seq<char>> {
    seq!["zsh"@, "bash"@, "sh"@]
}

/// The first of `names`, from position `from` on, whose flag in `found` is
/// set; a missing flag counts as unset.
pub open spec fn first_found(names: Seq<Seq<char>>, found: Seq<bool>, from: int) -> Option<Seq<char>>
    decreases names.len() - from,
{
    if from < 0 || from >= names.len() {
        None
    } else if from < found.len() && found[from] {
        Some(names[from])
    } else {
        first_found(names, found, from + 1)
    }
}

/// The shell to launch: the configured one when it is non-empty and exists,
/// else the first fallback found on the search path.
pub open spec fn chosen_shell(configured: Option<Seq<char>>, configured_exists: bool, found: Seq<bool>) -> Option<
    Seq<char>,
> {
    if configured is Some && configured->0.len() > 0 && configured_exists {
        configured
    } else {
        first_found(fallback_shell_names(), found, 0)
    }
}

/// The fallback shells, in the order in which they are tried.
pub fn fallback_shells() -> (r: Vec<String>)
    ensures
        r@.map_values(|s: String| s@) == fallback_shell_names(),
{
    let r = vec![String::from_str("zsh"), String::from_str("bash"), String::from_str("sh")];
    assert(r@.map_values(|s: String| s@) =~= fallback_shell_names());
    r
}

/// Picks the shell for a new session. `configured` is the user's default
/// shell and `configured_exists` whether it exists on disk; `fallback_found[i]`
/// says whether the i-th of `fallback_shells()` is on the search path.
pub fn resolve_shell(configured: Option<String>, configured_exists: bool, fallback_found: &Vec<bool>) -> (r:
    Result<String, TerminalError>)
    ensures
        match r {
            Ok(t) => chosen_shell(text_of(configured), configured_exists, fallback_found@) == Some(
                t@,
            ),
            Err(e) => e == TerminalError::NoShell && chosen_shell(
                text_of(configured),
                configured_exists,
                fallback_found@,
            ) is None,
        },
{
    let usable = match &configured {
        Some(c) => configured_exists && c.as_str().unicode_len() > 0,
        None => false,
    };
    if usable {
        return Ok(configured.unwrap());
    }
    let names = fallback_shells();
    let ghost all = names@.map_values(|s: String| s@);
    let ghost shell = chosen_shell(text_of(configured), configured_exists, fallback_found@);
    let mut i: usize = 0;
    while i < names.len()
        invariant
            i <= names@.len(),
            all == fallback_shell_names(),
            all == names@.map_values(|s: String| s@),
            shell == chosen_shell(text_of(configured), configured_exists, fallback_found@),
            shell == first_found(all, fallback_found@, i as int),
        decreases names@.len() - i,
    {
        if i < fallback_found.len() && fallback_found[i] {
            assert(all[i as int] == names@[i as int]@);
            let chosen = names[i].clone();
            return Ok(chosen);
        }
        i = i + 1;
    }
    Err(TerminalError::NoShell)
}

/// Name of the event that carries output of session `session_id`.
pub fn output_event_name(session_id: &String) -> (r: String)
    ensures
        r@ == "terminal-output-"@ + session_id@,
{
    String::from_str("terminal-output-").concat(session_id.as_str())
}

/// Writing to a session reaches the handle it was spawned with; once it is
/// closed, writing to it fails with `SessionNotFound`, and closing a session
/// leaves where writes to every other session go unchanged.
pub proof fn lemma_write_after_close<H>(
    sessions: Map<Seq<char>, TerminalSession<H>>,
    id: Seq<char>,
    other: Seq<char>,
    session: TerminalSession<H>,
)
    ensures
        write_target(sessions.insert(id, session), id) == Ok::<H, TerminalError>(session.handle),
        write_target(sessions.remove(id), id) == Err::<H, TerminalError>(
            TerminalError::SessionNotFound,
        ),
        other != id ==> write_target(sessions.remove(id), other) == write_target(sessions, other),
{
}

/// The live terminal sessions, by identifier.
pub struct TerminalManager<H> {
    sessions: Registry<TerminalSession<H>>,
}

/// Relies on uuid::Uuid::new_v4 and the hyphenated text form that its
/// `Display` writes: 36 characters.
#[verifier::external_body]
fn new_session_id() -> (r: String)
    ensures
        r@.len() == 36,
{
    uuid::Uuid::new_v4().to_string()
}

impl<H> TerminalManager<H> {
    /// The live sessions, by identifier.
    pub closed spec fn view(&self) -> Map<Seq<char>, TerminalSession<H>> {
        self.sessions@
    }

    /// The table of live resources is well formed.
    pub closed spec fn wf(&self) -> bool {
        self.sessions.wf()
    }

    /// A manager with no session.
    pub fn new() -> (r: Self)
        ensures
            r.wf(),
            r@ == Map::<Seq<char>, TerminalSession<H>>::empty(),
    {
        TerminalManager { sessions: Registry::new() }
    }

    /// Registers a spawned pseudo-terminal under `session_id`, with the
    /// initial geometry, unless that identifier is already in use.
    pub fn register_session(&mut self, session_id: String, handle: H) -> (r: Result<String, TerminalError>)
        requires
            old(self).wf(),
        ensures
            final(self).wf(),
            old(self)@.contains_key(session_id@) ==> r == Err::<String, TerminalError>(
                TerminalError::IdUnavailable,
            ) && final(self)@ == old(self)@,
            !old(self)@.contains_key(session_id@) ==> (r matches Ok(id) && id@ == session_id@)
                && final(self)@ == old(self)@.insert(
                session_id@,
                TerminalSession { handle, cols: INITIAL_COLS, rows: INITIAL_ROWS },
            ),
    {
        if self.sessions.contains_key(&session_id) {
            return Err(TerminalError::IdUnavailable);
        }
        let session = TerminalSession { handle, cols: INITIAL_COLS, rows: INITIAL_ROWS };
        let id = session_id.clone();
        self.sessions.insert_new(session_id, session);
        Ok(id)
    }

    /// Registers a spawned pseudo-terminal under a fresh random identifier,
    /// with the initial geometry, and returns the identifier.
    pub fn spawn_terminal(&mut self, handle: H) -> (r: Result<String, TerminalError>)
        requires
            old(self).wf(),
        ensures
            final(self).wf(),
            match r {
                Ok(id) => !old(self)@.contains_key(id@) && id@.len() == 36 && final(self)@ == old(
                    self,
                )@.insert(id@, TerminalSession { handle, cols: INITIAL_COLS, rows: INITIAL_ROWS }),
                Err(e) => e == TerminalError::IdUnavailable && final(self)@ == old(self)@,
            },
            (forall|k: Seq<char>| #[trigger] old(self)@.contains_key(k) ==> k.len() != 36) ==> r is Ok,
    {
        let id = new_session_id();
        self.register_session(id, handle)
    }

    /// The input handle of session `session_id` and the bytes of `data` to
    /// write to it.
    pub fn write_terminal(&self, session_id: &String, data: &String) -> (r: Result<
        (&H, Vec<u8>),
        TerminalError,
    >)
        requires
            self.wf(),
        ensures
            match r {
                Ok((h, bytes)) => write_target(self@, session_id@) == Ok::<H, TerminalError>(*h)
                    && bytes@ == encode_utf8(data@),
                Err(e) => write_target(self@, session_id@) == Err::<H, TerminalError>(e),
            },
    {
        match self.sessions.get(session_id) {
            Some(session) => Ok((&session.handle, data.as_str().as_bytes_vec())),
            None => Err(TerminalError::SessionNotFound),
        }
    }

    /// Records a new geometry for session `session_id`; the caller then
    /// forwards it to the session's pseudo-terminal.
    pub fn resize_terminal(&mut self, session_id: &String, cols: u16, rows: u16) -> (r: Result<
        (),
        TerminalError,
    >)
        requires
            old(self).wf(),
        ensures
            final(self).wf(),
            old(self)@.contains_key(session_id@) ==> r == Ok::<(), TerminalError>(())
                && final(self)@ == old(self)@.insert(
                session_id@,
                TerminalSession { handle: old(self)@[session_id@].handle, cols, rows },
            ),
            !old(self)@.contains_key(session_id@) ==> r == Err::<(), TerminalError>(
                TerminalError::SessionNotFound,
            ) && final(self)@ == old(self)@,
    {
        match self.sessions.remove(session_id) {
            Some(session) => {
                let resized = TerminalSession { handle: session.handle, cols, rows };
                self.sessions.insert_new(session_id.clone(), resized);
                proof {
                    assert(final(self)@ =~= old(self)@.insert(session_id@, resized));
                }
                Ok(())
            },
            None => Err(TerminalError::SessionNotFound),
        }
    }

    /// The live session `session_id`, if any.
    pub fn session(&self, session_id: &String) -> (r: Option<&TerminalSession<H>>)
        requires
            self.wf(),
        ensures
            match r {
                Some(s) => self@.contains_key(session_id@) && *s == self@[session_id@],
                None => !self@.contains_key(session_id@),
            },
    {
        self.sessions.get(session_id)
    }

    /// Closes session `session_id`, handing back its handle so that the
    /// caller can stop the shell; closing an unknown session does nothing.
    pub fn close_terminal(&mut self, session_id: &String) -> (r: Option<H>)
        requires
            old(self).wf(),
        ensures
            final(self).wf(),
            final(self)@ == old(self)@.remove(session_id@),
            match r {
                Some(h) => old(self)@.contains_key(session_id@) && h == old(self)@[session_id@].handle,
                None => !old(self)@.contains_key(session_id@),
            },
    {
        match self.sessions.remove(session_id) {
            Some(session) => Some(session.handle),
            None => None,
        }
    }
}

} // verus!
