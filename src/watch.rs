use vstd::prelude::*;
use unicode_normalization::UnicodeNormalization;
use crate::registry::Registry;
use crate::{has_suffix, text_of, texts};

verus! {

/// Canonical composed form (NFC) of a text.
pub uninterp spec fn nfc_of(s: Seq<char>) -> Seq<char>;

/// Last component of a path, when it is a normal one.
pub uninterp spec fn file_name_of(path: Seq<char>) -> Option<Seq<char>>;

/// The path without its last component, if it has one.
pub uninterp spec fn parent_of(path: Seq<char>) -> Option<Seq<char>>;

/// Extension of the last component of a path, if it has one.
pub uninterp spec fn extension_of(path: Seq<char>) -> Option<Seq<char>>;

/// Relies on unicode_normalization's `nfc` on a `&str`: the text recomposed
/// into Normalization Form C, which depends on the text alone.
#[verifier::external_body]
fn to_nfc(s: &str) -> (r: String)
    ensures
        r@ == nfc_of(s@),
{
    s.nfc().collect()
}

/// Relies on std::path::Path::file_name.
#[verifier::external_body]
fn path_file_name(path: &str) -> (r: Option<String>)
    ensures
        text_of(r) == file_name_of(path@),
{
    match std::path::Path::new(path).file_name() {
        Some(n) => Some(n.to_string_lossy().into_owned()),
        None => None,
    }
}

/// Relies on std::path::Path::parent.
#[verifier::external_body]
fn path_parent(path: &str) -> (r: Option<String>)
    ensures
        text_of(r) == parent_of(path@),
{
    match std::path::Path::new(path).parent() {
        Some(p) => Some(p.to_string_lossy().into_owned()),
        None => None,
    }
}

/// Relies on std::path::Path::extension.
#[verifier::external_body]
fn path_extension(path: &str) -> (r: Option<String>)
    ensures
        text_of(r) == extension_of(path@),
{
    match std::path::Path::new(path).extension() {
        Some(e) => Some(e.to_string_lossy().into_owned()),
        None => None,
    }
}

/// Whether `s` ends with `suffix`.
pub fn ends_with(s: &str, suffix: &str) -> (r: bool)
    ensures
        r == has_suffix(s@, suffix@),
{
    let n = s.unicode_len();
    let m = suffix.unicode_len();
    if m > n {
        return false;
    }
    let mut j: usize = 0;
    while j < m
        invariant
            n == s@.len(),
            m == suffix@.len(),
            m <= n,
            j <= m,
            forall|k: int| 0 <= k < j ==> s@[n - m + k] == #[trigger] suffix@[k],
        decreases m - j,
    {
        if s.get_char(n - m + j) != suffix.get_char(j) {
            assert(s@.subrange(n - m, n as int)[j as int] != suffix@[j as int]);
            return false;
        }
        j = j + 1;
    }
    assert(s@.subrange(n - m, n as int) =~= suffix@);
    true
}

/// Whether an event path, in composed form, designates the watched file:
/// it ends with the file's name, or its own last component is that name.
pub open spec fn normalized_match(
    path_nfc: Seq<char>,
    event_name_nfc: Option<Seq<char>>,
    target_nfc: Seq<char>,
) -> bool {
    has_suffix(path_nfc, target_nfc) || event_name_nfc == Some(target_nfc)
}

/// Whether event path `path` designates the file named `target`, both taken
/// in composed form.
pub open spec fn event_matches(path: Seq<char>, target: Seq<char>) -> bool {
    normalized_match(
        nfc_of(path),
        match file_name_of(path) {
            Some(n) => Some(nfc_of(n)),
            None => None,
        },
        nfc_of(target),
    )
}

/// Whether any path of a batch of events designates the file named `target`.
pub open spec fn batch_matches(paths: Seq<Seq<char>>, target: Seq<char>) -> bool {
    exists|i: int| 0 <= i < paths.len() && #[trigger] event_matches(paths[i], target)
}

/// The change notifications that one debounced batch yields for the watched
/// file requested as `requested`, whose name is `target`.
pub open spec fn file_change_notifications(
    paths: Seq<Seq<char>>,
    requested: Seq<char>,
    target: Seq<char>,
) -> Seq<Seq<char>> {
    if batch_matches(paths, target) {
        seq![requested]
    } else {
        seq![]
    }
}

/// The matching rule on texts already in composed form: `path_nfc` is the
/// event path, `event_name_nfc` its last component, `target_nfc` the name
/// of the watched file.
pub fn matches_normalized(path_nfc: &String, event_name_nfc: &Option<String>, target_nfc: &String) -> (r:
    bool)
    ensures
        r == normalized_match(path_nfc@, text_of(*event_name_nfc), target_nfc@),
{
    if ends_with(path_nfc.as_str(), target_nfc.as_str()) {
        return true;
    }
    match event_name_nfc {
        Some(n) => *n == *target_nfc,
        None => false,
    }
}

/// Whether the event path `event_path` designates the file named
/// `target_name`, up to Unicode composition.
pub fn event_matches_target(event_path: &String, target_name: &String) -> (r: bool)
    ensures
        r == event_matches(event_path@, target_name@),
{
    let path_nfc = to_nfc(event_path.as_str());
    let target_nfc = to_nfc(target_name.as_str());
    let event_name_nfc = match path_file_name(event_path.as_str()) {
        Some(n) => Some(to_nfc(n.as_str())),
        None => None,
    };
    matches_normalized(&path_nfc, &event_name_nfc, &target_nfc)
}

/// Whether any path of a debounced batch designates the file named
/// `target_name`.
pub fn batch_matches_target(paths: &Vec<String>, target_name: &String) -> (r: bool)
    ensures
        r == batch_matches(texts(paths@), target_name@),
{
    let mut i: usize = 0;
    while i < paths.len()
        invariant
            i <= paths@.len(),
            forall|k: int| 0 <= k < i ==> !event_matches(#[trigger] texts(paths@)[k], target_name@),
        decreases paths@.len() - i,
    {
        if event_matches_target(&paths[i], target_name) {
            assert(event_matches(texts(paths@)[i as int], target_name@));
            return true;
        }
        i = i + 1;
    }
    false
}

/// What to announce for one debounced batch of events on the directory of
/// the watched file `requested_path`, named `target_name`: the requested
/// path once if the batch touches the file, nothing otherwise.
pub fn file_notifications(paths: &Vec<String>, requested_path: &String, target_name: &String) -> (r:
    Vec<String>)
    ensures
        texts(r@) == file_change_notifications(texts(paths@), requested_path@, target_name@),
        r@.len() <= 1,
{
    let mut r: Vec<String> = Vec::new();
    if batch_matches_target(paths, target_name) {
        r.push(requested_path.clone());
    }
    assert(texts(r@) =~= file_change_notifications(texts(paths@), requested_path@, target_name@));
    r
}

/// A batch that holds the watched file's own path yields exactly one
/// notification, however many other events the batch holds.
pub proof fn lemma_one_notification_for_own_path(
    paths: Seq<Seq<char>>,
    requested: Seq<char>,
    target: Seq<char>,
    i: int,
)
    requires
        0 <= i < paths.len(),
        paths[i] == requested,
        file_name_of(requested) == Some(target),
    ensures
        file_change_notifications(paths, requested, target) == seq![requested],
{
    assert(event_matches(paths[i], target));
}

/// A watch set up for `requested` announces exactly one change for a batch
/// that reports the file under a name with the same composed form as its
/// own, whichever of the two came composed and which decomposed.
pub proof fn lemma_one_notification_up_to_composition(
    paths: Seq<Seq<char>>,
    requested: Seq<char>,
    target: Seq<char>,
    i: int,
    name: Seq<char>,
)
    requires
        0 <= i < paths.len(),
        file_name_of(paths[i]) == Some(name),
        nfc_of(name) == nfc_of(target),
    ensures
        file_change_notifications(paths, requested, target) == seq![requested],
{
    assert(event_matches(paths[i], target));
}

/// An event whose file name has the same composed form as the watched
/// file's name designates that file, whichever of the two came composed and
/// which decomposed.
pub proof fn lemma_match_up_to_composition(path: Seq<char>, target: Seq<char>, name: Seq<char>)
    requires
        file_name_of(path) == Some(name),
        nfc_of(name) == nfc_of(target),
    ensures
        event_matches(path, target),
{
}

/// Extension of the files whose changes invalidate a workspace.
pub open spec fn content_extension() -> Seq<char> {
    "md"@
}

/// Whether a path names a content file.
pub open spec fn is_content(path: Seq<char>) -> bool {
    extension_of(path) == Some(content_extension())
}

/// Whether a batch of events touches any content file.
pub open spec fn has_content_change(paths: Seq<Seq<char>>) -> bool {
    exists|i: int| 0 <= i < paths.len() && #[trigger] is_content(paths[i])
}

/// Whether `path` names a content file.
pub fn is_content_path(path: &String) -> (r: bool)
    ensures
        r == is_content(path@),
{
    match path_extension(path.as_str()) {
        Some(e) => e == String::from_str("md"),
        None => false,
    }
}

/// Whether a debounced batch of workspace events touches a content file, in
/// which case one invalidation is announced for the whole batch.
pub fn batch_has_content_change(paths: &Vec<String>) -> (r: bool)
    ensures
        r == has_content_change(texts(paths@)),
{
    let mut i: usize = 0;
    while i < paths.len()
        invariant
            i <= paths@.len(),
            forall|k: int| 0 <= k < i ==> !is_content(#[trigger] texts(paths@)[k]),
        decreases paths@.len() - i,
    {
        if is_content_path(&paths[i]) {
            assert(is_content(texts(paths@)[i as int]));
            return true;
        }
        i = i + 1;
    }
    false
}

/// Files of other extensions never invalidate a workspace, and one content
/// file among them does.
pub proof fn lemma_only_content_invalidates(paths: Seq<Seq<char>>, extra: Seq<char>)
    ensures
        (forall|i: int| 0 <= i < paths.len() ==> !is_content(#[trigger] paths[i]))
            ==> !has_content_change(paths),
        is_content(extra) ==> has_content_change(paths.push(extra)),
{
    if is_content(extra) {
        assert(paths.push(extra)[paths.len() as int] == extra);
    }
}

/// Why a watch request failed.
#[derive(Debug, Clone, Copy, PartialEq, Eq, Structural)]
pub enum WatchError {
    /// The file path has no parent directory to watch.
    NoParent,
    /// The file path has no file name.
    InvalidPath,
    /// The path was not being watched.
    NotWatched,
}

impl WatchError {
    /// The text of the message for this error.
    pub open spec fn text(self) -> Seq<char> {
        match self {
            WatchError::NoParent => "File has no parent directory"@,
            WatchError::InvalidPath => "Invalid file path"@,
            WatchError::NotWatched => "File was not being watched"@,
        }
    }

    /// A message fit to show to the user.
    pub fn message(&self) -> (r: String)
        ensures
            r@ == self.text(),
    {
        match self {
            WatchError::NoParent => String::from_str("File has no parent directory"),
            WatchError::InvalidPath => String::from_str("Invalid file path"),
            WatchError::NotWatched => String::from_str("File was not being watched"),
        }
    }
}

/// What watching one file takes: the directory to watch, so that
/// replace-by-rename saves are seen, and the name to look for in it.
pub struct FileWatchTarget {
    pub requested: String,
    pub directory: String,
    pub file_name: String,
}

impl FileWatchTarget {
    /// What to announce for one debounced batch of events in the watched
    /// directory: the requested path once if the batch touches the file,
    /// nothing otherwise.
    pub fn notifications(&self, paths: &Vec<String>) -> (r: Vec<String>)
        ensures
            texts(r@) == file_change_notifications(texts(paths@), self.requested@, self.file_name@),
            r@.len() <= 1,
    {
        file_notifications(paths, &self.requested, &self.file_name)
    }
}

/// Where a watch of `path` looks, or why it cannot be set up.
pub open spec fn watch_target(path: Seq<char>) -> Result<(Seq<char>, Seq<char>), WatchError> {
    match parent_of(path) {
        None => Err(WatchError::NoParent),
        Some(dir) => match file_name_of(path) {
            None => Err(WatchError::InvalidPath),
            Some(name) => Ok((dir, name)),
        },
    }
}

/// The registrations after asking to watch under `key` with `watcher`: a
/// key already watched keeps its watcher.
pub open spec fn after_watch<W>(m: Map<Seq<char>, W>, key: Seq<char>, watcher: W) -> Map<Seq<char>, W> {
    if m.contains_key(key) {
        m
    } else {
        m.insert(key, watcher)
    }
}

/// Asking twice to watch the same key registers it once: the second request
/// changes nothing.
pub proof fn lemma_watch_idempotent<W>(m: Map<Seq<char>, W>, key: Seq<char>, first: W, second: W)
    ensures
        after_watch(after_watch(m, key, first), key, second) == after_watch(m, key, first),
        after_watch(after_watch(m, key, first), key, second).contains_key(key),
{
}

/// The live watches: single files by their requested path, and workspace
/// directories by theirs, in two tables that never share a key.
pub struct FileWatcherManager<W> {
    files: Registry<W>,
    workspaces: Registry<W>,
}

impl<W> FileWatcherManager<W> {
    /// The live single-file watches, by requested path.
    pub closed spec fn files(&self) -> Map<Seq<char>, W> {
        self.files@
    }

    /// The live workspace watches, by workspace path.
    pub closed spec fn workspaces(&self) -> Map<Seq<char>, W> {
        self.workspaces@
    }

    /// Both tables of live watches are well formed.
    pub closed spec fn wf(&self) -> bool {
        self.files.wf() && self.workspaces.wf()
    }

    /// A manager with no watch.
    pub fn new() -> (r: Self)
        ensures
            r.wf(),
            r.files() == Map::<Seq<char>, W>::empty(),
            r.workspaces() == Map::<Seq<char>, W>::empty(),
    {
        FileWatcherManager { files: Registry::new(), workspaces: Registry::new() }
    }

    /// The directory to watch for `file_path` and the file name to look for.
    pub fn file_watch_target(file_path: &String) -> (r: Result<FileWatchTarget, WatchError>)
        ensures
            match r {
                Ok(t) => t.requested@ == file_path@ && watch_target(file_path@) == Ok::<
                    (Seq<char>, Seq<char>),
                    WatchError,
                >((t.directory@, t.file_name@)),
                Err(e) => watch_target(file_path@) == Err::<(Seq<char>, Seq<char>), WatchError>(e),
            },
    {
        match path_parent(file_path.as_str()) {
            None => Err(WatchError::NoParent),
            Some(directory) => match path_file_name(file_path.as_str()) {
                None => Err(WatchError::InvalidPath),
                Some(file_name) => Ok(
                    FileWatchTarget { requested: file_path.clone(), directory, file_name },
                ),
            },
        }
    }

    /// Whether `file_path` is watched as a single file.
    pub fn is_watching_file(&self, file_path: &String) -> (r: bool)
        requires
            self.wf(),
        ensures
            r == self.files().contains_key(file_path@),
    {
        self.files.contains_key(file_path)
    }

    /// Whether workspace `workspace_path` is watched.
    pub fn is_watching_workspace(&self, workspace_path: &String) -> (r: bool)
        requires
            self.wf(),
        ensures
            r == self.workspaces().contains_key(workspace_path@),
    {
        self.workspaces.contains_key(workspace_path)
    }

    /// Keeps `watcher` as the watch of `file_path` unless the file is already
    /// watched, in which case nothing changes and `watcher` is dropped.
    /// Returns whether `watcher` was kept. Workspace watches are left alone.
    pub fn watch_file(&mut self, file_path: String, watcher: W) -> (r: bool)
        requires
            old(self).wf(),
        ensures
            final(self).wf(),
            r == !old(self).files().contains_key(file_path@),
            final(self).files() == after_watch(old(self).files(), file_path@, watcher),
            final(self).workspaces() == old(self).workspaces(),
    {
        self.files.insert_new(file_path, watcher)
    }

    /// Keeps `watcher` as the watch of workspace `workspace_path` unless it
    /// is already watched. Returns whether `watcher` was kept. Single-file
    /// watches are left alone.
    pub fn watch_workspace(&mut self, workspace_path: String, watcher: W) -> (r: bool)
        requires
            old(self).wf(),
        ensures
            final(self).wf(),
            r == !old(self).workspaces().contains_key(workspace_path@),
            final(self).workspaces() == after_watch(
                old(self).workspaces(),
                workspace_path@,
                watcher,
            ),
            final(self).files() == old(self).files(),
    {
        self.workspaces.insert_new(workspace_path, watcher)
    }

    /// Stops watching the single file `file_path`; workspace watches are
    /// left alone.
    pub fn unwatch_file(&mut self, file_path: &String) -> (r: Result<(), WatchError>)
        requires
            old(self).wf(),
        ensures
            final(self).wf(),
            final(self).files() == old(self).files().remove(file_path@),
            final(self).workspaces() == old(self).workspaces(),
            r == if old(self).files().contains_key(file_path@) {
                Ok::<(), WatchError>(())
            } else {
                Err(WatchError::NotWatched)
            },
    {
        match self.files.remove(file_path) {
            Some(_) => Ok(()),
            None => Err(WatchError::NotWatched),
        }
    }

    /// Stops every watch, of files and of workspaces.
    pub fn unwatch_all(&mut self)
        requires
            old(self).wf(),
        ensures
            final(self).wf(),
            final(self).files() == Map::<Seq<char>, W>::empty(),
            final(self).workspaces() == Map::<Seq<char>, W>::empty(),
    {
        self.files.clear();
        self.workspaces.clear();
    }
}

} // verus!
