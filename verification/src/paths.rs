//! Where the supervisor keeps its state, how record files are read back, and
//! how the singleton lock is won or lost.
//!
//! Everything lives under the home directory of the supervised tool:
//!
//! ```text
//! <home>/
//! ├── supervisor.models.toml   the model registry
//! └── supervisor/              run-time state
//!     ├── supervisor.lock      the singleton lock
//!     ├── tasks/<id>.json      task records
//!     ├── sessions/<id>.json   session records
//!     ├── events/<id>.jsonl    raw event streams
//!     └── worktrees/<id>       checkouts of isolated tasks
//! ```

use crate::text;
use vstd::prelude::*;

verus! {

/// `leaf` below `base`. An absolute leaf stands for itself.
pub open spec fn joined_path(base: Seq<char>, leaf: Seq<char>) -> Seq<char> {
    if base.len() == 0 || (leaf.len() > 0 && leaf[0] == '/') {
        leaf
    } else if base.last() == '/' {
        base + leaf
    } else {
        base + seq!['/'] + leaf
    }
}

/// What stands behind equal fronts of equal texts is equal.
pub proof fn lemma_equal_fronts(front: Seq<char>, a: Seq<char>, b: Seq<char>)
    ensures
        front + a == front + b ==> a == b,
{
    if front + a == front + b {
        assert((front + a).skip(front.len() as int) =~= a);
        assert((front + b).skip(front.len() as int) =~= b);
    }
}

/// Two relative leaves below one directory are two paths.
pub proof fn lemma_joined_path_is_injective(dir: Seq<char>, a: Seq<char>, b: Seq<char>)
    requires
        a.len() > 0,
        a[0] != '/',
        b.len() > 0,
        b[0] != '/',
    ensures
        joined_path(dir, a) == joined_path(dir, b) ==> a == b,
{
    lemma_equal_fronts(dir, a, b);
    lemma_equal_fronts(dir + seq!['/'], a, b);
}

/// The extension of a record does not hide which one it is, and makes its file
/// one that is taken for a record.
pub proof fn lemma_record_name(a: Seq<char>, b: Seq<char>)
    requires
        a.len() > 0,
    ensures
        names_record(a + ".json"@),
        a + ".json"@ == b + ".json"@ ==> a == b,
{
    reveal_strlit(".json");
    let name = a + ".json"@;
    assert(name.subrange(a.len() as int, name.len() as int) =~= ".json"@);
    if name == b + ".json"@ {
        assert(name.take(a.len() as int) =~= a);
        assert((b + ".json"@).take(b.len() as int) =~= b);
    }
}

/// `leaf` below `base`. An absolute leaf stands for itself.
pub fn join_path(base: &str, leaf: &str) -> (out: String)
    ensures
        out@ == joined_path(base@, leaf@),
{
    let base_chars = text::chars_of(base);
    let leaf_chars = text::chars_of(leaf);
    let length: usize = base_chars.len();
    if length == 0 || (leaf_chars.len() > 0 && leaf_chars[0] == '/') {
        leaf.to_owned()
    } else if base_chars[length - 1] == '/' {
        text::cat2(base, leaf)
    } else {
        let mut out = base.to_owned();
        out.push('/');
        out.append(leaf);
        assert(out@ =~= base@ + seq!['/'] + leaf@);
        out
    }
}

/// `path` up to the end of its last component: without separators, and without
/// components `.`, at its end.
pub open spec fn to_last_component(path: Seq<char>) -> Seq<char>
    decreases path.len(),
{
    if path.len() > 0 && path.last() == '/' {
        to_last_component(path.drop_last())
    } else if path.len() > 1 && path.last() == '.' && path[path.len() - 2] == '/' {
        to_last_component(path.drop_last())
    } else {
        path
    }
}

/// The place of the last dot in `name`, counted in characters; zero where there
/// is none behind the first character.
pub open spec fn last_dot(name: Seq<char>) -> nat
    decreases name.len(),
{
    if name.len() == 0 {
        0
    } else if name.last() == '.' {
        (name.len() - 1) as nat
    } else {
        last_dot(name.drop_last())
    }
}

/// `path` with the extension of its file name replaced by `extension`, or with
/// `extension` appended where the file name has none. A path that names no file
/// stays as it is.
pub open spec fn path_with_extension(path: Seq<char>, extension: Seq<char>) -> Seq<char> {
    let whole = to_last_component(path);
    let name = text::pieces(whole, '/').last();
    if name.len() == 0 || name == seq!['.'] || name == seq!['.', '.'] {
        path
    } else {
        let stem = if last_dot(name) > 0 {
            whole.take(whole.len() - name.len() + last_dot(name))
        } else {
            whole
        };
        if extension.len() == 0 {
            stem
        } else {
            stem + seq!['.'] + extension
        }
    }
}

/// The last piece of a text is what stands at its end.
pub proof fn lemma_last_piece_is_suffix(s: Seq<char>, sep: char)
    ensures
        ({
            let last = text::pieces(s, sep).last();
            &&& last.len() <= s.len()
            &&& last == s.skip(s.len() - last.len())
        }),
    decreases s.len(),
{
    if s.len() > 0 {
        let before = text::pieces(s.drop_last(), sep);
        lemma_last_piece_is_suffix(s.drop_last(), sep);
        text::lemma_pieces_nonempty(s.drop_last(), sep);
        let last = text::pieces(s, sep).last();
        if s.last() == sep {
            assert(last =~= Seq::<char>::empty());
            assert(s.skip(s.len() as int) =~= Seq::<char>::empty());
        } else {
            assert(last == before.last().push(s.last()));
            assert(last =~= s.skip(s.len() - last.len()));
        }
    }
}

/// `path` with the extension of its file name replaced by `extension`.
pub fn with_extension(path: &str, extension: &str) -> (out: String)
    ensures
        out@ == path_with_extension(path@, extension@),
{
    let chars = text::chars_of(path);
    let mut end: usize = chars.len();
    assert(chars@.take(end as int) =~= chars@);
    while end > 0 && (chars[end - 1] == '/' || (end > 1 && chars[end - 1] == '.' && chars[end - 2]
        == '/'))
        invariant
            end <= chars@.len(),
            chars@ == path@,
            to_last_component(path@) == to_last_component(chars@.take(end as int)),
        decreases end,
    {
        assert(chars@.take(end as int).drop_last() =~= chars@.take(end - 1));
        end = end - 1;
    }
    let ghost whole = to_last_component(path@);
    assert(whole =~= chars@.take(end as int));
    let whole_text = text::text_between(&chars, 0, end);
    assert(whole_text@ =~= whole);
    let parts = text::split(whole_text.as_str(), '/');
    let last: usize = parts.len() - 1;
    let name = text::chars_of(parts[last].as_str());
    let ghost tail = text::pieces(whole, '/').last();
    assert(text::texts(parts@)[last as int] == tail);
    assert(name@ == tail);
    proof {
        lemma_last_piece_is_suffix(whole, '/');
    }
    if name.len() == 0 || (name.len() == 1 && name[0] == '.') || (name.len() == 2 && name[0] == '.'
        && name[1] == '.') {
        assert(name@.len() == 1 && name@[0] == '.' ==> name@ =~= seq!['.']);
        assert(name@.len() == 2 && name@[0] == '.' && name@[1] == '.' ==> name@ =~= seq!['.', '.']);
        return path.to_owned();
    }
    assert(name@ != seq!['.']);
    assert(name@ != seq!['.', '.']);
    let dot = find_last_dot(&name);
    let stem_end: usize = if dot > 0 {
        end - name.len() + dot
    } else {
        end
    };
    let mut out = text::text_between(&chars, 0, stem_end);
    assert(out@ =~= if dot > 0 {
        whole.take(whole.len() - tail.len() + dot)
    } else {
        whole
    });
    if extension.is_empty() {
        out
    } else {
        out.push('.');
        out.append(extension);
        out
    }
}

fn find_last_dot(name: &Vec<char>) -> (dot: usize)
    ensures
        dot == last_dot(name@),
        dot <= name@.len(),
{
    let mut end: usize = name.len();
    assert(name@.take(end as int) =~= name@);
    while end > 0
        invariant
            end <= name@.len(),
            last_dot(name@) == last_dot(name@.take(end as int)),
        decreases end,
    {
        assert(name@.take(end as int).drop_last() =~= name@.take(end - 1));
        if name[end - 1] == '.' {
            return end - 1;
        }
        end = end - 1;
    }
    0
}

proof fn lemma_last_dot_of_stem(stem: Seq<char>, extension: Seq<char>)
    requires
        !extension.contains('.'),
    ensures
        last_dot(stem + seq!['.'] + extension) == stem.len(),
    decreases extension.len(),
{
    let name = stem + seq!['.'] + extension;
    if extension.len() == 0 {
        assert(name.last() == '.');
    } else {
        assert(extension[extension.len() - 1] != '.');
        let shorter = extension.drop_last();
        assert forall|i: int| 0 <= i < shorter.len() implies shorter[i] != '.' by {
            assert(extension[i] != '.');
        }
        lemma_last_dot_of_stem(stem, shorter);
        assert(name.drop_last() =~= stem + seq!['.'] + shorter);
        assert(name.last() == extension.last());
    }
}

/// A file `stem.extension` in a directory keeps its directory and its stem when
/// its extension is replaced.
pub proof fn lemma_extension_is_replaced(
    front: Seq<char>,
    stem: Seq<char>,
    extension: Seq<char>,
    new: Seq<char>,
)
    requires
        stem.len() > 0,
        extension.len() > 0,
        new.len() > 0,
        !stem.contains('/'),
        !extension.contains('/'),
        !extension.contains('.'),
    ensures
        path_with_extension(front + seq!['/'] + (stem + seq!['.'] + extension), new) == front + seq![
            '/',
        ] + (stem + seq!['.'] + new),
{
    let name = stem + seq!['.'] + extension;
    let path = front + seq!['/'] + name;
    let cut = front + seq!['/'];
    assert(path =~= cut + name);
    assert(path.last() == extension.last());
    assert(extension[extension.len() - 1] != '/');
    assert(extension[extension.len() - 1] != '.');
    assert(to_last_component(path) == path);
    assert forall|i: int| 0 <= i < name.len() implies name[i] != '/' by {
        if i < stem.len() {
            assert(stem[i] != '/');
        } else if i > stem.len() {
            assert(extension[i - stem.len() - 1] != '/');
        }
    }
    text::lemma_pieces_grow(cut, name, '/');
    text::lemma_pieces_nonempty(cut, '/');
    assert(cut.last() == '/');
    assert(text::pieces(cut, '/').last() =~= Seq::<char>::empty());
    assert(Seq::<char>::empty() + name =~= name);
    assert(text::pieces(path, '/').last() == name);
    lemma_last_dot_of_stem(stem, extension);
    assert(name.len() >= 3);
    assert(path.take(path.len() - name.len() + stem.len()) =~= cut + stem);
    assert(cut + stem + seq!['.'] + new =~= front + seq!['/'] + (stem + seq!['.'] + new));
}

/// The directories of the run-time state are named, and their names do not end in
/// a separator.
pub proof fn lemma_state_dir_is_named(home: Seq<char>, name: Seq<char>)
    requires
        name.len() > 0,
        name[0] != '/',
        name.last() != '/',
    ensures
        state_dir_of(home, name).len() > 0,
        state_dir_of(home, name).last() != '/',
{
}

/// The state directory: computes paths, and knows nothing of what is in them.
#[derive(Debug)]
pub struct SupervisorHome {
    codex_home: String,
}

impl View for SupervisorHome {
    type V = Seq<char>;

    closed spec fn view(&self) -> Seq<char> {
        self.codex_home@
    }
}

impl Clone for SupervisorHome {
    fn clone(&self) -> (out: Self)
        ensures
            out == *self,
    {
        SupervisorHome { codex_home: self.codex_home.clone() }
    }
}

/// The directory of run-time state below `home`.
pub open spec fn state_root_of(home: Seq<char>) -> Seq<char> {
    joined_path(home, "supervisor"@)
}

/// The directory called `name` in the run-time state below `home`.
pub open spec fn state_dir_of(home: Seq<char>, name: Seq<char>) -> Seq<char> {
    joined_path(state_root_of(home), name)
}

impl SupervisorHome {
    /// The state directory below `codex_home`.
    pub fn new(codex_home: String) -> (out: Self)
        ensures
            out@ == codex_home@,
    {
        SupervisorHome { codex_home }
    }

    /// The home directory itself.
    pub fn codex_home(&self) -> (out: &str)
        ensures
            out@ == self@,
    {
        self.codex_home.as_str()
    }

    /// The directory of run-time state.
    pub fn state_root(&self) -> (out: String)
        ensures
            out@ == state_root_of(self@),
    {
        join_path(self.codex_home.as_str(), "supervisor")
    }

    /// The directory of task records.
    pub fn tasks_dir(&self) -> (out: String)
        ensures
            out@ == state_dir_of(self@, "tasks"@),
    {
        join_path(self.state_root().as_str(), "tasks")
    }

    /// The directory of session records.
    pub fn sessions_dir(&self) -> (out: String)
        ensures
            out@ == state_dir_of(self@, "sessions"@),
    {
        join_path(self.state_root().as_str(), "sessions")
    }

    /// The directory of raw event streams.
    pub fn events_dir(&self) -> (out: String)
        ensures
            out@ == state_dir_of(self@, "events"@),
    {
        join_path(self.state_root().as_str(), "events")
    }

    /// The directory of the checkouts of isolated tasks.
    pub fn worktrees_dir(&self) -> (out: String)
        ensures
            out@ == state_dir_of(self@, "worktrees"@),
    {
        join_path(self.state_root().as_str(), "worktrees")
    }

    /// The model registry. It stands beside the run-time state, not in it, so
    /// that it can be kept under version control.
    pub fn models_path(&self) -> (out: String)
        ensures
            out@ == joined_path(self@, "supervisor.models.toml"@),
    {
        join_path(self.codex_home.as_str(), "supervisor.models.toml")
    }

    /// The lock file.
    pub fn lock_path(&self) -> (out: String)
        ensures
            out@ == state_dir_of(self@, "supervisor.lock"@),
    {
        join_path(self.state_root().as_str(), "supervisor.lock")
    }

    /// The directories that have to exist before anything is written, in the
    /// order in which they are made.
    pub fn ensure_layout(&self) -> (out: Vec<String>)
        ensures
            text::texts(out@) == seq![
                state_dir_of(self@, "tasks"@),
                state_dir_of(self@, "sessions"@),
            ],
    {
        let mut out: Vec<String> = Vec::new();
        out.push(self.tasks_dir());
        out.push(self.sessions_dir());
        assert(text::texts(out@) =~= seq![
            state_dir_of(self@, "tasks"@),
            state_dir_of(self@, "sessions"@),
        ]);
        out
    }

    /// What to do after one attempt to take the lock, `retries` attempts after
    /// the first. A lock that is still held after the last retry belongs to
    /// another running supervisor.
    pub fn acquire_singleton_lock(&self, retries: u32, attempt: LockAttempt) -> (step: LockStep)
        ensures
            match attempt {
                LockAttempt::Acquired => step matches LockStep::Held(lock) && lock@
                    == state_dir_of(self@, "supervisor.lock"@),
                LockAttempt::WouldBlock => if retries < LOCK_RETRIES {
                    step == (LockStep::Retry { after_millis: LOCK_RETRY_MILLIS })
                } else {
                    step matches LockStep::Refused(error) && error
                        matches LockError::AlreadyRunning { path } && path@ == state_dir_of(
                        self@,
                        "supervisor.lock"@,
                    )
                },
                LockAttempt::Failed { detail } => step == LockStep::Refused(
                    LockError::Io { detail },
                ),
            },
    {
        match attempt {
            LockAttempt::Acquired => LockStep::Held(SupervisorLock { path: self.lock_path() }),
            LockAttempt::WouldBlock => {
                if retries < LOCK_RETRIES {
                    LockStep::Retry { after_millis: LOCK_RETRY_MILLIS }
                } else {
                    LockStep::Refused(LockError::AlreadyRunning { path: self.lock_path() })
                }
            },
            LockAttempt::Failed { detail } => LockStep::Refused(LockError::Io { detail }),
        }
    }
}

/// How often a blocked lock is tried again before it counts as held.
pub const LOCK_RETRIES: u32 = 10;

/// How long to wait before a blocked lock is tried again.
pub const LOCK_RETRY_MILLIS: u64 = 50;

/// The outcome of one attempt to take the lock.
#[derive(Debug)]
pub enum LockAttempt {
    /// The lock is ours.
    Acquired,
    /// Someone else holds it.
    WouldBlock,
    /// The lock file could not be opened or locked.
    Failed {
        /// What the system said.
        detail: String,
    },
}

/// What to do after an attempt to take the lock.
#[derive(Debug)]
pub enum LockStep {
    /// Go on, holding the lock.
    Held(SupervisorLock),
    /// Try again after a pause.
    Retry {
        /// The pause.
        after_millis: u64,
    },
    /// Give up.
    Refused(LockError),
}

/// Stands for the lock while it is held.
#[derive(Debug)]
pub struct SupervisorLock {
    path: String,
}

impl View for SupervisorLock {
    type V = Seq<char>;

    closed spec fn view(&self) -> Seq<char> {
        self.path@
    }
}

impl SupervisorLock {
    /// The lock file.
    pub fn path(&self) -> (out: &str)
        ensures
            out@ == self@,
    {
        self.path.as_str()
    }
}

/// What the holder of the lock writes into the lock file.
pub fn lock_note(pid: u32) -> (out: String)
    ensures
        out@ == "pid="@ + text::decimal(pid as nat) + "\n"@,
{
    text::cat3("pid=", text::decimal_text(pid as u128).as_str(), "\n")
}

/// Why the lock was not taken.
#[derive(Debug)]
pub enum LockError {
    /// Another supervisor holds it.
    AlreadyRunning {
        /// The lock file.
        path: String,
    },
    /// The lock file could not be used.
    Io {
        /// What the system said.
        detail: String,
    },
}

impl LockError {
    /// The error in words.
    pub open spec fn words(&self) -> Seq<char> {
        match self {
            LockError::AlreadyRunning { path } => "another supervisor instance holds the lock at "@
                + path@,
            LockError::Io { .. } => "failed to acquire supervisor lock"@,
        }
    }

    /// The error in words.
    pub fn message(&self) -> (out: String)
        ensures
            out@ == self.words(),
    {
        match self {
            LockError::AlreadyRunning { path } => text::cat2(
                "another supervisor instance holds the lock at ",
                path.as_str(),
            ),
            LockError::Io { .. } => "failed to acquire supervisor lock".to_owned(),
        }
    }
}

/// Why a record was not written or not read.
#[derive(Debug)]
pub enum StoreError {
    /// The file or directory could not be used.
    Io {
        /// Which one.
        path: String,
        /// Whether it does not exist.
        not_found: bool,
        /// What the system said.
        detail: String,
    },
    /// The record could not be put into its file form.
    Encode {
        /// The file it was meant for.
        path: String,
        /// What was wrong.
        detail: String,
    },
    /// The file does not hold a record.
    Decode {
        /// Which file.
        path: String,
        /// What was wrong.
        detail: String,
    },
}

impl StoreError {
    /// The error in words.
    pub open spec fn words(&self) -> Seq<char> {
        match self {
            StoreError::Io { path, .. } => "io error at "@ + path@,
            StoreError::Encode { path, .. } => "failed to encode record for "@ + path@,
            StoreError::Decode { path, .. } => "failed to decode record at "@ + path@,
        }
    }

    /// The error in words.
    pub fn message(&self) -> (out: String)
        ensures
            out@ == self.words(),
    {
        match self {
            StoreError::Io { path, .. } => text::cat2("io error at ", path.as_str()),
            StoreError::Encode { path, .. } => text::cat2(
                "failed to encode record for ",
                path.as_str(),
            ),
            StoreError::Decode { path, .. } => text::cat2(
                "failed to decode record at ",
                path.as_str(),
            ),
        }
    }
}

/// Whether a file called `name` is taken for a record: its extension is `json`.
pub open spec fn names_record(name: Seq<char>) -> bool {
    name.len() > 5 && text::has_suffix(name, ".json"@)
}

/// Whether a file called `name` is taken for a record.
pub fn is_record_file(name: &str) -> (yes: bool)
    ensures
        yes == names_record(name@),
{
    text::chars_of(name).len() > 5 && text::ends_with(name, ".json")
}

/// One entry of a directory of records.
#[derive(Debug)]
pub enum DirEntry<T> {
    /// The entry could not be listed.
    Broken {
        /// What the system said.
        detail: String,
    },
    /// A file, and what came of reading it as a record.
    File {
        /// Its name.
        name: String,
        /// The record, or why there is none.
        content: Result<T, StoreError>,
    },
}

/// A directory of records as it was found.
#[derive(Debug)]
pub enum DirListing<T> {
    /// There is no such directory.
    Missing,
    /// It could not be listed.
    Unreadable {
        /// What the system said.
        detail: String,
    },
    /// Its entries, in the order in which they were found.
    Entries(Vec<DirEntry<T>>),
}

/// A record file that was passed over, and why.
#[derive(Debug)]
pub struct SkippedFile {
    /// Which file.
    pub path: String,
    /// Why.
    pub reason: String,
}

/// What a scan of a directory gave: the records, and the damaged files.
#[derive(Debug)]
pub struct LoadReport<T> {
    /// The records.
    pub records: Vec<T>,
    /// The files that hold none, each with its reason.
    pub skipped: Vec<SkippedFile>,
}

/// The records among `entries`, in order.
pub open spec fn records_of<T>(entries: Seq<DirEntry<T>>) -> Seq<T>
    decreases entries.len(),
{
    if entries.len() == 0 {
        Seq::empty()
    } else {
        let before = records_of(entries.drop_last());
        match entries.last() {
            DirEntry::File { name, content: Ok(record) } if names_record(name@) => before.push(
                record,
            ),
            _ => before,
        }
    }
}

/// The damaged record files among `entries`, in order: the path of each, and
/// the reason in words.
pub open spec fn damaged_of<T>(dir: Seq<char>, entries: Seq<DirEntry<T>>) -> Seq<
    (Seq<char>, Seq<char>),
>
    decreases entries.len(),
{
    if entries.len() == 0 {
        Seq::empty()
    } else {
        let before = damaged_of(dir, entries.drop_last());
        match entries.last() {
            DirEntry::File { name, content: Err(error) } if names_record(name@) => before.push(
                (joined_path(dir, name@), error.words()),
            ),
            _ => before,
        }
    }
}

/// How many of `entries` are record files.
pub open spec fn record_files<T>(entries: Seq<DirEntry<T>>) -> nat
    decreases entries.len(),
{
    if entries.len() == 0 {
        0
    } else {
        record_files(entries.drop_last()) + match entries.last() {
            DirEntry::File { name, .. } if names_record(name@) => 1nat,
            _ => 0nat,
        }
    }
}

/// What a list of skipped files says, in texts.
pub open spec fn skipped_texts(list: Seq<SkippedFile>) -> Seq<(Seq<char>, Seq<char>)> {
    list.map_values(|file: SkippedFile| (file.path@, file.reason@))
}

/// What the system said of the first entry that could not be listed, if there
/// is one.
pub open spec fn first_breakage<T>(entries: Seq<DirEntry<T>>) -> Option<String>
    decreases entries.len(),
{
    if entries.len() == 0 {
        None
    } else {
        match first_breakage(entries.drop_last()) {
            Some(detail) => Some(detail),
            None => match entries.last() {
                DirEntry::Broken { detail } => Some(detail),
                DirEntry::File { .. } => None,
            },
        }
    }
}

proof fn lemma_breakage_stays_first<T>(entries: Seq<DirEntry<T>>, upto: int)
    requires
        0 <= upto <= entries.len(),
        first_breakage(entries.take(upto)) is Some,
    ensures
        first_breakage(entries) == first_breakage(entries.take(upto)),
    decreases entries.len(),
{
    if upto == entries.len() {
        assert(entries.take(upto) =~= entries);
    } else {
        assert(entries.drop_last().take(upto) =~= entries.take(upto));
        lemma_breakage_stays_first(entries.drop_last(), upto);
    }
}

/// Whether `out` is what comes of the scan of a directory. Where it does not
/// exist there are no records; where it cannot be listed whole, that is the
/// error.
pub open spec fn is_loaded<T>(
    dir: Seq<char>,
    found: DirListing<T>,
    out: Result<LoadReport<T>, StoreError>,
) -> bool {
    match found {
        DirListing::Missing => out matches Ok(report) && report.records@.len() == 0
            && report.skipped@.len() == 0,
        DirListing::Unreadable { detail } => out matches Err(error) && is_io_error(
            error,
            dir,
            detail,
        ),
        DirListing::Entries(entries) => match first_breakage(entries@) {
            Some(detail) => out matches Err(error) && is_io_error(error, dir, detail),
            None => out matches Ok(report) && report.records@ == records_of(entries@)
                && skipped_texts(report.skipped@) == damaged_of(dir, entries@),
        },
    }
}

/// Whether `error` says that the system refused `path`, with what it said.
pub open spec fn is_io_error(error: StoreError, path: Seq<char>, said: String) -> bool {
    error matches StoreError::Io { path: place, not_found, detail } && place@ == path && !not_found
        && detail == said
}

/// Sorts what was found in `dir` into records and damaged files. A damaged file
/// does not stop the scan, and none is dropped in silence.
pub fn load_dir<T>(dir: &str, found: DirListing<T>) -> (out: Result<LoadReport<T>, StoreError>)
    ensures
        is_loaded(dir@, found, out),
{
    let mut records: Vec<T> = Vec::new();
    let mut skipped: Vec<SkippedFile> = Vec::new();
    match found {
        DirListing::Missing => Ok(LoadReport { records, skipped }),
        DirListing::Unreadable { detail } => Err(
            StoreError::Io { path: dir.to_owned(), not_found: false, detail },
        ),
        DirListing::Entries(entries) => {
            let ghost all = entries@;
            assert(all.take(0) =~= Seq::<DirEntry<T>>::empty());
            assert(skipped_texts(skipped@) =~= damaged_of(dir@, all.take(0)));
            for entry in it: entries
                invariant
                    it.seq() == all,
                    found matches DirListing::Entries(given) && given@ == all,
                    first_breakage(all.take(it.index() as int)) is None,
                    records@ == records_of(all.take(it.index() as int)),
                    skipped_texts(skipped@) == damaged_of(dir@, all.take(it.index() as int)),
            {
                let ghost at = it.index() as int;
                assert(all.take(at + 1).drop_last() =~= all.take(at));
                assert(all.take(at + 1).last() == entry);
                match entry {
                    DirEntry::Broken { detail } => {
                        proof {
                            lemma_breakage_stays_first(all, at + 1);
                        }
                        return Err(StoreError::Io { path: dir.to_owned(), not_found: false, detail });
                    },
                    DirEntry::File { name, content } => {
                        if is_record_file(name.as_str()) {
                            match content {
                                Ok(record) => {
                                    records.push(record);
                                },
                                Err(error) => {
                                    let ghost earlier = skipped@;
                                    skipped.push(
                                        SkippedFile {
                                            path: join_path(dir, name.as_str()),
                                            reason: error.message(),
                                        },
                                    );
                                    assert(skipped_texts(skipped@) =~= skipped_texts(earlier).push(
                                        (joined_path(dir@, name@), error.words()),
                                    ));
                                },
                            }
                        }
                    },
                }
            }
            assert(all.take(all.len() as int) =~= all);
            Ok(LoadReport { records, skipped })
        },
    }
}

/// Law: a directory that holds one file, which is named as a record and reads as
/// one, gives exactly that record, and nothing is passed over.
pub proof fn law_single_record_is_given_back<T>(
    dir: Seq<char>,
    found: DirListing<T>,
    name: String,
    record: T,
    out: Result<LoadReport<T>, StoreError>,
)
    requires
        names_record(name@),
        found matches DirListing::Entries(entries) && entries@ == seq![
            DirEntry::File { name, content: Ok::<T, StoreError>(record) },
        ],
        is_loaded(dir, found, out),
    ensures
        out is Ok,
        out->Ok_0.records@ == seq![record],
        out->Ok_0.skipped@.len() == 0,
{
    let entries = found->Entries_0@;
    let rest = entries.drop_last();
    assert(rest =~= Seq::<DirEntry<T>>::empty());
    assert(first_breakage(rest) is None);
    assert(records_of(rest) =~= Seq::<T>::empty());
    assert(damaged_of(dir, rest).len() == 0);
    assert(records_of(entries) =~= seq![record]);
    assert(skipped_texts(out->Ok_0.skipped@).len() == out->Ok_0.skipped@.len());
}

/// Law: a scan accounts for every record file. Each one is either among the
/// records or among the damaged files, and none is in both.
pub proof fn law_scan_accounts_for_every_file<T>(dir: Seq<char>, entries: Seq<DirEntry<T>>)
    ensures
        records_of(entries).len() + damaged_of(dir, entries).len() == record_files(entries),
    decreases entries.len(),
{
    if entries.len() > 0 {
        law_scan_accounts_for_every_file(dir, entries.drop_last());
    }
}

} // verus!
