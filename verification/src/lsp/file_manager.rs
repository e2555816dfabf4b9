//! Which files are open in a language server, at which version, as of which modification.
use vstd::prelude::*;
use vstd::string::StringExecFns;
use crate::lsp::client::ClientError;
use crate::text::str_eq;

verus! {

/// A file modification time: seconds and nanoseconds since the Unix epoch.
#[derive(Clone, Copy, PartialEq, Eq, Debug, Structural)]
pub struct FileStamp {
    pub secs: i64,
    pub nanos: u32,
}

/// Metadata for a file currently open in the language server.
struct OpenFile {
    version: i32,
    modified_at: FileStamp,
}

/// Manages the `didOpen` / `didChange` / `didClose` lifecycle of files that need to
/// be visible to the language server. Tracks files by URI and compares modification
/// times to avoid redundant notifications.
pub struct FileManager {
    open_files: Vec<(String, OpenFile)>,
}

/// Error type for file manager operations.
pub enum FileError {
    Io(String),
    Client(ClientError),
}

impl FileError {
    /// The human-readable description of the error.
    pub open spec fn message_spec(&self) -> Seq<char> {
        match self {
            FileError::Io(m) => "file error: "@ + m@,
            FileError::Client(e) => e.message_spec(),
        }
    }

    /// The human-readable description of the error.
    pub fn message(&self) -> (r: String)
        ensures
            r@ == self.message_spec(),
    {
        match self {
            FileError::Io(m) => String::from_str("file error: ").concat(m.as_str()),
            FileError::Client(e) => e.message(),
        }
    }
}

/// What `ensure_open` has to tell the language server about a file.
#[derive(PartialEq, Eq, Debug, Structural)]
pub enum OpenAction {
    /// Not open yet: send `didOpen` with this version.
    Open { version: i32 },
    /// Open but modified on disk: send `didChange` with this version.
    Change { version: i32 },
    /// Open and unchanged: nothing to send.
    Unchanged,
}

/// The action for a file given the open files (URI to version and modification time).
pub open spec fn planned_action(files: Map<Seq<char>, (i32, FileStamp)>, uri: Seq<char>, mtime: FileStamp) -> OpenAction {
    if !files.contains_key(uri) {
        OpenAction::Open { version: 1 }
    } else if files[uri].1 == mtime {
        OpenAction::Unchanged
    } else {
        OpenAction::Change { version: (files[uri].0 + 1) as i32 }
    }
}

/// The map that a list of entries describes, later entries winning.
pub open spec fn entries_map(es: Seq<(Seq<char>, (i32, FileStamp))>) -> Map<Seq<char>, (i32, FileStamp)>
    decreases es.len(),
{
    if es.len() == 0 {
        Map::empty()
    } else {
        entries_map(es.drop_last()).insert(es.last().0, es.last().1)
    }
}

/// No key occurs twice in the entries.
pub open spec fn keys_distinct(es: Seq<(Seq<char>, (i32, FileStamp))>) -> bool {
    forall|i: int, j: int| 0 <= i < j < es.len() ==> #[trigger] es[i].0 != #[trigger] es[j].0
}

proof fn lemma_entries_map(es: Seq<(Seq<char>, (i32, FileStamp))>)
    requires
        keys_distinct(es),
    ensures
        forall|k: Seq<char>| entries_map(es).contains_key(k) <==> exists|j: int| 0 <= j < es.len() && #[trigger] es[j].0 == k,
        forall|i: int| 0 <= i < es.len() ==> #[trigger] entries_map(es)[es[i].0] == es[i].1,
        entries_map(es).dom().finite(),
        entries_map(es).dom().len() == es.len(),
    decreases es.len(),
{
    if es.len() > 0 {
        let prev = es.drop_last();
        lemma_entries_map(prev);
        if entries_map(prev).contains_key(es.last().0) {
            let j = choose|j: int| 0 <= j < prev.len() && #[trigger] prev[j].0 == es.last().0;
            assert(es[j].0 == es[es.len() - 1].0);
        }
        assert forall|k: Seq<char>| entries_map(es).contains_key(k) <==> exists|j: int| 0 <= j < es.len() && #[trigger] es[j].0 == k by {
            if entries_map(es).contains_key(k) {
                if k == es.last().0 {
                    assert(es[es.len() - 1].0 == k);
                } else {
                    let j = choose|j: int| 0 <= j < prev.len() && #[trigger] prev[j].0 == k;
                    assert(es[j].0 == k);
                }
            }
            if exists|j: int| 0 <= j < es.len() && #[trigger] es[j].0 == k {
                let j = choose|j: int| 0 <= j < es.len() && #[trigger] es[j].0 == k;
                if j < es.len() - 1 {
                    assert(prev[j].0 == k);
                }
            }
        }
        assert forall|i: int| 0 <= i < es.len() implies #[trigger] entries_map(es)[es[i].0] == es[i].1 by {
            if i < es.len() - 1 {
                assert(prev[i] == es[i]);
                assert(es[i].0 != es[es.len() - 1].0);
            }
        }
    }
}

/// Removing the entry at `i` removes its key from the map.
proof fn lemma_entries_remove(es: Seq<(Seq<char>, (i32, FileStamp))>, i: int)
    requires
        keys_distinct(es),
        0 <= i < es.len(),
    ensures
        keys_distinct(es.remove(i)),
        entries_map(es.remove(i)) == entries_map(es).remove(es[i].0),
{
    let rest = es.remove(i);
    assert forall|a: int, b: int| 0 <= a < b < rest.len() implies #[trigger] rest[a].0 != #[trigger] rest[b].0 by {
        let a2 = if a < i { a } else { a + 1 };
        let b2 = if b < i { b } else { b + 1 };
        assert(rest[a] == es[a2]);
        assert(rest[b] == es[b2]);
    }
    lemma_entries_map(es);
    lemma_entries_map(rest);
    let m1 = entries_map(rest);
    let m2 = entries_map(es).remove(es[i].0);
    assert forall|k: Seq<char>| m1.contains_key(k) <==> m2.contains_key(k) by {
        if m1.contains_key(k) {
            let j = choose|j: int| 0 <= j < rest.len() && #[trigger] rest[j].0 == k;
            let j2 = if j < i { j } else { j + 1 };
            assert(rest[j] == es[j2]);
            assert(es[j2].0 == k);
        }
        if m2.contains_key(k) {
            let j = choose|j: int| 0 <= j < es.len() && #[trigger] es[j].0 == k;
            assert(j != i);
            let j1 = if j < i { j } else { j - 1 };
            assert(rest[j1] == es[j]);
        }
    }
    assert forall|k: Seq<char>| m1.contains_key(k) implies m1[k] == m2[k] by {
        let j = choose|j: int| 0 <= j < rest.len() && #[trigger] rest[j].0 == k;
        let j2 = if j < i { j } else { j + 1 };
        assert(rest[j] == es[j2]);
        assert(m1[rest[j].0] == rest[j].1);
        assert(entries_map(es)[es[j2].0] == es[j2].1);
    }
    assert(m1 =~= m2);
}

impl FileManager {
    spec fn entry_views(&self) -> Seq<(Seq<char>, (i32, FileStamp))> {
        self.open_files@.map_values(|e: (String, OpenFile)| (e.0@, (e.1.version, e.1.modified_at)))
    }

    #[verifier::type_invariant]
    spec fn keys_unique(&self) -> bool {
        keys_distinct(self.entry_views())
    }

    /// The open files: URI to version and modification time.
    pub closed spec fn open_map(&self) -> Map<Seq<char>, (i32, FileStamp)> {
        entries_map(self.entry_views())
    }

    /// A manager with no open files.
    pub fn new() -> (r: Self)
        ensures
            r.open_map() == Map::<Seq<char>, (i32, FileStamp)>::empty(),
    {
        let r = FileManager { open_files: Vec::new() };
        assert(r.entry_views() =~= Seq::empty());
        r
    }

    /// Index of the entry for `uri`.
    fn find(&self, uri: &str) -> (r: Option<usize>)
        ensures
            match r {
                Some(i) => i < self.open_files@.len() && self.open_files@[i as int].0@ == uri@,
                None => forall|k: int| 0 <= k < self.open_files@.len() ==> self.open_files@[k].0@ != uri@,
            },
    {
        let mut i: usize = 0;
        while i < self.open_files.len()
            invariant
                i <= self.open_files@.len(),
                forall|k: int| 0 <= k < i ==> self.open_files@[k].0@ != uri@,
            decreases self.open_files@.len() - i,
        {
            if str_eq(self.open_files[i].0.as_str(), uri) {
                return Some(i);
            }
            i = i + 1;
        }
        None
    }

    proof fn lemma_lookup(&self, uri: Seq<char>, r: Option<usize>)
        requires
            keys_distinct(self.entry_views()),
            match r {
                Some(i) => i < self.open_files@.len() && self.open_files@[i as int].0@ == uri,
                None => forall|k: int| 0 <= k < self.open_files@.len() ==> self.open_files@[k].0@ != uri,
            },
        ensures
            match r {
                Some(i) => self.open_map().contains_key(uri) && self.open_map()[uri] == (
                    self.open_files@[i as int].1.version,
                    self.open_files@[i as int].1.modified_at,
                ),
                None => !self.open_map().contains_key(uri),
            },
    {
        let es = self.entry_views();
        lemma_entries_map(es);
        match r {
            Some(i) => {
                assert(es[i as int].0 == uri);
            },
            None => {
                if self.open_map().contains_key(uri) {
                    let k = choose|k: int| 0 <= k < es.len() && #[trigger] es[k].0 == uri;
                    assert(self.open_files@[k].0@ == uri);
                }
            },
        }
    }

    /// Whether `uri` is open.
    pub fn is_open(&self, uri: &str) -> (r: bool)
        ensures
            r == self.open_map().contains_key(uri@),
    {
        let f = self.find(uri);
        proof {
            use_type_invariant(self);
            self.lemma_lookup(uri@, f);
        }
        f.is_some()
    }

    /// The version at which `uri` is open.
    pub fn version_of(&self, uri: &str) -> (r: Option<i32>)
        ensures
            match r {
                Some(v) => self.open_map().contains_key(uri@) && self.open_map()[uri@].0 == v,
                None => !self.open_map().contains_key(uri@),
            },
    {
        let f = self.find(uri);
        proof {
            use_type_invariant(self);
            self.lemma_lookup(uri@, f);
        }
        match f {
            Some(i) => Some(self.open_files[i].1.version),
            None => None,
        }
    }

    /// What to tell the server about `uri`, whose file was last modified at `mtime`:
    /// open it at version 1 when it is not open, nothing when unchanged, else a change
    /// at the next version.
    pub fn plan_open(&self, uri: &str, mtime: FileStamp) -> (r: OpenAction)
        requires
            self.open_map().contains_key(uri@) ==> self.open_map()[uri@].0 < i32::MAX,
        ensures
            r == planned_action(self.open_map(), uri@, mtime),
    {
        let f = self.find(uri);
        proof {
            use_type_invariant(self);
            self.lemma_lookup(uri@, f);
        }
        match f {
            None => OpenAction::Open { version: 1 },
            Some(i) => {
                let open = &self.open_files[i].1;
                if open.modified_at == mtime {
                    OpenAction::Unchanged
                } else {
                    OpenAction::Change { version: open.version + 1 }
                }
            },
        }
    }

    /// Removes the entry for `uri`, if any; says whether there was one.
    fn remove_entry(&mut self, uri: &str) -> (r: bool)
        ensures
            r == old(self).open_map().contains_key(uri@),
            final(self).open_map() == old(self).open_map().remove(uri@),
    {
        proof {
            use_type_invariant(&*self);
        }
        let f = self.find(uri);
        proof {
            use_type_invariant(&*self);
            self.lemma_lookup(uri@, f);
        }
        match f {
            Some(i) => {
                let ghost es = self.entry_views();
                proof {
                    lemma_entries_remove(es, i as int);
                }
                let mut files = Vec::new();
                std::mem::swap(&mut files, &mut self.open_files);
                let _ = files.remove(i);
                assert(files@.map_values(|e: (String, OpenFile)| (e.0@, (e.1.version, e.1.modified_at))) =~= es.remove(i as int));
                self.open_files = files;
                true
            },
            None => {
                assert(self.open_map().remove(uri@) =~= self.open_map());
                false
            },
        }
    }

    /// Records that `uri` is open at `version` as of `mtime`.
    pub fn record(&mut self, uri: String, version: i32, mtime: FileStamp)
        ensures
            final(self).open_map() == old(self).open_map().insert(uri@, (version, mtime)),
    {
        let _ = self.remove_entry(uri.as_str());
        proof {
            use_type_invariant(&*self);
        }
        let ghost es = self.entry_views();
        let ghost uv = uri@;
        proof {
            lemma_entries_map(es);
            assert forall|k: int| 0 <= k < es.len() implies es[k].0 != uv by {
                if es[k].0 == uv {
                    assert(entries_map(es).contains_key(uv));
                }
            }
        }
        let mut files = Vec::new();
        std::mem::swap(&mut files, &mut self.open_files);
        files.push((uri, OpenFile { version, modified_at: mtime }));
        assert(files@.map_values(|e: (String, OpenFile)| (e.0@, (e.1.version, e.1.modified_at))) =~= es.push((uv, (version, mtime))));
        assert(es.push((uv, (version, mtime))).drop_last() =~= es);
        self.open_files = files;
        assert(self.open_map().remove(uv).insert(uv, (version, mtime)) =~= self.open_map().insert(uv, (version, mtime)));
    }

    /// Stops tracking `uri`; says whether it was open, in which case the server is
    /// to be told that it closed.
    pub fn close(&mut self, uri: &str) -> (r: bool)
        ensures
            r == old(self).open_map().contains_key(uri@),
            final(self).open_map() == old(self).open_map().remove(uri@),
    {
        self.remove_entry(uri)
    }

    /// Stops tracking every file and hands back the URIs that were open.
    pub fn close_all(&mut self) -> (r: Vec<String>)
        ensures
            final(self).open_map() == Map::<Seq<char>, (i32, FileStamp)>::empty(),
            forall|k: Seq<char>| old(self).open_map().contains_key(k) <==> exists|j: int| 0 <= j < r@.len() && #[trigger] r@[j]@ == k,
            r@.len() == old(self).open_map().dom().len(),
    {
        proof {
            use_type_invariant(&*self);
            lemma_entries_map(self.entry_views());
        }
        let ghost es = self.entry_views();
        let mut files = Vec::new();
        std::mem::swap(&mut files, &mut self.open_files);
        let mut uris: Vec<String> = Vec::new();
        let mut i: usize = 0;
        while i < files.len()
            invariant
                i <= files@.len(),
                uris@.len() == i,
                es == files@.map_values(|e: (String, OpenFile)| (e.0@, (e.1.version, e.1.modified_at))),
                forall|j: int| 0 <= j < i ==> #[trigger] uris@[j]@ == files@[j].0@,
            decreases files@.len() - i,
        {
            uris.push(files[i].0.clone());
            i = i + 1;
        }
        assert(self.entry_views() =~= Seq::empty());
        assert forall|k: Seq<char>| entries_map(es).contains_key(k) <==> exists|j: int| 0 <= j < uris@.len() && #[trigger] uris@[j]@ == k by {
            if entries_map(es).contains_key(k) {
                let j = choose|j: int| 0 <= j < es.len() && #[trigger] es[j].0 == k;
                assert(uris@[j]@ == k);
            }
            if exists|j: int| 0 <= j < uris@.len() && #[trigger] uris@[j]@ == k {
                let j = choose|j: int| 0 <= j < uris@.len() && #[trigger] uris@[j]@ == k;
                assert(es[j].0 == k);
            }
        }
        uris
    }
}

/// A file just recorded at a modification time needs nothing more until it changes.
pub proof fn law_recorded_file_is_unchanged(
    files: Map<Seq<char>, (i32, FileStamp)>,
    uri: Seq<char>,
    version: i32,
    mtime: FileStamp,
)
    ensures
        planned_action(files.insert(uri, (version, mtime)), uri, mtime) == OpenAction::Unchanged,
{
}

/// A closed file is opened afresh, at version 1.
pub proof fn law_closed_file_reopens_at_first_version(
    files: Map<Seq<char>, (i32, FileStamp)>,
    uri: Seq<char>,
    mtime: FileStamp,
)
    ensures
        planned_action(files.remove(uri), uri, mtime) == (OpenAction::Open { version: 1 }),
{
}

/// A file recorded at a version and then modified is changed at the next version.
pub proof fn law_modified_file_changes_at_next_version(
    files: Map<Seq<char>, (i32, FileStamp)>,
    uri: Seq<char>,
    version: i32,
    recorded: FileStamp,
    mtime: FileStamp,
)
    requires
        recorded != mtime,
        version < i32::MAX,
    ensures
        planned_action(files.insert(uri, (version, recorded)), uri, mtime) == (OpenAction::Change { version: (version + 1) as i32 }),
{
}

/// The life of one file: opened at version 1; nothing sent while its modification time
/// stays the same, however its text changes; once the time changes, one change at
/// version 2; after that, nothing again until the next change of time.
pub proof fn law_open_then_change(
    files: Map<Seq<char>, (i32, FileStamp)>,
    uri: Seq<char>,
    opened: FileStamp,
    modified: FileStamp,
)
    requires
        !files.contains_key(uri),
        opened != modified,
    ensures
        planned_action(files, uri, opened) == (OpenAction::Open { version: 1 }),
        planned_action(files.insert(uri, (1, opened)), uri, opened) == OpenAction::Unchanged,
        planned_action(files.insert(uri, (1, opened)), uri, modified) == (OpenAction::Change { version: 2 }),
        planned_action(files.insert(uri, (1, opened)).insert(uri, (2, modified)), uri, modified) == OpenAction::Unchanged,
{
}

} // verus!
