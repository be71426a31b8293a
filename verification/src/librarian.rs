//! The file indexer: which files are indexed, what is kept of each, and
//! what is reported of it.

use crate::index::{
    distinct_paths, has_path, holds, inserted, lemma_insert_keeps_others,
    lemma_inserted_distinct, lemma_position, lemma_position_unique, lemma_removed,
    lemma_removed_keeps_absent, position, removed, EntryView, FileEntry, FileIndex, Timestamp,
};
use crate::json::{
    members_value, no_members, object_document, optional_text_document, push_member, rendered,
    text_document, unsigned_document, Json, JsonNumber, JsonValue,
};
use crate::text::{chars_of, lowercase, matches_at, occurs_at, str_equal, to_lowercase};
use vstd::prelude::*;

verus! {

/// A file larger than this many bytes is not indexed: 100 MiB.
pub const MAX_FILE_BYTES: u64 = 104857600;

/// What the file system tells of a file.
#[derive(Clone, Copy, Debug, PartialEq, Eq, Structural)]
pub struct FileStat {
    /// The length in bytes.
    pub len: u64,
    /// The time of the last change, where the file system tells it.
    pub modified: Option<Timestamp>,
}

/// What was found out about one path before the indexer decides on it.
#[derive(Debug, PartialEq, Eq)]
pub struct FileProbe {
    /// The path as text.
    pub path: String,
    /// The last component of the path as text, where the path has one.
    pub display_name: Option<String>,
    /// The last component of the path, where the path has one and it is
    /// well-formed text.
    pub file_name: Option<String>,
    /// The extension of the file name, where it has one and it is
    /// well-formed text.
    pub extension: Option<String>,
    /// Whether the path is a regular file.
    pub is_file: bool,
    /// What the file system tells of the file; `None` where it cannot.
    pub stat: Option<FileStat>,
}

/// A hidden file: its name begins with a dot.
pub open spec fn is_hidden(probe: FileProbe) -> bool {
    probe.display_name matches Some(name) && name@.len() > 0 && name@[0] == '.'
}

/// A character that parts the components of a path.
pub open spec fn is_separator(c: char) -> bool {
    c == '/' || c == '\\'
}

/// The name of a directory of build output, caches or tool state, in
/// lower case.
pub open spec fn skipped_name(name: Seq<char>) -> bool {
    ||| name == "node_modules"@
    ||| name == "target"@
    ||| name == ".git"@
    ||| name == ".vscode"@
    ||| name == "dist"@
    ||| name == "build"@
    ||| name == "__pycache__"@
    ||| name == ".next"@
    ||| name == ".cache"@
}

/// A component of the path begins at `from`: the path begins there, or a
/// separator stands before.
pub open spec fn starts_component(path: Seq<char>, from: int) -> bool {
    from == 0 || (0 < from <= path.len() && is_separator(path[from - 1]))
}

/// The characters `path[from..to]` are the name of a skipped directory,
/// and a separator follows them.
pub open spec fn names_dir(path: Seq<char>, from: int, to: int) -> bool {
    &&& 0 <= from < to < path.len()
    &&& is_separator(path[to])
    &&& skipped_name(path.subrange(from, to))
}

/// A path, in lower case, that goes through a directory of build output,
/// caches or tool state: one of its components that a separator follows
/// is the name of such a directory. The last component, the name of the
/// file itself, is no directory, and a name that only holds such a name is
/// none either.
pub open spec fn in_skipped_dir(lower_path: Seq<char>) -> bool {
    exists|from: int, to: int|
        starts_component(lower_path, from) && #[trigger] names_dir(lower_path, from, to)
}

/// The name `name` stands in `path` at `from`, and a separator follows it.
pub open spec fn named_at(path: Seq<char>, name: Seq<char>, from: int) -> bool {
    &&& occurs_at(path, name, from)
    &&& from + name.len() < path.len()
    &&& is_separator(path[from + name.len()])
}

/// The name of a skipped directory that stands at `from` before a
/// separator is a skipped directory there.
pub proof fn lemma_named_at(path: Seq<char>, name: Seq<char>, from: int)
    requires
        skipped_name(name),
        named_at(path, name, from),
    ensures
        names_dir(path, from, from + name.len()),
{
    reveal_strlit("node_modules");
    reveal_strlit("target");
    reveal_strlit(".git");
    reveal_strlit(".vscode");
    reveal_strlit("dist");
    reveal_strlit("build");
    reveal_strlit("__pycache__");
    reveal_strlit(".next");
    reveal_strlit(".cache");
    assert(name.len() > 0);
}

/// A skipped directory at `from` is one of the nine names, standing there
/// before a separator.
pub proof fn lemma_names_dir(path: Seq<char>, from: int, to: int)
    requires
        names_dir(path, from, to),
    ensures
        ({
            ||| named_at(path, "node_modules"@, from)
            ||| named_at(path, "target"@, from)
            ||| named_at(path, ".git"@, from)
            ||| named_at(path, ".vscode"@, from)
            ||| named_at(path, "dist"@, from)
            ||| named_at(path, "build"@, from)
            ||| named_at(path, "__pycache__"@, from)
            ||| named_at(path, ".next"@, from)
            ||| named_at(path, ".cache"@, from)
        }),
{
    let name = path.subrange(from, to);
    assert(name.len() == to - from);
    assert(occurs_at(path, name, from));
}

/// Tells whether `name` stands in `path` at `from` before a separator.
pub fn dir_named_at(path: &Vec<char>, name: &str, from: usize) -> (r: bool)
    ensures
        r == named_at(path@, name@, from as int),
{
    let n = chars_of(name);
    if !matches_at(path, &n, from) {
        return false;
    }
    assert(occurs_at(path@, n@, from as int));
    assert(from + n.len() <= path.len());
    let end: usize = from + n.len();
    end < path.len() && (path[end] == '/' || path[end] == '\\')
}

/// Tells whether the name of a skipped directory stands in `path` at
/// `from` before a separator.
pub fn skipped_dir_at(path: &Vec<char>, from: usize) -> (r: bool)
    ensures
        r == exists|to: int| names_dir(path@, from as int, to),
{
    let r = dir_named_at(path, "node_modules", from) || dir_named_at(path, "target", from)
        || dir_named_at(path, ".git", from) || dir_named_at(path, ".vscode", from) || dir_named_at(
        path,
        "dist",
        from,
    ) || dir_named_at(path, "build", from) || dir_named_at(path, "__pycache__", from)
        || dir_named_at(path, ".next", from) || dir_named_at(path, ".cache", from);
    proof {
        let p = path@;
        let f = from as int;
        if r {
            let name = if named_at(p, "node_modules"@, f) {
                "node_modules"@
            } else if named_at(p, "target"@, f) {
                "target"@
            } else if named_at(p, ".git"@, f) {
                ".git"@
            } else if named_at(p, ".vscode"@, f) {
                ".vscode"@
            } else if named_at(p, "dist"@, f) {
                "dist"@
            } else if named_at(p, "build"@, f) {
                "build"@
            } else if named_at(p, "__pycache__"@, f) {
                "__pycache__"@
            } else if named_at(p, ".next"@, f) {
                ".next"@
            } else {
                ".cache"@
            };
            lemma_named_at(p, name, f);
            assert(names_dir(p, f, f + name.len()));
        } else {
            assert forall|to: int| !names_dir(p, f, to) by {
                if names_dir(p, f, to) {
                    lemma_names_dir(p, f, to);
                }
            }
        }
    }
    r
}

/// Tells whether a path, in lower case, goes through a skipped directory.
pub fn path_in_skipped_dir(path: &Vec<char>) -> (r: bool)
    ensures
        r == in_skipped_dir(path@),
{
    let mut from: usize = 0;
    while from < path.len()
        invariant
            from <= path.len(),
            forall|f: int, to: int|
                0 <= f < from && starts_component(path@, f) ==> !#[trigger] names_dir(path@, f, to),
        decreases path.len() - from,
    {
        if (from == 0 || path[from - 1] == '/' || path[from - 1] == '\\') && skipped_dir_at(
            path,
            from,
        ) {
            proof {
                let to = choose|to: int| names_dir(path@, from as int, to);
                assert(starts_component(path@, from as int) && names_dir(path@, from as int, to));
            }
            return true;
        }
        from += 1;
    }
    false
}

/// A file whose length is known and over the limit.
pub open spec fn is_oversized(probe: FileProbe) -> bool {
    probe.stat matches Some(stat) && stat.len > MAX_FILE_BYTES
}

/// A file that the indexer passes over, given its path in lower case.
pub open spec fn skipped_lowered(probe: FileProbe, lower_path: Seq<char>) -> bool {
    is_hidden(probe) || in_skipped_dir(lower_path) || is_oversized(probe)
}

/// A file that the indexer passes over: hidden, in a skipped directory, or
/// too large. The rule is one, whenever the file is met.
pub open spec fn skipped(probe: FileProbe) -> bool {
    skipped_lowered(probe, lowercase(probe.path@))
}

/// Tells whether the indexer passes over a file, given its path in lower
/// case.
pub fn should_skip_lowered(probe: &FileProbe, lower_path: &str) -> (r: bool)
    ensures
        r == skipped_lowered(*probe, lower_path@),
{
    match &probe.display_name {
        Some(name) => {
            let n = chars_of(name.as_str());
            if n.len() > 0 && n[0] == '.' {
                return true;
            }
        },
        None => {},
    }
    let p = chars_of(lower_path);
    if path_in_skipped_dir(&p) {
        return true;
    }
    match &probe.stat {
        Some(stat) => stat.len > MAX_FILE_BYTES,
        None => false,
    }
}

/// Tells whether the indexer passes over a file.
pub fn should_skip(probe: &FileProbe) -> (r: bool)
    ensures
        r == skipped(*probe),
{
    let lower = to_lowercase(probe.path.as_str());
    should_skip_lowered(probe, lower.as_str())
}

/// Why a file could not be indexed.
#[derive(Clone, Copy, Debug, PartialEq, Eq, Structural)]
pub enum IndexError {
    /// The file system told nothing of the file.
    MetadataUnavailable,
}

/// The entry for a file: `None` where the file system tells nothing of it.
/// A name that is no well-formed text is `unknown`; a time of change that
/// the file system does not tell is the time of indexing.
pub open spec fn entry_of(probe: FileProbe, now: Timestamp) -> Option<EntryView> {
    match probe.stat {
        None => None,
        Some(stat) => Some(
            EntryView {
                path: probe.path@,
                file_name: match probe.file_name {
                    Some(name) => name@,
                    None => "unknown"@,
                },
                extension: match probe.extension {
                    Some(e) => Some(e@),
                    None => None,
                },
                size_bytes: stat.len,
                modified: match stat.modified {
                    Some(t) => t,
                    None => now,
                },
            },
        ),
    }
}

/// Makes the entry for a file.
pub fn create_file_entry(probe: &FileProbe, now: Timestamp) -> (r: Result<FileEntry, IndexError>)
    ensures
        match r {
            Ok(e) => entry_of(*probe, now) == Some(e@),
            Err(_) => entry_of(*probe, now) is None,
        },
{
    let stat = match &probe.stat {
        Some(stat) => *stat,
        None => {
            return Err(IndexError::MetadataUnavailable);
        },
    };
    let file_name = match &probe.file_name {
        Some(name) => name.clone(),
        None => String::from_str("unknown"),
    };
    let extension = match &probe.extension {
        Some(e) => Some(e.clone()),
        None => None,
    };
    let modified = match stat.modified {
        Some(t) => t,
        None => now,
    };
    Ok(
        FileEntry {
            path: probe.path.clone(),
            file_name,
            extension,
            size_bytes: stat.len,
            modified,
        },
    )
}

/// What a file is, by its extension.
#[derive(Clone, Copy, Debug, PartialEq, Eq, Structural)]
pub enum ArtifactKind {
    Document,
    Image,
    Audio,
    Video,
    Archive,
    Executable,
    GameSave,
    File,
}

/// The kind of a file with the given extension. Extensions are lower case
/// and exact.
pub open spec fn kind_of_extension(extension: Option<Seq<char>>) -> ArtifactKind {
    match extension {
        None => ArtifactKind::File,
        Some(e) => if e == "pdf"@ || e == "docx"@ || e == "txt"@ || e == "md"@ {
            ArtifactKind::Document
        } else if e == "jpg"@ || e == "png"@ || e == "gif"@ || e == "bmp"@ {
            ArtifactKind::Image
        } else if e == "mp3"@ || e == "wav"@ || e == "flac"@ {
            ArtifactKind::Audio
        } else if e == "mp4"@ || e == "avi"@ || e == "mkv"@ {
            ArtifactKind::Video
        } else if e == "zip"@ || e == "rar"@ || e == "7z"@ {
            ArtifactKind::Archive
        } else if e == "exe"@ || e == "msi"@ || e == "app"@ {
            ArtifactKind::Executable
        } else if e == "sav"@ || e == "dat"@ || e == "save"@ {
            ArtifactKind::GameSave
        } else {
            ArtifactKind::File
        },
    }
}

/// The name of a kind, as the artifact sink knows it.
pub open spec fn kind_name(kind: ArtifactKind) -> Seq<char> {
    match kind {
        ArtifactKind::Document => "DOCUMENT"@,
        ArtifactKind::Image => "IMAGE"@,
        ArtifactKind::Audio => "AUDIO"@,
        ArtifactKind::Video => "VIDEO"@,
        ArtifactKind::Archive => "ARCHIVE"@,
        ArtifactKind::Executable => "EXECUTABLE"@,
        ArtifactKind::GameSave => "GAME_SAVE"@,
        ArtifactKind::File => "FILE"@,
    }
}

impl ArtifactKind {
    /// The kind of a file with the given extension.
    pub fn of_extension(extension: Option<&str>) -> (r: ArtifactKind)
        ensures
            r == kind_of_extension(
                match extension {
                    Some(e) => Some(e@),
                    None => None,
                },
            ),
    {
        let e = match extension {
            Some(e) => e,
            None => {
                return ArtifactKind::File;
            },
        };
        if str_equal(e, "pdf") || str_equal(e, "docx") || str_equal(e, "txt") || str_equal(
            e,
            "md",
        ) {
            ArtifactKind::Document
        } else if str_equal(e, "jpg") || str_equal(e, "png") || str_equal(e, "gif") || str_equal(
            e,
            "bmp",
        ) {
            ArtifactKind::Image
        } else if str_equal(e, "mp3") || str_equal(e, "wav") || str_equal(e, "flac") {
            ArtifactKind::Audio
        } else if str_equal(e, "mp4") || str_equal(e, "avi") || str_equal(e, "mkv") {
            ArtifactKind::Video
        } else if str_equal(e, "zip") || str_equal(e, "rar") || str_equal(e, "7z") {
            ArtifactKind::Archive
        } else if str_equal(e, "exe") || str_equal(e, "msi") || str_equal(e, "app") {
            ArtifactKind::Executable
        } else if str_equal(e, "sav") || str_equal(e, "dat") || str_equal(e, "save") {
            ArtifactKind::GameSave
        } else {
            ArtifactKind::File
        }
    }

    /// The name of the kind.
    pub fn as_str(&self) -> (r: &'static str)
        ensures
            r@ == kind_name(*self),
    {
        match self {
            ArtifactKind::Document => "DOCUMENT",
            ArtifactKind::Image => "IMAGE",
            ArtifactKind::Audio => "AUDIO",
            ArtifactKind::Video => "VIDEO",
            ArtifactKind::Archive => "ARCHIVE",
            ArtifactKind::Executable => "EXECUTABLE",
            ArtifactKind::GameSave => "GAME_SAVE",
            ArtifactKind::File => "FILE",
        }
    }
}

/// What is reported of an indexed file to the artifact sink.
#[derive(Clone, Debug, PartialEq, Eq)]
pub struct Artifact {
    pub kind: ArtifactKind,
    pub content: String,
    pub file_path: String,
    pub file_name: String,
    pub extension: Option<String>,
    pub size_bytes: u64,
}

/// What an `Artifact` stands for.
pub struct ArtifactView {
    pub kind: ArtifactKind,
    pub content: Seq<char>,
    pub file_path: Seq<char>,
    pub file_name: Seq<char>,
    pub extension: Option<Seq<char>>,
    pub size_bytes: u64,
}

impl View for Artifact {
    type V = ArtifactView;

    open spec fn view(&self) -> ArtifactView {
        ArtifactView {
            kind: self.kind,
            content: self.content@,
            file_path: self.file_path@,
            file_name: self.file_name@,
            extension: match self.extension {
                Some(e) => Some(e@),
                None => None,
            },
            size_bytes: self.size_bytes,
        }
    }
}

/// The artifact of an entry. Its content is the path, the file name and
/// the kind, with ` | ` between them.
pub open spec fn artifact_of(entry: EntryView) -> ArtifactView {
    let kind = kind_of_extension(entry.extension);
    ArtifactView {
        kind,
        content: entry.path + " | "@ + entry.file_name + " | "@ + kind_name(kind),
        file_path: entry.path,
        file_name: entry.file_name,
        extension: entry.extension,
        size_bytes: entry.size_bytes,
    }
}

/// The body that is posted to the artifact sink for an artifact. The
/// members of each object stand in the order of their names.
pub open spec fn artifact_json(a: ArtifactView) -> JsonValue {
    JsonValue::Object(
        seq![
            ("content"@, JsonValue::Text(a.content)),
            ("metadata"@, JsonValue::Object(artifact_metadata(a))),
            ("type"@, JsonValue::Text(kind_name(a.kind))),
        ],
    )
}

/// The member `metadata` of the body that is posted for an artifact.
pub open spec fn artifact_metadata(a: ArtifactView) -> Seq<(Seq<char>, JsonValue)> {
    seq![
        (
            "extension"@,
            match a.extension {
                Some(e) => JsonValue::Text(e),
                None => JsonValue::Null,
            },
        ),
        ("file_name"@, JsonValue::Text(a.file_name)),
        ("file_path"@, JsonValue::Text(a.file_path)),
        ("size_bytes"@, JsonValue::Number(JsonNumber::Unsigned(a.size_bytes))),
    ]
}

/// Makes the artifact of an entry.
pub fn file_artifact(entry: &FileEntry) -> (r: Artifact)
    ensures
        r@ == artifact_of(entry@),
{
    let extension: Option<&str> = match &entry.extension {
        Some(e) => Some(e.as_str()),
        None => None,
    };
    let kind = ArtifactKind::of_extension(extension);
    let mut content = entry.path.clone();
    content.append(" | ");
    content.append(entry.file_name.as_str());
    content.append(" | ");
    content.append(kind.as_str());
    Artifact {
        kind,
        content,
        file_path: entry.path.clone(),
        file_name: entry.file_name.clone(),
        extension: match &entry.extension {
            Some(e) => Some(e.clone()),
            None => None,
        },
        size_bytes: entry.size_bytes,
    }
}

impl Artifact {
    /// The body that is posted for the artifact, as a document.
    pub fn to_json(&self) -> (r: Json)
        ensures
            r@ == artifact_json(self@),
    {
        let extension: Option<&str> = match &self.extension {
            Some(e) => Some(e.as_str()),
            None => None,
        };
        let mut metadata = no_members();
        push_member(&mut metadata, "extension", optional_text_document(extension));
        push_member(&mut metadata, "file_name", text_document(self.file_name.as_str()));
        push_member(&mut metadata, "file_path", text_document(self.file_path.as_str()));
        push_member(&mut metadata, "size_bytes", unsigned_document(self.size_bytes));
        let ghost meta = members_value(metadata@);
        assert(meta =~= artifact_metadata(self@));
        let mut members = no_members();
        push_member(&mut members, "content", text_document(self.content.as_str()));
        push_member(&mut members, "metadata", object_document(metadata));
        push_member(&mut members, "type", text_document(self.kind.as_str()));
        assert(members_value(members@) =~= seq![
            ("content"@, JsonValue::Text(self@.content)),
            ("metadata"@, JsonValue::Object(meta)),
            ("type"@, JsonValue::Text(kind_name(self@.kind))),
        ]);
        object_document(members)
    }

    /// The body that is posted for the artifact, as text.
    pub fn body(&self) -> (r: String)
        ensures
            r@ == rendered(artifact_json(self@)),
    {
        self.to_json().render()
    }
}

/// The entry that a file comes to in the index: that of a regular file
/// that is not passed over and of which the file system tells.
pub open spec fn indexable(probe: FileProbe, now: Timestamp) -> Option<EntryView> {
    if probe.is_file && !skipped(probe) {
        entry_of(probe, now)
    } else {
        None
    }
}

/// The index after a pass over `probes`, in order: every file that comes
/// to an entry is put in, over the entry that its path had.
pub open spec fn indexed(entries: Seq<EntryView>, probes: Seq<FileProbe>, now: Timestamp) -> Seq<
    EntryView,
>
    decreases probes.len(),
{
    if probes.len() == 0 {
        entries
    } else {
        let before = indexed(entries, probes.drop_last(), now);
        match indexable(probes.last(), now) {
            Some(e) => inserted(before, e),
            None => before,
        }
    }
}

/// The artifacts of a pass over `probes`: one for every file that comes to
/// an entry, in order.
pub open spec fn emitted(probes: Seq<FileProbe>, now: Timestamp) -> Seq<ArtifactView>
    decreases probes.len(),
{
    if probes.len() == 0 {
        Seq::<ArtifactView>::empty()
    } else {
        let before = emitted(probes.drop_last(), now);
        match indexable(probes.last(), now) {
            Some(e) => before.push(artifact_of(e)),
            None => before,
        }
    }
}

/// The index without the entries for the paths of `probes`.
pub open spec fn unindexed(entries: Seq<EntryView>, probes: Seq<FileProbe>) -> Seq<EntryView>
    decreases probes.len(),
{
    if probes.len() == 0 {
        entries
    } else {
        removed(unindexed(entries, probes.drop_last()), probes.last().path@)
    }
}

/// The views of artifacts, in order.
pub open spec fn artifacts_view(artifacts: Seq<Artifact>) -> Seq<ArtifactView> {
    Seq::new(artifacts.len(), |i: int| artifacts[i]@)
}

/// A pass keeps the paths of the index distinct.
pub proof fn lemma_indexed_distinct(entries: Seq<EntryView>, probes: Seq<FileProbe>, now: Timestamp)
    requires
        distinct_paths(entries),
    ensures
        distinct_paths(indexed(entries, probes, now)),
    decreases probes.len(),
{
    if probes.len() > 0 {
        lemma_indexed_distinct(entries, probes.drop_last(), now);
        if let Some(e) = indexable(probes.last(), now) {
            lemma_inserted_distinct(indexed(entries, probes.drop_last(), now), e);
        }
    }
}

/// Taking entries out keeps the paths of the index distinct.
pub proof fn lemma_unindexed_distinct(entries: Seq<EntryView>, probes: Seq<FileProbe>)
    requires
        distinct_paths(entries),
    ensures
        distinct_paths(unindexed(entries, probes)),
    decreases probes.len(),
{
    if probes.len() > 0 {
        lemma_unindexed_distinct(entries, probes.drop_last());
        lemma_removed(unindexed(entries, probes.drop_last()), probes.last().path@);
    }
}

/// Puts the files of `probes` that come to an entry into the index, and
/// hands back their artifacts.
pub fn index_probes(index: &mut FileIndex, probes: &Vec<FileProbe>, now: Timestamp) -> (r: Vec<
    Artifact,
>)
    requires
        old(index).wf(),
    ensures
        final(index).wf(),
        final(index)@ == indexed(old(index)@, probes@, now),
        artifacts_view(r@) == emitted(probes@, now),
{
    let mut out: Vec<Artifact> = Vec::new();
    let mut i: usize = 0;
    assert(probes@.take(0) =~= Seq::<FileProbe>::empty());
    assert(artifacts_view(out@) =~= Seq::<ArtifactView>::empty());
    while i < probes.len()
        invariant
            i <= probes.len(),
            index.wf(),
            index@ == indexed(old(index)@, probes@.take(i as int), now),
            artifacts_view(out@) == emitted(probes@.take(i as int), now),
        decreases probes.len() - i,
    {
        let probe = &probes[i];
        proof {
            let next = probes@.take(i + 1);
            assert(next.drop_last() =~= probes@.take(i as int));
            assert(next.last() == *probe);
        }
        if probe.is_file && !should_skip(probe) {
            match create_file_entry(probe, now) {
                Ok(entry) => {
                    let artifact = file_artifact(&entry);
                    index.insert(entry);
                    let ghost before = out@;
                    out.push(artifact);
                    assert(artifacts_view(out@) =~= artifacts_view(before).push(artifact@));
                },
                Err(_) => {},
            }
        }
        i += 1;
    }
    assert(probes@.take(probes@.len() as int) =~= probes@);
    out
}

/// Takes the entries for the paths of `probes` out of the index.
pub fn unindex_probes(index: &mut FileIndex, probes: &Vec<FileProbe>)
    requires
        old(index).wf(),
    ensures
        final(index).wf(),
        final(index)@ == unindexed(old(index)@, probes@),
{
    let mut i: usize = 0;
    assert(probes@.take(0) =~= Seq::<FileProbe>::empty());
    while i < probes.len()
        invariant
            i <= probes.len(),
            index.wf(),
            index@ == unindexed(old(index)@, probes@.take(i as int)),
        decreases probes.len() - i,
    {
        proof {
            let next = probes@.take(i + 1);
            assert(next.drop_last() =~= probes@.take(i as int));
            assert(next.last() == probes@[i as int]);
        }
        index.remove(probes[i].path.as_str());
        i += 1;
    }
    assert(probes@.take(probes@.len() as int) =~= probes@);
}

/// What happened to the paths of a file-system event.
#[derive(Clone, Copy, Debug, PartialEq, Eq, Structural)]
pub enum FsEventKind {
    Create,
    Modify,
    Remove,
    /// Anything else: an access, a change the watcher could not name.
    Other,
}

/// A file-system event, with what was found out about each of its paths
/// when it arrived.
#[derive(Debug, PartialEq, Eq)]
pub struct FsEvent {
    pub kind: FsEventKind,
    pub paths: Vec<FileProbe>,
}

/// The index after an event: a created or changed file is indexed as in a
/// pass, a removed file is taken out, and anything else changes nothing.
pub open spec fn after_event(entries: Seq<EntryView>, event: FsEvent, now: Timestamp) -> Seq<
    EntryView,
> {
    match event.kind {
        FsEventKind::Create | FsEventKind::Modify => indexed(entries, event.paths@, now),
        FsEventKind::Remove => unindexed(entries, event.paths@),
        FsEventKind::Other => entries,
    }
}

/// The artifacts of an event: those of its created or changed files.
pub open spec fn event_artifacts(event: FsEvent, now: Timestamp) -> Seq<ArtifactView> {
    match event.kind {
        FsEventKind::Create | FsEventKind::Modify => emitted(event.paths@, now),
        _ => Seq::<ArtifactView>::empty(),
    }
}

/// What the watcher handed over.
#[derive(Debug, PartialEq, Eq)]
pub enum WatchInput {
    /// An event.
    Event(FsEvent),
    /// An error of the watcher, with its message.
    Failed(String),
    /// The channel of the watcher is closed.
    Closed,
}

/// What to do after a step of the watch loop.
#[derive(Debug, PartialEq, Eq)]
pub struct WatchOutcome {
    /// The artifacts to send to the sink.
    pub artifacts: Vec<Artifact>,
    /// Whether to wait for the next input. Only a closed channel ends the
    /// watch.
    pub keep_watching: bool,
}

/// The indexer: its index, the directories it watches, and the address of
/// the artifact sink.
#[derive(Debug, PartialEq, Eq)]
pub struct Librarian {
    index: FileIndex,
    watched_dirs: Vec<String>,
    api_url: String,
}

impl Librarian {
    /// The entries of the index.
    pub closed spec fn entries(&self) -> Seq<EntryView> {
        self.index@
    }

    /// The directories that are watched, in the order in which they were
    /// added.
    pub closed spec fn watched(&self) -> Seq<Seq<char>> {
        Seq::new(self.watched_dirs@.len(), |i: int| self.watched_dirs@[i]@)
    }

    /// The address of the artifact sink.
    pub closed spec fn sink(&self) -> Seq<char> {
        self.api_url@
    }

    /// The invariant of the indexer: no two entries are for one path.
    pub closed spec fn wf(&self) -> bool {
        self.index.wf()
    }

    /// The invariant, in terms of the entries.
    pub proof fn lemma_wf(&self)
        ensures
            self.wf() == distinct_paths(self.entries()),
    {
    }

    /// An indexer with an empty index that watches nothing.
    pub fn new(api_url: String) -> (r: Librarian)
        ensures
            r.wf(),
            r.entries() == Seq::<EntryView>::empty(),
            r.watched() == Seq::<Seq<char>>::empty(),
            r.sink() == api_url@,
    {
        let r = Librarian { index: FileIndex::new(), watched_dirs: Vec::new(), api_url };
        assert(r.watched() =~= Seq::<Seq<char>>::empty());
        r
    }

    /// The address of the artifact sink.
    pub fn api_url(&self) -> (r: &str)
        ensures
            r@ == self.sink(),
    {
        self.api_url.as_str()
    }

    /// The number of indexed files.
    pub fn indexed_count(&self) -> (n: usize)
        ensures
            n == self.entries().len(),
    {
        self.index.len()
    }

    /// Tells whether a file is indexed.
    pub fn is_indexed(&self, path: &str) -> (r: bool)
        ensures
            r == has_path(self.entries(), path@),
    {
        self.index.contains(path)
    }

    /// The entry of an indexed file.
    pub fn entry(&self, path: &str) -> (r: Option<&FileEntry>)
        ensures
            match r {
                Some(e) => e@.path == path@ && holds(self.entries(), e@),
                None => !has_path(self.entries(), path@),
            },
    {
        self.index.get(path)
    }

    /// The number of watched directories.
    pub fn watched_count(&self) -> (n: usize)
        ensures
            n == self.watched().len(),
    {
        self.watched_dirs.len()
    }

    /// The watched directory at position `i`.
    pub fn watched_dir(&self, i: usize) -> (r: &str)
        requires
            i < self.watched().len(),
        ensures
            r@ == self.watched()[i as int],
    {
        self.watched_dirs[i].as_str()
    }

    /// One pass over what was found below a directory. Hands back the
    /// artifacts to send.
    pub fn index_directory(&mut self, probes: &Vec<FileProbe>, now: Timestamp) -> (r: Vec<
        Artifact,
    >)
        requires
            old(self).wf(),
        ensures
            final(self).wf(),
            final(self).entries() == indexed(old(self).entries(), probes@, now),
            final(self).watched() == old(self).watched(),
            final(self).sink() == old(self).sink(),
            artifacts_view(r@) == emitted(probes@, now),
    {
        index_probes(&mut self.index, probes, now)
    }

    /// Indexes what was found below a directory, then adds the directory
    /// to those that are watched.
    pub fn watch_directory(&mut self, path: String, probes: &Vec<FileProbe>, now: Timestamp) -> (r:
        Vec<Artifact>)
        requires
            old(self).wf(),
        ensures
            final(self).wf(),
            final(self).entries() == indexed(old(self).entries(), probes@, now),
            final(self).watched() == old(self).watched().push(path@),
            final(self).sink() == old(self).sink(),
            artifacts_view(r@) == emitted(probes@, now),
    {
        let r = index_probes(&mut self.index, probes, now);
        let ghost before = self.watched();
        self.watched_dirs.push(path);
        assert(self.watched() =~= before.push(path@));
        r
    }

    /// Applies one file-system event to the index. Hands back the
    /// artifacts to send.
    pub fn handle_fs_event(&mut self, event: &FsEvent, now: Timestamp) -> (r: Vec<Artifact>)
        requires
            old(self).wf(),
        ensures
            final(self).wf(),
            final(self).entries() == after_event(old(self).entries(), *event, now),
            final(self).watched() == old(self).watched(),
            final(self).sink() == old(self).sink(),
            artifacts_view(r@) == event_artifacts(*event, now),
    {
        match event.kind {
            FsEventKind::Create | FsEventKind::Modify => index_probes(
                &mut self.index,
                &event.paths,
                now,
            ),
            FsEventKind::Remove => {
                unindex_probes(&mut self.index, &event.paths);
                let out: Vec<Artifact> = Vec::new();
                assert(artifacts_view(out@) =~= Seq::<ArtifactView>::empty());
                out
            },
            FsEventKind::Other => {
                let out: Vec<Artifact> = Vec::new();
                assert(artifacts_view(out@) =~= Seq::<ArtifactView>::empty());
                out
            },
        }
    }

    /// The watch loop over the inputs that are at hand: every event is
    /// applied in order, an error of the watcher is passed over, and the
    /// loop ends where the channel is closed. What comes after that is not
    /// looked at.
    pub fn start_watching(&mut self, inputs: &Vec<WatchInput>, now: Timestamp) -> (r:
        WatchOutcome)
        requires
            old(self).wf(),
        ensures
            final(self).wf(),
            final(self).watched() == old(self).watched(),
            final(self).sink() == old(self).sink(),
            final(self).entries() == after_inputs(old(self).entries(), inputs@, now),
            artifacts_view(r.artifacts@) == input_artifacts(inputs@, now),
            r.keep_watching == !closes(inputs@),
    {
        let mut all: Vec<Artifact> = Vec::new();
        let mut i: usize = 0;
        assert(inputs@.subrange(0, inputs@.len() as int) =~= inputs@);
        assert(artifacts_view(all@) =~= Seq::<ArtifactView>::empty());
        assert(Seq::<ArtifactView>::empty() + input_artifacts(inputs@, now) =~= input_artifacts(
            inputs@,
            now,
        ));
        while i < inputs.len()
            invariant
                i <= inputs.len(),
                self.wf(),
                self.watched() == old(self).watched(),
                self.sink() == old(self).sink(),
                forall|k: int| 0 <= k < i ==> !(#[trigger] inputs@[k] is Closed),
                after_inputs(old(self).entries(), inputs@, now) == after_inputs(
                    self.entries(),
                    inputs@.subrange(i as int, inputs@.len() as int),
                    now,
                ),
                input_artifacts(inputs@, now) == artifacts_view(all@) + input_artifacts(
                    inputs@.subrange(i as int, inputs@.len() as int),
                    now,
                ),
            decreases inputs.len() - i,
        {
            let ghost rest = inputs@.subrange(i as int, inputs@.len() as int);
            let ghost so_far = artifacts_view(all@);
            proof {
                assert(rest[0] == inputs@[i as int]);
                assert(rest.drop_first() =~= inputs@.subrange(i + 1, inputs@.len() as int));
            }
            let outcome = self.watch_step(&inputs[i], now);
            if !outcome.keep_watching {
                assert(so_far + Seq::<ArtifactView>::empty() =~= so_far);
                return WatchOutcome { artifacts: all, keep_watching: false };
            }
            let ghost added = artifacts_view(outcome.artifacts@);
            let mut more = outcome.artifacts;
            let ghost before = all@;
            let ghost extra = more@;
            all.append(&mut more);
            proof {
                assert(all@ == before + extra);
                assert(artifacts_view(before + extra) =~= so_far + added);
                assert((so_far + added) + input_artifacts(rest.drop_first(), now) =~= so_far + (
                added + input_artifacts(rest.drop_first(), now)));
                if inputs@[i as int] is Failed {
                    assert(added =~= Seq::<ArtifactView>::empty());
                    assert(so_far + added =~= so_far);
                }
            }
            i += 1;
        }
        proof {
            let rest = inputs@.subrange(i as int, inputs@.len() as int);
            assert(rest.len() == 0);
            assert(artifacts_view(all@) + Seq::<ArtifactView>::empty() =~= artifacts_view(all@));
        }
        WatchOutcome { artifacts: all, keep_watching: true }
    }

    /// One step of the watch loop: an event is applied, an error of the
    /// watcher changes nothing, and only a closed channel ends the watch.
    pub fn watch_step(&mut self, input: &WatchInput, now: Timestamp) -> (r: WatchOutcome)
        requires
            old(self).wf(),
        ensures
            final(self).wf(),
            final(self).watched() == old(self).watched(),
            final(self).sink() == old(self).sink(),
            r.keep_watching == !(input is Closed),
            match input {
                WatchInput::Event(event) => final(self).entries() == after_event(
                    old(self).entries(),
                    *event,
                    now,
                ) && artifacts_view(r.artifacts@) == event_artifacts(*event, now),
                _ => final(self).entries() == old(self).entries() && r.artifacts@.len() == 0,
            },
    {
        match input {
            WatchInput::Event(event) => {
                let artifacts = self.handle_fs_event(event, now);
                WatchOutcome { artifacts, keep_watching: true }
            },
            WatchInput::Failed(_) => WatchOutcome { artifacts: Vec::new(), keep_watching: true },
            WatchInput::Closed => WatchOutcome { artifacts: Vec::new(), keep_watching: false },
        }
    }
}

/// The index after a run of inputs of the watcher, taken in order up to
/// the first that says that the channel is closed.
pub open spec fn after_inputs(
    entries: Seq<EntryView>,
    inputs: Seq<WatchInput>,
    now: Timestamp,
) -> Seq<EntryView>
    decreases inputs.len(),
{
    if inputs.len() == 0 {
        entries
    } else {
        match inputs[0] {
            WatchInput::Event(event) => after_inputs(
                after_event(entries, event, now),
                inputs.drop_first(),
                now,
            ),
            WatchInput::Failed(_) => after_inputs(entries, inputs.drop_first(), now),
            WatchInput::Closed => entries,
        }
    }
}

/// The artifacts of a run of inputs of the watcher, up to the first that
/// says that the channel is closed.
pub open spec fn input_artifacts(inputs: Seq<WatchInput>, now: Timestamp) -> Seq<ArtifactView>
    decreases inputs.len(),
{
    if inputs.len() == 0 {
        Seq::<ArtifactView>::empty()
    } else {
        match inputs[0] {
            WatchInput::Event(event) => event_artifacts(event, now) + input_artifacts(
                inputs.drop_first(),
                now,
            ),
            WatchInput::Failed(_) => input_artifacts(inputs.drop_first(), now),
            WatchInput::Closed => Seq::<ArtifactView>::empty(),
        }
    }
}

/// Whether a run of inputs of the watcher says that the channel is closed.
pub open spec fn closes(inputs: Seq<WatchInput>) -> bool {
    exists|i: int| 0 <= i < inputs.len() && inputs[i] is Closed
}

/// The entry that a pass leaves for `path`: that of the last file of the
/// pass with this path that comes to an entry.
pub open spec fn last_entry_for(probes: Seq<FileProbe>, now: Timestamp, path: Seq<char>) -> Option<
    EntryView,
>
    decreases probes.len(),
{
    if probes.len() == 0 {
        None
    } else {
        match indexable(probes.last(), now) {
            Some(e) => if e.path == path {
                Some(e)
            } else {
                last_entry_for(probes.drop_last(), now, path)
            },
            None => last_entry_for(probes.drop_last(), now, path),
        }
    }
}

/// The entry that a pass leaves for a path is an entry for that path, and
/// there is one where a file of the pass with this path comes to an entry.
pub proof fn lemma_last_entry(probes: Seq<FileProbe>, now: Timestamp, path: Seq<char>)
    ensures
        last_entry_for(probes, now, path) matches Some(e) ==> e.path == path,
        forall|k: int|
            0 <= k < probes.len() && (#[trigger] indexable(probes[k], now)) is Some && indexable(
                probes[k],
                now,
            )->0.path == path ==> last_entry_for(probes, now, path) is Some,
    decreases probes.len(),
{
    if probes.len() > 0 {
        let front = probes.drop_last();
        lemma_last_entry(front, now, path);
        assert forall|k: int|
            0 <= k < probes.len() && (#[trigger] indexable(probes[k], now)) is Some && indexable(
                probes[k],
                now,
            )->0.path == path implies last_entry_for(probes, now, path) is Some by {
            if k < probes.len() - 1 {
                assert(front[k] == probes[k]);
            }
        }
    }
}

/// After a pass, the index holds for every path what the pass leaves for
/// it.
pub proof fn lemma_pass_holds_last(
    entries: Seq<EntryView>,
    probes: Seq<FileProbe>,
    now: Timestamp,
    path: Seq<char>,
)
    requires
        distinct_paths(entries),
    ensures
        distinct_paths(indexed(entries, probes, now)),
        last_entry_for(probes, now, path) matches Some(e) ==> holds(
            indexed(entries, probes, now),
            e,
        ),
    decreases probes.len(),
{
    if probes.len() > 0 {
        let front = probes.drop_last();
        let before = indexed(entries, front, now);
        lemma_pass_holds_last(entries, front, now, path);
        lemma_last_entry(front, now, path);
        if let Some(e0) = indexable(probes.last(), now) {
            lemma_inserted_distinct(before, e0);
            if e0.path != path {
                if let Some(e) = last_entry_for(front, now, path) {
                    lemma_insert_keeps_others(before, e0, e);
                }
            }
        }
    }
}

/// A pass over files whose paths are all in the index moves nothing and
/// adds nothing: each entry becomes what the pass leaves for its path, and
/// stays as it is where the pass leaves nothing for it.
pub proof fn lemma_pass_over_present(
    entries: Seq<EntryView>,
    probes: Seq<FileProbe>,
    now: Timestamp,
)
    requires
        distinct_paths(entries),
        forall|k: int|
            0 <= k < probes.len() && (#[trigger] indexable(probes[k], now)) is Some ==> has_path(
                entries,
                indexable(probes[k], now)->0.path,
            ),
    ensures
        indexed(entries, probes, now).len() == entries.len(),
        forall|k: int|
            0 <= k < entries.len() ==> #[trigger] indexed(entries, probes, now)[k]
                == match last_entry_for(probes, now, entries[k].path) {
                Some(e) => e,
                None => entries[k],
            },
    decreases probes.len(),
{
    if probes.len() > 0 {
        let front = probes.drop_last();
        assert forall|k: int|
            0 <= k < front.len() && (#[trigger] indexable(front[k], now)) is Some implies has_path(
            entries,
            indexable(front[k], now)->0.path,
        ) by {
            assert(front[k] == probes[k]);
        }
        lemma_pass_over_present(entries, front, now);
        let before = indexed(entries, front, now);
        let after = indexed(entries, probes, now);
        assert forall|k: int| 0 <= k < entries.len() implies (#[trigger] before[k]).path
            == entries[k].path by {
            lemma_last_entry(front, now, entries[k].path);
        }
        assert(distinct_paths(before)) by {
            assert forall|i: int, j: int| 0 <= i < j < before.len() implies (
            #[trigger] before[i]).path != (#[trigger] before[j]).path by {
                assert(entries[i].path != entries[j].path);
            }
        }
        if let Some(e0) = indexable(probes.last(), now) {
            assert(probes.last() == probes[probes.len() - 1]);
            lemma_position(entries, e0.path);
            let i = position(entries, e0.path)->0;
            lemma_position_unique(before, e0.path, i);
            assert(after == before.update(i, e0));
            assert forall|k: int| 0 <= k < entries.len() implies #[trigger] after[k]
                == match last_entry_for(probes, now, entries[k].path) {
                Some(e) => e,
                None => entries[k],
            } by {
                if k != i {
                    assert(entries[k].path != entries[i].path);
                }
            }
        }
    }
}

/// Where every file comes to the same entry at two times, a pass at
/// either time is the same pass.
pub proof fn lemma_same_pass(
    entries: Seq<EntryView>,
    probes: Seq<FileProbe>,
    first: Timestamp,
    second: Timestamp,
    path: Seq<char>,
)
    requires
        forall|k: int|
            0 <= k < probes.len() ==> #[trigger] indexable(probes[k], first) == indexable(
                probes[k],
                second,
            ),
    ensures
        indexed(entries, probes, first) == indexed(entries, probes, second),
        last_entry_for(probes, first, path) == last_entry_for(probes, second, path),
    decreases probes.len(),
{
    if probes.len() > 0 {
        let front = probes.drop_last();
        assert forall|k: int| 0 <= k < front.len() implies #[trigger] indexable(front[k], first)
            == indexable(front[k], second) by {
            assert(front[k] == probes[k]);
        }
        lemma_same_pass(entries, front, first, second, path);
        assert(probes.last() == probes[probes.len() - 1]);
    }
}

/// Indexing is idempotent: a second pass over an unchanged directory
/// leaves the index as the first pass left it, in size and in content. The
/// directory is unchanged where every file comes to the same entry both
/// times.
pub proof fn lemma_index_twice(
    entries: Seq<EntryView>,
    probes: Seq<FileProbe>,
    first: Timestamp,
    second: Timestamp,
)
    requires
        distinct_paths(entries),
        forall|k: int|
            0 <= k < probes.len() ==> #[trigger] indexable(probes[k], first) == indexable(
                probes[k],
                second,
            ),
    ensures
        indexed(indexed(entries, probes, first), probes, second) == indexed(
            entries,
            probes,
            first,
        ),
        indexed(indexed(entries, probes, first), probes, second).len() == indexed(
            entries,
            probes,
            first,
        ).len(),
{
    let once = indexed(entries, probes, first);
    let twice = indexed(once, probes, second);
    lemma_same_pass(once, probes, first, second, Seq::<char>::empty());
    lemma_pass_holds_last(entries, probes, first, Seq::<char>::empty());
    assert forall|k: int|
        0 <= k < probes.len() && (#[trigger] indexable(probes[k], first)) is Some implies has_path(
        once,
        indexable(probes[k], first)->0.path,
    ) by {
        let e = indexable(probes[k], first)->0;
        lemma_last_entry(probes, first, e.path);
        lemma_pass_holds_last(entries, probes, first, e.path);
    }
    lemma_pass_over_present(once, probes, first);
    assert forall|k: int| 0 <= k < once.len() implies twice[k] == once[k] by {
        let path = once[k].path;
        lemma_last_entry(probes, first, path);
        lemma_pass_holds_last(entries, probes, first, path);
        if let Some(e) = last_entry_for(probes, first, path) {
            lemma_position(once, path);
            lemma_position_unique(once, path, k);
        }
    }
    assert(twice =~= once);
}

/// A file that is created or changed is in the index once its event is
/// processed, whatever else the event names: every file of the event that
/// comes to an entry has one for its path, and it is the entry of the last
/// file of the event with this path.
pub proof fn lemma_event_indexes(entries: Seq<EntryView>, event: FsEvent, now: Timestamp, k: int)
    requires
        distinct_paths(entries),
        event.kind == FsEventKind::Create || event.kind == FsEventKind::Modify,
        0 <= k < event.paths@.len(),
        indexable(event.paths@[k], now) is Some,
    ensures
        has_path(after_event(entries, event, now), event.paths@[k].path@),
        last_entry_for(event.paths@, now, event.paths@[k].path@) matches Some(e) && holds(
            after_event(entries, event, now),
            e,
        ),
{
    let path = event.paths@[k].path@;
    lemma_last_entry(event.paths@, now, path);
    lemma_pass_holds_last(entries, event.paths@, now, path);
}

/// A removed file is absent from the index once its remove event is
/// processed.
pub proof fn lemma_removed_is_absent(entries: Seq<EntryView>, probes: Seq<FileProbe>, k: int)
    requires
        distinct_paths(entries),
        0 <= k < probes.len(),
    ensures
        !has_path(unindexed(entries, probes), probes[k].path@),
    decreases probes.len(),
{
    let front = probes.drop_last();
    lemma_unindexed_distinct(entries, front);
    if k == probes.len() - 1 {
        lemma_removed(unindexed(entries, front), probes.last().path@);
    } else {
        assert(front[k] == probes[k]);
        lemma_removed_is_absent(entries, front, k);
        lemma_removed_keeps_absent(
            unindexed(entries, front),
            probes.last().path@,
            probes[k].path@,
        );
    }
}

/// The address of the artifact sink below a base address.
pub fn artifact_endpoint(base: &str) -> (r: String)
    ensures
        r@ == base@ + "/api/artifacts"@,
{
    let mut r = String::from_str(base);
    r.append("/api/artifacts");
    r
}

/// The home directory that is assumed where the environment names none.
pub open spec fn default_home() -> Seq<char> {
    "C:\\Users\\Default"@
}

/// The home directory: what the environment names, else the default.
pub fn home_or_default(user_profile: Option<&str>) -> (r: String)
    ensures
        r@ == match user_profile {
            Some(home) => home@,
            None => default_home(),
        },
{
    match user_profile {
        Some(home) => String::from_str(home),
        None => String::from_str("C:\\Users\\Default"),
    }
}

/// The directories below a home directory that are indexed by default,
/// those of them that exist: documents, desktop, downloads, pictures, and
/// the roaming application data.
pub open spec fn default_dirs(home: Seq<char>) -> Seq<Seq<char>> {
    seq![
        home + "\\Documents"@,
        home + "\\Desktop"@,
        home + "\\Downloads"@,
        home + "\\Pictures"@,
        home + "\\AppData\\Roaming"@,
    ]
}

/// The directories below `home` that are indexed by default, where they
/// exist.
pub fn default_watch_dirs(home: &str) -> (r: Vec<String>)
    ensures
        r.len() == 5,
        forall|i: int| 0 <= i < 5 ==> (#[trigger] r@[i])@ == default_dirs(home@)[i],
{
    let mut r: Vec<String> = Vec::new();
    let mut documents = String::from_str(home);
    documents.append("\\Documents");
    r.push(documents);
    let mut desktop = String::from_str(home);
    desktop.append("\\Desktop");
    r.push(desktop);
    let mut downloads = String::from_str(home);
    downloads.append("\\Downloads");
    r.push(downloads);
    let mut pictures = String::from_str(home);
    pictures.append("\\Pictures");
    r.push(pictures);
    let mut roaming = String::from_str(home);
    roaming.append("\\AppData\\Roaming");
    r.push(roaming);
    r
}

} // verus!
