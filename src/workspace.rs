//! The one open workspace: a data file and the schema file derived from it.
use vstd::prelude::*;
use crate::json::Json;
use crate::path::{
    PathError, has_file_name, schema_path_of, folder_of, with_extension, new_data_path_of,
    schema_path_for, new_data_path, folder, replace_extension, dir_prefix, stem, file_name,
    lemma_new_extension_renames, lemma_new_data_path_names_file,
};

verus! {

/// What a workspace command can fail on, short of the file system itself.
#[derive(Debug, Clone, Copy, PartialEq, Eq)]
pub enum WorkspaceError {
    /// The path given cannot name a data file.
    Path(PathError),
    /// No workspace is open.
    NotLoaded,
    /// The data file to open does not exist.
    MissingDataFile,
    /// A workspace to create would replace files that exist.
    AlreadyExists,
    /// The data file does not hold an array of rows.
    NotAnArray,
}

impl WorkspaceError {
    /// The message shown to the user.
    pub open spec fn text(self) -> Seq<char> {
        match self {
            WorkspaceError::Path(e) => e.text(),
            WorkspaceError::NotLoaded => "Workspace not loaded"@,
            WorkspaceError::MissingDataFile => "指定されたデータファイルが存在しません"@,
            WorkspaceError::AlreadyExists => "同名のファイルが既に存在します"@,
            WorkspaceError::NotAnArray => "データファイルの形式が正しくありません"@,
        }
    }

    pub fn message(&self) -> (r: String)
        ensures
            r@ == self.text(),
    {
        match self {
            WorkspaceError::Path(e) => e.message(),
            WorkspaceError::NotLoaded => String::from_str("Workspace not loaded"),
            WorkspaceError::MissingDataFile => String::from_str("指定されたデータファイルが存在しません"),
            WorkspaceError::AlreadyExists => String::from_str("同名のファイルが既に存在します"),
            WorkspaceError::NotAnArray => String::from_str("データファイルの形式が正しくありません"),
        }
    }
}

/// A data file and its schema file. The schema path is always the one that
/// the data path derives.
pub struct Workspace {
    data_path: String,
    schema_path: String,
}

impl View for Workspace {
    /// The data path and the schema path.
    type V = (Seq<char>, Seq<char>);

    closed spec fn view(&self) -> (Seq<char>, Seq<char>) {
        (self.data_path@, self.schema_path@)
    }
}

impl Workspace {
    /// The workspace of the data file `p`, valid when `p` names a file.
    pub open spec fn of(p: Seq<char>) -> (Seq<char>, Seq<char>) {
        (p, schema_path_of(p))
    }

    /// The data path names a file and the schema path is the one it derives.
    pub open spec fn well_formed(v: (Seq<char>, Seq<char>)) -> bool {
        has_file_name(v.0) && v.1 == schema_path_of(v.0)
    }

    #[verifier::type_invariant]
    spec fn inv(&self) -> bool {
        Workspace::well_formed(self@)
    }

    /// The workspace of the data file `data_path`, with its schema path derived.
    pub fn open(data_path: &str) -> (r: Result<Workspace, WorkspaceError>)
        ensures
            has_file_name(data_path@) ==> (r matches Ok(w) && w@ == Workspace::of(data_path@)),
            !has_file_name(data_path@) ==> r == Err::<Workspace, WorkspaceError>(
                WorkspaceError::Path(PathError::NoDataFileName),
            ),
    {
        match schema_path_for(data_path) {
            Ok(schema_path) => Ok(Workspace { data_path: String::from_str(data_path), schema_path }),
            Err(e) => Err(WorkspaceError::Path(e)),
        }
    }

    /// The workspace to load from `data_path`, which must exist.
    pub fn load_target(data_path: &str, exists: bool) -> (r: Result<Workspace, WorkspaceError>)
        ensures
            !exists ==> r == Err::<Workspace, WorkspaceError>(WorkspaceError::MissingDataFile),
            exists && has_file_name(data_path@) ==> (r matches Ok(w) && w@ == Workspace::of(data_path@)),
            exists && !has_file_name(data_path@) ==> r == Err::<Workspace, WorkspaceError>(
                WorkspaceError::Path(PathError::NoDataFileName),
            ),
    {
        if !exists {
            return Err(WorkspaceError::MissingDataFile);
        }
        Workspace::open(data_path)
    }

    /// The workspace to create for the path `path` as a user typed it:
    /// trimmed, with a non-blank file stem, its extension made `.json`.
    pub fn create_target(path: &str) -> (r: Result<Workspace, WorkspaceError>)
        ensures
            new_data_path_of(path@) matches Err(e) ==> r == Err::<Workspace, WorkspaceError>(
                WorkspaceError::Path(e),
            ),
            new_data_path_of(path@) matches Ok(d) ==> (r matches Ok(w) && w@ == Workspace::of(d)),
    {
        proof {
            lemma_new_data_path_names_file(path@);
        }
        match new_data_path(path) {
            Ok(d) => Workspace::open(d.as_str()),
            Err(e) => Err(WorkspaceError::Path(e)),
        }
    }

    /// Refuses to create a workspace over a data or schema file that exists.
    pub fn check_vacant(self, data_exists: bool, schema_exists: bool) -> (r: Result<Workspace, WorkspaceError>)
        ensures
            data_exists || schema_exists ==> r == Err::<Workspace, WorkspaceError>(WorkspaceError::AlreadyExists),
            !data_exists && !schema_exists ==> (r matches Ok(w) && w@ == self@),
    {
        if data_exists || schema_exists {
            Err(WorkspaceError::AlreadyExists)
        } else {
            Ok(self)
        }
    }

    pub fn data_path(&self) -> (r: &String)
        ensures
            r@ == self@.0,
            Workspace::well_formed(self@),
    {
        proof {
            use_type_invariant(self);
        }
        &self.data_path
    }

    pub fn schema_path(&self) -> (r: &String)
        ensures
            r@ == self@.1,
            r@ == schema_path_of(self@.0),
    {
        proof {
            use_type_invariant(self);
        }
        &self.schema_path
    }

    /// The paths of this workspace as the front end shows them.
    pub fn info(&self) -> (r: TableInfo)
        ensures
            r.data_path@ == self@.0,
            r.schema_path@ == self@.1,
            r.folder@ == folder_of(self@.0),
            r.schema_path@ == schema_path_of(r.data_path@),
    {
        proof {
            use_type_invariant(self);
        }
        TableInfo {
            data_path: self.data_path.clone(),
            schema_path: self.schema_path.clone(),
            folder: folder(self.data_path.as_str()),
        }
    }
}

/// The paths of an open workspace, and the folder that holds its data file.
pub struct TableInfo {
    pub data_path: String,
    pub schema_path: String,
    pub folder: String,
}

/// The rows of a data document, which must be an array.
pub fn rows_of(doc: Json) -> (r: Result<Vec<Json>, WorkspaceError>)
    ensures
        doc matches Json::Array(v) ==> r == Ok::<Vec<Json>, WorkspaceError>(v),
        !(doc is Array) ==> r == Err::<Vec<Json>, WorkspaceError>(WorkspaceError::NotAnArray),
{
    match doc {
        Json::Array(v) => Ok(v),
        _ => Err(WorkspaceError::NotAnArray),
    }
}

/// The files that a crash-safe write of `target` goes through.
pub struct WritePlan {
    /// Where the file's earlier content is copied before it is replaced.
    pub backup: String,
    /// Where the new content is written before it is renamed onto `target`.
    pub temp: String,
}

pub open spec fn backup_suffix() -> Seq<char> {
    ".json.bak"@
}

pub open spec fn temp_suffix() -> Seq<char> {
    ".json.tmp"@
}

/// The backup and temporary siblings of `target`: its extension gives way
/// to `.json.bak` and `.json.tmp`.
pub fn write_plan(target: &str) -> (r: WritePlan)
    ensures
        r.backup@ == with_extension(target@, backup_suffix()),
        r.temp@ == with_extension(target@, temp_suffix()),
{
    WritePlan {
        backup: replace_extension(target, ".json.bak"),
        temp: replace_extension(target, ".json.tmp"),
    }
}

/// Neither the temporary nor the backup sibling of a file is the file
/// itself, nor are they one another: content written to the temporary file
/// leaves the target as it was until the rename, and the backup never
/// overwrites either.
pub proof fn lemma_write_siblings_differ(target: Seq<char>)
    requires
        has_file_name(target),
    ensures
        with_extension(target, temp_suffix()) != target,
        with_extension(target, backup_suffix()) != target,
        with_extension(target, temp_suffix()) != with_extension(target, backup_suffix()),
{
    reveal_strlit(".json.tmp");
    reveal_strlit(".json.bak");
    lemma_new_extension_renames(target, temp_suffix(), 5);
    lemma_new_extension_renames(target, backup_suffix(), 5);
    let base = dir_prefix(target) + stem(file_name(target));
    assert(with_extension(target, temp_suffix())[base.len() + 6int] != with_extension(target, backup_suffix())[base.len() + 6int]);
}

/// The slot that holds the open workspace, if any.
pub struct WorkspaceSlot {
    current: Option<Workspace>,
}

impl View for WorkspaceSlot {
    type V = Option<(Seq<char>, Seq<char>)>;

    closed spec fn view(&self) -> Option<(Seq<char>, Seq<char>)> {
        match self.current {
            Some(w) => Some(w@),
            None => None,
        }
    }
}

impl WorkspaceSlot {
    /// An empty slot.
    pub fn new() -> (r: WorkspaceSlot)
        ensures
            r@ is None,
    {
        WorkspaceSlot { current: None }
    }

    /// Puts `w` in the slot and hands back the workspace it replaces, whose
    /// watch the caller stops.
    pub fn install(&mut self, w: Workspace) -> (r: Option<Workspace>)
        ensures
            final(self)@ == Some(w@),
            Workspace::well_formed(w@),
            old(self)@ is None <==> r is None,
            r matches Some(p) ==> old(self)@ == Some(p@),
    {
        proof {
            use_type_invariant(&w);
        }
        let mut next = Some(w);
        std::mem::swap(&mut self.current, &mut next);
        next
    }

    /// The data and schema paths of the open workspace.
    pub fn paths(&self) -> (r: Result<(String, String), WorkspaceError>)
        ensures
            self@ is None ==> r == Err::<(String, String), WorkspaceError>(WorkspaceError::NotLoaded),
            self@ matches Some(p) ==> (r matches Ok(q) && q.0@ == p.0 && q.1@ == p.1),
            r matches Ok(q) ==> Workspace::well_formed((q.0@, q.1@)),
    {
        match &self.current {
            Some(w) => {
                proof {
                    use_type_invariant(w);
                }
                Ok((w.data_path.clone(), w.schema_path.clone()))
            },
            None => Err(WorkspaceError::NotLoaded),
        }
    }
}

} // verus!
