//! Which file-system events concern the open workspace, and what the front
//! end is told of them.
use vstd::prelude::*;
use crate::workspace::Workspace;

verus! {

/// The kind of a file-system event.
#[derive(Debug, Clone, Copy, PartialEq, Eq)]
pub enum EventKind {
    Access,
    Create,
    Modify,
    Remove,
    Other,
}

/// What the watch reports.
pub enum WatchEvent {
    /// Something happened to the files at `paths`.
    Changed { kind: EventKind, paths: Vec<String> },
    /// The watch mechanism itself failed.
    Failed { message: String },
}

/// What the front end is told.
#[derive(Debug, PartialEq, Eq)]
pub enum Notification {
    /// One of the workspace's files changed on disk; both should be reloaded.
    FileChanged { data_path: String, schema_path: String },
    /// The watch failed; it keeps running.
    WatchError { message: String },
}

pub open spec fn file_changed_name() -> Seq<char> {
    "workspace:file-changed"@
}

pub open spec fn watch_error_name() -> Seq<char> {
    "workspace:watch-error"@
}

impl Notification {
    /// The name of the event that carries this notification.
    pub fn event_name(&self) -> (r: &'static str)
        ensures
            self is FileChanged ==> r@ == file_changed_name(),
            self is WatchError ==> r@ == watch_error_name(),
    {
        match self {
            Notification::FileChanged { .. } => "workspace:file-changed",
            Notification::WatchError { .. } => "workspace:watch-error",
        }
    }
}

/// Creation, modification and removal count; other kinds do not.
pub open spec fn kind_counts(kind: EventKind) -> bool {
    kind == EventKind::Create || kind == EventKind::Modify || kind == EventKind::Remove
}

/// One of `paths` is exactly the data path or the schema path of `w`.
pub open spec fn touches(paths: Seq<String>, w: (Seq<char>, Seq<char>)) -> bool {
    exists|i: int| 0 <= i < paths.len() && (#[trigger] paths[i]@ == w.0 || paths[i]@ == w.1)
}

/// Whether any of `paths` is exactly the data path or the schema path of `w`.
pub fn touches_workspace(paths: &Vec<String>, w: &Workspace) -> (r: bool)
    ensures
        r == touches(paths@, w@),
{
    let mut i: usize = 0;
    while i < paths.len()
        invariant
            i <= paths@.len(),
            forall|j: int| 0 <= j < i ==> !(#[trigger] paths@[j]@ == w@.0 || paths@[j]@ == w@.1),
        decreases paths@.len() - i,
    {
        if paths[i] == *w.data_path() || paths[i] == *w.schema_path() {
            assert(paths@[i as int]@ == w@.0 || paths@[i as int]@ == w@.1);
            return true;
        }
        i = i + 1;
    }
    false
}

/// The notification, if any, that `event` gives for the watched workspace
/// `w`: a failure is always reported; a change is reported, with both paths,
/// exactly when its kind counts and it touches one of the two files.
pub fn notification_for(event: WatchEvent, w: &Workspace) -> (r: Option<Notification>)
    ensures
        event matches WatchEvent::Failed { message } ==> r == Some(
            Notification::WatchError { message },
        ),
        event matches WatchEvent::Changed { kind, paths } ==> {
            &&& r is Some <==> kind_counts(kind) && touches(paths@, w@)
            &&& r matches Some(n) ==> (n matches Notification::FileChanged { data_path, schema_path }
                && data_path@ == w@.0 && schema_path@ == w@.1)
        },
{
    match event {
        WatchEvent::Failed { message } => Some(Notification::WatchError { message }),
        WatchEvent::Changed { kind, paths } => {
            let counts = match kind {
                EventKind::Create | EventKind::Modify | EventKind::Remove => true,
                _ => false,
            };
            if counts && touches_workspace(&paths, w) {
                Some(
                    Notification::FileChanged {
                        data_path: w.data_path().clone(),
                        schema_path: w.schema_path().clone(),
                    },
                )
            } else {
                None
            }
        },
    }
}

} // verus!
