use vstd::prelude::*;
use crate::document::{str_eq, BookFromDb};
use crate::error::{opt_view, ErrorFromRust};

verus! {

/// What a creation notification says it created.
#[derive(Clone, Copy, Debug, PartialEq, Eq, Structural)]
pub enum CreateKind {
    Any,
    File,
    Folder,
    Other,
}

/// Which half of a rename a notification reports.
#[derive(Clone, Copy, Debug, PartialEq, Eq, Structural)]
pub enum RenameMode {
    Any,
    To,
    From,
    Both,
    Other,
}

/// What a removal notification says it removed.
#[derive(Clone, Copy, Debug, PartialEq, Eq, Structural)]
pub enum RemoveKind {
    Any,
    File,
    Folder,
    Other,
}

/// Kind of a raw filesystem notification.
#[derive(Clone, Copy, Debug, PartialEq, Eq, Structural)]
pub enum RawEventKind {
    Create(CreateKind),
    ModifyName(RenameMode),
    ModifyData,
    ModifyOther,
    Remove(RemoveKind),
    Other,
}

/// What the disk says of one path of a notification, read when it is handled.
#[derive(Clone, Debug)]
pub struct PathFacts {
    /// Whether the path exists; `None` where that could not be told.
    pub exists: Option<bool>,
    /// The path's extension, if it has one.
    pub extension: Option<String>,
    pub is_file: bool,
    pub is_dir: bool,
}

pub struct FactsView {
    pub exists: Option<bool>,
    pub extension: Option<Seq<char>>,
    pub is_file: bool,
    pub is_dir: bool,
}

impl View for PathFacts {
    type V = FactsView;

    open spec fn view(&self) -> FactsView {
        FactsView {
            exists: self.exists,
            extension: opt_view(self.extension),
            is_file: self.is_file,
            is_dir: self.is_dir,
        }
    }
}

/// A change of the document tree that the cache follows.
#[derive(Clone, Debug)]
pub enum CacheAction {
    FileAdd(String),
    FileUpdate(String),
    FileRemove(String),
    FolderAdd(String),
    FolderRemove(String),
}

pub enum ActionSpec {
    FileAdd(Seq<char>),
    FileUpdate(Seq<char>),
    FileRemove(Seq<char>),
    FolderAdd(Seq<char>),
    FolderRemove(Seq<char>),
}

impl View for CacheAction {
    type V = ActionSpec;

    open spec fn view(&self) -> ActionSpec {
        match self {
            CacheAction::FileAdd(p) => ActionSpec::FileAdd(p@),
            CacheAction::FileUpdate(p) => ActionSpec::FileUpdate(p@),
            CacheAction::FileRemove(p) => ActionSpec::FileRemove(p@),
            CacheAction::FolderAdd(p) => ActionSpec::FolderAdd(p@),
            CacheAction::FolderRemove(p) => ActionSpec::FolderRemove(p@),
        }
    }
}

/// Extension of the documents that the cache holds.
pub open spec fn document_extension() -> Seq<char> {
    seq!['m', 'd']
}

/// A file event: the action where the file is a document, none otherwise.
pub open spec fn for_document(ext: Seq<char>, a: ActionSpec) -> Option<ActionSpec> {
    if ext == document_extension() {
        Some(a)
    } else {
        None
    }
}

/// The action for the path at position `index` of a notification of kind
/// `kind`. A rename may come as its `From` half, its `To` half, or as one
/// notification with both paths (the first removed, the second added); where
/// the platform does not say which, the path's existence decides.
pub open spec fn classify_spec(kind: RawEventKind, index: int, path: Seq<char>, f: FactsView) -> Option<
    ActionSpec,
> {
    match kind {
        RawEventKind::Create(CreateKind::File) => match f.extension {
            Some(e) => for_document(e, ActionSpec::FileAdd(path)),
            None => None,
        },
        RawEventKind::Create(CreateKind::Folder) => Some(ActionSpec::FolderAdd(path)),
        RawEventKind::Create(_) => None,
        RawEventKind::ModifyName(mode) => {
            if mode is From && f.extension is Some {
                for_document(f.extension.unwrap(), ActionSpec::FileRemove(path))
            } else if mode is From {
                Some(ActionSpec::FolderRemove(path))
            } else if mode is To && f.extension is Some && f.is_file {
                for_document(f.extension.unwrap(), ActionSpec::FileAdd(path))
            } else if mode is To && f.is_dir {
                Some(ActionSpec::FolderAdd(path))
            } else if mode is Both && f.extension is Some && index == 0 {
                for_document(f.extension.unwrap(), ActionSpec::FileRemove(path))
            } else if mode is Both && index == 0 {
                Some(ActionSpec::FolderRemove(path))
            } else if mode is Both && f.extension is Some && f.is_file && index == 1 {
                for_document(f.extension.unwrap(), ActionSpec::FileAdd(path))
            } else if mode is Both && f.is_dir && index == 1 {
                Some(ActionSpec::FolderAdd(path))
            } else if f.exists == Some(false) && f.extension is None {
                Some(ActionSpec::FolderRemove(path))
            } else if f.exists == Some(false) {
                for_document(f.extension.unwrap(), ActionSpec::FileRemove(path))
            } else if f.exists == Some(true) && f.extension is None && f.is_dir {
                Some(ActionSpec::FolderAdd(path))
            } else if f.exists == Some(true) && f.extension is Some && f.is_file {
                for_document(f.extension.unwrap(), ActionSpec::FileAdd(path))
            } else {
                None
            }
        },
        RawEventKind::ModifyData => match f.extension {
            Some(e) => for_document(e, ActionSpec::FileUpdate(path)),
            None => None,
        },
        RawEventKind::ModifyOther => None,
        RawEventKind::Remove(RemoveKind::File) => match f.extension {
            Some(e) => for_document(e, ActionSpec::FileRemove(path)),
            None => None,
        },
        RawEventKind::Remove(RemoveKind::Folder) => Some(ActionSpec::FolderRemove(path)),
        RawEventKind::Remove(_) => None,
        RawEventKind::Other => None,
    }
}

fn is_document(ext: &String) -> (r: bool)
    ensures
        r == (ext@ == document_extension()),
{
    let r = str_eq(ext.as_str(), "md");
    proof {
        reveal_strlit("md");
        assert("md"@ =~= document_extension());
    }
    r
}

fn document_action(ext: &String, a: CacheAction) -> (r: Option<CacheAction>)
    ensures
        match r {
            Some(x) => for_document(ext@, a@) == Some(x@),
            None => for_document(ext@, a@) is None,
        },
{
    if is_document(ext) {
        Some(a)
    } else {
        None
    }
}

/// Classifies the path at position `index` of a notification.
pub fn classify(kind: RawEventKind, index: usize, path: &String, facts: &PathFacts) -> (r: Option<CacheAction>)
    ensures
        match r {
            Some(a) => classify_spec(kind, index as int, path@, facts@) == Some(a@),
            None => classify_spec(kind, index as int, path@, facts@) is None,
        },
{
    let p = path.clone();
    match kind {
        RawEventKind::Create(CreateKind::File) => match &facts.extension {
            Some(e) => document_action(e, CacheAction::FileAdd(p)),
            None => None,
        },
        RawEventKind::Create(CreateKind::Folder) => Some(CacheAction::FolderAdd(p)),
        RawEventKind::Create(_) => None,
        RawEventKind::ModifyName(mode) => {
            let from = mode == RenameMode::From;
            let to = mode == RenameMode::To;
            let both = mode == RenameMode::Both;
            match &facts.extension {
                Some(e) => {
                    if from {
                        document_action(e, CacheAction::FileRemove(p))
                    } else if to && facts.is_file {
                        document_action(e, CacheAction::FileAdd(p))
                    } else if to && facts.is_dir {
                        Some(CacheAction::FolderAdd(p))
                    } else if both && index == 0 {
                        document_action(e, CacheAction::FileRemove(p))
                    } else if both && facts.is_file && index == 1 {
                        document_action(e, CacheAction::FileAdd(p))
                    } else if both && facts.is_dir && index == 1 {
                        Some(CacheAction::FolderAdd(p))
                    } else if facts.exists == Some(false) {
                        document_action(e, CacheAction::FileRemove(p))
                    } else if facts.exists == Some(true) && facts.is_file {
                        document_action(e, CacheAction::FileAdd(p))
                    } else {
                        None
                    }
                },
                None => {
                    if from {
                        Some(CacheAction::FolderRemove(p))
                    } else if to && facts.is_dir {
                        Some(CacheAction::FolderAdd(p))
                    } else if both && index == 0 {
                        Some(CacheAction::FolderRemove(p))
                    } else if both && facts.is_dir && index == 1 {
                        Some(CacheAction::FolderAdd(p))
                    } else if facts.exists == Some(false) {
                        Some(CacheAction::FolderRemove(p))
                    } else if facts.exists == Some(true) && facts.is_dir {
                        Some(CacheAction::FolderAdd(p))
                    } else {
                        None
                    }
                },
            }
        },
        RawEventKind::ModifyData => match &facts.extension {
            Some(e) => document_action(e, CacheAction::FileUpdate(p)),
            None => None,
        },
        RawEventKind::ModifyOther => None,
        RawEventKind::Remove(RemoveKind::File) => match &facts.extension {
            Some(e) => document_action(e, CacheAction::FileRemove(p)),
            None => None,
        },
        RawEventKind::Remove(RemoveKind::Folder) => Some(CacheAction::FolderRemove(p)),
        RawEventKind::Remove(_) => None,
        RawEventKind::Other => None,
    }
}

/// The actions of the indices `0..n` of a notification, in path order.
pub open spec fn classify_all(kind: RawEventKind, paths: Seq<(Seq<char>, FactsView)>) -> Seq<ActionSpec>
    decreases paths.len(),
{
    if paths.len() == 0 {
        Seq::empty()
    } else {
        let r = classify_all(kind, paths.drop_last());
        match classify_spec(kind, paths.len() - 1, paths.last().0, paths.last().1) {
            Some(a) => r.push(a),
            None => r,
        }
    }
}

pub open spec fn paths_view(v: Seq<(String, PathFacts)>) -> Seq<(Seq<char>, FactsView)> {
    Seq::new(v.len(), |i: int| (v[i].0@, v[i].1@))
}

pub open spec fn actions_view(v: Seq<CacheAction>) -> Seq<ActionSpec> {
    Seq::new(v.len(), |i: int| v[i]@)
}

/// The actions of a whole notification, in the order of its paths.
pub fn handle_event(kind: RawEventKind, paths: &Vec<(String, PathFacts)>) -> (r: Vec<CacheAction>)
    ensures
        actions_view(r@) == classify_all(kind, paths_view(paths@)),
{
    let mut out: Vec<CacheAction> = Vec::new();
    let n = paths.len();
    let mut i: usize = 0;
    while i < n
        invariant
            n == paths@.len(),
            i <= n,
            actions_view(out@) == classify_all(kind, paths_view(paths@).take(i as int)),
        decreases n - i,
    {
        let ghost before = actions_view(out@);
        proof {
            let pv = paths_view(paths@);
            assert(pv.take(i as int + 1).drop_last() =~= pv.take(i as int));
            assert(pv.take(i as int + 1).last() == pv[i as int]);
        }
        match classify(kind, i, &paths[i].0, &paths[i].1) {
            Some(a) => {
                out.push(a);
                proof {
                    assert(actions_view(out@) =~= before.push(a@));
                }
            },
            None => {},
        }
        i += 1;
    }
    proof {
        assert(paths_view(paths@).take(n as int) =~= paths_view(paths@));
    }
    out
}

/// A rename notification never makes a document an update: each of its
/// paths is removed or added, and a pair reported in one notification
/// removes the document at the first path and adds the one at the second
/// when that is a file.
pub proof fn lemma_rename_pair(mode: RenameMode, path: Seq<char>, f: FactsView, index: int)
    ensures
        !(classify_spec(RawEventKind::ModifyName(mode), index, path, f) matches Some(
            ActionSpec::FileUpdate(_),
        )),
        mode is Both && index == 0 && f.extension == Some(document_extension()) ==> classify_spec(
            RawEventKind::ModifyName(mode),
            index,
            path,
            f,
        ) == Some(ActionSpec::FileRemove(path)),
        mode is Both && index == 1 && f.extension == Some(document_extension()) && f.is_file
            ==> classify_spec(RawEventKind::ModifyName(mode), index, path, f) == Some(
            ActionSpec::FileAdd(path),
        ),
{
}

/// Where a folder event came from: its path and the folder of its schema.
#[derive(Clone, Debug)]
pub struct FolderEventEmit {
    pub path: String,
    pub schema_path: Option<String>,
}

/// An event published to subscribers once the cache has followed a change.
#[derive(Debug)]
pub enum IPCEmitEvent {
    FileRemove(String),
    FileAdd(BookFromDb),
    FileUpdate(BookFromDb),
    FolderRemove(FolderEventEmit),
    FolderAdd(FolderEventEmit),
    ErrorHappened(ErrorFromRust),
}

/// What the cache made of an action: the document cached for a file add or
/// update, nothing for the others.
pub enum ActionOutcome {
    Cached(BookFromDb),
    Done,
}

/// The event to publish after an action: an error where the cache could not
/// follow it, else the event of the action's kind.
pub fn event_after(
    action: CacheAction,
    outcome: Result<ActionOutcome, ErrorFromRust>,
    schema_path: Option<String>,
) -> (r: IPCEmitEvent)
    ensures
        match outcome {
            Err(e) => r == IPCEmitEvent::ErrorHappened(e),
            Ok(o) => match action {
                CacheAction::FileAdd(_) => match o {
                    ActionOutcome::Cached(d) => r == IPCEmitEvent::FileAdd(d),
                    ActionOutcome::Done => r matches IPCEmitEvent::ErrorHappened(e) && e.title@
                        == "Document was not cached"@,
                },
                CacheAction::FileUpdate(_) => match o {
                    ActionOutcome::Cached(d) => r == IPCEmitEvent::FileUpdate(d),
                    ActionOutcome::Done => r matches IPCEmitEvent::ErrorHappened(e) && e.title@
                        == "Document was not cached"@,
                },
                CacheAction::FileRemove(p) => r == IPCEmitEvent::FileRemove(p),
                CacheAction::FolderAdd(p) => r == IPCEmitEvent::FolderAdd(
                    FolderEventEmit { path: p, schema_path },
                ),
                CacheAction::FolderRemove(p) => r == IPCEmitEvent::FolderRemove(
                    FolderEventEmit { path: p, schema_path },
                ),
            },
        },
{
    match outcome {
        Err(e) => IPCEmitEvent::ErrorHappened(e),
        Ok(o) => match action {
            CacheAction::FileAdd(_) => match o {
                ActionOutcome::Cached(d) => IPCEmitEvent::FileAdd(d),
                ActionOutcome::Done => IPCEmitEvent::ErrorHappened(
                    ErrorFromRust::new("Document was not cached"),
                ),
            },
            CacheAction::FileUpdate(_) => match o {
                ActionOutcome::Cached(d) => IPCEmitEvent::FileUpdate(d),
                ActionOutcome::Done => IPCEmitEvent::ErrorHappened(
                    ErrorFromRust::new("Document was not cached"),
                ),
            },
            CacheAction::FileRemove(p) => IPCEmitEvent::FileRemove(p),
            CacheAction::FolderAdd(p) => IPCEmitEvent::FolderAdd(FolderEventEmit { path: p, schema_path }),
            CacheAction::FolderRemove(p) => IPCEmitEvent::FolderRemove(
                FolderEventEmit { path: p, schema_path },
            ),
        },
    }
}


/// What a re-scan of a folder tree does with one entry: caches a document,
/// caches a folder, or skips it.
pub open spec fn rescan_spec(path: Seq<char>, f: FactsView) -> Option<ActionSpec> {
    if f.is_file {
        match f.extension {
            Some(e) => for_document(e, ActionSpec::FileAdd(path)),
            None => None,
        }
    } else if f.is_dir {
        Some(ActionSpec::FolderAdd(path))
    } else {
        None
    }
}

/// The action of a re-scan for one entry of the folder tree.
pub fn rescan_action(path: &String, facts: &PathFacts) -> (r: Option<CacheAction>)
    ensures
        match r {
            Some(a) => rescan_spec(path@, facts@) == Some(a@),
            None => rescan_spec(path@, facts@) is None,
        },
{
    if facts.is_file {
        match &facts.extension {
            Some(e) => document_action(e, CacheAction::FileAdd(path.clone())),
            None => None,
        }
    } else if facts.is_dir {
        Some(CacheAction::FolderAdd(path.clone()))
    } else {
        None
    }
}

} // verus!
