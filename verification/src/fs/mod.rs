//! The decisions of the directory walk, of path removal and of file
//! creation; the reading and writing of the file system is left to the caller.
use vstd::prelude::*;
use vstd::string::*;
use crate::fs::abs::AbsPathStr;
use crate::fs::path::{PathError, PathErrorKind, basename_of, parent_of, path_parent, components_of, last_name, path_components};

pub mod abs;
pub mod path;

verus! {

/// A directory entry met by the walk: its absolute path, its file name and
/// its depth below the directory where the walk started (1 for that
/// directory's own entries).
#[derive(Debug)]
pub struct FindCtx {
    pub path: AbsPathStr,
    pub file_name: String,
    pub depth: usize,
}

impl FindCtx {
    /// Gathers the fields.
    pub fn new(path: AbsPathStr, file_name: String, depth: usize) -> (res: Self)
        ensures
            res.path == path,
            res.file_name == file_name,
            res.depth == depth,
    {
        FindCtx { path, file_name, depth }
    }
}

/// How the walk treats symlinks and dotfiles.
#[derive(Debug)]
pub struct FindOpts {
    follow_symlinks: bool,
    keep_dotfiles: bool,
}

impl FindOpts {
    /// Whether a symlink to a directory is walked into.
    pub closed spec fn follows_symlinks(&self) -> bool {
        self.follow_symlinks
    }

    /// Whether entries whose name starts with `.` are kept.
    pub closed spec fn keeps_dotfiles(&self) -> bool {
        self.keep_dotfiles
    }

    /// Gathers the options.
    pub fn new(follow_symlinks: bool, keep_dotfiles: bool) -> (res: Self)
        ensures
            res.follows_symlinks() == follow_symlinks,
            res.keeps_dotfiles() == keep_dotfiles,
    {
        FindOpts { follow_symlinks, keep_dotfiles }
    }

    /// Whether a symlink to a directory is walked into.
    pub fn follow_symlinks(&self) -> (res: bool)
        ensures
            res == self.follows_symlinks(),
    {
        self.follow_symlinks
    }

    /// Whether entries whose name starts with `.` are kept.
    pub fn keep_dotfiles(&self) -> (res: bool)
        ensures
            res == self.keeps_dotfiles(),
    {
        self.keep_dotfiles
    }

    /// What the walk does with an entry of the given name and type;
    /// `target_is_dir` says whether a symlink points to a directory.
    pub fn entry_action(&self, file_name: &str, entry_type: EntryType, target_is_dir: bool) -> (res: EntryAction)
        ensures
            res == entry_action_spec(self.follows_symlinks(), self.keeps_dotfiles(), file_name@, entry_type, target_is_dir),
    {
        if !self.keep_dotfiles && file_name.unicode_len() > 0 && file_name.get_char(0) == '.' {
            EntryAction::Skip
        } else if matches!(entry_type, EntryType::Dir) || (self.follow_symlinks && matches!(entry_type, EntryType::Symlink) && target_is_dir) {
            EntryAction::Descend
        } else {
            EntryAction::Report
        }
    }
}

impl Default for FindOpts {
    fn default() -> (res: Self)
        ensures
            !res.follows_symlinks(),
            !res.keeps_dotfiles(),
    {
        FindOpts { follow_symlinks: false, keep_dotfiles: false }
    }
}

/// The type of a directory entry, as far as the walk cares.
#[derive(Debug, Clone, Copy, PartialEq, Eq)]
pub enum EntryType {
    Dir,
    Symlink,
    Other,
}

/// What the walk does with an entry.
#[derive(Debug, Clone, Copy, PartialEq, Eq)]
pub enum EntryAction {
    /// A dotfile that is left out.
    Skip,
    /// A directory (or a followed symlink to one): it is walked into later.
    Descend,
    /// Anything else: it is handed to the caller at once.
    Report,
}

/// Dotfiles are skipped unless kept; directories, and symlinks to
/// directories when symlinks are followed, are walked into; the rest is reported.
pub open spec fn entry_action_spec(
    follow_symlinks: bool,
    keep_dotfiles: bool,
    file_name: Seq<char>,
    entry_type: EntryType,
    target_is_dir: bool,
) -> EntryAction {
    if !keep_dotfiles && file_name.len() > 0 && file_name[0] == '.' {
        EntryAction::Skip
    } else if entry_type == EntryType::Dir || (follow_symlinks && entry_type == EntryType::Symlink
        && target_is_dir) {
        EntryAction::Descend
    } else {
        EntryAction::Report
    }
}


/// What the walk does next.
#[derive(Debug)]
pub enum WalkStep {
    /// List the directory where the walk starts; its entries have depth 1.
    ListRoot,
    /// Report `dir`, and list it; its entries have depth `depth`.
    ListDir { dir: FindCtx, depth: usize },
    /// The walk is over.
    Done,
}

/// The pending directories after a step of the walk: the last one is taken off.
pub open spec fn walk_next_stack(stack: Seq<FindCtx>) -> Seq<FindCtx> {
    if stack.len() == 0 {
        stack
    } else {
        stack.drop_last()
    }
}

/// The step of the walk: list the starting directory first; then list the
/// directory found last, whose entries lie one level deeper; then stop.
pub open spec fn walk_next_step(stack: Seq<FindCtx>, root_traversed: bool) -> WalkStep {
    if !root_traversed {
        WalkStep::ListRoot
    } else if stack.len() == 0 {
        WalkStep::Done
    } else {
        WalkStep::ListDir { dir: stack.last(), depth: (stack.last().depth + 1) as usize }
    }
}

/// The pending directories after an entry was handled: a directory to walk
/// into is added at the end.
pub open spec fn stack_after_entry(stack: Seq<FindCtx>, action: EntryAction, ctx: FindCtx) -> Seq<FindCtx> {
    if action is Descend {
        stack.push(ctx)
    } else {
        stack
    }
}

/// The entry handed back to be reported: only one that is neither skipped nor walked into.
pub open spec fn report_of_entry(action: EntryAction, ctx: FindCtx) -> Option<FindCtx> {
    if action is Report {
        Some(ctx)
    } else {
        None
    }
}

/// Unless dotfiles are kept, an entry whose name starts with `.` is neither
/// walked into nor reported, whatever its type.
pub proof fn law_dotfiles_are_skipped(
    follow_symlinks: bool,
    file_name: Seq<char>,
    entry_type: EntryType,
    target_is_dir: bool,
)
    requires
        file_name.len() > 0,
        file_name[0] == '.',
    ensures
        entry_action_spec(follow_symlinks, false, file_name, entry_type, target_is_dir) == EntryAction::Skip,
{
}

/// Only a leading `.` makes a dotfile: an entry whose name does not start
/// with `.` (a dot elsewhere in it, as in `vim.conf`, does not count), or any
/// entry when dotfiles are kept, is never skipped. Such a directory is
/// walked into, and an entry that is neither a directory nor a symlink is
/// reported; a symlink is walked into exactly when symlinks are followed and
/// it points to a directory.
pub proof fn law_only_a_leading_dot_skips(
    follow_symlinks: bool,
    keep_dotfiles: bool,
    file_name: Seq<char>,
    entry_type: EntryType,
    target_is_dir: bool,
)
    requires
        keep_dotfiles || file_name.len() == 0 || file_name[0] != '.',
    ensures
        entry_action_spec(follow_symlinks, keep_dotfiles, file_name, entry_type, target_is_dir) != EntryAction::Skip,
        entry_type == EntryType::Dir ==> entry_action_spec(follow_symlinks, keep_dotfiles, file_name, entry_type, target_is_dir)
            == EntryAction::Descend,
        entry_type == EntryType::Other ==> entry_action_spec(follow_symlinks, keep_dotfiles, file_name, entry_type, target_is_dir)
            == EntryAction::Report,
        entry_type == EntryType::Symlink ==> (entry_action_spec(follow_symlinks, keep_dotfiles, file_name, entry_type, target_is_dir)
            == EntryAction::Descend <==> follow_symlinks && target_is_dir),
{
}

/// Handling an entry either drops it, keeps it for later (and only then
/// grows the pending directories, by exactly that entry), or hands it back
/// unchanged to be reported; nothing else happens to the pending directories.
pub proof fn law_entry_is_kept_or_reported(stack: Seq<FindCtx>, action: EntryAction, ctx: FindCtx)
    ensures
        action == EntryAction::Report ==> report_of_entry(action, ctx) == Some(ctx) && stack_after_entry(stack, action, ctx) == stack,
        action == EntryAction::Skip ==> report_of_entry(action, ctx) is None && stack_after_entry(stack, action, ctx) == stack,
        action == EntryAction::Descend ==> report_of_entry(action, ctx) is None && stack_after_entry(stack, action, ctx).len()
            == stack.len() + 1 && stack_after_entry(stack, action, ctx).last() == ctx && stack_after_entry(stack, action, ctx).drop_last() == stack,
{
    assert(stack.push(ctx).drop_last() =~= stack);
}

/// A directory that the walk decides to walk into is the very next one it
/// lists (and reports), with its entries one level deeper, and the pending
/// directories are then as they were before it was found.
pub proof fn law_found_dir_is_listed_next(stack: Seq<FindCtx>, ctx: FindCtx)
    requires
        ctx.depth < usize::MAX,
    ensures
        walk_next_step(stack_after_entry(stack, EntryAction::Descend, ctx), true)
            == (WalkStep::ListDir { dir: ctx, depth: (ctx.depth + 1) as usize }),
        walk_next_stack(stack_after_entry(stack, EntryAction::Descend, ctx)) == stack,
        report_of_entry(EntryAction::Descend, ctx) is None,
{
    assert(stack.push(ctx).drop_last() =~= stack);
}

/// A walk does not depend on what the cache held before it: the walk
/// first clears the cache, after which its first step lists the starting
/// directory and leaves the cache empty, and a cache that is empty again
/// ends the walk.
pub proof fn law_walk_starts_fresh()
    ensures
        walk_next_step(Seq::<FindCtx>::empty(), false) is ListRoot,
        walk_next_stack(Seq::<FindCtx>::empty()) == Seq::<FindCtx>::empty(),
        walk_next_step(Seq::<FindCtx>::empty(), true) is Done,
{
}

/// The directories that the walk has yet to go into, last found first.
#[derive(Debug)]
pub struct FindCache {
    stack: Vec<FindCtx>,
}

impl View for FindCache {
    type V = Seq<FindCtx>;

    closed spec fn view(&self) -> Seq<FindCtx> {
        self.stack@
    }
}

impl FindCache {
    #[verifier::type_invariant]
    spec fn inv(self) -> bool {
        forall|i: int| 0 <= i < self.stack@.len() ==> #[trigger] self.stack@[i].depth < usize::MAX
    }

    /// An empty cache.
    pub fn new() -> (res: Self)
        ensures
            res@ == Seq::<FindCtx>::empty(),
    {
        FindCache { stack: Vec::new() }
    }

    /// Forgets every pending directory; a walk starts with this.
    pub fn clear(&mut self)
        ensures
            final(self)@ == Seq::<FindCtx>::empty(),
    {
        self.stack = Vec::new();
    }

    /// The next step of the walk. Each step takes the last directory found
    /// off the cache; the first step, before the starting directory was
    /// listed (`root_traversed` false), lists that directory instead.
    pub fn next_step(&mut self, root_traversed: bool) -> (res: WalkStep)
        ensures
            final(self)@ == walk_next_stack(old(self)@),
            res == walk_next_step(old(self)@, root_traversed),
    {
        proof {
            use_type_invariant(&*self);
        }
        let mut stack = Vec::new();
        std::mem::swap(&mut stack, &mut self.stack);
        let item = stack.pop();
        self.stack = stack;
        if !root_traversed {
            WalkStep::ListRoot
        } else {
            match item {
                Some(dir) => {
                    assert(old(self)@[old(self)@.len() - 1].depth < usize::MAX);
                    let depth = dir.depth + 1;
                    WalkStep::ListDir { dir, depth }
                },
                None => WalkStep::Done,
            }
        }
    }

    /// Handles one entry of a listed directory: a skipped dotfile is
    /// dropped, a directory is kept for later, anything else is given back
    /// to be reported at once.
    pub fn handle_entry(&mut self, opts: &FindOpts, ctx: FindCtx, entry_type: EntryType, target_is_dir: bool) -> (res: Option<FindCtx>)
        requires
            entry_action_spec(opts.follows_symlinks(), opts.keeps_dotfiles(), ctx.file_name@, entry_type, target_is_dir)
                is Descend ==> ctx.depth < usize::MAX,
        ensures
            ({
                let action = entry_action_spec(opts.follows_symlinks(), opts.keeps_dotfiles(), ctx.file_name@, entry_type, target_is_dir);
                &&& final(self)@ == stack_after_entry(old(self)@, action, ctx)
                &&& res == report_of_entry(action, ctx)
            }),
    {
        proof {
            use_type_invariant(&*self);
        }
        match opts.entry_action(ctx.file_name.as_str(), entry_type, target_is_dir) {
            EntryAction::Skip => None,
            EntryAction::Descend => {
                let mut stack = Vec::new();
                std::mem::swap(&mut stack, &mut self.stack);
                stack.push(ctx);
                self.stack = stack;
                None
            },
            EntryAction::Report => Some(ctx),
        }
    }
}

impl Default for FindCache {
    fn default() -> (res: Self)
        ensures
            res@ == Seq::<FindCtx>::empty(),
    {
        Self::new()
    }
}


/// What stands at a path, as `symlink_metadata` and the file-type checks see it.
#[derive(Debug, Clone, Copy, PartialEq, Eq)]
pub enum PathKind {
    /// Nothing: `symlink_metadata` fails.
    Missing,
    /// A symlink (not followed).
    Symlink,
    /// A regular file.
    File,
    /// A directory.
    Dir,
    /// Something else (a socket, a device, ...).
    Other,
}

/// How a path is deleted.
#[derive(Debug, Clone, Copy, PartialEq, Eq)]
pub enum PurgeAction {
    /// There is nothing to delete.
    Nothing,
    /// Remove the file or the symlink itself.
    RemoveFile,
    /// Remove the directory with all it holds.
    RemoveDirAll,
    /// Remove the directory, which must be empty.
    RemoveDir,
}

/// Symlinks and files are removed as files, directories recursively only
/// when that is allowed, and anything else is refused (`None`).
pub open spec fn purge_spec(kind: PathKind, allow_recursive_delete: bool) -> Option<PurgeAction> {
    match kind {
        PathKind::Missing => Some(PurgeAction::Nothing),
        PathKind::Symlink => Some(PurgeAction::RemoveFile),
        PathKind::File => Some(PurgeAction::RemoveFile),
        PathKind::Dir => if allow_recursive_delete {
            Some(PurgeAction::RemoveDirAll)
        } else {
            Some(PurgeAction::RemoveDir)
        },
        PathKind::Other => None,
    }
}

/// Deleting a path without the recursive option never deletes a
/// directory's contents, and a missing path is never an error.
pub proof fn law_purge_path_is_never_recursive(kind: PathKind)
    ensures
        purge_spec(kind, false) != Some(PurgeAction::RemoveDirAll),
        purge_spec(PathKind::Missing, false) == Some(PurgeAction::Nothing),
        purge_spec(PathKind::Missing, true) == Some(PurgeAction::Nothing),
{
}

/// A file or a symlink is removed as a file, whatever the recursive option;
/// only a directory is ever removed with all it holds, and only when that is
/// allowed; a directory without that option is removed only when empty;
/// anything else is refused.
pub proof fn law_only_directories_are_removed_recursively(kind: PathKind, allow_recursive_delete: bool)
    ensures
        purge_spec(PathKind::File, allow_recursive_delete) == Some(PurgeAction::RemoveFile),
        purge_spec(PathKind::Symlink, allow_recursive_delete) == Some(PurgeAction::RemoveFile),
        purge_spec(kind, allow_recursive_delete) == Some(PurgeAction::RemoveDirAll) ==> kind == PathKind::Dir
            && allow_recursive_delete,
        purge_spec(PathKind::Dir, allow_recursive_delete) == Some(
            if allow_recursive_delete { PurgeAction::RemoveDirAll } else { PurgeAction::RemoveDir },
        ),
        purge_spec(kind, allow_recursive_delete) is None <==> kind == PathKind::Other,
        purge_spec(kind, allow_recursive_delete) == Some(PurgeAction::Nothing) <==> kind == PathKind::Missing,
{
}

/// What creating a file at a path takes.
#[derive(Debug)]
pub enum CreatePlan {
    /// The file is there already and is left untouched.
    Exists,
    /// Create the directory `parent` with its ancestors, then the file.
    Create { parent: String },
}

/// The outcome of comparing one pair of chunks read from two files.
#[derive(Debug, Clone, Copy, PartialEq, Eq)]
pub enum CompareStep {
    /// The chunks differ: so do the files.
    Differ,
    /// Both files are at their end: they are equal.
    Equal,
    /// The chunks match: read on.
    Continue,
}

/// Chunks that differ end the comparison; equal empty chunks mean both
/// files ended together; equal chunks with bytes mean reading on.
pub open spec fn compare_spec(a: Seq<u8>, b: Seq<u8>) -> CompareStep {
    if a != b {
        CompareStep::Differ
    } else if a.len() == 0 {
        CompareStep::Equal
    } else {
        CompareStep::Continue
    }
}

/// Comparing chunks is symmetric, a chunk never differs from itself, and
/// two chunks are found to match only when every byte of them is the same:
/// chunks that differ in any byte, or in length, differ.
pub proof fn law_comparison_is_symmetric(a: Seq<u8>, b: Seq<u8>)
    ensures
        compare_spec(a, b) == compare_spec(b, a),
        compare_spec(a, a) != CompareStep::Differ,
        compare_spec(a, b) != CompareStep::Differ ==> a.len() == b.len() && forall|i: int| 0 <= i < a.len() ==> a[i] == b[i],
        (exists|i: int| 0 <= i < a.len() && i < b.len() && a[i] != b[i]) ==> compare_spec(a, b) == CompareStep::Differ,
        a.len() != b.len() ==> compare_spec(a, b) == CompareStep::Differ,
        compare_spec(a, b) == CompareStep::Equal <==> a.len() == 0 && b.len() == 0,
{
    if a.len() == 0 && b.len() == 0 {
        assert(a =~= b);
    }
}

/// Compares two chunks read at the same offset of two files.
pub fn compare_chunks(a: &[u8], b: &[u8]) -> (res: CompareStep)
    ensures
        res == compare_spec(a@, b@),
{
    if a.len() != b.len() {
        return CompareStep::Differ;
    }
    let mut i: usize = 0;
    while i < a.len()
        invariant
            i <= a.len(),
            a.len() == b.len(),
            forall|j: int| 0 <= j < i ==> a@[j] == b@[j],
        decreases a.len() - i,
    {
        if a[i] != b[i] {
            return CompareStep::Differ;
        }
        i = i + 1;
    }
    assert(a@ =~= b@);
    if a.len() == 0 {
        CompareStep::Equal
    } else {
        CompareStep::Continue
    }
}

/// Whether two files are worth comparing chunk by chunk: both must be
/// files, of the same length.
pub fn worth_comparing(a_is_file: bool, a_len: u64, b_is_file: bool, b_len: u64) -> (res: bool)
    ensures
        res == (a_is_file && b_is_file && a_len == b_len),
{
    a_is_file && b_is_file && a_len == b_len
}

/// After a directory was tried for removal during the cleanup of empty
/// parents, the next one to try: the parent of the one just removed, and none
/// once a removal failed.
pub fn next_parent_to_remove(removed: &str, succeeded: bool) -> (res: Option<String>)
    ensures
        !succeeded ==> res is None,
        succeeded ==> res.deep_view() == path_parent(removed@),
{
    if succeeded {
        parent_of(removed)
    } else {
        None
    }
}

impl AbsPathStr {
    /// How to delete this path, given what stands there; a path that is
    /// neither missing, a symlink, a file nor a directory is refused.
    pub fn purge_path_opts(&self, kind: PathKind, allow_recursive_delete: bool) -> (res: Result<PurgeAction, PathError>)
        ensures
            match purge_spec(kind, allow_recursive_delete) {
                Some(action) => res == Ok::<PurgeAction, PathError>(action),
                None => res matches Err(e) && e.kind == PathErrorKind::CannotDelete && e.path@ == self@,
            },
    {
        match kind {
            PathKind::Missing => Ok(PurgeAction::Nothing),
            PathKind::Symlink => Ok(PurgeAction::RemoveFile),
            PathKind::File => Ok(PurgeAction::RemoveFile),
            PathKind::Dir => if allow_recursive_delete {
                Ok(PurgeAction::RemoveDirAll)
            } else {
                Ok(PurgeAction::RemoveDir)
            },
            PathKind::Other => Err(PathError { kind: PathErrorKind::CannotDelete, path: self.display() }),
        }
    }

    /// How to delete this path without deleting a directory's contents.
    pub fn purge_path(&self, kind: PathKind) -> (res: Result<PurgeAction, PathError>)
        ensures
            match purge_spec(kind, false) {
                Some(action) => res == Ok::<PurgeAction, PathError>(action),
                None => res matches Err(e) && e.kind == PathErrorKind::CannotDelete && e.path@ == self@,
            },
    {
        self.purge_path_opts(kind, false)
    }

    /// What creating a file at this path takes: nothing if a file is there
    /// already; else the path must end in a name and have a parent directory.
    pub fn create_file(&self, is_file: bool) -> (res: Result<CreatePlan, PathError>)
        ensures
            is_file ==> res matches Ok(CreatePlan::Exists),
            !is_file ==> match (basename_of(self@), path_parent(self@)) {
                (None, _) => res matches Err(e) && e.kind == PathErrorKind::NotAFile && e.path@ == self@,
                (Some(_), None) => res matches Err(e) && e.kind == PathErrorKind::NoParent && e.path@ == self@,
                (Some(_), Some(p)) => res matches Ok(CreatePlan::Create { parent }) && parent@ == p,
            },
            !is_file && basename_of(self@) is Some ==> res is Ok,
            res matches Ok(CreatePlan::Create { parent }) ==> path_components(parent@) == path_components(self@).drop_last(),
    {
        if is_file {
            return Ok(CreatePlan::Exists);
        }
        let parts = components_of(self.path());
        let ends_in_name = last_name(&parts).is_some();
        if !ends_in_name {
            return Err(PathError { kind: PathErrorKind::NotAFile, path: self.display() });
        }
        match parent_of(self.path()) {
            Some(parent) => Ok(CreatePlan::Create { parent }),
            None => Err(PathError { kind: PathErrorKind::NoParent, path: self.display() }),
        }
    }

    /// Only a file is read.
    pub fn check_readable(&self, is_file: bool) -> (res: Result<(), PathError>)
        ensures
            is_file ==> res is Ok,
            !is_file ==> (res matches Err(e) && e.kind == PathErrorKind::NotReadable && e.path@ == self@),
    {
        if is_file {
            Ok(())
        } else {
            Err(PathError { kind: PathErrorKind::NotReadable, path: self.display() })
        }
    }
}

} // verus!
