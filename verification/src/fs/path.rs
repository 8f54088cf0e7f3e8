//! A path held as text, that never names the current or the parent directory.
use vstd::prelude::*;

verus! {

/// One component of a path, as the standard library splits it.
#[derive(Debug)]
pub enum PathPart {
    /// A Windows path prefix (never produced on Unix).
    Prefix,
    /// The root directory `/`.
    Root,
    /// A leading `.`.
    Current,
    /// A `..`.
    Parent,
    /// An ordinary name.
    Normal(String),
}

/// The mathematical value of a [`PathPart`].
pub enum PartView {
    Prefix,
    Root,
    Current,
    Parent,
    Normal(Seq<char>),
}

impl View for PathPart {
    type V = PartView;

    open spec fn view(&self) -> PartView {
        match self {
            PathPart::Prefix => PartView::Prefix,
            PathPart::Root => PartView::Root,
            PathPart::Current => PartView::Current,
            PathPart::Parent => PartView::Parent,
            PathPart::Normal(s) => PartView::Normal(s@),
        }
    }
}

/// The values of a sequence of components.
pub open spec fn part_views(parts: Seq<PathPart>) -> Seq<PartView> {
    parts.map_values(|p: PathPart| p@)
}

/// The pieces of a text between its `/` separators (at least one piece;
/// a piece may be empty).
pub open spec fn split_slash(s: Seq<char>) -> Seq<Seq<char>>
    decreases s.len(),
{
    if s.len() == 0 {
        seq![Seq::<char>::empty()]
    } else {
        let rest = split_slash(s.drop_last());
        if s.last() == '/' {
            rest.push(Seq::<char>::empty())
        } else {
            rest.update(rest.len() - 1, rest.last().push(s.last()))
        }
    }
}

/// The components named by the pieces of a path: empty pieces (repeated
/// or trailing separators) and `.` pieces are dropped, `..` is the parent,
/// any other piece is a name.
pub open spec fn piece_parts(pieces: Seq<Seq<char>>) -> Seq<PartView>
    decreases pieces.len(),
{
    if pieces.len() == 0 {
        Seq::empty()
    } else {
        let before = piece_parts(pieces.drop_last());
        let piece = pieces.last();
        if piece.len() == 0 || piece == seq!['.'] {
            before
        } else if piece == seq!['.', '.'] {
            before.push(PartView::Parent)
        } else {
            before.push(PartView::Normal(piece))
        }
    }
}

/// The components that come before the named pieces: the root for a path
/// that starts with `/`, else the current directory for a path whose first
/// piece is `.`.
pub open spec fn leading_parts(s: Seq<char>) -> Seq<PartView> {
    if s.len() > 0 && s[0] == '/' {
        seq![PartView::Root]
    } else if s == seq!['.'] || (s.len() >= 2 && s[0] == '.' && s[1] == '/') {
        seq![PartView::Current]
    } else {
        Seq::empty()
    }
}

/// The components of a Unix path, as the documentation of
/// `std::path::Path::components` gives them: repeated separators are
/// ignored, a trailing separator is normalized away, `.` is normalized away
/// except at the beginning of a relative path (a leading `CurDir`), a leading
/// `/` is the root, `..` is the parent, and any other piece is a normal name.
pub open spec fn path_components(path: Seq<char>) -> Seq<PartView> {
    leading_parts(path) + piece_parts(split_slash(path))
}

/// A text that is one normal name: not empty, not `.` or `..`, and without a separator.
pub open spec fn is_single_name(name: Seq<char>) -> bool {
    &&& name.len() > 0
    &&& name != seq!['.']
    &&& name != seq!['.', '.']
    &&& forall|i: int| 0 <= i < name.len() ==> name[i] != '/'
}

proof fn lemma_split_len(s: Seq<char>)
    ensures
        split_slash(s).len() >= 1,
    decreases s.len(),
{
    if s.len() > 0 {
        lemma_split_len(s.drop_last());
    }
}

proof fn lemma_split_append(x: Seq<char>, n: Seq<char>)
    requires
        forall|i: int| 0 <= i < n.len() ==> n[i] != '/',
    ensures
        split_slash(x + n) == split_slash(x).update(
            split_slash(x).len() - 1,
            split_slash(x).last() + n,
        ),
    decreases n.len(),
{
    lemma_split_len(x);
    let sx = split_slash(x);
    if n.len() == 0 {
        assert(x + n =~= x);
        assert(sx.last() + n =~= sx.last());
        assert(sx.update(sx.len() - 1, sx.last()) =~= sx);
    } else {
        let m = n.drop_last();
        lemma_split_append(x, m);
        assert((x + n).drop_last() =~= x + m);
        assert((x + n).last() == n.last());
        assert(sx.last() + m.push(n.last()) =~= sx.last() + n);
        assert(split_slash(x + n) =~= sx.update(sx.len() - 1, sx.last() + n));
    }
}

proof fn lemma_first_invalid_push_name(parts: Seq<PartView>, name: Seq<char>)
    ensures
        first_invalid(parts.push(PartView::Normal(name))) == first_invalid(parts),
    decreases parts.len(),
{
    let pushed = parts.push(PartView::Normal(name));
    if parts.len() > 0 {
        assert(pushed.drop_first() =~= parts.drop_first().push(PartView::Normal(name)));
        assert(pushed[0] == parts[0]);
        lemma_first_invalid_push_name(parts.drop_first(), name);
    } else {
        assert(pushed.drop_first() =~= Seq::<PartView>::empty());
        assert(first_invalid(Seq::<PartView>::empty()) is None);
    }
}

/// A single name is one normal component, so it is a valid path.
pub proof fn law_single_name_is_one_component(name: Seq<char>)
    requires
        is_single_name(name),
    ensures
        path_components(name) == seq![PartView::Normal(name)],
        is_valid_path(name),
{
    lemma_split_append(Seq::empty(), name);
    assert(Seq::<char>::empty() + name =~= name);
    let pieces = split_slash(name);
    assert(pieces =~= seq![name]);
    assert(pieces.drop_last() =~= Seq::<Seq<char>>::empty());
    assert(piece_parts(pieces.drop_last()) =~= Seq::<PartView>::empty());
    assert(pieces.last() == name);
    assert(piece_parts(pieces) =~= seq![PartView::Normal(name)]);
    assert(leading_parts(name) =~= Seq::<PartView>::empty()) by {
        assert(name[0] != '/');
        if name.len() >= 2 && name[0] == '.' {
            assert(name[1] != '/');
        }
    }
    assert(path_components(name) =~= seq![PartView::Normal(name)]);
    assert(seq![PartView::Normal(name)].drop_first() =~= Seq::<PartView>::empty());
    assert(first_invalid(Seq::<PartView>::empty()) is None);
    assert(first_invalid(seq![PartView::Normal(name)]) is None);
}

/// Adjoining a single name to a path, with one separator between them
/// unless the path ends in one, adds that name as a last component; so the
/// result is valid exactly when the path is.
pub proof fn law_adjoin_name_adds_component(base: Seq<char>, name: Seq<char>)
    requires
        base.len() > 0,
        is_single_name(name),
    ensures
        ({
            let joined = if base.last() == '/' { base + name } else { base + seq!['/'] + name };
            &&& path_components(joined) == path_components(base).push(PartView::Normal(name))
            &&& validation(joined) == validation(base)
        }),
{
    let joined = if base.last() == '/' { base + name } else { base + seq!['/'] + name };
    lemma_split_len(base);
    if base.last() == '/' {
        lemma_split_append(base, name);
        let b0 = base.drop_last();
        assert(base =~= b0.push('/'));
        lemma_split_len(b0);
        assert(split_slash(base) == split_slash(b0).push(Seq::<char>::empty()));
        assert(Seq::<char>::empty() + name =~= name);
        assert(split_slash(joined) =~= split_slash(b0).push(name));
        assert(split_slash(joined).drop_last() =~= split_slash(b0));
        assert(split_slash(base).drop_last() =~= split_slash(b0));
        assert(piece_parts(split_slash(base)) == piece_parts(split_slash(b0)));
    } else {
        let b1 = base + seq!['/'];
        lemma_split_append(b1, name);
        assert(b1.drop_last() =~= base);
        lemma_split_len(b1);
        assert(split_slash(b1) == split_slash(base).push(Seq::<char>::empty()));
        assert(Seq::<char>::empty() + name =~= name);
        assert(split_slash(joined) =~= split_slash(base).push(name));
        assert(split_slash(joined).drop_last() =~= split_slash(base));
    }
    assert(piece_parts(split_slash(joined)) == piece_parts(split_slash(base)).push(PartView::Normal(name)));
    assert(leading_parts(joined) == leading_parts(base)) by {
        assert(joined[0] == base[0]);
        if base.len() >= 2 {
            assert(joined[1] == base[1]);
        } else if base[0] == '.' {
            assert(base =~= seq!['.']);
            assert(joined[1] == '/');
        }
    }
    assert(path_components(joined) =~= path_components(base).push(PartView::Normal(name)));
    lemma_first_invalid_push_name(path_components(base), name);
}

/// Splits a path into its components.
///
/// Trusted: calls `std::path::Path::components` and converts each
/// `std::path::Component` to the [`PathPart`] of the same variant; the
/// contract claims that the result is the split that `path_components`
/// writes out from std's documentation for Unix paths.
#[verifier::external_body]
pub(crate) fn components_of(path: &str) -> (res: Vec<PathPart>)
    ensures
        part_views(res@) == path_components(path@),
{
    std::path::Path::new(path).components().map(|c| match c {
        std::path::Component::Prefix(_) => PathPart::Prefix,
        std::path::Component::RootDir => PathPart::Root,
        std::path::Component::CurDir => PathPart::Current,
        std::path::Component::ParentDir => PathPart::Parent,
        std::path::Component::Normal(s) => PathPart::Normal(s.to_string_lossy().into_owned()),
    }).collect()
}

/// The parent that `std::path::Path::parent` gives for a path: the path
/// without its final component, or `None` for a path that ends in a root or is empty.
pub uninterp spec fn path_parent(path: Seq<char>) -> Option<Seq<char>>;

/// The parent directory of a path.
///
/// Trusted: calls `std::path::Path::parent` and converts the result to text.
/// The contract says that the result is what `path_parent` names, and what
/// std's documentation states of it: there is no parent exactly when the
/// path has no component or ends in the root, and the parent is the path
/// without its final component.
#[verifier::external_body]
pub(crate) fn parent_of(path: &str) -> (res: Option<String>)
    ensures
        res.deep_view() == path_parent(path@),
        res is None <==> (path_components(path@).len() == 0 || path_components(path@).last() is Root),
        res matches Some(q) ==> path_components(q@) == path_components(path@).drop_last(),
{
    std::path::Path::new(path).parent().map(|p| p.to_string_lossy().into_owned())
}

/// What `std::path::Path::strip_prefix` leaves of `path` once the components
/// of `base` are taken off its front, or `None` where `base` is not a prefix of it.
pub uninterp spec fn path_strip_prefix(path: Seq<char>, base: Seq<char>) -> Option<Seq<char>>;

/// The rest of `path` below `base`.
///
/// Trusted: calls `std::path::Path::strip_prefix`, maps its error to `None`
/// and converts the remainder to text. The contract says that the result is
/// what `path_strip_prefix` names, and what std's documentation states of it:
/// there is a rest exactly when the components of `base` begin those of
/// `path` (whole components only), and the rest, joined onto `base`, gives
/// `path` back, so its components are the remaining ones.
#[verifier::external_body]
pub(crate) fn strip_prefix_of(path: &str, base: &str) -> (res: Option<String>)
    ensures
        res.deep_view() == path_strip_prefix(path@, base@),
        res is Some <==> path_components(base@).is_prefix_of(path_components(path@)),
        res matches Some(r) ==> path_components(r@) == path_components(path@).skip(
            path_components(base@).len() as int,
        ),
{
    std::path::Path::new(path).strip_prefix(base).ok().map(|p| p.to_string_lossy().into_owned())
}

/// Why a text was refused as a path, or an operation on a path failed.
#[derive(Debug, Clone, Copy, PartialEq, Eq)]
pub enum PathErrorKind {
    /// The path contains a `..` component.
    ParentDir,
    /// The path contains a `.` component.
    CurrentDir,
    /// The path has no final normal component.
    NoBasename,
    /// An absolute path was expected.
    NotAbsolute,
    /// A relative path was expected.
    NotRelative,
    /// The path does not lie under the given base.
    NotUnderBase,
    /// The path cannot name a file.
    NotAFile,
    /// The path has no parent directory.
    NoParent,
    /// The path is neither a file, a directory nor a symlink, so it is not deleted.
    CannotDelete,
    /// The path is not a file, so it is not read.
    NotReadable,
}

/// An error on a path: its kind and the path text it concerns.
#[derive(Debug)]
pub struct PathError {
    pub kind: PathErrorKind,
    pub path: String,
}

impl View for PathError {
    type V = (PathErrorKind, Seq<char>);

    open spec fn view(&self) -> (PathErrorKind, Seq<char>) {
        (self.kind, self.path@)
    }
}

/// The first component that a path string may not hold (`..` or `.`), if any.
pub open spec fn first_invalid(parts: Seq<PartView>) -> Option<PartView>
    decreases parts.len(),
{
    if parts.len() == 0 {
        None
    } else if parts[0] is Parent || parts[0] is Current {
        Some(parts[0])
    } else {
        first_invalid(parts.drop_first())
    }
}

proof fn lemma_first_invalid_none(parts: Seq<PartView>)
    ensures
        first_invalid(parts) is None <==> forall|i: int|
            0 <= i < parts.len() ==> !(#[trigger] parts[i] is Parent) && !(parts[i] is Current),
    decreases parts.len(),
{
    if parts.len() > 0 {
        lemma_first_invalid_none(parts.drop_first());
        if first_invalid(parts) is None {
            assert forall|i: int| 0 <= i < parts.len() implies !(#[trigger] parts[i] is Parent) && !(
            parts[i] is Current) by {
                if i > 0 {
                    assert(parts[i] == parts.drop_first()[i - 1]);
                }
            }
        } else if !(parts[0] is Parent || parts[0] is Current) {
            let j = choose|j: int|
                0 <= j < parts.drop_first().len() && !!((#[trigger] parts.drop_first()[j] is Parent) || (
                parts.drop_first()[j] is Current));
            assert(parts[j + 1] == parts.drop_first()[j]);
        }
    }
}

/// A path text is accepted exactly when none of its components is `..` or `.`.
pub proof fn law_valid_path_has_no_dot_components(path: Seq<char>)
    ensures
        is_valid_path(path) <==> forall|i: int|
            0 <= i < path_components(path).len() ==> !(#[trigger] path_components(path)[i] is Parent)
                && !(path_components(path)[i] is Current),
{
    lemma_first_invalid_none(path_components(path));
}

/// Two path texts name the same path when their components are the same.
pub open spec fn same_path_spec(a: Seq<char>, b: Seq<char>) -> bool {
    path_components(a) == path_components(b)
}

/// Two different single names never name the same path.
pub proof fn law_different_names_are_different_paths(a: Seq<char>, b: Seq<char>)
    requires
        is_single_name(a),
        is_single_name(b),
        a != b,
    ensures
        !same_path_spec(a, b),
{
    law_single_name_is_one_component(a);
    law_single_name_is_one_component(b);
    assert(path_components(a)[0] != path_components(b)[0]);
}

/// Naming the same path is an equivalence, and the same text always names the same path.
pub proof fn law_same_path_is_equivalence(a: Seq<char>, b: Seq<char>, c: Seq<char>)
    ensures
        same_path_spec(a, a),
        same_path_spec(a, b) ==> same_path_spec(b, a),
        same_path_spec(a, b) && same_path_spec(b, c) ==> same_path_spec(a, c),
        a == b ==> same_path_spec(a, b),
{
}

/// Why a path with these components is refused, or `None` where it is accepted.
pub open spec fn parts_validation(parts: Seq<PartView>) -> Option<PathErrorKind> {
    match first_invalid(parts) {
        None => None,
        Some(PartView::Parent) => Some(PathErrorKind::ParentDir),
        Some(_) => Some(PathErrorKind::CurrentDir),
    }
}

/// The reason a text is refused as a path, or `None` where it is accepted.
pub open spec fn validation(path: Seq<char>) -> Option<PathErrorKind> {
    parts_validation(path_components(path))
}

/// A text is a valid path when no component of it is `..` or `.`.
pub open spec fn is_valid_path(path: Seq<char>) -> bool {
    validation(path) is None
}

proof fn lemma_first_invalid_skip(parts: Seq<PartView>, i: int)
    requires
        0 <= i < parts.len(),
        !(parts[i] is Parent || parts[i] is Current),
    ensures
        first_invalid(parts.skip(i)) == first_invalid(parts.skip(i + 1)),
{
    assert(parts.skip(i).drop_first() =~= parts.skip(i + 1));
}

/// Finds the first `..` or `.` component among `parts`.
fn find_invalid(parts: &Vec<PathPart>) -> (res: Option<usize>)
    ensures
        match res {
            None => first_invalid(part_views(parts@)) is None,
            Some(i) => i < parts.len() && first_invalid(part_views(parts@))
                == Some(parts@[i as int]@),
        },
{
    let ghost views = part_views(parts@);
    let mut i: usize = 0;
    assert(views.skip(0) =~= views);
    while i < parts.len()
        invariant
            i <= parts.len(),
            views == part_views(parts@),
            first_invalid(views) == first_invalid(views.skip(i as int)),
        decreases parts.len() - i,
    {
        match &parts[i] {
            PathPart::Parent => {
                return Some(i);
            },
            PathPart::Current => {
                return Some(i);
            },
            _ => {},
        }
        proof {
            lemma_first_invalid_skip(views, i as int);
        }
        i = i + 1;
    }
    None
}


/// The last of these components when it is an ordinary name.
pub open spec fn last_name_of(parts: Seq<PartView>) -> Option<Seq<char>> {
    if parts.len() == 0 {
        None
    } else {
        match parts.last() {
            PartView::Normal(name) => Some(name),
            _ => None,
        }
    }
}

/// The last component of a path when it is an ordinary name (what
/// `std::path::Path::file_name` gives back: the final component, unless the
/// path ends in a root, in `.` or in `..`).
pub open spec fn basename_of(path: Seq<char>) -> Option<Seq<char>> {
    last_name_of(path_components(path))
}

/// A path has a basename exactly when its last component is a normal name,
/// and then the basename is that name; so a single name is its own basename,
/// and a path ending in the root, in `.` or in `..` has none.
pub proof fn law_basename_is_the_last_name(parts: Seq<PartView>, path: Seq<char>, name: Seq<char>)
    ensures
        parts.len() > 0 && parts.last() == PartView::Normal(name) ==> last_name_of(parts) == Some(name),
        last_name_of(parts) matches Some(n) ==> parts.len() > 0 && parts.last() == PartView::Normal(n),
        is_single_name(name) ==> basename_of(name) == Some(name),
        path_components(path).len() > 0 && path_components(path).last() == PartView::Normal(name) ==> basename_of(path) == Some(
            name,
        ),
{
    if is_single_name(name) {
        law_single_name_is_one_component(name);
    }
}

/// Why a path with the components `parts` is refused: the first `..` or
/// `.` among them decides; `None` where there is none.
pub fn check_parts(parts: &Vec<PathPart>) -> (res: Option<PathErrorKind>)
    ensures
        res == parts_validation(part_views(parts@)),
{
    match find_invalid(parts) {
        None => None,
        Some(i) => match &parts[i] {
            PathPart::Parent => Some(PathErrorKind::ParentDir),
            _ => Some(PathErrorKind::CurrentDir),
        },
    }
}

/// The last of the components `parts`, when it is an ordinary name.
pub fn last_name(parts: &Vec<PathPart>) -> (res: Option<String>)
    ensures
        res.deep_view() == last_name_of(part_views(parts@)),
{
    let n = parts.len();
    if n == 0 {
        return None;
    }
    assert(part_views(parts@).last() == parts@[n - 1]@);
    match &parts[n - 1] {
        PathPart::Normal(name) => Some(name.clone()),
        _ => None,
    }
}

/// Tells whether two lists of components are the same.
pub fn parts_eq(a: &Vec<PathPart>, b: &Vec<PathPart>) -> (res: bool)
    ensures
        res == (part_views(a@) == part_views(b@)),
{
    let ghost va = part_views(a@);
    let ghost vb = part_views(b@);
    if a.len() != b.len() {
        assert(va.len() != vb.len());
        return false;
    }
    let mut i: usize = 0;
    while i < a.len()
        invariant
            i <= a.len(),
            a.len() == b.len(),
            va == part_views(a@),
            vb == part_views(b@),
            forall|j: int| 0 <= j < i ==> va[j] == vb[j],
        decreases a.len() - i,
    {
        assert(va[i as int] == a@[i as int]@ && vb[i as int] == b@[i as int]@);
        if !part_eq(&a[i], &b[i]) {
            assert(va[i as int] != vb[i as int]);
            assert(va != vb);
            return false;
        }
        i = i + 1;
    }
    assert(va =~= vb);
    true
}

/// Tells whether two components are the same.
fn part_eq(a: &PathPart, b: &PathPart) -> (res: bool)
    ensures
        res == (a@ == b@),
{
    match (a, b) {
        (PathPart::Prefix, PathPart::Prefix) => true,
        (PathPart::Root, PathPart::Root) => true,
        (PathPart::Current, PathPart::Current) => true,
        (PathPart::Parent, PathPart::Parent) => true,
        (PathPart::Normal(x), PathPart::Normal(y)) => *x == *y,
        _ => false,
    }
}

/// A path held as text, in which no component is `..` or `.`. Two paths
/// are equal when they have the same components, whatever their texts.
#[derive(Debug, Eq)]
pub struct PathStr {
    path: String,
}

impl View for PathStr {
    type V = Seq<char>;

    closed spec fn view(&self) -> Seq<char> {
        self.path@
    }
}

impl Clone for PathStr {
    fn clone(&self) -> (res: Self)
        ensures
            res@ == self@,
    {
        proof {
            use_type_invariant(self);
        }
        PathStr { path: self.path.clone() }
    }
}

impl PathStr {
    #[verifier::type_invariant]
    spec fn inv(self) -> bool {
        is_valid_path(self.path@)
    }

    /// Accepts a path text, unless one of its components is `..` or `.`:
    /// the first such component decides the error.
    pub fn new_from_pathbuf(path: String) -> (res: Result<Self, PathError>)
        ensures
            match res {
                Ok(p) => validation(path@) is None && p@ == path@,
                Err(e) => validation(path@) == Some(e.kind) && e.path@ == path@,
            },
    {
        let parts = components_of(path.as_str());
        match check_parts(&parts) {
            None => Ok(PathStr { path }),
            Some(kind) => Err(PathError { kind, path }),
        }
    }

    /// Same as [`PathStr::new_from_pathbuf`].
    pub fn new(path: String) -> (res: Result<Self, PathError>)
        ensures
            match res {
                Ok(p) => validation(path@) is None && p@ == path@,
                Err(e) => validation(path@) == Some(e.kind) && e.path@ == path@,
            },
    {
        Self::new_from_pathbuf(path)
    }

    /// The path text.
    pub fn path(&self) -> (res: &str)
        ensures
            res@ == self@,
            is_valid_path(self@),
    {
        proof {
            use_type_invariant(self);
        }
        self.path.as_str()
    }

    /// The path as a string slice; a path held as text always has one.
    pub fn to_str(&self) -> (res: Option<&str>)
        ensures
            res matches Some(s) && s@ == self@,
    {
        Some(self.path.as_str())
    }

    /// The path as an owned string.
    pub fn to_string_lossy(&self) -> (res: String)
        ensures
            res@ == self@,
    {
        self.path.clone()
    }

    /// The path as it is shown to the user.
    pub fn display(&self) -> (res: String)
        ensures
            res@ == self@,
    {
        self.path.clone()
    }

    /// The final component of the path, as a path of its own.
    pub fn basename(&self) -> (res: Result<Self, PathError>)
        ensures
            match basename_of(self@) {
                None => res matches Err(e) && e.kind == PathErrorKind::NoBasename && e.path@ == self@,
                Some(name) => match res {
                    Ok(p) => validation(name) is None && p@ == name,
                    Err(e) => validation(name) == Some(e.kind) && e.path@ == name,
                },
            },
    {
        let parts = components_of(self.path.as_str());
        match last_name(&parts) {
            Some(name) => Self::new_from_pathbuf(name),
            None => Err(PathError { kind: PathErrorKind::NoBasename, path: self.path.clone() }),
        }
    }

    /// Tells whether two paths have the same components (so `a/b` and
    /// `a//b/` are the same path).
    pub fn same_path(&self, other: &Self) -> (res: bool)
        ensures
            res == same_path_spec(self@, other@),
    {
        let a = components_of(self.path.as_str());
        let b = components_of(other.path.as_str());
        parts_eq(&a, &b)
    }
}


impl std::convert::TryFrom<String> for PathStr {
    type Error = PathError;

    fn try_from(value: String) -> (res: Result<Self, Self::Error>)
        ensures
            match res {
                Ok(p) => validation(value@) is None && p@ == value@,
                Err(e) => validation(value@) == Some(e.kind) && e.path@ == value@,
            },
    {
        Self::new(value)
    }
}

impl PartialEq for PathStr {
    fn eq(&self, other: &Self) -> (res: bool) {
        self.same_path(other)
    }
}

/// `==` on paths compares their components, as [`PathStr::same_path`] does.
impl vstd::std_specs::cmp::PartialEqSpecImpl for PathStr {
    open spec fn obeys_eq_spec() -> bool {
        true
    }

    open spec fn eq_spec(&self, other: &PathStr) -> bool {
        same_path_spec(self@, other@)
    }
}

/// `PathStr::try_from` is described by its own contract, not by a spec
/// function of values: no `PathStr` value can be written down in a spec.
impl vstd::std_specs::convert::TryFromSpecImpl<String> for PathStr {
    open spec fn obeys_try_from_spec() -> bool {
        false
    }

    open spec fn try_from_spec(v: String) -> Result<Self, PathError> {
        arbitrary()
    }
}

impl std::str::FromStr for PathStr {
    type Err = PathError;

    fn from_str(s: &str) -> (res: Result<Self, Self::Err>)
        ensures
            match res {
                Ok(p) => validation(s@) is None && p@ == s@,
                Err(e) => validation(s@) == Some(e.kind) && e.path@ == s@,
            },
    {
        Self::new(s.to_owned())
    }
}

} // verus!
