//! Absolute and relative paths.
use vstd::prelude::*;
use vstd::string::*;
use crate::fs::path::{PathStr, PathError, PathErrorKind, validation, is_valid_path, strip_prefix_of, path_strip_prefix, same_path_spec,
    is_single_name, path_components, PartView, law_single_name_is_one_component, law_adjoin_name_adds_component};

verus! {

/// A text names an absolute path when it starts at the root `/`.
pub open spec fn is_absolute_text(path: Seq<char>) -> bool {
    path.len() > 0 && path[0] == '/'
}

/// The text of `rel` adjoined to `base`, with one separator between them
/// unless `base` already ends in one.
pub open spec fn join_text(base: Seq<char>, rel: Seq<char>) -> Seq<char> {
    if base.len() > 0 && base.last() == '/' {
        base + rel
    } else {
        base + seq!['/'] + rel
    }
}

/// A joined path starts with the text of its base, and is longer than it.
pub proof fn law_join_stays_below(base: Seq<char>, rel: Seq<char>)
    ensures
        base.is_prefix_of(join_text(base, rel)),
        join_text(base, rel).len() > base.len() || (base.len() > 0 && base.last() == '/' && rel.len() == 0),
{
    assert(join_text(base, rel).subrange(0, base.len() as int) =~= base);
}

/// Why a text is refused as an absolute path, or `None` where it is accepted.
pub open spec fn abs_validation(path: Seq<char>) -> Option<PathErrorKind> {
    match validation(path) {
        Some(k) => Some(k),
        None => if is_absolute_text(path) { None } else { Some(PathErrorKind::NotAbsolute) },
    }
}

/// Why a text is refused as a relative path, or `None` where it is accepted.
pub open spec fn rel_validation(path: Seq<char>) -> Option<PathErrorKind> {
    match validation(path) {
        Some(k) => Some(k),
        None => if is_absolute_text(path) { Some(PathErrorKind::NotRelative) } else { None },
    }
}

/// What accepting `path` as an absolute path gives: its text, or the error.
pub open spec fn abs_result(path: Seq<char>) -> Result<Seq<char>, (PathErrorKind, Seq<char>)> {
    match abs_validation(path) {
        None => Ok(path),
        Some(k) => Err((k, path)),
    }
}

/// What accepting `path` as a relative path gives: its text, or the error.
pub open spec fn rel_result(path: Seq<char>) -> Result<Seq<char>, (PathErrorKind, Seq<char>)> {
    match rel_validation(path) {
        None => Ok(path),
        Some(k) => Err((k, path)),
    }
}

/// What [`AbsPathStr::to_rel`] gives for `path` below `base`.
pub open spec fn to_rel_result(path: Seq<char>, base: Seq<char>) -> Result<Seq<char>, (PathErrorKind, Seq<char>)> {
    match path_strip_prefix(path, base) {
        None => Err((PathErrorKind::NotUnderBase, path)),
        Some(rest) => rel_result(rest),
    }
}

/// A single name is a relative path, and adjoining it to an absolute path
/// gives an absolute path whose components are those of the base and then the name.
pub proof fn law_join_name_stays_valid(base: Seq<char>, name: Seq<char>)
    requires
        abs_validation(base) is None,
        is_single_name(name),
    ensures
        rel_validation(name) is None,
        abs_validation(join_text(base, name)) is None,
        path_components(join_text(base, name)) == path_components(base).push(PartView::Normal(name)),
{
    law_single_name_is_one_component(name);
    assert(name[0] != '/');
    law_adjoin_name_adds_component(base, name);
    assert(join_text(base, name)[0] == base[0]);
}

/// The components of a name joined onto a valid absolute path begin with
/// those of the path, and what follows them is the name: so [`AbsPathStr::to_rel`]
/// of the joined path against the base gives the name back.
pub proof fn law_rest_of_join_is_the_name(base: Seq<char>, name: Seq<char>)
    requires
        abs_validation(base) is None,
        is_single_name(name),
    ensures
        path_components(base).is_prefix_of(path_components(join_text(base, name))),
        path_components(join_text(base, name)).skip(path_components(base).len() as int) == path_components(name),
{
    law_join_name_stays_valid(base, name);
    law_single_name_is_one_component(name);
    let c = path_components(base);
    assert(c.push(PartView::Normal(name)).skip(c.len() as int) =~= seq![PartView::Normal(name)]);
}

/// No text is accepted both as an absolute and as a relative path.
pub proof fn law_absolute_and_relative_are_disjoint(path: Seq<char>)
    ensures
        !(abs_validation(path) is None && rel_validation(path) is None),
        validation(path) is None ==> (abs_validation(path) is None || rel_validation(path) is None),
{
}

/// Tells whether a text starts at the root.
fn starts_at_root(path: &str) -> (res: bool)
    ensures
        res == is_absolute_text(path@),
{
    path.unicode_len() > 0 && path.get_char(0) == '/'
}

/// A valid path that starts at the root; paths are equal when they have
/// the same components.
#[derive(Debug, Eq)]
pub struct AbsPathStr {
    inner: PathStr,
}

/// A valid path that does not start at the root; paths are equal when they
/// have the same components.
#[derive(Debug, Eq)]
pub struct RelPathStr {
    inner: PathStr,
}

impl View for AbsPathStr {
    type V = Seq<char>;

    closed spec fn view(&self) -> Seq<char> {
        self.inner@
    }
}

impl View for RelPathStr {
    type V = Seq<char>;

    closed spec fn view(&self) -> Seq<char> {
        self.inner@
    }
}

impl Clone for AbsPathStr {
    fn clone(&self) -> (res: Self)
        ensures
            res@ == self@,
    {
        proof {
            use_type_invariant(self);
        }
        AbsPathStr { inner: self.inner.clone() }
    }
}

impl Clone for RelPathStr {
    fn clone(&self) -> (res: Self)
        ensures
            res@ == self@,
    {
        proof {
            use_type_invariant(self);
        }
        RelPathStr { inner: self.inner.clone() }
    }
}

impl AbsPathStr {
    #[verifier::type_invariant]
    spec fn inv(self) -> bool {
        is_absolute_text(self.inner@)
    }

    /// Accepts a path text that is valid and starts at the root.
    pub fn new_from_pathbuf(path: String) -> (res: Result<Self, PathError>)
        ensures
            match res {
                Ok(p) => abs_validation(path@) is None && p@ == path@,
                Err(e) => abs_validation(path@) == Some(e.kind) && e.path@ == path@,
            },
    {
        let p = PathStr::new_from_pathbuf(path)?;
        if starts_at_root(p.path()) {
            Ok(AbsPathStr { inner: p })
        } else {
            Err(PathError { kind: PathErrorKind::NotAbsolute, path: p.to_string_lossy() })
        }
    }

    /// The path as a [`PathStr`].
    pub fn as_path_str(&self) -> (res: &PathStr)
        ensures
            res@ == self@,
    {
        &self.inner
    }

    /// The path text.
    pub fn path(&self) -> (res: &str)
        ensures
            res@ == self@,
            is_valid_path(self@),
            is_absolute_text(self@),
    {
        proof {
            use_type_invariant(self);
        }
        self.inner.path()
    }

    /// The path as it is shown to the user.
    pub fn display(&self) -> (res: String)
        ensures
            res@ == self@,
    {
        self.inner.display()
    }

    /// Tells whether two paths have the same components.
    pub fn same_path(&self, other: &Self) -> (res: bool)
        ensures
            res == same_path_spec(self@, other@),
    {
        self.inner.same_path(&other.inner)
    }

    /// The path of `rel` below this one.
    pub fn join(&self, rel: &RelPathStr) -> (res: Result<AbsPathStr, PathError>)
        ensures
            match res {
                Ok(p) => abs_validation(join_text(self@, rel@)) is None && p@ == join_text(self@, rel@),
                Err(e) => abs_validation(join_text(self@, rel@)) == Some(e.kind)
                    && e.path@ == join_text(self@, rel@),
            },
    {
        let base = self.path();
        let mut text = self.inner.to_string_lossy();
        let n = base.unicode_len();
        if n == 0 || base.get_char(n - 1) != '/' {
            proof {
                reveal_strlit("/");
            }
            text.append("/");
        }
        text.append(rel.path());
        assert(text@ =~= join_text(self@, rel@));
        Self::new_from_pathbuf(text)
    }

    /// The path relative to `base`, which it must lie under.
    pub fn to_rel(&self, base: &AbsPathStr) -> (res: Result<RelPathStr, PathError>)
        ensures
            match path_strip_prefix(self@, base@) {
                None => res matches Err(e) && e.kind == PathErrorKind::NotUnderBase && e.path@ == self@,
                Some(rest) => match res {
                    Ok(p) => rel_validation(rest) is None && p@ == rest,
                    Err(e) => rel_validation(rest) == Some(e.kind) && e.path@ == rest,
                },
            },
            path_strip_prefix(self@, base@) is Some <==> path_components(base@).is_prefix_of(path_components(self@)),
            res matches Ok(r) ==> path_components(r@) == path_components(self@).skip(path_components(base@).len() as int),
    {
        match strip_prefix_of(self.path(), base.path()) {
            None => Err(PathError { kind: PathErrorKind::NotUnderBase, path: self.display() }),
            Some(rest) => RelPathStr::new_from_pathbuf(rest),
        }
    }
}

impl RelPathStr {
    #[verifier::type_invariant]
    spec fn inv(self) -> bool {
        !is_absolute_text(self.inner@)
    }

    /// Accepts a path text that is valid and does not start at the root.
    pub fn new_from_pathbuf(path: String) -> (res: Result<Self, PathError>)
        ensures
            match res {
                Ok(p) => rel_validation(path@) is None && p@ == path@,
                Err(e) => rel_validation(path@) == Some(e.kind) && e.path@ == path@,
            },
    {
        let p = PathStr::new_from_pathbuf(path)?;
        if starts_at_root(p.path()) {
            Err(PathError { kind: PathErrorKind::NotRelative, path: p.to_string_lossy() })
        } else {
            Ok(RelPathStr { inner: p })
        }
    }

    /// Accepts a path text as [`RelPathStr::new_from_pathbuf`] does.
    pub fn from_text(path: &str) -> (res: Result<Self, PathError>)
        ensures
            match res {
                Ok(p) => rel_validation(path@) is None && p@ == path@,
                Err(e) => rel_validation(path@) == Some(e.kind) && e.path@ == path@,
            },
    {
        Self::new_from_pathbuf(path.to_owned())
    }

    /// The path as a [`PathStr`].
    pub fn as_path_str(&self) -> (res: &PathStr)
        ensures
            res@ == self@,
    {
        &self.inner
    }

    /// Tells whether two paths have the same components.
    pub fn same_path(&self, other: &Self) -> (res: bool)
        ensures
            res == same_path_spec(self@, other@),
    {
        self.inner.same_path(&other.inner)
    }

    /// The path text.
    pub fn path(&self) -> (res: &str)
        ensures
            res@ == self@,
            is_valid_path(self@),
            !is_absolute_text(self@),
    {
        proof {
            use_type_invariant(self);
        }
        self.inner.path()
    }

    /// The path as an owned string.
    pub fn to_string_lossy(&self) -> (res: String)
        ensures
            res@ == self@,
    {
        self.inner.to_string_lossy()
    }

    /// The path as it is shown to the user.
    pub fn display(&self) -> (res: String)
        ensures
            res@ == self@,
    {
        self.inner.display()
    }
}


impl PartialEq for AbsPathStr {
    fn eq(&self, other: &Self) -> (res: bool) {
        self.same_path(other)
    }
}

/// `==` on absolute paths compares their components.
impl vstd::std_specs::cmp::PartialEqSpecImpl for AbsPathStr {
    open spec fn obeys_eq_spec() -> bool {
        true
    }

    open spec fn eq_spec(&self, other: &AbsPathStr) -> bool {
        same_path_spec(self@, other@)
    }
}

impl PartialEq for RelPathStr {
    fn eq(&self, other: &Self) -> (res: bool) {
        self.same_path(other)
    }
}

/// `==` on relative paths compares their components.
impl vstd::std_specs::cmp::PartialEqSpecImpl for RelPathStr {
    open spec fn obeys_eq_spec() -> bool {
        true
    }

    open spec fn eq_spec(&self, other: &RelPathStr) -> bool {
        same_path_spec(self@, other@)
    }
}

impl std::str::FromStr for AbsPathStr {
    type Err = PathError;

    fn from_str(s: &str) -> (res: Result<Self, Self::Err>)
        ensures
            match res {
                Ok(p) => abs_validation(s@) is None && p@ == s@,
                Err(e) => abs_validation(s@) == Some(e.kind) && e.path@ == s@,
            },
    {
        Self::new_from_pathbuf(s.to_owned())
    }
}

impl std::str::FromStr for RelPathStr {
    type Err = PathError;

    fn from_str(s: &str) -> (res: Result<Self, Self::Err>)
        ensures
            match res {
                Ok(p) => rel_validation(s@) is None && p@ == s@,
                Err(e) => rel_validation(s@) == Some(e.kind) && e.path@ == s@,
            },
    {
        Self::from_text(s)
    }
}

} // verus!
