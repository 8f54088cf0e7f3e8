//! Profiles, keyed by the path of their configuration file.
use vstd::prelude::*;
use crate::fs::abs::RelPathStr;
use crate::fs::path::{PartView, PathError, PathErrorKind, path_components, same_path_spec};
use crate::fs::abs::{AbsPathStr, rel_result, abs_result, join_text};
use vstd::string::*;

verus! {

/// The lines of a text, split at each `\n` (at least one line; the last
/// one is empty when the text ends in `\n`).
pub open spec fn split_lines(s: Seq<char>) -> Seq<Seq<char>>
    decreases s.len(),
{
    if s.len() == 0 {
        seq![Seq::<char>::empty()]
    } else {
        let rest = split_lines(s.drop_last());
        if s.last() == '\n' {
            rest.push(Seq::<char>::empty())
        } else {
            rest.update(rest.len() - 1, rest.last().push(s.last()))
        }
    }
}

/// What a line of a profile's configuration says.
pub enum LineKind {
    /// An empty line, or a comment starting with `#`.
    Blank,
    /// `run <path>`: the profile runs the script at `<path>` below its run directory.
    Script(Seq<char>),
    /// `<path>`: the profile tracks the dotfile at `<path>` below the home directory.
    Dotfile(Seq<char>),
}

/// What a line of a profile's configuration says.
pub open spec fn line_kind(line: Seq<char>) -> LineKind {
    if line.len() == 0 || line[0] == '#' {
        LineKind::Blank
    } else if line.len() >= 4 && line.take(4) == seq!['r', 'u', 'n', ' '] {
        LineKind::Script(line.skip(4))
    } else {
        LineKind::Dotfile(line)
    }
}

/// The dotfiles dotfiles and the scripts that the lines of a configuration
/// name, in order; the first line whose path is not a valid relative path
/// is the error.
pub open spec fn parse_lines(lines: Seq<Seq<char>>) -> Result<(Seq<Seq<char>>, Seq<Seq<char>>), (PathErrorKind, Seq<char>)>
    decreases lines.len(),
{
    if lines.len() == 0 {
        Ok((Seq::empty(), Seq::empty()))
    } else {
        match parse_lines(lines.drop_last()) {
            Err(e) => Err(e),
            Ok((dotfiles, scripts)) => match line_kind(lines.last()) {
                LineKind::Blank => Ok((dotfiles, scripts)),
                LineKind::Script(p) => match rel_result(p) {
                    Ok(q) => Ok((dotfiles, scripts.push(q))),
                    Err(e) => Err(e),
                },
                LineKind::Dotfile(p) => match rel_result(p) {
                    Ok(q) => Ok((dotfiles.push(q), scripts)),
                    Err(e) => Err(e),
                },
            },
        }
    }
}

proof fn lemma_lines_len(s: Seq<char>)
    ensures
        split_lines(s).len() >= 1,
    decreases s.len(),
{
    if s.len() > 0 {
        lemma_lines_len(s.drop_last());
    }
}

proof fn lemma_lines_append(x: Seq<char>, n: Seq<char>)
    requires
        forall|i: int| 0 <= i < n.len() ==> n[i] != '\n',
    ensures
        split_lines(x + n) == split_lines(x).update(split_lines(x).len() - 1, split_lines(x).last() + n),
    decreases n.len(),
{
    lemma_lines_len(x);
    let sx = split_lines(x);
    if n.len() == 0 {
        assert(x + n =~= x);
        assert(sx.last() + n =~= sx.last());
        assert(sx.update(sx.len() - 1, sx.last()) =~= sx);
    } else {
        let m = n.drop_last();
        lemma_lines_append(x, m);
        assert((x + n).drop_last() =~= x + m);
        assert((x + n).last() == n.last());
        assert(sx.last() + m.push(n.last()) =~= sx.last() + n);
        assert(split_lines(x + n) =~= sx.update(sx.len() - 1, sx.last() + n));
    }
}

/// A text without a line break is one line, and a line break followed by
/// such a text adds exactly that text as a new last line.
pub proof fn law_lines_split_at_breaks(text: Seq<char>, line: Seq<char>)
    requires
        forall|i: int| 0 <= i < line.len() ==> line[i] != '\n',
    ensures
        split_lines(line) == seq![line],
        split_lines(text + seq!['\n'] + line) == split_lines(text).push(line),
{
    lemma_lines_append(Seq::empty(), line);
    assert(Seq::<char>::empty() + line =~= line);
    assert(split_lines(line) =~= seq![line]);
    let t = text + seq!['\n'];
    lemma_lines_append(t, line);
    assert(t.drop_last() =~= text);
    lemma_lines_len(text);
    assert(split_lines(t) == split_lines(text).push(Seq::<char>::empty()));
    assert(Seq::<char>::empty() + line =~= line);
    assert(split_lines(t + line) =~= split_lines(text).push(line));
}

/// A line is a script exactly when it starts with `run `, and the script is
/// what follows; an empty line or a `#` comment names nothing; any other
/// line names a dotfile, the whole line.
pub proof fn law_line_kinds(line: Seq<char>, rest: Seq<char>)
    ensures
        line.len() == 0 ==> line_kind(line) is Blank,
        line.len() > 0 && line[0] == '#' ==> line_kind(line) is Blank,
        line == seq!['r', 'u', 'n', ' '] + rest ==> line_kind(line) == LineKind::Script(rest),
        line_kind(line) matches LineKind::Script(p) ==> line == seq!['r', 'u', 'n', ' '] + p,
        line_kind(line) matches LineKind::Dotfile(p) ==> p == line && line.len() > 0 && line[0] != '#'
            && !(line.len() >= 4 && line.take(4) == seq!['r', 'u', 'n', ' ']),
{
    let run = seq!['r', 'u', 'n', ' '];
    if line == run + rest {
        assert(line.take(4) =~= run);
        assert(line.skip(4) =~= rest);
        assert(line[0] == 'r');
    }
    if line_kind(line) matches LineKind::Script(p) {
        assert(line =~= line.take(4) + line.skip(4));
    }
}

/// A configuration is read line by line: a further line that names a valid
/// dotfile adds it as the last dotfile, a further `run` line adds its
/// script as the last script, and a blank or comment line changes nothing;
/// an error in an earlier line stays the error.
pub proof fn law_config_is_read_line_by_line(lines: Seq<Seq<char>>, line: Seq<char>)
    ensures
        parse_lines(lines) matches Err(e) ==> parse_lines(lines.push(line)) == Err::<(Seq<Seq<char>>, Seq<Seq<char>>), _>(e),
        parse_lines(lines) matches Ok((d, s)) ==> match line_kind(line) {
            LineKind::Blank => parse_lines(lines.push(line)) == Ok::<_, (PathErrorKind, Seq<char>)>((d, s)),
            LineKind::Dotfile(p) => rel_result(p) is Ok ==> parse_lines(lines.push(line)) == Ok::<_, (PathErrorKind, Seq<char>)>((d.push(p), s)),
            LineKind::Script(p) => rel_result(p) is Ok ==> parse_lines(lines.push(line)) == Ok::<_, (PathErrorKind, Seq<char>)>((d, s.push(p))),
        },
{
    assert(lines.push(line).drop_last() =~= lines);
}

/// The texts of a sequence of strings.
pub open spec fn string_views(v: Seq<String>) -> Seq<Seq<char>> {
    v.map_values(|s: String| s@)
}

/// The texts of a sequence of relative paths.
pub open spec fn rel_views(v: Seq<RelPathStr>) -> Seq<Seq<char>> {
    v.map_values(|r: RelPathStr| r@)
}

/// The value of a [`Profile`]: its name, the dotfiles it tracks and the
/// scripts it runs.
pub struct ProfileView {
    pub name: Seq<char>,
    pub dotfiles: Seq<Seq<char>>,
    pub scripts: Seq<Seq<char>>,
}

/// A profile: its name, the dotfiles it tracks (relative to the home
/// directory, saved below the profile's backup directory) and the scripts
/// it runs (relative to the profile's run directory).
#[derive(Debug)]
pub struct Profile {
    name: String,
    dotfiles: Vec<RelPathStr>,
    scripts: Vec<RelPathStr>,
}

impl View for Profile {
    type V = ProfileView;

    closed spec fn view(&self) -> ProfileView {
        ProfileView { name: self.name@, dotfiles: rel_views(self.dotfiles@), scripts: rel_views(self.scripts@) }
    }
}

/// Splits a text into its lines.
fn lines_of(text: &str) -> (res: Vec<String>)
    ensures
        string_views(res@) == split_lines(text@),
{
    let n = text.unicode_len();
    let mut lines: Vec<String> = Vec::new();
    let mut start: usize = 0;
    let mut i: usize = 0;
    assert(text@.take(0) =~= Seq::<char>::empty());
    assert(string_views(lines@).push(text@.subrange(0, 0)) =~= split_lines(text@.take(0)));
    while i < n
        invariant
            start <= i <= n,
            n == text@.len(),
            string_views(lines@).push(text@.subrange(start as int, i as int)) == split_lines(text@.take(i as int)),
        decreases n - i,
    {
        let ghost before = string_views(lines@);
        assert(text@.take(i + 1).drop_last() =~= text@.take(i as int));
        assert(text@.take(i + 1).last() == text@[i as int]);
        if text.get_char(i) == '\n' {
            let line = text.substring_char(start, i).to_owned();
            lines.push(line);
            assert(string_views(lines@) =~= before.push(text@.subrange(start as int, i as int)));
            start = i + 1;
            assert(text@.subrange(start as int, i + 1) =~= Seq::<char>::empty());
            assert(split_lines(text@.take(i + 1)) == split_lines(text@.take(i as int)).push(Seq::<char>::empty()));
            assert(string_views(lines@).push(text@.subrange(start as int, i + 1)) =~= split_lines(text@.take(i + 1)));
        } else {
            assert(text@.subrange(start as int, i as int).push(text@[i as int]) =~= text@.subrange(start as int, i + 1));
            assert(string_views(lines@).push(text@.subrange(start as int, i + 1)) =~= split_lines(text@.take(i + 1)));
        }
        i = i + 1;
    }
    let ghost before = string_views(lines@);
    let last = text.substring_char(start, n).to_owned();
    lines.push(last);
    assert(text@.take(n as int) =~= text@);
    assert(string_views(lines@) =~= before.push(text@.subrange(start as int, n as int)));
    lines
}

/// What a line says, and the path it names.
fn classify_line(line: &str) -> (res: (u8, &str))
    ensures
        match line_kind(line@) {
            LineKind::Blank => res.0 == 0,
            LineKind::Script(p) => res.0 == 1 && res.1@ == p,
            LineKind::Dotfile(p) => res.0 == 2 && res.1@ == p,
        },
{
    let n = line.unicode_len();
    if n == 0 || line.get_char(0) == '#' {
        return (0, line);
    }
    if n >= 4 && line.get_char(0) == 'r' && line.get_char(1) == 'u' && line.get_char(2) == 'n' && line.get_char(3) == ' ' {
        assert(line@.take(4) =~= seq!['r', 'u', 'n', ' ']);
        return (1, line.substring_char(4, n));
    }
    proof {
        if n >= 4 && line@.take(4) == seq!['r', 'u', 'n', ' '] {
            assert(line@.take(4)[0] == line@[0] && line@.take(4)[1] == line@[1]);
            assert(line@.take(4)[2] == line@[2] && line@.take(4)[3] == line@[3]);
        }
    }
    (2, line)
}

impl Clone for Profile {
    fn clone(&self) -> (res: Self)
        ensures
            res@ == self@,
    {
        let dotfiles = self.dotfiles.clone();
        let scripts = self.scripts.clone();
        assert(rel_views(dotfiles@) =~= rel_views(self.dotfiles@)) by {
            assert forall|i: int| 0 <= i < dotfiles@.len() implies dotfiles@[i]@ == self.dotfiles@[i]@ by {
                assert(cloned::<RelPathStr>(self.dotfiles@[i], dotfiles@[i]));
            }
        }
        assert(rel_views(scripts@) =~= rel_views(self.scripts@)) by {
            assert forall|i: int| 0 <= i < scripts@.len() implies scripts@[i]@ == self.scripts@[i]@ by {
                assert(cloned::<RelPathStr>(self.scripts@[i], scripts@[i]));
            }
        }
        Profile { name: self.name.clone(), dotfiles, scripts }
    }
}

impl Profile {
    /// The profile `name`, from the text of its configuration file. Each
    /// line is empty, a `#` comment, `run <path>` (a script to run, below the
    /// profile's run directory) or `<path>` (a dotfile to track, below the
    /// home directory); every path must be a valid relative path, and the
    /// first that is not is the error.
    pub fn parse_config(config: &str, name: &str) -> (res: Result<Self, PathError>)
        ensures
            match parse_lines(split_lines(config@)) {
                Ok((dotfiles, scripts)) => res matches Ok(p) && p@ == (ProfileView {
                    name: name@,
                    dotfiles,
                    scripts,
                }),
                Err(e) => res matches Err(x) && x@ == e,
            },
    {
        let lines = lines_of(config);
        let ghost views = string_views(lines@);
        let mut dotfiles: Vec<RelPathStr> = Vec::new();
        let mut scripts: Vec<RelPathStr> = Vec::new();
        let mut i: usize = 0;
        assert(views.take(0) =~= Seq::<Seq<char>>::empty());
        assert(rel_views(dotfiles@) =~= Seq::<Seq<char>>::empty());
        assert(rel_views(scripts@) =~= Seq::<Seq<char>>::empty());
        while i < lines.len()
            invariant
                i <= lines.len(),
                views == string_views(lines@),
                views == split_lines(config@),
                parse_lines(views.take(i as int)) == Ok::<_, (PathErrorKind, Seq<char>)>(
                    (rel_views(dotfiles@), rel_views(scripts@)),
                ),
            decreases lines.len() - i,
        {
            assert(views.take(i + 1).drop_last() =~= views.take(i as int));
            assert(views.take(i + 1).last() == lines@[i as int]@);
            let (kind, path) = classify_line(lines[i].as_str());
            if kind == 1 {
                match RelPathStr::from_text(path) {
                    Ok(q) => {
                        let ghost old_s = rel_views(scripts@);
                        scripts.push(q);
                        assert(rel_views(scripts@) =~= old_s.push(q@));
                    },
                    Err(e) => {
                        proof {
                            lemma_parse_error_stays(views, i as int);
                        }
                        return Err(e);
                    },
                }
            } else if kind == 2 {
                match RelPathStr::from_text(path) {
                    Ok(q) => {
                        let ghost old_d = rel_views(dotfiles@);
                        dotfiles.push(q);
                        assert(rel_views(dotfiles@) =~= old_d.push(q@));
                    },
                    Err(e) => {
                        proof {
                            lemma_parse_error_stays(views, i as int);
                        }
                        return Err(e);
                    },
                }
            }
            i = i + 1;
        }
        assert(views.take(lines.len() as int) =~= views);
        Ok(Profile { name: name.to_owned(), dotfiles, scripts })
    }

    /// The profile's name.
    pub fn name(&self) -> (res: &str)
        ensures
            res@ == self@.name,
    {
        self.name.as_str()
    }

    /// The dotfiles the profile tracks, relative to the home directory.
    pub fn dotfiles(&self) -> (res: &Vec<RelPathStr>)
        ensures
            rel_views(res@) == self@.dotfiles,
    {
        &self.dotfiles
    }

    /// The scripts the profile runs, relative to its run directory.
    pub fn scripts(&self) -> (res: &Vec<RelPathStr>)
        ensures
            rel_views(res@) == self@.scripts,
    {
        &self.scripts
    }
}

/// Once a line is refused, the configuration is refused with that error,
/// whatever lines follow.
proof fn lemma_parse_error_stays(lines: Seq<Seq<char>>, i: int)
    requires
        0 <= i < lines.len(),
        parse_lines(lines.take(i + 1)) is Err,
    ensures
        parse_lines(lines) == parse_lines(lines.take(i + 1)),
    decreases lines.len() - i,
{
    if i + 1 < lines.len() {
        assert(lines.take(i + 2).drop_last() =~= lines.take(i + 1));
        lemma_parse_error_stays(lines, i + 1);
    } else {
        assert(lines.take(i + 1) =~= lines);
    }
}

/// Every profile, keyed by the path of its configuration file relative to
/// the configuration directory; a key holds at most one profile.
#[derive(Debug)]
pub struct AllProfiles {
    keys: Vec<RelPathStr>,
    values: Vec<Profile>,
}

impl AllProfiles {
    #[verifier::type_invariant]
    spec fn inv(self) -> bool {
        &&& self.keys@.len() == self.values@.len()
        &&& forall|i: int, j: int|
            0 <= i < j < self.keys@.len() ==> #[trigger] self.key_of(i) != #[trigger] self.key_of(j)
    }

    /// The index of the key `k`, if it is held.
    spec fn index_of(self, k: Seq<PartView>) -> int {
        choose|i: int| 0 <= i < self.keys@.len() && self.key_of(i) == k
    }

    /// The components of the key at position `i`.
    spec fn key_of(self, i: int) -> Seq<PartView> {
        path_components(self.keys@[i]@)
    }

    /// Whether the key `k` is held.
    spec fn holds(self, k: Seq<PartView>) -> bool {
        exists|i: int| 0 <= i < self.keys@.len() && self.key_of(i) == k
    }
}

impl View for AllProfiles {
    type V = Map<Seq<PartView>, ProfileView>;

    closed spec fn view(&self) -> Map<Seq<PartView>, ProfileView> {
        Map::new(|k: Seq<PartView>| self.holds(k), |k: Seq<PartView>| self.values@[self.index_of(k)]@)
    }
}

impl AllProfiles {
    /// No profile.
    pub fn new() -> (res: Self)
        ensures
            res@ == Map::<Seq<PartView>, ProfileView>::empty(),
    {
        let res = AllProfiles { keys: Vec::new(), values: Vec::new() };
        assert(res@ =~= Map::<Seq<PartView>, ProfileView>::empty());
        res
    }

    proof fn lemma_index_of(self, k: Seq<PartView>, i: int)
        requires
            self.inv(),
            0 <= i < self.keys@.len(),
            self.key_of(i) == k,
        ensures
            self.holds(k),
            self.index_of(k) == i,
    {
        assert(self.holds(k));
        let c = self.index_of(k);
        if c < i {
            assert(self.key_of(c) != self.key_of(i));
        } else if c > i {
            assert(self.key_of(i) != self.key_of(c));
        }
    }

    /// The position of the key `key`, if it is held.
    fn find(&self, key: &RelPathStr) -> (res: Option<usize>)
        ensures
            match res {
                Some(i) => i < self.keys@.len() && self.key_of(i as int) == path_components(key@),
                None => !self.holds(path_components(key@)),
            },
    {
        let mut i: usize = 0;
        while i < self.keys.len()
            invariant
                i <= self.keys@.len(),
                forall|j: int| 0 <= j < i ==> self.key_of(j) != path_components(key@),
            decreases self.keys@.len() - i,
        {
            if self.keys[i].same_path(key) {
                return Some(i);
            }
            i = i + 1;
        }
        None
    }
}


/// The profile that a set of profiles files under the path `key`; keys
/// that name the same path (the same components) are one key.
pub open spec fn profile_of(profiles: Map<Seq<PartView>, ProfileView>, key: Seq<char>) -> Option<ProfileView> {
    if profiles.contains_key(path_components(key)) {
        Some(profiles[path_components(key)])
    } else {
        None
    }
}

/// A set of profiles with `profile` filed under the path `key`.
pub open spec fn with_profile(
    profiles: Map<Seq<PartView>, ProfileView>,
    key: Seq<char>,
    profile: ProfileView,
) -> Map<Seq<PartView>, ProfileView> {
    profiles.insert(path_components(key), profile)
}

/// After [`AllProfiles::insert`] files a profile under a key, [`AllProfiles::get`]
/// gives it back for that key and for every key that names the same path,
/// and gives what it gave before for every other key.
pub proof fn law_get_after_insert(
    profiles: Map<Seq<PartView>, ProfileView>,
    key: Seq<char>,
    profile: ProfileView,
    other: Seq<char>,
)
    ensures
        profile_of(with_profile(profiles, key, profile), key) == Some(profile),
        same_path_spec(key, other) ==> profile_of(with_profile(profiles, key, profile), other) == Some(profile),
        !same_path_spec(key, other) ==> profile_of(with_profile(profiles, key, profile), other) == profile_of(
            profiles,
            other,
        ),
{
}

impl AllProfiles {
    /// Files `profile` under `key`, in place of any profile that the key held.
    pub fn insert(&mut self, key: RelPathStr, profile: Profile)
        ensures
            final(self)@ == with_profile(old(self)@, key@, profile@),
    {
        proof {
            use_type_invariant(&*self);
        }
        let ghost old_self = *self;
        let found = self.find(&key);
        let mut taken = AllProfiles::new();
        std::mem::swap(&mut taken, self);
        let AllProfiles { mut keys, mut values } = taken;
        let ghost k = path_components(key@);
        let ghost v = profile@;
        match found {
            Some(i) => {
                values.set(i, profile);
                proof {
                    assert forall|j: int, l: int| 0 <= j < l < keys@.len()
                        implies path_components(#[trigger] keys@[j]@) != path_components(#[trigger] keys@[l]@) by {
                        assert(old_self.key_of(j) != old_self.key_of(l));
                    }
                }
                let new_self = AllProfiles { keys, values };
                proof {
                    new_self.lemma_index_of(k, i as int);
                    assert forall|q: Seq<PartView>| #![auto] q != k implies
                        new_self.holds(q) == old_self.holds(q)
                        && (old_self.holds(q) ==> new_self.index_of(q) == old_self.index_of(q)) by {
                        if old_self.holds(q) {
                            let c = old_self.index_of(q);
                            old_self.lemma_index_of(q, c);
                            new_self.lemma_index_of(q, c);
                        }
                        if new_self.holds(q) {
                            let c = new_self.index_of(q);
                            old_self.lemma_index_of(q, c);
                        }
                    }
                    assert(new_self@ =~= old_self@.insert(k, v));
                }
                *self = new_self;
            },
            None => {
                let ghost n = keys@.len() as int;
                keys.push(key);
                values.push(profile);
                proof {
                    assert forall|j: int, l: int| 0 <= j < l < keys@.len()
                        implies path_components(#[trigger] keys@[j]@) != path_components(#[trigger] keys@[l]@) by {
                        assert(keys@[j] == old_self.keys@[j]);
                        if l < n {
                            assert(keys@[l] == old_self.keys@[l]);
                            assert(old_self.key_of(j) != old_self.key_of(l));
                        } else {
                            assert(!old_self.holds(k));
                            assert(old_self.key_of(j) != k);
                        }
                    }
                }
                let new_self = AllProfiles { keys, values };
                proof {
                    new_self.lemma_index_of(k, n);
                    assert forall|q: Seq<PartView>| #![auto] q != k implies
                        new_self.holds(q) == old_self.holds(q)
                        && (old_self.holds(q) ==> new_self.index_of(q) == old_self.index_of(q)) by {
                        if old_self.holds(q) {
                            let c = old_self.index_of(q);
                            old_self.lemma_index_of(q, c);
                            assert(new_self.keys@[c] == old_self.keys@[c]);
                            new_self.lemma_index_of(q, c);
                        }
                        if new_self.holds(q) {
                            let c = new_self.index_of(q);
                            new_self.lemma_index_of(q, c);
                            assert(c != n);
                            assert(new_self.keys@[c] == old_self.keys@[c]);
                            old_self.lemma_index_of(q, c);
                        }
                    }
                    assert(new_self@ =~= old_self@.insert(k, v));
                }
                *self = new_self;
            },
        }
    }

    /// The profile filed under `key`, if any.
    pub fn get(&self, key: &RelPathStr) -> (res: Option<&Profile>)
        ensures
            match profile_of(self@, key@) {
                Some(v) => res matches Some(p) && p@ == v,
                None => res is None,
            },
    {
        proof {
            use_type_invariant(self);
        }
        match self.find(key) {
            Some(i) => {
                proof {
                    self.lemma_index_of(path_components(key@), i as int);
                }
                Some(&self.values[i])
            },
            None => None,
        }
    }
}


/// The directory of the profile `name` below `base`: the name must be a
/// valid relative path, and the joined text a valid absolute path.
pub open spec fn profile_dir(base: Seq<char>, name: Seq<char>) -> Result<Seq<char>, (PathErrorKind, Seq<char>)> {
    match rel_result(name) {
        Err(e) => Err(e),
        Ok(n) => abs_result(join_text(base, n)),
    }
}

/// Each of `items` joined onto `base`, in order; the first join that is
/// not a valid absolute path is the error.
pub open spec fn each_joined(base: Seq<char>, items: Seq<Seq<char>>) -> Result<Seq<Seq<char>>, (PathErrorKind, Seq<char>)>
    decreases items.len(),
{
    if items.len() == 0 {
        Ok(Seq::empty())
    } else {
        match each_joined(base, items.drop_last()) {
            Err(e) => Err(e),
            Ok(v) => match abs_result(join_text(base, items.last())) {
                Ok(p) => Ok(v.push(p)),
                Err(e) => Err(e),
            },
        }
    }
}

/// The texts of a sequence of absolute paths.
pub open spec fn abs_views(v: Seq<AbsPathStr>) -> Seq<Seq<char>> {
    v.map_values(|a: AbsPathStr| a@)
}

/// Whether `item` joined onto `dir` is a valid absolute path naming `file`.
pub open spec fn joins_to(dir: Seq<char>, item: Seq<char>, file: Seq<char>) -> bool {
    match abs_result(join_text(dir, item)) {
        Ok(x) => same_path_spec(x, file),
        Err(_) => false,
    }
}

/// Whether the profile keeps a backup copy at `file`: the file is one of
/// its dotfiles below its directory in `backup`.
pub open spec fn backs_up(backup: Seq<char>, profile: ProfileView, file: Seq<char>) -> bool {
    &&& profile_dir(backup, profile.name) is Ok
    &&& exists|i: int|
        0 <= i < profile.dotfiles.len() && #[trigger] joins_to(
            profile_dir(backup, profile.name)->Ok_0,
            profile.dotfiles[i],
            file,
        )
}

/// Whether some profile keeps a backup copy at `file`.
pub open spec fn any_backs_up(profiles: Map<Seq<PartView>, ProfileView>, backup: Seq<char>, file: Seq<char>) -> bool {
    exists|k: Seq<PartView>| #[trigger] profiles.contains_key(k) && backs_up(backup, profiles[k], file)
}

proof fn lemma_each_joined_len(base: Seq<char>, items: Seq<Seq<char>>)
    ensures
        each_joined(base, items) matches Ok(v) ==> v.len() == items.len(),
    decreases items.len(),
{
    if items.len() > 0 {
        lemma_each_joined_len(base, items.drop_last());
    }
}

/// Each of `items` joined onto `base`.
pub fn join_each(base: &AbsPathStr, items: &Vec<RelPathStr>) -> (res: Result<Vec<AbsPathStr>, PathError>)
    ensures
        match each_joined(base@, rel_views(items@)) {
            Ok(v) => res matches Ok(r) && abs_views(r@) == v,
            Err(e) => res matches Err(x) && x@ == e,
        },
        res matches Ok(r) ==> r.len() == items.len(),
{
    let ghost views = rel_views(items@);
    let mut out: Vec<AbsPathStr> = Vec::new();
    let mut i: usize = 0;
    assert(views.take(0) =~= Seq::<Seq<char>>::empty());
    assert(abs_views(out@) =~= Seq::<Seq<char>>::empty());
    while i < items.len()
        invariant
            i <= items.len(),
            views == rel_views(items@),
            out.len() == i,
            each_joined(base@, views.take(i as int)) == Ok::<_, (PathErrorKind, Seq<char>)>(abs_views(out@)),
        decreases items.len() - i,
    {
        assert(views.take(i + 1).drop_last() =~= views.take(i as int));
        assert(views.take(i + 1).last() == items@[i as int]@);
        match base.join(&items[i]) {
            Ok(p) => {
                let ghost before = abs_views(out@);
                out.push(p);
                assert(abs_views(out@) =~= before.push(p@));
            },
            Err(e) => {
                proof {
                    lemma_join_error_stays(base@, views, i as int);
                }
                return Err(e);
            },
        }
        i = i + 1;
    }
    assert(views.take(items.len() as int) =~= views);
    Ok(out)
}

proof fn lemma_join_error_stays(base: Seq<char>, items: Seq<Seq<char>>, i: int)
    requires
        0 <= i < items.len(),
        each_joined(base, items.take(i + 1)) is Err,
    ensures
        each_joined(base, items) == each_joined(base, items.take(i + 1)),
    decreases items.len() - i,
{
    if i + 1 < items.len() {
        assert(items.take(i + 2).drop_last() =~= items.take(i + 1));
        lemma_join_error_stays(base, items, i + 1);
    } else {
        assert(items.take(i + 1) =~= items);
    }
}

/// The directory of the profile `name` below `base`.
pub fn profile_dir_of(base: &AbsPathStr, name: &str) -> (res: Result<AbsPathStr, PathError>)
    ensures
        match profile_dir(base@, name@) {
            Ok(d) => res matches Ok(r) && r@ == d,
            Err(e) => res matches Err(x) && x@ == e,
        },
{
    match RelPathStr::from_text(name) {
        Err(e) => Err(e),
        Ok(n) => base.join(&n),
    }
}

impl Profile {
    /// Whether this profile keeps a backup copy at `file`, given the backup directory.
    pub fn backs_up_file(&self, backup: &AbsPathStr, file: &AbsPathStr) -> (res: bool)
        ensures
            res == backs_up(backup@, self@, file@),
    {
        let dir = match profile_dir_of(backup, self.name.as_str()) {
            Ok(d) => d,
            Err(_) => return false,
        };
        let ghost dots = rel_views(self.dotfiles@);
        let mut i: usize = 0;
        while i < self.dotfiles.len()
            invariant
                i <= self.dotfiles.len(),
                dots == rel_views(self.dotfiles@),
                dots == self@.dotfiles,
                profile_dir(backup@, self@.name) == Ok::<_, (PathErrorKind, Seq<char>)>(dir@),
                forall|j: int| 0 <= j < i ==> !#[trigger] joins_to(dir@, dots[j], file@),
            decreases self.dotfiles.len() - i,
        {
            assert(dots[i as int] == self.dotfiles@[i as int]@);
            match dir.join(&self.dotfiles[i]) {
                Ok(x) => {
                    if x.same_path(file) {
                        assert(joins_to(dir@, dots[i as int], file@));
                        assert(self.dotfiles.len() == self@.dotfiles.len());
                        assert(joins_to(dir@, self@.dotfiles[i as int], file@));
                        let ghost d = dir@;
                        assert(profile_dir(backup@, self@.name) == Ok::<_, (PathErrorKind, Seq<char>)>(d));
                        assert(profile_dir(backup@, self@.name)->Ok_0 == d);
                        assert(joins_to(profile_dir(backup@, self@.name)->Ok_0, self@.dotfiles[i as int], file@));
                        assert(0 <= i < self@.dotfiles.len());
                        assert(backs_up(backup@, self@, file@));
                        return true;
                    }
                },
                Err(_) => {},
            }
            i = i + 1;
        }
        false
    }
}

impl AllProfiles {
    /// Whether some profile keeps a backup copy at `file`, given the backup directory.
    pub fn any_backs_up(&self, backup: &AbsPathStr, file: &AbsPathStr) -> (res: bool)
        ensures
            res == any_backs_up(self@, backup@, file@),
    {
        proof {
            use_type_invariant(self);
        }
        let mut i: usize = 0;
        while i < self.values.len()
            invariant
                self.inv(),
                i <= self.values.len(),
                forall|j: int| 0 <= j < i ==> !backs_up(backup@, #[trigger] self.values@[j]@, file@),
            decreases self.values.len() - i,
        {
            if self.values[i].backs_up_file(backup, file) {
                proof {
                    let k = self.key_of(i as int);
                    self.lemma_index_of(k, i as int);
                    assert(self@.contains_key(k));
                    assert(self@[k] == self.values@[i as int]@);
                }
                return true;
            }
            i = i + 1;
        }
        proof {
            assert forall|k: Seq<PartView>| #[trigger] self@.contains_key(k) implies !backs_up(backup@, self@[k], file@) by {
                let c = self.index_of(k);
                assert(self.values@[c]@ == self@[k]);
            }
        }
        false
    }
}

} // verus!
