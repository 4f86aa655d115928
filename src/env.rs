use vstd::prelude::*;
use vstd::string::*;
use crate::entry::DMPath;
use crate::error::{DMError, EnvErrorKind};

verus! {

/// The value of the first pair of `s` whose key is `k`.
pub open spec fn lookup(s: Seq<(Seq<char>, Seq<char>)>, k: Seq<char>) -> Option<Seq<char>>
    decreases s.len(),
{
    if s.len() == 0 {
        None
    } else if s[0].0 == k {
        Some(s[0].1)
    } else {
        lookup(s.drop_first(), k)
    }
}

pub open spec fn pairs_view(v: Seq<(String, String)>) -> Seq<(Seq<char>, Seq<char>)> {
    v.map_values(|p: (String, String)| (p.0@, p.1@))
}

proof fn lemma_lookup_at(s: Seq<(Seq<char>, Seq<char>)>, k: Seq<char>, i: int)
    requires
        0 <= i <= s.len(),
        forall|j: int| 0 <= j < i ==> (#[trigger] s[j]).0 != k,
        i < s.len() ==> s[i].0 == k,
    ensures
        lookup(s, k) == if i < s.len() { Some(s[i].1) } else { None::<Seq<char>> },
    decreases i,
{
    if i > 0 {
        assert(s[0].0 != k);
        let t = s.drop_first();
        assert forall|j: int| 0 <= j < i - 1 implies (#[trigger] t[j]).0 != k by {
            assert(t[j] == s[j + 1]);
        }
        if i < s.len() {
            assert(t[i - 1] == s[i]);
        }
        lemma_lookup_at(t, k, i - 1);
    }
}

fn find_pair<'a>(v: &'a Vec<(String, String)>, k: &str) -> (r: Option<&'a String>)
    ensures
        match lookup(pairs_view(v@), k@) {
            Some(p) => r matches Some(s) && s@ == p,
            None => r is None,
        },
{
    let key = String::from_str(k);
    let ghost s = pairs_view(v@);
    let mut i: usize = 0;
    while i < v.len()
        invariant
            i <= v@.len(),
            s == pairs_view(v@),
            key@ == k@,
            forall|j: int| 0 <= j < i ==> (#[trigger] s[j]).0 != k@,
        decreases v@.len() - i,
    {
        if v[i].0 == key {
            proof {
                lemma_lookup_at(s, k@, i as int);
            }
            return Some(&v[i].1);
        }
        i = i + 1;
    }
    proof {
        lemma_lookup_at(s, k@, i as int);
    }
    None
}

/// The path that `PathBuf::join` makes of `base` and `seg`.
pub uninterp spec fn joined_path(base: Seq<char>, seg: Seq<char>) -> Seq<char>;

/// Relies on `std::path::Path::join`: `seg` appended to `base` as a path
/// component (or replacing it when `seg` is absolute). Both are UTF-8, so the
/// joined path is too.
#[verifier::external_body]
pub(crate) fn join_path(base: &str, seg: &str) -> (r: String)
    ensures
        r@ == joined_path(base@, seg@),
{
    std::path::Path::new(base).join(seg).to_string_lossy().into_owned()
}

/// Whether `PathBuf::starts_with` finds `base` to be a leading run of whole
/// components of `path`.
pub uninterp spec fn path_starts_with(path: Seq<char>, base: Seq<char>) -> bool;

/// What `Path::strip_prefix` leaves of `path` once `base` is removed.
pub uninterp spec fn path_rest(path: Seq<char>, base: Seq<char>) -> Seq<char>;

/// Relies on `std::path::Path::starts_with`: whether `base` is a prefix of
/// `path`, compared component by component.
#[verifier::external_body]
fn starts_with_path(path: &str, base: &str) -> (r: bool)
    ensures
        r == path_starts_with(path@, base@),
{
    std::path::Path::new(path).starts_with(base)
}

/// Relies on `std::path::Path::strip_prefix`: the rest of `path` after
/// `base`; an error exactly when `starts_with` would say false.
#[verifier::external_body]
fn strip_path_prefix(path: &str, base: &str) -> (r: Option<String>)
    ensures
        r is Some <==> path_starts_with(path@, base@),
        r matches Some(rest) ==> rest@ == path_rest(path@, base@),
{
    match std::path::Path::new(path).strip_prefix(base) {
        Ok(rest) => Some(rest.to_string_lossy().into_owned()),
        Err(_) => None,
    }
}

/// The entries of `entries[..n]` whose directory contains `path`, each named
/// with `mark` in front of its name.
pub open spec fn matched_dirs(
    entries: Seq<(Seq<char>, Seq<char>)>,
    mark: Seq<char>,
    path: Seq<char>,
    n: int,
) -> Seq<(Seq<char>, Seq<char>)>
    decreases n,
{
    if n <= 0 || n > entries.len() {
        Seq::empty()
    } else {
        let e = entries[n - 1];
        matched_dirs(entries, mark, path, n - 1) + if path_starts_with(path, e.1) {
            seq![(mark + e.0, e.1)]
        } else {
            Seq::empty()
        }
    }
}

proof fn lemma_matched_dirs_contain(entries: Seq<(Seq<char>, Seq<char>)>, mark: Seq<char>, path: Seq<char>, n: int)
    ensures
        forall|j: int| 0 <= j < matched_dirs(entries, mark, path, n).len()
            ==> path_starts_with(path, (#[trigger] matched_dirs(entries, mark, path, n)[j]).1),
    decreases n,
{
    if n > 0 && n <= entries.len() {
        lemma_matched_dirs_contain(entries, mark, path, n - 1);
        let prev = matched_dirs(entries, mark, path, n - 1);
        let cur = matched_dirs(entries, mark, path, n);
        assert forall|j: int| 0 <= j < cur.len() implies path_starts_with(path, (#[trigger] cur[j]).1) by {
            if j < prev.len() {
                assert(cur[j] == prev[j]);
            }
        }
    }
}

fn push_matches(out: &mut Vec<(String, String)>, entries: &Vec<(String, String)>, mark: &str, path: &str)
    ensures
        pairs_view(final(out)@) == pairs_view(old(out)@) + matched_dirs(
            pairs_view(entries@),
            mark@,
            path@,
            entries@.len() as int,
        ),
{
    let ghost e = pairs_view(entries@);
    let ghost start = pairs_view(out@);
    let mut i: usize = 0;
    while i < entries.len()
        invariant
            i <= entries@.len(),
            e == pairs_view(entries@),
            pairs_view(out@) == start + matched_dirs(e, mark@, path@, i as int),
        decreases entries@.len() - i,
    {
        let ghost before = pairs_view(out@);
        if starts_with_path(path, entries[i].1.as_str()) {
            let name = String::from_str(mark).concat(entries[i].0.as_str());
            let dir = String::from_str(entries[i].1.as_str());
            out.push((name, dir));
            assert(pairs_view(out@) =~= before + seq![(mark@ + e[i as int].0, e[i as int].1)]);
        } else {
            assert(pairs_view(out@) =~= before + Seq::<(Seq<char>, Seq<char>)>::empty());
        }
        i = i + 1;
        assert(pairs_view(out@) =~= start + matched_dirs(e, mark@, path@, i as int));
    }
}

/// Well-known directories by name (`home_dir`, `config_dir`, ...) and
/// environment variables that name existing absolute directories.
pub struct SpecDir {
    platform: Vec<(String, String)>,
    env: Vec<(String, String)>,
}

/// Where a directory name resolves: `#name` among the well-known
/// directories, `$name` among the environment directories, a bare name in the
/// well-known directories first.
pub open spec fn spec_dir_path(
    platform: Seq<(Seq<char>, Seq<char>)>,
    env: Seq<(Seq<char>, Seq<char>)>,
    name: Seq<char>,
) -> Option<Seq<char>> {
    if name.len() == 0 {
        None
    } else if name[0] == '#' {
        lookup(platform, name.skip(1))
    } else if name[0] == '$' {
        lookup(env, name.skip(1))
    } else {
        match lookup(platform, name) {
            Some(p) => Some(p),
            None => lookup(env, name),
        }
    }
}

/// Tree lines for `entries[i..]`: `mid` before each but the last entry,
/// `last` before the last one, then `name \tpath` and a newline.
pub open spec fn tree_lines(
    entries: Seq<(Seq<char>, Seq<char>)>,
    mid: Seq<char>,
    last: Seq<char>,
    i: int,
) -> Seq<char>
    decreases entries.len() - i,
{
    if i < 0 || i >= entries.len() {
        Seq::empty()
    } else {
        (if i == entries.len() - 1 { last } else { mid }) + entries[i].0 + " \t"@ + entries[i].1 + "\n"@
            + tree_lines(entries, mid, last, i + 1)
    }
}

/// The directory table drawn as a tree: a `platform` branch and an `env`
/// branch, each left out when it has no entry.
pub open spec fn tree_text(platform: Seq<(Seq<char>, Seq<char>)>, env: Seq<(Seq<char>, Seq<char>)>) -> Seq<char> {
    (if platform.len() > 0 {
        "\u{251c}\u{2500} platform\n"@ + tree_lines(platform, "\u{2502}   \u{251c}\u{2500} "@, "\u{2502}   \u{2514}\u{2500} "@, 0)
    } else {
        Seq::empty()
    }) + (if env.len() > 0 {
        "\u{2514}\u{2500} env\n"@ + tree_lines(env, "    \u{251c}\u{2500} "@, "    \u{2514}\u{2500} "@, 0)
    } else {
        Seq::empty()
    })
}

fn render_branch(entries: &Vec<(String, String)>, mid: &str, last: &str) -> (r: String)
    ensures
        r@ == tree_lines(pairs_view(entries@), mid@, last@, 0),
{
    let ghost e = pairs_view(entries@);
    let mut out = String::new();
    let mut i: usize = 0;
    while i < entries.len()
        invariant
            i <= entries@.len(),
            e == pairs_view(entries@),
            out@ + tree_lines(e, mid@, last@, i as int) == tree_lines(e, mid@, last@, 0),
        decreases entries@.len() - i,
    {
        let ghost before = out@;
        let lead = if i == entries.len() - 1 { last } else { mid };
        out = out.concat(lead);
        out = out.concat(entries[i].0.as_str());
        out = out.concat(" \t");
        out = out.concat(entries[i].1.as_str());
        out = out.concat("\n");
        proof {
            let line = (if i == e.len() - 1 { last@ } else { mid@ }) + e[i as int].0 + " \t"@ + e[i as int].1 + "\n"@;
            assert(out@ =~= before + line);
            assert(tree_lines(e, mid@, last@, i as int) == line + tree_lines(e, mid@, last@, i + 1));
            assert(out@ + tree_lines(e, mid@, last@, i + 1) =~= before + tree_lines(e, mid@, last@, i as int));
        }
        i = i + 1;
    }
    assert(tree_lines(e, mid@, last@, i as int) =~= Seq::<char>::empty());
    assert(out@ =~= out@ + Seq::<char>::empty());
    out
}

impl SpecDir {
    pub closed spec fn platform_view(&self) -> Seq<(Seq<char>, Seq<char>)> {
        pairs_view(self.platform@)
    }

    pub closed spec fn env_view(&self) -> Seq<(Seq<char>, Seq<char>)> {
        pairs_view(self.env@)
    }

    /// A directory table from (name, path) pairs.
    pub fn new(platform: Vec<(String, String)>, env: Vec<(String, String)>) -> (r: SpecDir)
        ensures
            r.platform_view() == pairs_view(platform@),
            r.env_view() == pairs_view(env@),
    {
        SpecDir { platform, env }
    }

    /// The known directories that contain `path`: well-known ones named
    /// `#name`, then environment ones named `$name`, each with its directory.
    pub fn match_path(&self, path: &str) -> (r: Vec<(String, String)>)
        ensures
            pairs_view(r@) == matched_dirs(self.platform_view(), "#"@, path@, self.platform_view().len() as int)
                + matched_dirs(self.env_view(), "$"@, path@, self.env_view().len() as int),
    {
        let mut out: Vec<(String, String)> = Vec::new();
        assert(pairs_view(out@) =~= Seq::<(Seq<char>, Seq<char>)>::empty());
        push_matches(&mut out, &self.platform, "#", path);
        push_matches(&mut out, &self.env, "$", path);
        out
    }

    /// The install path recorded for canonical `path` when the user picks
    /// entry `choice` of `match_path(path)`, or none of them (`None`): the
    /// literal path. `None` when `choice` is out of range.
    pub fn recognize(&self, path: &str, choice: Option<usize>) -> (r: Option<DMPath>)
        ensures
            ({
                let m = matched_dirs(self.platform_view(), "#"@, path@, self.platform_view().len() as int)
                    + matched_dirs(self.env_view(), "$"@, path@, self.env_view().len() as int);
                match choice {
                    None => r matches Some(DMPath::Normal(p)) && p@ == path@,
                    Some(i) => if i < m.len() {
                        r matches Some(DMPath::Dynamic(v)) && strings_view(v@) == seq![m[i as int].0, path_rest(path@, m[i as int].1)]
                    } else {
                        r is None
                    },
                }
            }),
    {
        match choice {
            None => Some(DMPath::Normal(String::from_str(path))),
            Some(i) => {
                let matches = self.match_path(path);
                if i < matches.len() {
                    proof {
                        lemma_matched_dirs_contain(self.platform_view(), "#"@, path@, self.platform_view().len() as int);
                        lemma_matched_dirs_contain(self.env_view(), "$"@, path@, self.env_view().len() as int);
                        let m = pairs_view(matches@);
                        assert(m[i as int] == (matches@[i as int].0@, matches@[i as int].1@));
                    }
                    dynamic_path_for(matches[i].0.as_str(), matches[i].1.as_str(), path)
                } else {
                    None
                }
            },
        }
    }

    /// The directory table drawn as a tree, for display.
    pub fn display_tree(&self) -> (r: String)
        ensures
            r@ == tree_text(self.platform_view(), self.env_view()),
    {
        let mut out = String::new();
        if self.platform.len() > 0 {
            out = out.concat("\u{251c}\u{2500} platform\n");
            let b = render_branch(&self.platform, "\u{2502}   \u{251c}\u{2500} ", "\u{2502}   \u{2514}\u{2500} ");
            out = out.concat(b.as_str());
        }
        let ghost first = out@;
        if self.env.len() > 0 {
            out = out.concat("\u{2514}\u{2500} env\n");
            let b = render_branch(&self.env, "    \u{251c}\u{2500} ", "    \u{2514}\u{2500} ");
            out = out.concat(b.as_str());
        }
        proof {
            let p = self.platform_view();
            let v = self.env_view();
            assert(p.len() == self.platform@.len());
            assert(v.len() == self.env@.len());
            if v.len() > 0 {
                assert(out@ =~= first + ("\u{2514}\u{2500} env\n"@ + tree_lines(v, "    \u{251c}\u{2500} "@, "    \u{2514}\u{2500} "@, 0)));
            } else {
                assert(out@ =~= first + Seq::<char>::empty());
            }
            if p.len() > 0 {
                assert(first =~= "\u{251c}\u{2500} platform\n"@ + tree_lines(p, "\u{2502}   \u{251c}\u{2500} "@, "\u{2502}   \u{2514}\u{2500} "@, 0));
            } else {
                assert(first =~= Seq::<char>::empty());
            }
        }
        out
    }

    /// The directory that `name` designates.
    pub fn get_path(&self, name: &str) -> (r: Option<&String>)
        ensures
            match spec_dir_path(self.platform_view(), self.env_view(), name@) {
                Some(p) => r matches Some(s) && s@ == p,
                None => r is None,
            },
    {
        let n = name.unicode_len();
        if n == 0 {
            return None;
        }
        let c = name.get_char(0);
        if c == '#' {
            find_pair(&self.platform, name.substring_char(1, n))
        } else if c == '$' {
            find_pair(&self.env, name.substring_char(1, n))
        } else {
            match find_pair(&self.platform, name) {
                Some(p) => Some(p),
                None => find_pair(&self.env, name),
            }
        }
    }
}

/// The first segment of a dynamic path, resolved.
pub open spec fn resolve_prefix(
    dirs: SpecDir,
    vars: Seq<(Seq<char>, Seq<char>)>,
    seg: Seq<char>,
) -> Result<Seq<char>, EnvErrorKind> {
    if seg.len() == 0 {
        Err(EnvErrorKind::EmptySegment)
    } else if seg[0] == '$' {
        match lookup(vars, seg.skip(1)) {
            Some(v) => Ok(v),
            None => Err(EnvErrorKind::VariableNotFound),
        }
    } else if seg[0] == '#' {
        match spec_dir_path(dirs.platform_view(), dirs.env_view(), seg) {
            Some(p) => Ok(p),
            None => Err(EnvErrorKind::DirectoryNotFound),
        }
    } else {
        Ok(seg)
    }
}

/// `base` extended by the later segments of a dynamic path.
pub open spec fn resolve_rest(
    base: Seq<char>,
    vars: Seq<(Seq<char>, Seq<char>)>,
    segs: Seq<Seq<char>>,
) -> Result<Seq<char>, EnvErrorKind>
    decreases segs.len(),
{
    if segs.len() == 0 {
        Ok(base)
    } else {
        let seg = segs[0];
        if seg.len() == 0 {
            Err(EnvErrorKind::EmptySegment)
        } else if seg[0] == '#' {
            Err(EnvErrorKind::PrefixNotFirst)
        } else if seg[0] == '$' {
            match lookup(vars, seg.skip(1)) {
                Some(v) => resolve_rest(joined_path(base, v), vars, segs.drop_first()),
                None => Err(EnvErrorKind::VariableNotFound),
            }
        } else {
            resolve_rest(joined_path(base, seg), vars, segs.drop_first())
        }
    }
}

pub open spec fn strings_view(v: Seq<String>) -> Seq<Seq<char>> {
    v.map_values(|s: String| s@)
}

/// The absolute path an install path designates.
pub open spec fn resolved_path(
    p: DMPath,
    dirs: SpecDir,
    vars: Seq<(Seq<char>, Seq<char>)>,
) -> Result<Seq<char>, EnvErrorKind> {
    match p {
        DMPath::Normal(s) => Ok(s@),
        DMPath::Dynamic(v) => {
            let segs = strings_view(v@);
            if segs.len() == 0 {
                Err(EnvErrorKind::EmptyPath)
            } else {
                match resolve_prefix(dirs, vars, segs[0]) {
                    Ok(base) => resolve_rest(base, vars, segs.drop_first()),
                    Err(e) => Err(e),
                }
            }
        }
    }
}

/// The dynamic install path `[name, rest]` that stands for `path` under the
/// known directory `dir` named `name`; `None` when `dir` does not contain
/// `path`.
pub fn dynamic_path_for(name: &str, dir: &str, path: &str) -> (r: Option<DMPath>)
    ensures
        !path_starts_with(path@, dir@) ==> r is None,
        path_starts_with(path@, dir@) ==> (r matches Some(DMPath::Dynamic(v)) && strings_view(v@) == seq![
            name@,
            path_rest(path@, dir@),
        ]),
{
    match strip_path_prefix(path, dir) {
        Some(rest) => {
            let mut v: Vec<String> = Vec::new();
            v.push(String::from_str(name));
            v.push(rest);
            assert(strings_view(v@) =~= seq![name@, path_rest(path@, dir@)]);
            Some(DMPath::Dynamic(v))
        },
        None => None,
    }
}

impl DMPath {
    /// Resolves this install path against the known directories `env` and
    /// the environment variables `vars`.
    pub fn parse(&self, env: &SpecDir, vars: &Vec<(String, String)>) -> (r: Result<String, DMError>)
        ensures
            match resolved_path(*self, *env, pairs_view(vars@)) {
                Ok(p) => r matches Ok(s) && s@ == p,
                Err(k) => r == Err::<String, DMError>(DMError::EnvError(k)),
            },
    {
        match self {
            DMPath::Normal(dir) => Ok(String::from_str(dir.as_str())),
            DMPath::Dynamic(data) => {
                let ghost segs = strings_view(data@);
                if data.len() == 0 {
                    return Err(DMError::EnvError(EnvErrorKind::EmptyPath));
                }
                let first = data[0].as_str();
                let n = first.unicode_len();
                if n == 0 {
                    return Err(DMError::EnvError(EnvErrorKind::EmptySegment));
                }
                let c = first.get_char(0);
                let mut path = if c == '$' {
                    match find_pair(vars, first.substring_char(1, n)) {
                        Some(v) => String::from_str(v.as_str()),
                        None => return Err(DMError::EnvError(EnvErrorKind::VariableNotFound)),
                    }
                } else if c == '#' {
                    match env.get_path(first) {
                        Some(p) => String::from_str(p.as_str()),
                        None => return Err(DMError::EnvError(EnvErrorKind::DirectoryNotFound)),
                    }
                } else {
                    String::from_str(first)
                };
                assert(resolve_prefix(*env, pairs_view(vars@), segs[0]) == Ok::<Seq<char>, EnvErrorKind>(path@));
                let mut i: usize = 1;
                while i < data.len()
                    invariant
                        1 <= i <= data@.len(),
                        segs == strings_view(data@),
                        resolved_path(*self, *env, pairs_view(vars@)) == resolve_rest(path@, pairs_view(vars@), segs.skip(i as int)),
                    decreases data@.len() - i,
                {
                    let item = data[i].as_str();
                    let m = item.unicode_len();
                    proof {
                        assert(segs.skip(i as int)[0] == item@);
                        assert(segs.skip(i as int).drop_first() =~= segs.skip(i + 1));
                    }
                    if m == 0 {
                        return Err(DMError::EnvError(EnvErrorKind::EmptySegment));
                    }
                    let d = item.get_char(0);
                    if d == '#' {
                        return Err(DMError::EnvError(EnvErrorKind::PrefixNotFirst));
                    } else if d == '$' {
                        match find_pair(vars, item.substring_char(1, m)) {
                            Some(v) => {
                                path = join_path(path.as_str(), v.as_str());
                            },
                            None => return Err(DMError::EnvError(EnvErrorKind::VariableNotFound)),
                        }
                    } else {
                        path = join_path(path.as_str(), item);
                    }
                    i = i + 1;
                }
                assert(segs.skip(i as int).len() == 0);
                Ok(path)
            },
        }
    }
}

} // verus!
