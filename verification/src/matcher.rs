//! Path matching: which configured directory a path belongs to.
//!
//! A path matches the mapping of the same directory exactly; otherwise it
//! inherits the mapping of its deepest configured ancestor directory.
//! Comparison ignores the difference between `/` and `\` and letter case.

use vstd::prelude::*;
use crate::config::{
    clone_opt, mappings_view, opt_view, Config, ConfigView, PathMapping, PathMappingView,
};
use crate::paths::is_separator;
use crate::text::{
    ascii_lowercase, chars_eq, chars_of, is_ascii_chars, is_prefix_of, lemma_replace_keeps_ascii,
    replace_char, replace_char_with, starts_with, to_lowercase, unicode_lowercase,
};

verus! {

broadcast use vstd::string::group_string_axioms;

// ---------------------------------------------------------------------------
// Specification of matching
// ---------------------------------------------------------------------------

/// A path in the form in which paths are compared: every `/` turned into `\`,
/// then lowercased.
pub open spec fn normalized(s: Seq<char>) -> Seq<char> {
    unicode_lowercase(replace_char(s, '/', seq!['\\']))
}

/// `m` is the directory `t` or one of its ancestors: a prefix of `t` that
/// ends at a path separator of `t` or at its end.
pub open spec fn is_dir_prefix(m: Seq<char>, t: Seq<char>) -> bool {
    is_prefix_of(m, t) && (t.len() == m.len() || is_separator(t[m.len() as int]))
}

/// Mapping `i` (by its normalized path in `ns`) is exactly the target `t`.
pub open spec fn exact_at(ns: Seq<Seq<char>>, t: Seq<char>, i: int) -> bool {
    0 <= i < ns.len() && ns[i] == t
}

/// Mapping `i` is the first one that is exactly the target.
pub open spec fn is_first_exact(ns: Seq<Seq<char>>, t: Seq<char>, i: int) -> bool {
    exact_at(ns, t, i) && forall|j: int| 0 <= j < i ==> !exact_at(ns, t, j)
}

/// Mapping `i` is a non-empty ancestor-or-self directory of the target.
pub open spec fn inherits_at(ns: Seq<Seq<char>>, t: Seq<char>, i: int) -> bool {
    0 <= i < ns.len() && ns[i].len() > 0 && is_dir_prefix(ns[i], t)
}

/// Mapping `i` is the deepest such directory, and the first among the
/// equally deep ones.
pub open spec fn is_best_inherit(ns: Seq<Seq<char>>, t: Seq<char>, i: int) -> bool {
    &&& inherits_at(ns, t, i)
    &&& forall|j: int| inherits_at(ns, t, j) ==> ns[j].len() <= ns[i].len()
    &&& forall|j: int| 0 <= j < i && inherits_at(ns, t, j) ==> ns[j].len() < ns[i].len()
}

/// Which mapping the target selects, and whether it is inherited: the first
/// exact match if there is one, else the deepest ancestor, else none.
pub open spec fn selected(ns: Seq<Seq<char>>, t: Seq<char>) -> Option<(int, bool)> {
    if exists|i: int| exact_at(ns, t, i) {
        Some((choose|i: int| is_first_exact(ns, t, i), false))
    } else if exists|i: int| inherits_at(ns, t, i) {
        Some((choose|i: int| is_best_inherit(ns, t, i), true))
    } else {
        None
    }
}

/// The contents of a list of strings.
pub open spec fn string_views(v: Seq<String>) -> Seq<Seq<char>> {
    v.map_values(|s: String| s@)
}

/// The normalized paths of the mappings.
pub open spec fn normalized_paths(ms: Seq<PathMappingView>) -> Seq<Seq<char>> {
    ms.map_values(|m: PathMappingView| normalized(m.path))
}

/// What a `MatchResult` holds.
pub struct MatchResultView {
    pub matched_path: Option<Seq<char>>,
    pub node_version: Option<Seq<char>>,
    pub node_path: Option<Seq<char>>,
    pub java_version: Option<Seq<char>>,
    pub java_home: Option<Seq<char>>,
    pub is_inherited: bool,
}

/// The empty result: no mapping applies (the system environment is used).
pub open spec fn no_match() -> MatchResultView {
    MatchResultView {
        matched_path: None,
        node_version: None,
        node_path: None,
        java_version: None,
        java_home: None,
        is_inherited: false,
    }
}

/// The installation path registered for `version` in `table`, if any.
pub open spec fn resolve(
    table: Map<Seq<char>, crate::config::VersionConfigView>,
    version: Option<Seq<char>>,
) -> Option<Seq<char>> {
    match version {
        Some(v) => if table.contains_key(v) {
            Some(table[v].path)
        } else {
            None
        },
        None => None,
    }
}

/// The result built from mapping `m`: its path and versions, and the
/// installation paths those versions are registered with.
pub open spec fn result_for(c: ConfigView, m: PathMappingView, inherited: bool) -> MatchResultView {
    MatchResultView {
        matched_path: Some(m.path),
        node_version: m.node_version,
        node_path: resolve(c.node_versions, m.node_version),
        java_version: m.java_version,
        java_home: resolve(c.java_versions, m.java_version),
        is_inherited: inherited,
    }
}

/// The environment that `target` resolves to under configuration `c`.
pub open spec fn match_of(c: ConfigView, target: Seq<char>) -> MatchResultView {
    match selected(normalized_paths(c.path_mappings), normalized(target)) {
        Some((i, inherited)) => result_for(c, c.path_mappings[i], inherited),
        None => no_match(),
    }
}

/// At most one mapping is the first exact match.
pub proof fn lemma_first_exact_unique(ns: Seq<Seq<char>>, t: Seq<char>, i: int)
    requires
        is_first_exact(ns, t, i),
    ensures
        (choose|k: int| is_first_exact(ns, t, k)) == i,
{
    let k = choose|k: int| is_first_exact(ns, t, k);
    assert(is_first_exact(ns, t, k));
    if k < i {
        assert(!exact_at(ns, t, k));
    }
    if i < k {
        assert(!exact_at(ns, t, i));
    }
}

/// When some mapping is exactly the target, a first one is.
pub proof fn lemma_first_exact_exists(ns: Seq<Seq<char>>, t: Seq<char>, i: int)
    requires
        exact_at(ns, t, i),
    ensures
        exists|k: int| is_first_exact(ns, t, k),
    decreases i,
{
    if exists|j: int| 0 <= j < i && exact_at(ns, t, j) {
        let j = choose|j: int| 0 <= j < i && exact_at(ns, t, j);
        lemma_first_exact_exists(ns, t, j);
    } else {
        assert(is_first_exact(ns, t, i));
    }
}

/// At most one mapping is the deepest ancestor.
pub proof fn lemma_best_inherit_unique(ns: Seq<Seq<char>>, t: Seq<char>, i: int)
    requires
        is_best_inherit(ns, t, i),
    ensures
        (choose|k: int| is_best_inherit(ns, t, k)) == i,
{
    let k = choose|k: int| is_best_inherit(ns, t, k);
    assert(is_best_inherit(ns, t, k));
    assert(ns[k].len() <= ns[i].len());
    assert(ns[i].len() <= ns[k].len());
    if k < i {
        assert(ns[k].len() < ns[i].len());
    }
    if i < k {
        assert(ns[i].len() < ns[k].len());
    }
}

// ---------------------------------------------------------------------------
// Results
// ---------------------------------------------------------------------------

/// Result of path matching.
#[derive(Debug)]
pub struct MatchResult {
    /// Matched path (the configured path that matched)
    pub matched_path: Option<String>,
    /// Node.js version to use
    pub node_version: Option<String>,
    /// Node.js installation path
    pub node_path: Option<String>,
    /// Java version to use
    pub java_version: Option<String>,
    /// Java installation path (JAVA_HOME)
    pub java_home: Option<String>,
    /// Whether this is an inherited match (subdirectory)
    pub is_inherited: bool,
}

impl View for MatchResult {
    type V = MatchResultView;

    open spec fn view(&self) -> MatchResultView {
        MatchResultView {
            matched_path: opt_view(self.matched_path),
            node_version: opt_view(self.node_version),
            node_path: opt_view(self.node_path),
            java_version: opt_view(self.java_version),
            java_home: opt_view(self.java_home),
            is_inherited: self.is_inherited,
        }
    }
}

impl Default for MatchResult {
    fn default() -> (r: Self)
        ensures
            r@ == no_match(),
    {
        MatchResult {
            matched_path: None,
            node_version: None,
            node_path: None,
            java_version: None,
            java_home: None,
            is_inherited: false,
        }
    }
}

impl Clone for MatchResult {
    fn clone(&self) -> (r: Self)
        ensures
            r@ == self@,
    {
        MatchResult {
            matched_path: clone_opt(&self.matched_path),
            node_version: clone_opt(&self.node_version),
            node_path: clone_opt(&self.node_path),
            java_version: clone_opt(&self.java_version),
            java_home: clone_opt(&self.java_home),
            is_inherited: self.is_inherited,
        }
    }
}

// ---------------------------------------------------------------------------
// The matcher
// ---------------------------------------------------------------------------

/// Path matcher for finding environment configurations.
pub struct PathMatcher {
    config: Config,
}

impl View for PathMatcher {
    type V = ConfigView;

    closed spec fn view(&self) -> ConfigView {
        self.config@
    }
}

impl PathMatcher {
    /// Create a new path matcher with the given config.
    pub fn new(config: Config) -> (r: Self)
        ensures
            r@ == config@,
    {
        PathMatcher { config }
    }

    /// Replace the configuration by a freshly loaded one; when loading
    /// failed, the configuration stays as it was and the error is passed on.
    pub fn reload_config<E>(&mut self, loaded: Result<Config, E>) -> (r: Result<(), E>)
        ensures
            match loaded {
                Ok(c) => r is Ok && final(self)@ == c@,
                Err(e) => r == Err::<(), E>(e) && final(self)@ == old(self)@,
            },
    {
        match loaded {
            Ok(c) => {
                self.config = c;
                Ok(())
            },
            Err(e) => Err(e),
        }
    }

    /// Normalize path separators and case.
    pub fn normalize_path(path: &str) -> (r: String)
        ensures
            r@ == normalized(path@),
            is_ascii_chars(path@) ==> r@ == ascii_lowercase(replace_char(path@, '/', seq!['\\'])),
    {
        proof {
            if is_ascii_chars(path@) {
                assert(is_ascii_chars(seq!['\\']));
                lemma_replace_keeps_ascii(path@, '/', seq!['\\']);
            }
        }
        let cs = chars_of(path);
        let backslash = vec!['\\'];
        assert(backslash@ =~= seq!['\\']);
        let replaced = replace_char_with(cs.as_slice(), '/', backslash.as_slice());
        let s = crate::text::string_of(replaced.as_slice());
        to_lowercase(s.as_str())
    }

    /// Which mapping a normalized target selects among the normalized
    /// mapping paths, and whether the match is inherited: the first path
    /// equal to the target; else the longest path that is the target or an
    /// ancestor directory of it (the first of equally long ones); else none.
    pub fn select_mapping(normalized_paths: &Vec<String>, normalized_target: &str) -> (r: Option<(usize, bool)>)
        ensures
            r is None <==> selected(string_views(normalized_paths@), normalized_target@) is None,
            r matches Some((i, inherited)) ==> i < normalized_paths@.len() && selected(
                string_views(normalized_paths@),
                normalized_target@,
            ) == Some((i as int, inherited)),
    {
        let t = chars_of(normalized_target);
        let ghost ns = string_views(normalized_paths@);
        let mut best: Option<usize> = None;
        let mut best_len: usize = 0;
        let n = normalized_paths.len();
        for i in 0..n
            invariant
                n == normalized_paths@.len(),
                ns == string_views(normalized_paths@),
                t@ == normalized_target@,
                forall|j: int| 0 <= j < i ==> !exact_at(ns, t@, j),
                match best {
                    Some(b) => {
                        &&& b < i
                        &&& inherits_at(ns, t@, b as int)
                        &&& best_len == ns[b as int].len()
                        &&& forall|j: int| 0 <= j < i && inherits_at(ns, t@, j) ==> ns[j].len()
                            <= best_len
                        &&& forall|j: int| 0 <= j < b && inherits_at(ns, t@, j) ==> ns[j].len()
                            < best_len
                    },
                    None => {
                        &&& best_len == 0
                        &&& forall|j: int| 0 <= j < i ==> !inherits_at(ns, t@, j)
                    },
                },
        {
            let m = chars_of(normalized_paths[i].as_str());
            assert(m@ == ns[i as int]);
            if chars_eq(m.as_slice(), t.as_slice()) {
                proof {
                    assert(is_first_exact(ns, t@, i as int));
                    lemma_first_exact_unique(ns, t@, i as int);
                }
                return Some((i, false));
            }
            if starts_with(t.as_slice(), m.as_slice()) {
                let ml = m.len();
                if ml == t.len() || t[ml] == '\\' || t[ml] == '/' {
                    if ml > best_len {
                        best_len = ml;
                        best = Some(i);
                    }
                }
            }
        }
        match best {
            Some(b) => {
                proof {
                    assert(is_best_inherit(ns, t@, b as int));
                    lemma_best_inherit_unique(ns, t@, b as int);
                    assert(!exists|j: int| exact_at(ns, t@, j));
                }
                Some((b, true))
            },
            None => None,
        }
    }

    /// Find matching environment for a given path.
    ///
    /// Matching rules:
    /// 1. Exact match takes priority
    /// 2. Longest prefix match for subdirectory inheritance
    /// 3. No match returns empty result (use system environment)
    pub fn find_match(&self, target_path: &str) -> (r: MatchResult)
        ensures
            r@ == match_of(self@, target_path@),
    {
        let target_normalized = Self::normalize_path(target_path);
        let ghost ms = mappings_view(self.config.path_mappings@);
        let mut ns: Vec<String> = Vec::new();
        let n = self.config.path_mappings.len();
        for i in 0..n
            invariant
                n == self.config.path_mappings@.len(),
                ms == mappings_view(self.config.path_mappings@),
                ns@.len() == i,
                forall|j: int| 0 <= j < i ==> (#[trigger] ns@[j])@ == normalized(ms[j].path),
        {
            ns.push(Self::normalize_path(self.config.path_mappings[i].path.as_str()));
        }
        assert(string_views(ns@) =~= normalized_paths(ms));
        match Self::select_mapping(&ns, target_normalized.as_str()) {
            Some((i, inherited)) => self.build_result(&self.config.path_mappings[i], inherited),
            None => MatchResult::default(),
        }
    }

    /// Build match result from a path mapping.
    fn build_result(&self, mapping: &PathMapping, is_inherited: bool) -> (r: MatchResult)
        ensures
            r@ == result_for(self@, mapping@, is_inherited),
    {
        let mut result = MatchResult {
            matched_path: Some(mapping.path.clone()),
            is_inherited,
            node_version: None,
            node_path: None,
            java_version: None,
            java_home: None,
        };

        // Resolve Node.js version
        if let Some(version) = &mapping.node_version {
            result.node_version = Some(version.clone());
            if let Some(config) = self.config.node_versions.get(version.as_str()) {
                result.node_path = Some(config.path.clone());
            }
        }

        // Resolve Java version
        if let Some(version) = &mapping.java_version {
            result.java_version = Some(version.clone());
            if let Some(config) = self.config.java_versions.get(version.as_str()) {
                result.java_home = Some(config.path.clone());
            }
        }

        result
    }

    /// Check if a path is within a configured directory (for status display).
    pub fn is_managed_path(&self, path: &str) -> (r: bool)
        ensures
            r == (match_of(self@, path@).matched_path is Some),
    {
        !self.find_match(path).matched_path.is_none()
    }

    /// Get all configured paths.
    pub fn get_configured_paths(&self) -> (r: Vec<&PathMapping>)
        ensures
            r@.len() == self@.path_mappings.len(),
            forall|i: int| 0 <= i < r@.len() ==> r@[i]@ == self@.path_mappings[i],
    {
        let mut r: Vec<&PathMapping> = Vec::new();
        let n = self.config.path_mappings.len();
        for i in 0..n
            invariant
                n == self.config.path_mappings@.len(),
                r@.len() == i,
                forall|j: int| 0 <= j < i ==> r@[j]@ == self.config.path_mappings@[j]@,
        {
            r.push(&self.config.path_mappings[i]);
        }
        r
    }
}

// ---------------------------------------------------------------------------
// The cached matcher
// ---------------------------------------------------------------------------

/// Global state for the path matcher (for use in the PowerShell hook): it
/// remembers the last path asked for and its result.
pub struct GlobalMatcher {
    matcher: PathMatcher,
    last_match: Option<(String, MatchResult)>,
}

impl GlobalMatcher {
    /// The remembered result is what matching the remembered path gives.
    #[verifier::type_invariant]
    spec fn cache_is_fresh(&self) -> bool {
        match self.last_match {
            Some(entry) => entry.1@ == match_of(self.matcher@, entry.0@),
            None => true,
        }
    }

    /// The configuration matched against.
    pub closed spec fn config(&self) -> ConfigView {
        self.matcher@
    }

    /// The path whose result is remembered.
    pub closed spec fn cached_path(&self) -> Option<Seq<char>> {
        match self.last_match {
            Some(entry) => Some(entry.0@),
            None => None,
        }
    }

    /// A cached matcher over a loaded configuration; when loading failed,
    /// the error is passed on.
    pub fn new<E>(loaded: Result<Config, E>) -> (r: Result<Self, E>)
        ensures
            loaded is Ok <==> r is Ok,
            r matches Ok(g) ==> (loaded matches Ok(c) && g.config() == c@ && g.cached_path()
                is None),
            r matches Err(e) ==> loaded == Err::<Config, E>(e),
    {
        match loaded {
            Ok(config) => Ok(GlobalMatcher { matcher: PathMatcher::new(config), last_match: None }),
            Err(e) => Err(e),
        }
    }

    /// The result for `path`: the remembered one when `path` is the path
    /// asked for last, else a fresh match, which is then remembered.
    pub fn find_or_cached(&mut self, path: &str) -> (r: &MatchResult)
        ensures
            r@ == match_of(old(self).config(), path@),
            final(self).config() == old(self).config(),
            final(self).cached_path() == Some(path@),
    {
        proof {
            use_type_invariant(&*self);
        }
        let path_str = path.to_owned();
        let hit = match &self.last_match {
            Some(entry) => entry.0 == path_str,
            None => false,
        };
        if hit {
            return &self.last_match.as_ref().unwrap().1;
        }
        let result = self.matcher.find_match(path);
        self.last_match = Some((path_str, result));
        &self.last_match.as_ref().unwrap().1
    }
}

// ---------------------------------------------------------------------------
// Laws of matching
// ---------------------------------------------------------------------------

/// A mapping just added is what its own path resolves to: exactly, with its
/// versions and their registered installations; unless some other mapping's
/// path differs from it only by letter case or slash direction, as such an
/// earlier one would be found first.
pub proof fn lemma_added_mapping_resolves_to_itself(c: ConfigView, m: PathMappingView)
    requires
        forall|k: int|
            0 <= k < c.path_mappings.len() && (#[trigger] c.path_mappings[k]).path != m.path
                ==> normalized(c.path_mappings[k].path) != normalized(m.path),
    ensures
        ({
            let added = ConfigView {
                path_mappings: crate::config::without_path(c.path_mappings, m.path).push(m),
                ..c
            };
            match_of(added, m.path) == result_for(added, m, false)
        }),
{
    let rest = crate::config::without_path(c.path_mappings, m.path);
    crate::config::lemma_without_path(c.path_mappings, m.path);
    let added = ConfigView { path_mappings: rest.push(m), ..c };
    let ns = normalized_paths(added.path_mappings);
    let t = normalized(m.path);
    let last = rest.len() as int;
    assert(ns[last] == t);
    assert forall|j: int| 0 <= j < last implies !exact_at(ns, t, j) by {
        assert(added.path_mappings[j] == rest[j]);
        assert(rest[j].path != m.path);
        let w = choose|w: int| 0 <= w < c.path_mappings.len() && c.path_mappings[w] == rest[j];
        assert(c.path_mappings[w].path != m.path);
    }
    assert(is_first_exact(ns, t, last));
    assert(exact_at(ns, t, last));
    lemma_first_exact_unique(ns, t, last);
}

/// Matching depends only on the normalized target: paths that differ only by
/// letter case or slash direction resolve alike.
pub proof fn lemma_match_depends_on_normalized_path(c: ConfigView, a: Seq<char>, b: Seq<char>)
    requires
        normalized(a) == normalized(b),
    ensures
        match_of(c, a) == match_of(c, b),
{
}

/// A subdirectory inherits the environment of a configured directory: when
/// `dir` is itself configured and no configured directory lies deeper on the
/// way to `sub`, `sub` resolves to the same mapping, as inherited.
pub proof fn lemma_subdirectory_inherits(c: ConfigView, dir: Seq<char>, sub: Seq<char>, rest: Seq<char>)
    requires
        normalized(sub) == normalized(dir) + seq!['\\'] + rest,
        normalized(dir).len() > 0,
        match_of(c, dir).matched_path is Some,
        !match_of(c, dir).is_inherited,
        forall|j: int|
            0 <= j < c.path_mappings.len() && inherits_at(
                normalized_paths(c.path_mappings),
                normalized(sub),
                j,
            ) ==> (#[trigger] normalized_paths(c.path_mappings)[j]).len() <= normalized(dir).len(),
    ensures
        match_of(c, sub) == (MatchResultView { is_inherited: true, ..match_of(c, dir) }),
{
    let ns = normalized_paths(c.path_mappings);
    let t = normalized(dir);
    let u = normalized(sub);
    assert(exists|i: int| exact_at(ns, t, i));
    let e = choose|i: int| exact_at(ns, t, i);
    lemma_first_exact_exists(ns, t, e);
    let i = choose|i: int| is_first_exact(ns, t, i);
    assert(ns[i] == t);
    assert(u.take(t.len() as int) =~= t);
    assert(u[t.len() as int] == '\\');
    assert(inherits_at(ns, u, i));
    assert forall|j: int| 0 <= j < i && inherits_at(ns, u, j) implies ns[j].len() < ns[i].len() by {
        if ns[j].len() == ns[i].len() {
            assert(ns[j] =~= u.take(t.len() as int));
            assert(exact_at(ns, t, j));
        }
    }
    assert(is_best_inherit(ns, u, i));
    assert forall|j: int| !exact_at(ns, u, j) by {
        if exact_at(ns, u, j) {
            assert(ns[j] == u);
            assert(ns[j].take(ns[j].len() as int) =~= u);
            assert(inherits_at(ns, u, j));
        }
    }
    lemma_best_inherit_unique(ns, u, i);
}

/// A path that no configured directory is, or lies under, gets the empty
/// result: the system environment is used.
pub proof fn lemma_unmapped_path_uses_system_environment(c: ConfigView, target: Seq<char>)
    requires
        forall|j: int|
            0 <= j < c.path_mappings.len() ==> !is_dir_prefix(
                #[trigger] normalized_paths(c.path_mappings)[j],
                normalized(target),
            ),
    ensures
        match_of(c, target) == no_match(),
{
    let ns = normalized_paths(c.path_mappings);
    let t = normalized(target);
    assert forall|j: int| !exact_at(ns, t, j) by {
        if exact_at(ns, t, j) {
            assert(ns[j].take(ns[j].len() as int) =~= t);
            assert(is_dir_prefix(ns[j], t));
        }
    }
    assert forall|j: int| !inherits_at(ns, t, j) by {
        if inherits_at(ns, t, j) {
            assert(is_dir_prefix(ns[j], t));
        }
    }
}

/// What a match gives back: the matched mapping's path and whether it was
/// inherited, and for each tool on its own the mapping's version and the
/// installation registered for that version. The Java version and
/// `JAVA_HOME` come from the mapping's Java version and the registered JDKs
/// whatever the mapping says of Node.js, and the Node.js version and path
/// whatever it says of Java. With no matching mapping, nothing is set.
pub proof fn lemma_match_resolves_each_tool(c: ConfigView, target: Seq<char>)
    ensures
        ({
            let r = match_of(c, target);
            match selected(normalized_paths(c.path_mappings), normalized(target)) {
                Some((i, inherited)) => {
                    let m = c.path_mappings[i];
                    &&& r.matched_path == Some(m.path)
                    &&& r.is_inherited == inherited
                    &&& r.node_version == m.node_version
                    &&& r.java_version == m.java_version
                    &&& match m.node_version {
                        Some(v) => r.node_path == (if c.node_versions.contains_key(v) {
                            Some(c.node_versions[v].path)
                        } else {
                            None
                        }),
                        None => r.node_path is None,
                    }
                    &&& match m.java_version {
                        Some(v) => r.java_home == (if c.java_versions.contains_key(v) {
                            Some(c.java_versions[v].path)
                        } else {
                            None
                        }),
                        None => r.java_home is None,
                    }
                },
                None => {
                    &&& r.matched_path is None
                    &&& r.node_version is None
                    &&& r.node_path is None
                    &&& r.java_version is None
                    &&& r.java_home is None
                    &&& !r.is_inherited
                },
            }
        }),
{
}

} // verus!
