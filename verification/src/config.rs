//! Configuration: the registered Node.js and Java installations and the
//! project directories mapped to them.

use vstd::prelude::*;
use crate::paths::{
    data_dir_base, data_local_dir, has_verbatim_prefix, is_joined, is_joined_twice, is_suffix_of, join_path,
    lemma_joined_takes_separator, lemma_joined_twice, lemma_suffix_takes_separator, takes_separator,
};

verus! {

broadcast use vstd::string::group_string_axioms;

/// The view of an optional string.
pub open spec fn opt_view(o: Option<String>) -> Option<Seq<char>> {
    match o {
        Some(s) => Some(s@),
        None => None,
    }
}

/// A copy of an optional string.
pub fn clone_opt(o: &Option<String>) -> (r: Option<String>)
    ensures
        opt_view(r) == opt_view(*o),
{
    match o {
        Some(s) => Some(s.clone()),
        None => None,
    }
}

/// Version configuration for Node.js or Java.
#[derive(Debug)]
pub struct VersionConfig {
    /// Installation path
    pub path: String,
    /// Version string (e.g., "18.18.0", "11", "17")
    pub version: String,
    /// Optional: download URL for auto-install
    pub download_url: Option<String>,
}

/// What a `VersionConfig` holds.
pub struct VersionConfigView {
    pub path: Seq<char>,
    pub version: Seq<char>,
    pub download_url: Option<Seq<char>>,
}

impl View for VersionConfig {
    type V = VersionConfigView;

    open spec fn view(&self) -> VersionConfigView {
        VersionConfigView {
            path: self.path@,
            version: self.version@,
            download_url: opt_view(self.download_url),
        }
    }
}

impl Clone for VersionConfig {
    fn clone(&self) -> (r: Self)
        ensures
            r@ == self@,
    {
        VersionConfig {
            path: self.path.clone(),
            version: self.version.clone(),
            download_url: clone_opt(&self.download_url),
        }
    }
}

/// Path to environment mapping.
#[derive(Debug)]
pub struct PathMapping {
    /// Project path (absolute)
    pub path: String,
    /// Node.js version to use (optional)
    pub node_version: Option<String>,
    /// Java version to use (optional)
    pub java_version: Option<String>,
}

/// What a `PathMapping` holds.
pub struct PathMappingView {
    pub path: Seq<char>,
    pub node_version: Option<Seq<char>>,
    pub java_version: Option<Seq<char>>,
}

impl View for PathMapping {
    type V = PathMappingView;

    open spec fn view(&self) -> PathMappingView {
        PathMappingView {
            path: self.path@,
            node_version: opt_view(self.node_version),
            java_version: opt_view(self.java_version),
        }
    }
}

impl Clone for PathMapping {
    fn clone(&self) -> (r: Self)
        ensures
            r@ == self@,
    {
        PathMapping {
            path: self.path.clone(),
            node_version: clone_opt(&self.node_version),
            java_version: clone_opt(&self.java_version),
        }
    }
}

/// The views of a sequence of mappings.
pub open spec fn mappings_view(ms: Seq<PathMapping>) -> Seq<PathMappingView> {
    ms.map_values(|m: PathMapping| m@)
}

// ---------------------------------------------------------------------------
// Version tables
// ---------------------------------------------------------------------------

/// The keys of a table's entries are pairwise distinct.
pub open spec fn keys_unique(p: Seq<(Seq<char>, VersionConfigView)>) -> bool {
    forall|i: int, j: int| 0 <= i < j < p.len() ==> p[i].0 != p[j].0
}

/// The key `k` is the key of some entry.
pub open spec fn has_key(p: Seq<(Seq<char>, VersionConfigView)>, k: Seq<char>) -> bool {
    exists|i: int| 0 <= i < p.len() && p[i].0 == k
}

/// The map that a sequence of entries with distinct keys stands for.
pub open spec fn pairs_to_map(p: Seq<(Seq<char>, VersionConfigView)>) -> Map<
    Seq<char>,
    VersionConfigView,
> {
    Map::new(
        |k: Seq<char>| has_key(p, k),
        |k: Seq<char>| p[choose|i: int| 0 <= i < p.len() && p[i].0 == k].1,
    )
}

/// The entries, in order, with the key each is held under.
pub open spec fn entries_view(e: Seq<(String, VersionConfig)>) -> Seq<(Seq<char>, VersionConfigView)> {
    e.map_values(|x: (String, VersionConfig)| (x.0@, x.1@))
}

/// An entry's value is what the map holds under its key.
pub proof fn lemma_pairs_to_map_at(p: Seq<(Seq<char>, VersionConfigView)>, i: int)
    requires
        keys_unique(p),
        0 <= i < p.len(),
    ensures
        pairs_to_map(p).contains_key(p[i].0),
        pairs_to_map(p)[p[i].0] == p[i].1,
{
    let k = p[i].0;
    assert(has_key(p, k));
    let j = choose|j: int| 0 <= j < p.len() && p[j].0 == k;
    if j != i {
        if j < i {
            assert(p[j].0 != p[i].0);
        } else {
            assert(p[i].0 != p[j].0);
        }
    }
}

/// Replacing the value of an existing key updates the map.
pub proof fn lemma_pairs_to_map_update(p: Seq<(Seq<char>, VersionConfigView)>, i: int, v: VersionConfigView)
    requires
        keys_unique(p),
        0 <= i < p.len(),
    ensures
        keys_unique(p.update(i, (p[i].0, v))),
        pairs_to_map(p.update(i, (p[i].0, v))) == pairs_to_map(p).insert(p[i].0, v),
{
    let k = p[i].0;
    let q = p.update(i, (k, v));
    assert forall|a: int, b: int| 0 <= a < b < q.len() implies q[a].0 != q[b].0 by {
        assert(q[a].0 == p[a].0);
        assert(q[b].0 == p[b].0);
    }
    let m = pairs_to_map(q);
    let n = pairs_to_map(p).insert(k, v);
    assert forall|x: Seq<char>| m.contains_key(x) <==> n.contains_key(x) by {
        if has_key(q, x) {
            let a = choose|a: int| 0 <= a < q.len() && q[a].0 == x;
            assert(p[a].0 == x);
        }
        if has_key(p, x) {
            let a = choose|a: int| 0 <= a < p.len() && p[a].0 == x;
            assert(q[a].0 == x);
        }
        if x == k {
            assert(q[i].0 == x);
        }
    }
    assert forall|x: Seq<char>| #[trigger] m.contains_key(x) implies m[x] == n[x] by {
        let a = choose|a: int| 0 <= a < q.len() && q[a].0 == x;
        lemma_pairs_to_map_at(q, a);
        if a == i {
        } else {
            assert(p[a] == q[a]);
            lemma_pairs_to_map_at(p, a);
        }
    }
    assert(m =~= n);
}

/// Appending an entry under a new key inserts it in the map.
pub proof fn lemma_pairs_to_map_push(p: Seq<(Seq<char>, VersionConfigView)>, k: Seq<char>, v: VersionConfigView)
    requires
        keys_unique(p),
        !has_key(p, k),
    ensures
        keys_unique(p.push((k, v))),
        pairs_to_map(p.push((k, v))) == pairs_to_map(p).insert(k, v),
{
    let q = p.push((k, v));
    assert forall|a: int, b: int| 0 <= a < b < q.len() implies q[a].0 != q[b].0 by {
        assert(q[a].0 == p[a].0);
        if b == p.len() {
            assert(!(0 <= a < p.len() && p[a].0 == k));
        } else {
            assert(q[b].0 == p[b].0);
        }
    }
    let m = pairs_to_map(q);
    let n = pairs_to_map(p).insert(k, v);
    assert forall|x: Seq<char>| m.contains_key(x) <==> n.contains_key(x) by {
        if has_key(q, x) {
            let a = choose|a: int| 0 <= a < q.len() && q[a].0 == x;
            if a < p.len() {
                assert(p[a].0 == x);
            }
        }
        if has_key(p, x) {
            let a = choose|a: int| 0 <= a < p.len() && p[a].0 == x;
            assert(q[a].0 == x);
        }
        if x == k {
            assert(q[p.len() as int].0 == x);
        }
    }
    assert forall|x: Seq<char>| #[trigger] m.contains_key(x) implies m[x] == n[x] by {
        let a = choose|a: int| 0 <= a < q.len() && q[a].0 == x;
        lemma_pairs_to_map_at(q, a);
        if a < p.len() {
            assert(p[a] == q[a]);
            lemma_pairs_to_map_at(p, a);
        }
    }
    assert(m =~= n);
}

/// Removing the entry at `i` removes its key from the map.
pub proof fn lemma_pairs_to_map_remove(p: Seq<(Seq<char>, VersionConfigView)>, i: int)
    requires
        keys_unique(p),
        0 <= i < p.len(),
    ensures
        keys_unique(p.remove(i)),
        pairs_to_map(p.remove(i)) == pairs_to_map(p).remove(p[i].0),
{
    let k = p[i].0;
    let q = p.remove(i);
    assert forall|a: int| 0 <= a < q.len() implies q[a] == (if a < i {
        p[a]
    } else {
        p[a + 1]
    }) by {}
    assert forall|a: int, b: int| 0 <= a < b < q.len() implies q[a].0 != q[b].0 by {
        let a1 = if a < i { a } else { a + 1 };
        let b1 = if b < i { b } else { b + 1 };
        assert(a1 < b1);
        assert(p[a1].0 != p[b1].0);
    }
    let m = pairs_to_map(q);
    let n = pairs_to_map(p).remove(k);
    assert forall|x: Seq<char>| m.contains_key(x) <==> n.contains_key(x) by {
        if has_key(q, x) {
            let a = choose|a: int| 0 <= a < q.len() && q[a].0 == x;
            let a1 = if a < i { a } else { a + 1 };
            assert(p[a1].0 == x);
            if a1 < i {
                assert(p[a1].0 != p[i].0);
            } else {
                assert(p[i].0 != p[a1].0);
            }
        }
        if has_key(p, x) && x != k {
            let a = choose|a: int| 0 <= a < p.len() && p[a].0 == x;
            assert(a != i);
            let a1 = if a < i { a } else { a - 1 };
            assert(q[a1].0 == x);
        }
    }
    assert forall|x: Seq<char>| #[trigger] m.contains_key(x) implies m[x] == n[x] by {
        let a = choose|a: int| 0 <= a < q.len() && q[a].0 == x;
        lemma_pairs_to_map_at(q, a);
        let a1 = if a < i { a } else { a + 1 };
        assert(p[a1] == q[a]);
        lemma_pairs_to_map_at(p, a1);
    }
    assert(m =~= n);
}

/// With distinct keys, the map has one key per entry.
pub proof fn lemma_pairs_to_map_len(p: Seq<(Seq<char>, VersionConfigView)>)
    requires
        keys_unique(p),
    ensures
        pairs_to_map(p).dom().finite(),
        pairs_to_map(p).len() == p.len(),
{
    let keys = p.map_values(|e: (Seq<char>, VersionConfigView)| e.0);
    assert forall|i: int, j: int| 0 <= i < keys.len() && 0 <= j < keys.len() && i != j implies keys[i]
        != keys[j] by {
        if i < j {
            assert(p[i].0 != p[j].0);
        } else {
            assert(p[j].0 != p[i].0);
        }
    }
    assert(keys.no_duplicates());
    keys.unique_seq_to_set();
    assert forall|k: Seq<char>| pairs_to_map(p).dom().contains(k) <==> keys.to_set().contains(k) by {
        if has_key(p, k) {
            let i = choose|i: int| 0 <= i < p.len() && p[i].0 == k;
            assert(keys[i] == k);
        }
        if keys.contains(k) {
            let i = choose|i: int| 0 <= i < keys.len() && keys[i] == k;
            assert(p[i].0 == k);
        }
    }
    assert(pairs_to_map(p).dom() =~= keys.to_set());
    vstd::seq_lib::seq_to_set_is_finite(keys);
}

/// A table of installations keyed by version (the keys are distinct).
#[derive(Debug)]
pub struct VersionTable {
    entries: Vec<(String, VersionConfig)>,
}

impl VersionTable {
    /// The entries, in order, as keys and values.
    pub closed spec fn pairs(&self) -> Seq<(Seq<char>, VersionConfigView)> {
        entries_view(self.entries@)
    }

    #[verifier::type_invariant]
    spec fn distinct_keys(&self) -> bool {
        keys_unique(self.pairs())
    }

    /// An empty table.
    pub fn new() -> (r: Self)
        ensures
            r.pairs() == Seq::<(Seq<char>, VersionConfigView)>::empty(),
            r@ == Map::<Seq<char>, VersionConfigView>::empty(),
    {
        let r = VersionTable { entries: Vec::new() };
        assert(r.pairs() =~= Seq::<(Seq<char>, VersionConfigView)>::empty());
        assert(r@ =~= Map::<Seq<char>, VersionConfigView>::empty());
        r
    }

    /// The number of entries.
    pub fn len(&self) -> (r: usize)
        ensures
            r == self.pairs().len(),
            r == self@.len(),
    {
        proof {
            use_type_invariant(self);
            lemma_pairs_to_map_len(self.pairs());
        }
        self.entries.len()
    }

    /// The entries, in order.
    pub fn entries(&self) -> (r: &Vec<(String, VersionConfig)>)
        ensures
            entries_view(r@) == self.pairs(),
            keys_unique(self.pairs()),
    {
        proof {
            use_type_invariant(self);
        }
        &self.entries
    }

    /// Position of the entry held under `key`, if any.
    fn position(&self, key: &str) -> (r: Option<usize>)
        ensures
            match r {
                Some(i) => i < self.pairs().len() && self.pairs()[i as int].0 == key@,
                None => !has_key(self.pairs(), key@),
            },
    {
        let k = key.to_owned();
        let n = self.entries.len();
        for i in 0..n
            invariant
                n == self.entries@.len(),
                k@ == key@,
                forall|j: int| 0 <= j < i ==> self.pairs()[j].0 != key@,
        {
            if self.entries[i].0 == k {
                return Some(i);
            }
        }
        None
    }

    /// The configuration held under `key`.
    pub fn get(&self, key: &str) -> (r: Option<&VersionConfig>)
        ensures
            match r {
                Some(v) => self@.contains_key(key@) && v@ == self@[key@],
                None => !self@.contains_key(key@),
            },
    {
        proof {
            use_type_invariant(self);
        }
        match self.position(key) {
            Some(i) => {
                proof {
                    lemma_pairs_to_map_at(self.pairs(), i as int);
                }
                Some(&self.entries[i].1)
            },
            None => None,
        }
    }

    /// Whether some configuration is held under `key`.
    pub fn contains_key(&self, key: &str) -> (r: bool)
        ensures
            r == self@.contains_key(key@),
    {
        self.position(key).is_some()
    }

    /// Holds `value` under `key`, in place of what was held there; a new key
    /// goes after the others.
    pub fn insert(&mut self, key: String, value: VersionConfig)
        ensures
            final(self)@ == old(self)@.insert(key@, value@),
            has_key(old(self).pairs(), key@) ==> final(self).pairs().len() == old(self).pairs().len(),
            !has_key(old(self).pairs(), key@) ==> final(self).pairs() == old(self).pairs().push(
                (key@, value@),
            ),
    {
        proof {
            use_type_invariant(&*self);
        }
        let ghost k = key@;
        let ghost v = value@;
        let ghost p = self.pairs();
        match self.position(key.as_str()) {
            Some(i) => {
                let mut entries: Vec<(String, VersionConfig)> = Vec::new();
                std::mem::swap(&mut entries, &mut self.entries);
                entries.set(i, (key, value));
                proof {
                    assert(entries_view(entries@) =~= p.update(i as int, (k, v)));
                    lemma_pairs_to_map_update(p, i as int, v);
                }
                self.entries = entries;
            },
            None => {
                let mut entries: Vec<(String, VersionConfig)> = Vec::new();
                std::mem::swap(&mut entries, &mut self.entries);
                entries.push((key, value));
                proof {
                    assert(entries_view(entries@) =~= p.push((k, v)));
                    lemma_pairs_to_map_push(p, k, v);
                }
                self.entries = entries;
            },
        }
    }

    /// Drops what is held under `key`; the other entries keep their order.
    pub fn remove(&mut self, key: &str)
        ensures
            final(self)@ == old(self)@.remove(key@),
    {
        proof {
            use_type_invariant(&*self);
        }
        let ghost p = self.pairs();
        match self.position(key) {
            Some(i) => {
                let mut entries: Vec<(String, VersionConfig)> = Vec::new();
                std::mem::swap(&mut entries, &mut self.entries);
                entries.remove(i);
                proof {
                    assert(entries_view(entries@) =~= p.remove(i as int));
                    lemma_pairs_to_map_remove(p, i as int);
                }
                self.entries = entries;
            },
            None => {
                proof {
                    assert(pairs_to_map(p).remove(key@) =~= pairs_to_map(p));
                }
            },
        }
    }
}

impl View for VersionTable {
    type V = Map<Seq<char>, VersionConfigView>;

    open spec fn view(&self) -> Map<Seq<char>, VersionConfigView> {
        pairs_to_map(self.pairs())
    }
}

impl Clone for VersionTable {
    fn clone(&self) -> (r: Self)
        ensures
            r.pairs() == self.pairs(),
            r@ == self@,
    {
        proof {
            use_type_invariant(self);
        }
        let mut entries: Vec<(String, VersionConfig)> = Vec::new();
        let n = self.entries.len();
        for i in 0..n
            invariant
                n == self.entries@.len(),
                entries@.len() == i,
                entries_view(entries@) == entries_view(self.entries@).take(i as int),
        {
            let e = &self.entries[i];
            let k = e.0.clone();
            let v = e.1.clone();
            let ghost before = entries@;
            entries.push((k, v));
            assert(entries@ == before.push((k, v)));
            assert(entries_view(entries@)[i as int] == entries_view(self.entries@)[i as int]);
            assert(entries_view(entries@) =~= entries_view(self.entries@).take(i + 1));
        }
        assert(entries_view(self.entries@).take(n as int) == entries_view(self.entries@));
        VersionTable { entries }
    }
}


// ---------------------------------------------------------------------------
// The configuration
// ---------------------------------------------------------------------------

/// Main configuration structure.
#[derive(Debug)]
pub struct Config {
    /// Node.js version installations: version -> installation
    pub node_versions: VersionTable,
    /// Java version installations: version -> installation
    pub java_versions: VersionTable,
    /// Path to environment mappings
    pub path_mappings: Vec<PathMapping>,
    /// Configuration file path (not serialized)
    pub config_path: Option<String>,
}

/// What a `Config` holds.
pub struct ConfigView {
    pub node_versions: Map<Seq<char>, VersionConfigView>,
    pub java_versions: Map<Seq<char>, VersionConfigView>,
    pub path_mappings: Seq<PathMappingView>,
    pub config_path: Option<Seq<char>>,
}

impl View for Config {
    type V = ConfigView;

    open spec fn view(&self) -> ConfigView {
        ConfigView {
            node_versions: self.node_versions@,
            java_versions: self.java_versions@,
            path_mappings: mappings_view(self.path_mappings@),
            config_path: opt_view(self.config_path),
        }
    }
}

impl Default for Config {
    fn default() -> (r: Self)
        ensures
            r@.node_versions == Map::<Seq<char>, VersionConfigView>::empty(),
            r@.java_versions == Map::<Seq<char>, VersionConfigView>::empty(),
            r@.path_mappings == Seq::<PathMappingView>::empty(),
            r@.config_path is None,
            r.node_versions.pairs().len() == 0,
            r.java_versions.pairs().len() == 0,
    {
        let r = Config {
            node_versions: VersionTable::new(),
            java_versions: VersionTable::new(),
            path_mappings: Vec::new(),
            config_path: None,
        };
        assert(r@.path_mappings =~= Seq::<PathMappingView>::empty());
        r
    }
}

/// A copy of a list of mappings.
fn clone_mappings(ms: &Vec<PathMapping>) -> (r: Vec<PathMapping>)
    ensures
        mappings_view(r@) == mappings_view(ms@),
{
    let mut r: Vec<PathMapping> = Vec::new();
    let n = ms.len();
    for i in 0..n
        invariant
            n == ms@.len(),
            r@.len() == i,
            mappings_view(r@) == mappings_view(ms@).take(i as int),
    {
        let m = ms[i].clone();
        r.push(m);
        assert(mappings_view(r@) =~= mappings_view(ms@).take(i + 1));
    }
    assert(mappings_view(ms@).take(n as int) == mappings_view(ms@));
    r
}

impl Clone for Config {
    fn clone(&self) -> (r: Self)
        ensures
            r@ == self@,
            r.node_versions.pairs() == self.node_versions.pairs(),
            r.java_versions.pairs() == self.java_versions.pairs(),
    {
        Config {
            node_versions: self.node_versions.clone(),
            java_versions: self.java_versions.clone(),
            path_mappings: clone_mappings(&self.path_mappings),
            config_path: clone_opt(&self.config_path),
        }
    }
}

/// The mappings of `ms` whose path is not `p`, in their order.
pub open spec fn without_path(ms: Seq<PathMappingView>, p: Seq<char>) -> Seq<PathMappingView>
    decreases ms.len(),
{
    if ms.len() == 0 {
        Seq::empty()
    } else {
        let rest = without_path(ms.drop_last(), p);
        if ms.last().path == p {
            rest
        } else {
            rest.push(ms.last())
        }
    }
}

/// Removes the mappings whose path is `path`, keeping the others in order.
fn retain_other_paths(ms: &mut Vec<PathMapping>, path: &str)
    ensures
        mappings_view(final(ms)@) == without_path(mappings_view(old(ms)@), path@),
{
    let p = path.to_owned();
    let mut kept: Vec<PathMapping> = Vec::new();
    let n = ms.len();
    for i in 0..n
        invariant
            n == ms@.len(),
            p@ == path@,
            mappings_view(kept@) == without_path(mappings_view(ms@).take(i as int), path@),
    {
        let ghost before = mappings_view(kept@);
        if !(ms[i].path == p) {
            let m = ms[i].clone();
            kept.push(m);
            assert(mappings_view(kept@) =~= before.push(ms@[i as int]@));
        }
        proof {
            let t = mappings_view(ms@).take(i + 1);
            assert(t.drop_last() =~= mappings_view(ms@).take(i as int));
            assert(t.last() == ms@[i as int]@);
        }
    }
    assert(mappings_view(ms@).take(n as int) == mappings_view(ms@));
    *ms = kept;
}

impl Config {
    /// The directory for the configuration under the given local data
    /// directory (`C:\ProgramData` when there is none).
    pub fn config_dir_in(base: Option<String>) -> (r: String)
        ensures
            is_suffix_of("env-switcher"@, r@),
            takes_separator(data_dir_base(opt_view(base))) ==> is_joined(
                r@,
                data_dir_base(opt_view(base)),
                "env-switcher"@,
            ),
    {
        proof {
            reveal_strlit("env-switcher");
        }
        match base {
            Some(b) => join_path(b.as_str(), "env-switcher"),
            None => join_path("C:\\ProgramData", "env-switcher"),
        }
    }

    /// Get the default config directory path.
    pub fn default_config_dir() -> (r: String)
        ensures
            is_suffix_of("env-switcher"@, r@),
    {
        Self::config_dir_in(data_local_dir())
    }

    /// The config file under the given local data directory (`C:\ProgramData`
    /// when there is none): `config.json` in the config directory there.
    pub fn config_path_in(base: Option<String>) -> (r: String)
        ensures
            is_suffix_of("config.json"@, r@),
            exists|dir: Seq<char>|
                #[trigger] is_suffix_of("env-switcher"@, dir) && (!has_verbatim_prefix(dir)
                    ==> is_joined(r@, dir, "config.json"@)) && (takes_separator(
                    data_dir_base(opt_view(base)),
                ) ==> is_joined(dir, data_dir_base(opt_view(base)), "env-switcher"@)),
            takes_separator(data_dir_base(opt_view(base))) && data_dir_base(opt_view(base)).len()
                >= 4 ==> is_joined_twice(
                r@,
                data_dir_base(opt_view(base)),
                "env-switcher"@,
                "config.json"@,
            ),
    {
        proof {
            reveal_strlit("config.json");
            reveal_strlit("env-switcher");
        }
        let ghost b = data_dir_base(opt_view(base));
        let dir = Self::config_dir_in(base);
        proof {
            if !has_verbatim_prefix(dir@) {
                lemma_suffix_takes_separator(dir@, "env-switcher"@);
            }
        }
        let r = join_path(dir.as_str(), "config.json");
        proof {
            if takes_separator(b) && b.len() >= 4 {
                lemma_joined_takes_separator(dir@, b, "env-switcher"@);
                lemma_joined_twice(r@, dir@, b, "env-switcher"@, "config.json"@);
            }
        }
        assert(is_suffix_of("env-switcher"@, dir@) && (!has_verbatim_prefix(dir@) ==> is_joined(
            r@,
            dir@,
            "config.json"@,
        )) && (takes_separator(b) ==> is_joined(dir@, b, "env-switcher"@)));
        r
    }

    /// Get the default config file path: `config.json` in the default config
    /// directory.
    pub fn default_config_path() -> (r: String)
        ensures
            is_suffix_of("config.json"@, r@),
            exists|dir: Seq<char>|
                #[trigger] is_suffix_of("env-switcher"@, dir) && (!has_verbatim_prefix(dir)
                    ==> is_joined(r@, dir, "config.json"@)),
    {
        proof {
            reveal_strlit("config.json");
            reveal_strlit("env-switcher");
        }
        let dir = Self::default_config_dir();
        proof {
            if !has_verbatim_prefix(dir@) {
                lemma_suffix_takes_separator(dir@, "env-switcher"@);
            }
        }
        let r = join_path(dir.as_str(), "config.json");
        assert(is_suffix_of("env-switcher"@, dir@) && (!has_verbatim_prefix(dir@) ==> is_joined(
            r@,
            dir@,
            "config.json"@,
        )));
        r
    }

    /// Where `save` writes: the default config file, whatever file the
    /// configuration was loaded from.
    pub fn save_path(&self) -> (r: String)
        ensures
            is_suffix_of("config.json"@, r@),
            exists|dir: Seq<char>|
                #[trigger] is_suffix_of("env-switcher"@, dir) && (!has_verbatim_prefix(dir)
                    ==> is_joined(r@, dir, "config.json"@)),
    {
        Self::default_config_path()
    }

    /// Add a path mapping (replacing the existing mappings of that path).
    pub fn add_path_mapping(&mut self, path: String, node_version: Option<String>, java_version: Option<String>)
        ensures
            final(self)@.path_mappings == without_path(old(self)@.path_mappings, path@).push(
                PathMappingView {
                    path: path@,
                    node_version: opt_view(node_version),
                    java_version: opt_view(java_version),
                },
            ),
            final(self)@.node_versions == old(self)@.node_versions,
            final(self)@.java_versions == old(self)@.java_versions,
            final(self)@.config_path == old(self)@.config_path,
    {
        retain_other_paths(&mut self.path_mappings, path.as_str());
        self.path_mappings.push(PathMapping { path, node_version, java_version });
    }

    /// Remove a path mapping.
    pub fn remove_path_mapping(&mut self, path: &str)
        ensures
            final(self)@.path_mappings == without_path(old(self)@.path_mappings, path@),
            final(self)@.node_versions == old(self)@.node_versions,
            final(self)@.java_versions == old(self)@.java_versions,
            final(self)@.config_path == old(self)@.config_path,
    {
        retain_other_paths(&mut self.path_mappings, path);
    }

    /// Add a Node.js version.
    pub fn add_node_version(&mut self, version: String, path: String)
        ensures
            final(self)@.node_versions == old(self)@.node_versions.insert(
                version@,
                VersionConfigView { path: path@, version: version@, download_url: None },
            ),
            final(self)@.java_versions == old(self)@.java_versions,
            final(self)@.path_mappings == old(self)@.path_mappings,
            final(self)@.config_path == old(self)@.config_path,
    {
        let key = version.clone();
        self.node_versions.insert(key, VersionConfig { path, version, download_url: None });
    }

    /// Add a Java version.
    pub fn add_java_version(&mut self, version: String, path: String)
        ensures
            final(self)@.java_versions == old(self)@.java_versions.insert(
                version@,
                VersionConfigView { path: path@, version: version@, download_url: None },
            ),
            final(self)@.node_versions == old(self)@.node_versions,
            final(self)@.path_mappings == old(self)@.path_mappings,
            final(self)@.config_path == old(self)@.config_path,
    {
        let key = version.clone();
        self.java_versions.insert(key, VersionConfig { path, version, download_url: None });
    }
}

// ---------------------------------------------------------------------------
// Laws of the mapping list
// ---------------------------------------------------------------------------

/// What `without_path` keeps: mappings of `ms`, none of them with path `p`,
/// and every mapping of `ms` with another path.
pub proof fn lemma_without_path(ms: Seq<PathMappingView>, p: Seq<char>)
    ensures
        without_path(ms, p).len() <= ms.len(),
        forall|k: int|
            0 <= k < without_path(ms, p).len() ==> (#[trigger] without_path(ms, p)[k]).path != p
                && ms.contains(without_path(ms, p)[k]),
        forall|k: int|
            0 <= k < ms.len() && (#[trigger] ms[k]).path != p ==> without_path(ms, p).contains(
                ms[k],
            ),
    decreases ms.len(),
{
    if ms.len() > 0 {
        let init = ms.drop_last();
        lemma_without_path(init, p);
        let rest = without_path(init, p);
        assert forall|k: int| 0 <= k < without_path(ms, p).len() implies (#[trigger] without_path(
            ms,
            p,
        )[k]).path != p && ms.contains(without_path(ms, p)[k]) by {
            if k < rest.len() {
                assert(without_path(ms, p)[k] == rest[k]);
                let w = choose|w: int| 0 <= w < init.len() && init[w] == rest[k];
                assert(ms[w] == init[w]);
            } else {
                assert(ms[ms.len() - 1] == ms.last());
            }
        }
        assert forall|k: int| 0 <= k < ms.len() && (#[trigger] ms[k]).path != p implies without_path(
            ms,
            p,
        ).contains(ms[k]) by {
            if k < ms.len() - 1 {
                assert(init[k] == ms[k]);
                let w = choose|w: int| 0 <= w < rest.len() && rest[w] == init[k];
                if ms.last().path != p {
                    assert(without_path(ms, p)[w] == rest[w]);
                }
            } else {
                assert(without_path(ms, p)[rest.len() as int] == ms.last());
            }
        }
    }
}

/// No two mappings of `ms` have the same path.
pub open spec fn paths_distinct(ms: Seq<PathMappingView>) -> bool {
    forall|i: int, j: int| 0 <= i < j < ms.len() ==> #[trigger] ms[i].path != #[trigger] ms[j].path
}

/// Some mapping of `ms` has the path `p`.
pub open spec fn has_path(ms: Seq<PathMappingView>, p: Seq<char>) -> bool {
    exists|k: int| 0 <= k < ms.len() && (#[trigger] ms[k]).path == p
}

/// Dropping a path from mappings with distinct paths keeps them distinct,
/// and drops exactly one mapping when the path was there, none otherwise.
pub proof fn lemma_without_path_distinct(ms: Seq<PathMappingView>, p: Seq<char>)
    requires
        paths_distinct(ms),
    ensures
        paths_distinct(without_path(ms, p)),
        without_path(ms, p).len() == ms.len() - (if has_path(ms, p) { 1int } else { 0int }),
    decreases ms.len(),
{
    if ms.len() > 0 {
        let init = ms.drop_last();
        let last = ms.last();
        assert(paths_distinct(init)) by {
            assert forall|i: int, j: int| 0 <= i < j < init.len() implies #[trigger] init[i].path
                != #[trigger] init[j].path by {
                assert(init[i] == ms[i] && init[j] == ms[j]);
            }
        }
        lemma_without_path_distinct(init, p);
        lemma_without_path(init, p);
        let rest = without_path(init, p);
        assert forall|k: int| 0 <= k < init.len() implies (#[trigger] init[k]).path != last.path by {
            assert(init[k] == ms[k] && last == ms[ms.len() - 1]);
        }
        if last.path == p {
            assert(has_path(ms, p)) by {
                assert(ms[ms.len() - 1] == last);
            }
            assert(!has_path(init, p));
        } else {
            assert(has_path(ms, p) == has_path(init, p)) by {
                if has_path(ms, p) {
                    let k = choose|k: int| 0 <= k < ms.len() && (#[trigger] ms[k]).path == p;
                    assert(k < ms.len() - 1);
                    assert(init[k] == ms[k]);
                }
                if has_path(init, p) {
                    let k = choose|k: int| 0 <= k < init.len() && (#[trigger] init[k]).path == p;
                    assert(init[k] == ms[k]);
                }
            }
            let added = rest.push(last);
            assert forall|i: int, j: int| 0 <= i < j < added.len() implies #[trigger] added[i].path
                != #[trigger] added[j].path by {
                assert(added[i] == rest[i]);
                if j < rest.len() {
                    assert(added[j] == rest[j]);
                } else {
                    assert(added[j] == last);
                    assert(init.contains(rest[i]));
                    let w = choose|w: int| 0 <= w < init.len() && init[w] == rest[i];
                    assert(init[w].path != last.path);
                }
            }
        }
    }
}

/// Adding a mapping to mappings with distinct paths keeps the paths
/// distinct; the new mapping is the only one of its path and comes last; and
/// the list grows by one when the path was new, and keeps its length when
/// the path was already mapped.
pub proof fn lemma_add_keeps_paths_distinct(ms: Seq<PathMappingView>, m: PathMappingView)
    requires
        paths_distinct(ms),
    ensures
        ({
            let added = without_path(ms, m.path).push(m);
            &&& paths_distinct(added)
            &&& added.last() == m
            &&& forall|k: int| 0 <= k < added.len() - 1 ==> (#[trigger] added[k]).path != m.path
            &&& added.len() == ms.len() + (if has_path(ms, m.path) { 0int } else { 1int })
        }),
{
    lemma_without_path_distinct(ms, m.path);
    lemma_add_leaves_one_mapping(ms, m);
    let rest = without_path(ms, m.path);
    let added = rest.push(m);
    assert forall|i: int, j: int| 0 <= i < j < added.len() implies #[trigger] added[i].path
        != #[trigger] added[j].path by {
        assert(added[i] == rest[i]);
        if j < rest.len() {
            assert(added[j] == rest[j]);
        }
    }
}

/// Dropping a path twice is dropping it once.
pub proof fn lemma_without_path_idempotent(ms: Seq<PathMappingView>, p: Seq<char>)
    ensures
        without_path(without_path(ms, p), p) == without_path(ms, p),
    decreases ms.len(),
{
    if ms.len() > 0 {
        lemma_without_path_idempotent(ms.drop_last(), p);
        let rest = without_path(ms.drop_last(), p);
        if ms.last().path != p {
            assert(rest.push(ms.last()).drop_last() =~= rest);
        }
    }
}

/// After adding a mapping for `m.path`, it is the only mapping of that path,
/// and it comes last.
pub proof fn lemma_add_leaves_one_mapping(ms: Seq<PathMappingView>, m: PathMappingView)
    ensures
        ({
            let added = without_path(ms, m.path).push(m);
            &&& added.last() == m
            &&& forall|k: int| 0 <= k < added.len() - 1 ==> (#[trigger] added[k]).path != m.path
        }),
{
    lemma_without_path(ms, m.path);
    let added = without_path(ms, m.path).push(m);
    assert forall|k: int| 0 <= k < added.len() - 1 implies (#[trigger] added[k]).path != m.path by {
        assert(added[k] == without_path(ms, m.path)[k]);
    }
}

/// Removing a path undoes adding it: the mappings are then those of the
/// configuration with the path removed.
pub proof fn lemma_remove_undoes_add(ms: Seq<PathMappingView>, m: PathMappingView)
    ensures
        without_path(without_path(ms, m.path).push(m), m.path) == without_path(ms, m.path),
{
    let rest = without_path(ms, m.path);
    assert(rest.push(m).drop_last() =~= rest);
    lemma_without_path_idempotent(ms, m.path);
}

/// After removing a path, no mapping has it.
pub proof fn lemma_removed_path_is_gone(ms: Seq<PathMappingView>, p: Seq<char>)
    ensures
        forall|k: int|
            0 <= k < without_path(ms, p).len() ==> (#[trigger] without_path(ms, p)[k]).path != p,
{
    lemma_without_path(ms, p);
}

/// A version just added is what its version resolves to: its path, the
/// version itself, and no download address; other versions are untouched.
pub proof fn lemma_added_version_is_registered(
    t: Map<Seq<char>, VersionConfigView>,
    version: Seq<char>,
    path: Seq<char>,
    other: Seq<char>,
)
    requires
        other != version,
    ensures
        ({
            let added = t.insert(
                version,
                VersionConfigView { path, version, download_url: None },
            );
            &&& added.contains_key(version)
            &&& added[version] == VersionConfigView { path, version, download_url: None }
            &&& added.contains_key(other) == t.contains_key(other)
            &&& t.contains_key(other) ==> added[other] == t[other]
        }),
{
}

} // verus!
