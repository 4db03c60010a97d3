//! Configuration: the projects file, the environment, and how a single
//! command resolves its credentials from them.
//!
//! Precedence for every credential is: command-line flag, then environment
//! variable, then the named project in the file, then the file's defaults.
//! Reading the environment and the file is left to the caller; this module
//! decides.

use vstd::prelude::*;
use crate::text::{str_less, to_chars, chars_less, chars_eq, owned, concat};

verus! {

/// The project used when nothing names one.
pub open spec fn default_project_name() -> Seq<char> {
    seq!['d', 'e', 'f', 'a', 'u', 'l', 't']
}

/// The name of the project used when nothing names one: `default`.
pub fn default_project() -> (r: String)
    ensures
        r@ == default_project_name(),
{
    let r = owned("default");
    proof {
        reveal_strlit("default");
        assert(r@ =~= default_project_name());
    }
    r
}

/// An owned copy of an optional string.
pub fn clone_opt(o: &Option<String>) -> (r: Option<String>)
    ensures
        r == *o,
{
    match o {
        Some(s) => Some(s.clone()),
        None => None,
    }
}

/// The view of an optional string.
pub open spec fn opt_view(o: Option<String>) -> Option<Seq<char>> {
    match o {
        Some(s) => Some(s@),
        None => None,
    }
}

/// One project's credentials as stored in the file; any may be missing.
pub struct Project {
    pub access_id: Option<String>,
    pub access_key: Option<String>,
    pub endpoint: Option<String>,
}

impl Project {
    /// A project holding exactly the given values.
    pub fn new(access_id: Option<String>, access_key: Option<String>, endpoint: Option<String>) -> (r: Project)
        ensures
            r.access_id == access_id,
            r.access_key == access_key,
            r.endpoint == endpoint,
    {
        Project { access_id, access_key, endpoint }
    }

    /// A copy of this project.
    pub fn copy(&self) -> (r: Project)
        ensures
            r == *self,
    {
        Project {
            access_id: clone_opt(&self.access_id),
            access_key: clone_opt(&self.access_key),
            endpoint: clone_opt(&self.endpoint),
        }
    }
}

/// Entries ordered strictly by name, so that no name occurs twice.
pub open spec fn sorted_by_name(s: Seq<(Seq<char>, Project)>) -> bool {
    forall|i: int, j: int| 0 <= i < j < s.len() ==> str_less(#[trigger] s[i].0, #[trigger] s[j].0)
}

/// The project stored under `name`, if any.
pub open spec fn lookup(s: Seq<(Seq<char>, Project)>, name: Seq<char>) -> Option<Project> {
    if exists|i: int| 0 <= i < s.len() && s[i].0 == name {
        Some(s[choose|i: int| 0 <= i < s.len() && s[i].0 == name].1)
    } else {
        None
    }
}

/// Whether a project is stored under `name`.
pub open spec fn has_name(s: Seq<(Seq<char>, Project)>, name: Seq<char>) -> bool {
    exists|i: int| 0 <= i < s.len() && s[i].0 == name
}

proof fn lemma_lookup_at(s: Seq<(Seq<char>, Project)>, i: int)
    requires
        sorted_by_name(s),
        0 <= i < s.len(),
    ensures
        lookup(s, s[i].0) == Some(s[i].1),
{
    let name = s[i].0;
    assert(0 <= i < s.len() && s[i].0 == name);
    let w = choose|k: int| 0 <= k < s.len() && s[k].0 == name;
    assert(0 <= w < s.len() && s[w].0 == name);
    crate::text::lemma_str_less_irreflexive(name);
    if w < i {
        assert(str_less(s[w].0, s[i].0));
        assert(false);
    } else if w > i {
        assert(str_less(s[i].0, s[w].0));
        assert(false);
    }
    assert(w == i);
}

/// The projects of a configuration file, ordered by name as the file's
/// table is.
pub struct ProjectMap {
    entries: Vec<(String, Project)>,
}

impl View for ProjectMap {
    type V = Seq<(Seq<char>, Project)>;

    closed spec fn view(&self) -> Seq<(Seq<char>, Project)> {
        self.entries@.map_values(|e: (String, Project)| (e.0@, e.1))
    }
}

impl ProjectMap {
    #[verifier::type_invariant]
    spec fn ordered(self) -> bool {
        sorted_by_name(self@)
    }

    /// No projects.
    pub fn new() -> (r: ProjectMap)
        ensures
            r@.len() == 0,
    {
        let r = ProjectMap { entries: Vec::new() };
        assert(r@.len() == 0);
        r
    }

    /// How many projects there are.
    pub fn len(&self) -> (r: usize)
        ensures
            r == self@.len(),
    {
        self.entries.len()
    }

    /// Whether there are no projects.
    pub fn is_empty(&self) -> (r: bool)
        ensures
            r == (self@.len() == 0),
    {
        self.entries.len() == 0
    }

    /// The name of the `i`-th project in order.
    pub fn name_at(&self, i: usize) -> (r: &String)
        requires
            i < self@.len(),
        ensures
            r@ == self@[i as int].0,
    {
        &self.entries[i].0
    }

    /// The `i`-th project in order.
    pub fn project_at(&self, i: usize) -> (r: &Project)
        requires
            i < self@.len(),
        ensures
            *r == self@[i as int].1,
    {
        &self.entries[i].1
    }

    fn position(&self, name: &[char]) -> (r: usize)
        ensures
            r <= self@.len(),
            forall|k: int| 0 <= k < r ==> str_less(#[trigger] self@[k].0, name@),
            r < self@.len() ==> !str_less(self@[r as int].0, name@),
    {
        let mut i: usize = 0;
        while i < self.entries.len()
            invariant
                i <= self@.len(),
                self@.len() == self.entries@.len(),
                forall|k: int| 0 <= k < i ==> str_less(#[trigger] self@[k].0, name@),
            ensures
                i <= self@.len(),
                forall|k: int| 0 <= k < i ==> str_less(#[trigger] self@[k].0, name@),
                i < self@.len() ==> !str_less(self@[i as int].0, name@),
            decreases self@.len() - i,
        {
            let key = to_chars(self.entries[i].0.as_str());
            assert(key@ == self@[i as int].0);
            if !chars_less(key.as_slice(), name) {
                break;
            }
            i += 1;
        }
        i
    }

    /// The project stored under `name`, if any.
    pub fn get(&self, name: &str) -> (r: Option<&Project>)
        ensures
            r matches Some(p) ==> lookup(self@, name@) == Some(*p),
            r is None ==> lookup(self@, name@) is None,
            r is Some == has_name(self@, name@),
    {
        proof {
            use_type_invariant(self);
        }
        let wanted = to_chars(name);
        let p = self.position(wanted.as_slice());
        if p < self.entries.len() {
            let key = to_chars(self.entries[p].0.as_str());
            if chars_eq(key.as_slice(), wanted.as_slice()) {
                proof {
                    lemma_lookup_at(self@, p as int);
                }
                return Some(&self.entries[p].1);
            }
            proof {
                assert forall|k: int| 0 <= k < self@.len() implies self@[k].0 != name@ by {
                    if k < p {
                        crate::text::lemma_str_less_irreflexive(name@);
                    } else if k > p {
                        crate::text::lemma_str_less_total(self@[p as int].0, name@);
                        assert(str_less(self@[p as int].0, self@[k].0));
                        if self@[k].0 == name@ {
                            crate::text::lemma_str_less_transitive(name@, self@[p as int].0, name@);
                            crate::text::lemma_str_less_irreflexive(name@);
                        }
                    }
                }
            }
        } else {
            proof {
                assert forall|k: int| 0 <= k < self@.len() implies self@[k].0 != name@ by {
                    crate::text::lemma_str_less_irreflexive(name@);
                }
            }
        }
        None
    }

    /// Whether a project is stored under `name`.
    pub fn contains(&self, name: &str) -> (r: bool)
        ensures
            r == has_name(self@, name@),
    {
        self.get(name).is_some()
    }

    /// The name of the first project in order, if any.
    pub fn first_name(&self) -> (r: Option<String>)
        ensures
            r is None <==> self@.len() == 0,
            r matches Some(n) ==> n@ == self@[0].0,
            sorted_by_name(self@),
    {
        proof {
            use_type_invariant(self);
        }
        if self.entries.len() == 0 {
            None
        } else {
            Some(self.entries[0].0.clone())
        }
    }

    /// Removes every project.
    pub fn clear(&mut self)
        ensures
            final(self)@.len() == 0,
    {
        self.entries = Vec::new();
        assert(self@.len() == 0);
    }

    /// Stores `project` under `name`, replacing what was stored there.
    pub fn insert(&mut self, name: String, project: Project)
        ensures
            sorted_by_name(final(self)@),
            lookup(final(self)@, name@) == Some(project),
            forall|k: Seq<char>| k != name@ ==> lookup(final(self)@, k) == lookup(old(self)@, k),
            forall|k: Seq<char>| has_name(final(self)@, k) == (k == name@ || has_name(old(self)@, k)),
    {
        proof {
            use_type_invariant(&*self);
        }
        let ghost before = self@;
        let wanted = to_chars(name.as_str());
        let p = self.position(wanted.as_slice());
        let replace = if p < self.entries.len() {
            let key = to_chars(self.entries[p].0.as_str());
            chars_eq(key.as_slice(), wanted.as_slice())
        } else {
            false
        };
        let mut v: Vec<(String, Project)> = Vec::new();
        std::mem::swap(&mut v, &mut self.entries);
        assert(v@.map_values(|e: (String, Project)| (e.0@, e.1)) == before);
        let ghost entry = (name@, project);
        if replace {
            v.remove(p);
            v.insert(p, (name, project));
            let ghost after = v@.map_values(|e: (String, Project)| (e.0@, e.1));
            proof {
                assert(after =~= before.update(p as int, entry));
                assert(sorted_by_name(after)) by {
                    assert forall|i: int, j: int| 0 <= i < j < after.len()
                        implies str_less(#[trigger] after[i].0, #[trigger] after[j].0) by {
                        assert(after[i].0 == before[i].0 && after[j].0 == before[j].0);
                    }
                }
                self.lemma_insert_lookups(before, after, entry, p as int, true);
            }
            self.entries = v;
        } else {
            v.insert(p, (name, project));
            let ghost after = v@.map_values(|e: (String, Project)| (e.0@, e.1));
            proof {
                assert(after =~= before.insert(p as int, entry));
                if p < before.len() {
                    crate::text::lemma_str_less_total(before[p as int].0, entry.0);
                }
                assert(sorted_by_name(after)) by {
                    assert forall|i: int, j: int| 0 <= i < j < after.len()
                        implies str_less(#[trigger] after[i].0, #[trigger] after[j].0) by {
                        if j < p {
                        } else if j == p {
                        } else if i < p {
                            assert(after[j].0 == before[j - 1].0);
                            if j - 1 > p {
                                assert(str_less(before[p as int].0, before[j - 1].0));
                                crate::text::lemma_str_less_transitive(entry.0, before[p as int].0, before[j - 1].0);
                            }
                            crate::text::lemma_str_less_transitive(after[i].0, entry.0, after[j].0);
                        } else if i == p {
                            assert(after[j].0 == before[j - 1].0);
                            if j - 1 > p {
                                assert(str_less(before[p as int].0, before[j - 1].0));
                                crate::text::lemma_str_less_transitive(entry.0, before[p as int].0, before[j - 1].0);
                            }
                        } else {
                            assert(after[i].0 == before[i - 1].0 && after[j].0 == before[j - 1].0);
                        }
                    }
                }
                self.lemma_insert_lookups(before, after, entry, p as int, false);
            }
            self.entries = v;
        }
    }

    proof fn lemma_insert_lookups(
        &self,
        before: Seq<(Seq<char>, Project)>,
        after: Seq<(Seq<char>, Project)>,
        entry: (Seq<char>, Project),
        p: int,
        replace: bool,
    )
        requires
            sorted_by_name(before),
            sorted_by_name(after),
            0 <= p <= before.len(),
            replace ==> p < before.len() && before[p].0 == entry.0 && after == before.update(p, entry),
            !replace ==> after == before.insert(p, entry),
        ensures
            lookup(after, entry.0) == Some(entry.1),
            forall|k: Seq<char>| k != entry.0 ==> lookup(after, k) == lookup(before, k),
            forall|k: Seq<char>| has_name(after, k) == (k == entry.0 || has_name(before, k)),
    {
        assert(after[p] == entry);
        lemma_lookup_at(after, p);
        assert forall|k: Seq<char>| k != entry.0 implies lookup(after, k) == lookup(before, k) by {
            if has_name(before, k) {
                let i = choose|i: int| 0 <= i < before.len() && before[i].0 == k;
                lemma_lookup_at(before, i);
                let j = if replace || i < p { i } else { i + 1 };
                assert(after[j] == before[i]);
                lemma_lookup_at(after, j);
            } else if has_name(after, k) {
                let j = choose|j: int| 0 <= j < after.len() && after[j].0 == k;
                if replace || j < p {
                    assert(before[j].0 == k);
                } else {
                    assert(before[j - 1].0 == k);
                }
            }
        }
        assert forall|k: Seq<char>| has_name(after, k) == (k == entry.0 || has_name(before, k)) by {
            if has_name(before, k) {
                let i = choose|i: int| 0 <= i < before.len() && before[i].0 == k;
                let j = if replace || i < p { i } else { i + 1 };
                if replace && i == p {
                    assert(k == entry.0);
                } else {
                    assert(after[j] == before[i]);
                }
            }
            if has_name(after, k) {
                let j = choose|j: int| 0 <= j < after.len() && after[j].0 == k;
                if j != p {
                    if replace || j < p {
                        assert(before[j].0 == k);
                    } else {
                        assert(before[j - 1].0 == k);
                    }
                }
            }
        }
    }

    /// Removes the project stored under `name`; whether there was one.
    pub fn remove(&mut self, name: &str) -> (found: bool)
        ensures
            found == has_name(old(self)@, name@),
            sorted_by_name(final(self)@),
            !has_name(final(self)@, name@),
            forall|k: Seq<char>| k != name@ ==> lookup(final(self)@, k) == lookup(old(self)@, k),
            forall|k: Seq<char>| has_name(final(self)@, k) == (k != name@ && has_name(old(self)@, k)),
            found ==> final(self)@.len() == old(self)@.len() - 1,
            !found ==> final(self)@ == old(self)@,
    {
        proof {
            use_type_invariant(&*self);
        }
        let ghost before = self@;
        let wanted = to_chars(name);
        let present = self.contains(name);
        if !present {
            return false;
        }
        let p = self.position(wanted.as_slice());
        proof {
            let i = choose|i: int| 0 <= i < before.len() && before[i].0 == name@;
            crate::text::lemma_str_less_irreflexive(name@);
            if i > p {
                assert(p < before.len());
                crate::text::lemma_str_less_total(before[p as int].0, name@);
                assert(str_less(before[p as int].0, before[i].0));
                if before[p as int].0 != name@ {
                    crate::text::lemma_str_less_transitive(name@, before[p as int].0, name@);
                }
            }
            assert(p < before.len() && before[p as int].0 == name@);
        }
        let mut v: Vec<(String, Project)> = Vec::new();
        std::mem::swap(&mut v, &mut self.entries);
        assert(v@.map_values(|e: (String, Project)| (e.0@, e.1)) == before);
        v.remove(p);
        let ghost after = v@.map_values(|e: (String, Project)| (e.0@, e.1));
        proof {
            assert(after =~= before.remove(p as int));
            assert(sorted_by_name(after)) by {
                assert forall|i: int, j: int| 0 <= i < j < after.len()
                    implies str_less(#[trigger] after[i].0, #[trigger] after[j].0) by {
                    let bi = if i < p { i } else { i + 1 };
                    let bj = if j < p { j } else { j + 1 };
                    assert(after[i] == before[bi] && after[j] == before[bj]);
                }
            }
            lemma_lookup_at(before, p as int);
            assert forall|k: Seq<char>| k != name@ implies lookup(after, k) == lookup(before, k) by {
                if has_name(before, k) {
                    let i = choose|i: int| 0 <= i < before.len() && before[i].0 == k;
                    lemma_lookup_at(before, i);
                    assert(i != p);
                    let j = if i < p { i } else { i - 1 };
                    assert(after[j] == before[i]);
                    lemma_lookup_at(after, j);
                } else if has_name(after, k) {
                    let j = choose|j: int| 0 <= j < after.len() && after[j].0 == k;
                    let i = if j < p { j } else { j + 1 };
                    assert(before[i] == after[j]);
                }
            }
            assert forall|k: Seq<char>| has_name(after, k) == (k != name@ && has_name(before, k)) by {
                if has_name(after, k) {
                    let j = choose|j: int| 0 <= j < after.len() && after[j].0 == k;
                    let i = if j < p { j } else { j + 1 };
                    assert(before[i] == after[j]);
                    if k == name@ {
                        lemma_lookup_at(before, i);
                        assert(i != p);
                        if i < p {
                            assert(str_less(before[i].0, before[p as int].0));
                        } else {
                            assert(str_less(before[p as int].0, before[i].0));
                        }
                    }
                }
                if k != name@ && has_name(before, k) {
                    let i = choose|i: int| 0 <= i < before.len() && before[i].0 == k;
                    assert(i != p);
                    let j = if i < p { i } else { i - 1 };
                    assert(after[j] == before[i]);
                }
            }
        }
        self.entries = v;
        true
    }
}


/// The configuration file: optional defaults and the named projects.
pub struct FileConfig {
    pub default_endpoint: Option<String>,
    pub default_project: Option<String>,
    pub projects: ProjectMap,
}

impl FileConfig {
    /// A file with no defaults and no projects.
    pub fn empty() -> (r: FileConfig)
        ensures
            r.default_endpoint is None,
            r.default_project is None,
            r.projects@.len() == 0,
    {
        FileConfig { default_endpoint: None, default_project: None, projects: ProjectMap::new() }
    }
}

impl Default for FileConfig {
    fn default() -> (r: FileConfig)
        ensures
            r.default_endpoint is None,
            r.default_project is None,
            r.projects@.len() == 0,
    {
        FileConfig::empty()
    }
}

/// Values given on the command line, which win over everything else.
pub struct Overrides {
    pub access_id: Option<String>,
    pub access_key: Option<String>,
    pub endpoint: Option<String>,
    pub project: Option<String>,
    pub config_path: Option<String>,
}

impl Overrides {
    /// No overrides at all.
    pub fn none() -> (r: Overrides)
        ensures
            r.access_id is None,
            r.access_key is None,
            r.endpoint is None,
            r.project is None,
            r.config_path is None,
    {
        Overrides { access_id: None, access_key: None, endpoint: None, project: None, config_path: None }
    }
}

impl Default for Overrides {
    fn default() -> (r: Overrides)
        ensures
            r.access_id is None,
            r.access_key is None,
            r.endpoint is None,
            r.project is None,
            r.config_path is None,
    {
        Overrides::none()
    }
}

/// The environment variables that take part in resolution:
/// `SUMO_ACCESS_ID`, `SUMO_ACCESS_KEY`, `SUMO_API_ENDPOINT`, `SUMO_PROJECT`
/// and `SUMO_CONFIG`, each when set to valid Unicode.
pub struct Environment {
    pub access_id: Option<String>,
    pub access_key: Option<String>,
    pub endpoint: Option<String>,
    pub project: Option<String>,
    pub config: Option<String>,
}

/// The credentials one command runs with.
pub struct ResolvedConfig {
    pub access_id: String,
    pub access_key: String,
    pub endpoint: String,
    pub project: String,
}

/// The message for an unknown path.
pub open spec fn no_path_message() -> Seq<char> {
    "Could not determine config file path"@
}

/// Which configuration file to use: the one given on the command line,
/// else `SUMO_CONFIG`, else the platform's default location.
pub open spec fn config_path_spec(
    override_path: Option<Seq<char>>,
    env_config: Option<Seq<char>>,
    default_path: Option<Seq<char>>,
) -> Result<Seq<char>, Seq<char>> {
    match override_path {
        Some(p) => Ok(p),
        None => match env_config {
            Some(p) => Ok(p),
            None => match default_path {
                Some(p) => Ok(p),
                None => Err(no_path_message()),
            },
        },
    }
}

/// The configuration file's path, by the order above.
pub fn config_path(override_path: Option<String>, env_config: Option<String>, default_path: Option<String>) -> (r: Result<String, String>)
    ensures
        match r {
            Ok(p) => config_path_spec(opt_view(override_path), opt_view(env_config), opt_view(default_path)) == Ok::<Seq<char>, Seq<char>>(p@),
            Err(e) => config_path_spec(opt_view(override_path), opt_view(env_config), opt_view(default_path)) == Err::<Seq<char>, Seq<char>>(e@),
        },
{
    match override_path {
        Some(p) => Ok(p),
        None => match env_config {
            Some(p) => Ok(p),
            None => match default_path {
                Some(p) => Ok(p),
                None => {
                    let e = owned("Could not determine config file path");
                    proof {
                        reveal_strlit("Could not determine config file path");
                    }
                    Err(e)
                }
            },
        },
    }
}

/// The file's configuration when it exists, and an empty one otherwise:
/// `load` reads and parses the file and is called only when it exists.
pub fn load_or_default<F: FnOnce() -> Result<FileConfig, String>>(path_exists: bool, load: F) -> (r: Result<FileConfig, String>)
    requires
        path_exists ==> call_requires(load, ()),
    ensures
        !path_exists ==> (r matches Ok(f) && f.default_endpoint is None && f.default_project is None && f.projects@.len() == 0),
        path_exists ==> call_ensures(load, (), r),
{
    if !path_exists {
        return Ok(FileConfig::empty());
    }
    load()
}

/// The first of three optional values that is present.
pub open spec fn first_of(a: Option<Seq<char>>, b: Option<Seq<char>>, c: Option<Seq<char>>) -> Option<Seq<char>> {
    match a {
        Some(x) => Some(x),
        None => match b {
            Some(x) => Some(x),
            None => c,
        },
    }
}

/// A present value that is not empty.
pub open spec fn non_empty(o: Option<Seq<char>>) -> Option<Seq<char>> {
    match o {
        Some(x) => if x.len() > 0 { Some(x) } else { None },
        None => None,
    }
}

/// The values one source (command line or environment) gives: access ID,
/// access key, endpoint and project name, each maybe absent.
pub type Choices = (Option<Seq<char>>, Option<Seq<char>>, Option<Seq<char>>, Option<Seq<char>>);

/// What the command-line overrides give.
pub open spec fn overrides_choices(o: Overrides) -> Choices {
    (opt_view(o.access_id), opt_view(o.access_key), opt_view(o.endpoint), opt_view(o.project))
}

/// What the environment gives.
pub open spec fn env_choices(e: Environment) -> Choices {
    (opt_view(e.access_id), opt_view(e.access_key), opt_view(e.endpoint), opt_view(e.project))
}

/// The project a command uses: the flag, else `SUMO_PROJECT`, else the
/// file's default project, else `default`.
pub open spec fn chosen_project(flags: Choices, env: Choices, file: FileConfig) -> Seq<char> {
    match first_of(flags.3, env.3, opt_view(file.default_project)) {
        Some(p) => p,
        None => default_project_name(),
    }
}

/// Whether some source named the project explicitly.
pub open spec fn project_named(flags: Choices, env: Choices, file: FileConfig) -> bool {
    flags.3 is Some || env.3 is Some || file.default_project is Some
}

/// The message for a named project that the file lacks.
pub open spec fn project_missing_message(name: Seq<char>, path: Seq<char>) -> Seq<char> {
    "Project '"@ + name + "' not found in "@ + path + ". Run 'sumo auth list' to see available projects."@
}

/// The message for missing credentials.
pub open spec fn not_authenticated_message() -> Seq<char> {
    "Not authenticated. Run 'sumo auth login' to set up credentials."@
}

/// A field of the chosen project (0: access ID, 1: access key,
/// 2: endpoint), if the file has that project.
pub open spec fn project_field(p: Option<Project>, which: int) -> Option<Seq<char>> {
    match p {
        Some(pr) => if which == 0 {
            opt_view(pr.access_id)
        } else if which == 1 {
            opt_view(pr.access_key)
        } else {
            opt_view(pr.endpoint)
        },
        None => None,
    }
}

/// The resolved access ID: flag, environment, then project; never empty.
pub open spec fn resolved_access_id(flags: Choices, env: Choices, file: FileConfig) -> Option<Seq<char>> {
    non_empty(first_of(flags.0, env.0, project_field(lookup(file.projects@, chosen_project(flags, env, file)), 0)))
}

/// The resolved access key: flag, environment, then project; never empty.
pub open spec fn resolved_access_key(flags: Choices, env: Choices, file: FileConfig) -> Option<Seq<char>> {
    non_empty(first_of(flags.1, env.1, project_field(lookup(file.projects@, chosen_project(flags, env, file)), 1)))
}

/// The resolved endpoint: flag, environment, project, then the file's
/// default endpoint; never empty.
pub open spec fn resolved_endpoint(flags: Choices, env: Choices, file: FileConfig) -> Option<Seq<char>> {
    let from_project = project_field(lookup(file.projects@, chosen_project(flags, env, file)), 2);
    non_empty(first_of(
        flags.2,
        env.2,
        match from_project {
            Some(x) => Some(x),
            None => opt_view(file.default_endpoint),
        },
    ))
}

/// Resolution fails on a named project that the file lacks (when the file
/// has projects at all).
pub open spec fn project_missing(flags: Choices, env: Choices, file: FileConfig) -> bool {
    project_named(flags, env, file) && !has_name(file.projects@, chosen_project(flags, env, file))
        && file.projects@.len() > 0
}

/// Whether resolution succeeds.
pub open spec fn resolves(flags: Choices, env: Choices, file: FileConfig) -> bool {
    !project_missing(flags, env, file) && resolved_access_id(flags, env, file) is Some
        && resolved_access_key(flags, env, file) is Some && resolved_endpoint(flags, env, file) is Some
}

/// What resolution gives: the credentials, or the message of the first
/// check that fails.
pub open spec fn resolve_spec(flags: Choices, env: Choices, file: FileConfig, path: Seq<char>) -> Result<
    (Seq<char>, Seq<char>, Seq<char>, Seq<char>),
    Seq<char>,
> {
    if project_missing(flags, env, file) {
        Err(project_missing_message(chosen_project(flags, env, file), path))
    } else if resolves(flags, env, file) {
        Ok((
            resolved_access_id(flags, env, file).unwrap(),
            resolved_access_key(flags, env, file).unwrap(),
            resolved_endpoint(flags, env, file).unwrap(),
            chosen_project(flags, env, file),
        ))
    } else {
        Err(not_authenticated_message())
    }
}

/// The view of a resolution result.
pub open spec fn resolved_view(r: Result<ResolvedConfig, String>) -> Result<
    (Seq<char>, Seq<char>, Seq<char>, Seq<char>),
    Seq<char>,
> {
    match r {
        Ok(c) => Ok((c.access_id@, c.access_key@, c.endpoint@, c.project@)),
        Err(e) => Err(e@),
    }
}

fn pick(a: &Option<String>, b: &Option<String>, c: Option<String>) -> (r: Option<String>)
    ensures
        opt_view(r) == non_empty(first_of(opt_view(*a), opt_view(*b), opt_view(c))),
{
    let chosen = match a {
        Some(x) => Some(x.clone()),
        None => match b {
            Some(x) => Some(x.clone()),
            None => c,
        },
    };
    match chosen {
        Some(x) => if x.as_str().is_empty() { None } else { Some(x) },
        None => None,
    }
}

/// Resolves the credentials of one command from the command-line
/// overrides, the environment and the configuration file at `path`.
pub fn resolve(overrides: &Overrides, env: &Environment, file: &FileConfig, path: &str) -> (r: Result<ResolvedConfig, String>)
    ensures
        resolved_view(r) == resolve_spec(overrides_choices(*overrides), env_choices(*env), *file, path@),
{
    let ghost flags = overrides_choices(*overrides);
    let ghost envc = env_choices(*env);
    let name = match &overrides.project {
        Some(p) => p.clone(),
        None => match &env.project {
            Some(p) => p.clone(),
            None => match &file.default_project {
                Some(p) => p.clone(),
                None => default_project(),
            },
        },
    };
    assert(name@ == chosen_project(flags, envc, *file));
    let named = overrides.project.is_some() || env.project.is_some() || file.default_project.is_some();
    let project = file.projects.get(name.as_str());
    if named && project.is_none() && !file.projects.is_empty() {
        let e = concat(concat(concat(concat("Project '", name.as_str()).as_str(), "' not found in ").as_str(), path).as_str(),
            ". Run 'sumo auth list' to see available projects.");
        proof {
            reveal_strlit("Project '");
            reveal_strlit("' not found in ");
            reveal_strlit(". Run 'sumo auth list' to see available projects.");
        }
        return Err(e);
    }
    let (pid, pkey, pend) = match project {
        Some(p) => (clone_opt(&p.access_id), clone_opt(&p.access_key), clone_opt(&p.endpoint)),
        None => (None, None, None),
    };
    let not_auth = "Not authenticated. Run 'sumo auth login' to set up credentials.";
    proof {
        reveal_strlit("Not authenticated. Run 'sumo auth login' to set up credentials.");
    }
    let access_id = match pick(&overrides.access_id, &env.access_id, pid) {
        Some(x) => x,
        None => return Err(owned(not_auth)),
    };
    let access_key = match pick(&overrides.access_key, &env.access_key, pkey) {
        Some(x) => x,
        None => return Err(owned(not_auth)),
    };
    let fallback = match pend {
        Some(x) => Some(x),
        None => clone_opt(&file.default_endpoint),
    };
    let endpoint = match pick(&overrides.endpoint, &env.endpoint, fallback) {
        Some(x) => x,
        None => return Err(owned(not_auth)),
    };
    Ok(ResolvedConfig { access_id, access_key, endpoint, project: name })
}

} // verus!
