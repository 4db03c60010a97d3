//! Credential management: the known deployments, and the changes that
//! `auth login`, `auth logout` and `auth use` make to the configuration
//! file, with what `auth list` and `auth status` show.

use vstd::prelude::*;
use crate::text::{to_chars, chars_eq, owned, concat, push_char, utf8_bytes, fit_prefix, byte_len, prefix_within};
use vstd::string::{StringExecFns, StrSliceExecFns};
use crate::config::{
    FileConfig, Overrides, Environment, ResolvedConfig, Project, Choices, resolve, resolve_spec, lookup, has_name,
    opt_view, overrides_choices, env_choices, project_field,
};

verus! {

/// How many deployments are known.
pub const DEPLOYMENT_COUNT: usize = 7;

/// The name and API endpoint of the `i`-th known deployment.
pub open spec fn deployment_spec(i: int) -> (Seq<char>, Seq<char>) {
    if i == 0 {
        ("US1"@, "https://api.sumologic.com/api"@)
    } else if i == 1 {
        ("US2"@, "https://api.us2.sumologic.com/api"@)
    } else if i == 2 {
        ("EU"@, "https://api.eu.sumologic.com/api"@)
    } else if i == 3 {
        ("AU"@, "https://api.au.sumologic.com/api"@)
    } else if i == 4 {
        ("JP"@, "https://api.jp.sumologic.com/api"@)
    } else if i == 5 {
        ("CA"@, "https://api.ca.sumologic.com/api"@)
    } else {
        ("IN"@, "https://api.in.sumologic.com/api"@)
    }
}

/// The name and API endpoint of the `i`-th known deployment.
pub fn deployment(i: usize) -> (r: (&'static str, &'static str))
    requires
        i < DEPLOYMENT_COUNT,
    ensures
        (r.0@, r.1@) == deployment_spec(i as int),
{
    if i == 0 {
        ("US1", "https://api.sumologic.com/api")
    } else if i == 1 {
        ("US2", "https://api.us2.sumologic.com/api")
    } else if i == 2 {
        ("EU", "https://api.eu.sumologic.com/api")
    } else if i == 3 {
        ("AU", "https://api.au.sumologic.com/api")
    } else if i == 4 {
        ("JP", "https://api.jp.sumologic.com/api")
    } else if i == 5 {
        ("CA", "https://api.ca.sumologic.com/api")
    } else {
        ("IN", "https://api.in.sumologic.com/api")
    }
}

/// The label `auth list` and `auth status` show for an endpoint: the name
/// of the first deployment with exactly that endpoint, else `Custom`.
pub open spec fn deployment_label_spec(endpoint: Seq<char>) -> Seq<char> {
    if exists|i: int| 0 <= i < 7 && deployment_spec(i).1 == endpoint {
        deployment_spec(choose|i: int| 0 <= i < 7 && deployment_spec(i).1 == endpoint
            && forall|j: int| 0 <= j < i ==> deployment_spec(j).1 != endpoint).0
    } else {
        "Custom"@
    }
}

/// The deployment name of an endpoint, or `Custom`.
pub fn deployment_label(endpoint: &str) -> (r: &'static str)
    ensures
        r@ == deployment_label_spec(endpoint@),
{
    let wanted = to_chars(endpoint);
    let mut i: usize = 0;
    while i < DEPLOYMENT_COUNT
        invariant
            i <= DEPLOYMENT_COUNT,
            wanted@ == endpoint@,
            forall|j: int| 0 <= j < i ==> deployment_spec(j).1 != endpoint@,
        decreases DEPLOYMENT_COUNT - i,
    {
        let (name, url) = deployment(i);
        let u = to_chars(url);
        if chars_eq(u.as_slice(), wanted.as_slice()) {
            proof {
                let w = choose|k: int| 0 <= k < 7 && deployment_spec(k).1 == endpoint@
                    && forall|j: int| 0 <= j < k ==> deployment_spec(j).1 != endpoint@;
                assert(0 <= i < 7 && deployment_spec(i as int).1 == endpoint@
                    && forall|j: int| 0 <= j < i ==> deployment_spec(j).1 != endpoint@);
                if w < i {
                } else if w > i {
                    assert(deployment_spec(i as int).1 != endpoint@);
                }
            }
            return name;
        }
        i += 1;
    }
    proof {
        reveal_strlit("Custom");
    }
    "Custom"
}

/// The choices `auth login` offers: each deployment's name, two spaces and
/// its endpoint.
pub fn deployment_choices() -> (r: Vec<String>)
    ensures
        r@.len() == 7,
        forall|i: int| 0 <= i < 7 ==> #[trigger] r@[i]@ == deployment_spec(i).0 + "  "@ + deployment_spec(i).1,
{
    let mut r: Vec<String> = Vec::new();
    let mut i: usize = 0;
    while i < DEPLOYMENT_COUNT
        invariant
            i <= DEPLOYMENT_COUNT,
            r@.len() == i,
            forall|k: int| 0 <= k < i ==> #[trigger] r@[k]@ == deployment_spec(k).0 + "  "@ + deployment_spec(k).1,
        decreases DEPLOYMENT_COUNT - i,
    {
        let (name, url) = deployment(i);
        let line = concat(concat(name, "  ").as_str(), url);
        r.push(line);
        i += 1;
    }
    r
}

/// The endpoint of the deployment chosen at prompt position `selection`.
pub fn deployment_endpoint(selection: usize) -> (r: String)
    requires
        selection < DEPLOYMENT_COUNT,
    ensures
        r@ == deployment_spec(selection as int).1,
{
    owned(deployment(selection).1)
}

/// The credentials a search or job command uses.
pub struct Credentials {
    pub access_id: String,
    pub access_key: String,
    pub endpoint: String,
}

/// What a `--project` flag alone gives as command-line choices.
pub open spec fn flag_choices(project_flag: Option<&str>) -> Choices {
    (None, None, None, match project_flag {
        Some(p) => Some(p@),
        None => None,
    })
}

/// The credentials for a command run with `--project project_flag` (or
/// none), from the environment and the configuration file at `path`.
pub fn resolve_credentials(project_flag: Option<&str>, env: &Environment, file: &FileConfig, path: &str) -> (r: Result<Credentials, String>)
    ensures
        match (r, resolve_spec(flag_choices(project_flag), env_choices(*env), *file, path@)) {
            (Ok(c), Ok(v)) => c.access_id@ == v.0 && c.access_key@ == v.1 && c.endpoint@ == v.2,
            (Err(e), Err(m)) => e@ == m,
            _ => false,
        },
{
    let mut overrides = Overrides::none();
    overrides.project = match project_flag {
        Some(p) => Some(owned(p)),
        None => None,
    };
    assert(overrides_choices(overrides) == flag_choices(project_flag));
    match resolve(&overrides, env, file, path) {
        Ok(c) => Ok(Credentials { access_id: c.access_id, access_key: c.access_key, endpoint: c.endpoint }),
        Err(e) => Err(e),
    }
}


/// What `auth login` leaves in the file: `project` holds the credentials
/// given, other projects are untouched, and `project` is the default if the
/// file had none.
pub open spec fn login_effect(
    before: FileConfig,
    after: FileConfig,
    project: Seq<char>,
    endpoint: Seq<char>,
    access_id: Seq<char>,
    access_key: Seq<char>,
) -> bool {
    &&& project_field(lookup(after.projects@, project), 0) == Some(access_id)
    &&& project_field(lookup(after.projects@, project), 1) == Some(access_key)
    &&& project_field(lookup(after.projects@, project), 2) == Some(endpoint)
    &&& has_name(after.projects@, project)
    &&& forall|k: Seq<char>| k != project ==> lookup(after.projects@, k) == lookup(before.projects@, k)
    &&& forall|k: Seq<char>| has_name(after.projects@, k) == (k == project || has_name(before.projects@, k))
    &&& opt_view(after.default_project) == match opt_view(before.default_project) {
        Some(d) => Some(d),
        None => Some(project),
    }
    &&& opt_view(after.default_endpoint) == opt_view(before.default_endpoint)
}

/// Records the credentials `auth login` gathered under `project`, and makes
/// `project` the default when the file has none.
pub fn login(file: &mut FileConfig, project: &str, endpoint: String, access_id: String, access_key: String)
    ensures
        login_effect(*old(file), *final(file), project@, endpoint@, access_id@, access_key@),
        lookup(final(file).projects@, project@) == Some(Project {
            access_id: Some(access_id),
            access_key: Some(access_key),
            endpoint: Some(endpoint),
        }),
        forall|k: Seq<char>| k != project@ ==> lookup(final(file).projects@, k) == lookup(old(file).projects@, k),
        forall|k: Seq<char>| has_name(final(file).projects@, k) == (k == project@ || has_name(old(file).projects@, k)),
        opt_view(final(file).default_project) == match opt_view(old(file).default_project) {
            Some(d) => Some(d),
            None => Some(project@),
        },
        final(file).default_endpoint == old(file).default_endpoint,
{
    let entry = Project::new(Some(access_id), Some(access_key), Some(endpoint));
    file.projects.insert(owned(project), entry);
    if file.default_project.is_none() {
        file.default_project = Some(owned(project));
    }
    assert(has_name(file.projects@, project@));
}

/// The message for logging out of a project the file lacks.
pub open spec fn logout_missing_message(project: Seq<char>, path: Seq<char>) -> Seq<char> {
    "Project '"@ + project + "' not found in "@ + path + "."@
}

/// The changes `auth logout` makes: with `all`, every project and the
/// default go; otherwise `project` goes, and if it was the default, the
/// first remaining project (if any) becomes the default. A project the file
/// lacks is an error, and the file is left as it was.
pub fn logout(file: &mut FileConfig, project: &str, all: bool, path: &str) -> (r: Result<(), String>)
    ensures
        all ==> r is Ok && final(file).projects@.len() == 0 && final(file).default_project is None,
        !all ==> (r is Err <==> !has_name(old(file).projects@, project@)),
        !all && r is Err ==> opt_view(final(file).default_project) == opt_view(old(file).default_project)
            && final(file).projects@ == old(file).projects@,
        r matches Err(e) ==> e@ == logout_missing_message(project@, path@),
        !all && r is Ok ==> {
            &&& !has_name(final(file).projects@, project@)
            &&& forall|k: Seq<char>| k != project@ ==> lookup(final(file).projects@, k) == lookup(old(file).projects@, k)
            &&& forall|k: Seq<char>| has_name(final(file).projects@, k) == (k != project@ && has_name(old(file).projects@, k))
            &&& opt_view(final(file).default_project) == if opt_view(old(file).default_project) == Some(project@) {
                if final(file).projects@.len() > 0 { Some(final(file).projects@[0].0) } else { None::<Seq<char>> }
            } else {
                opt_view(old(file).default_project)
            }
        },
        final(file).default_endpoint == old(file).default_endpoint,
{
    if all {
        file.projects.clear();
        file.default_project = None;
        return Ok(());
    }
    if !file.projects.remove(project) {
        let e = concat(concat(concat(concat("Project '", project).as_str(), "' not found in ").as_str(), path).as_str(), ".");
        proof {
            reveal_strlit("Project '");
            reveal_strlit("' not found in ");
            reveal_strlit(".");
        }
        return Err(e);
    }
    let is_default = match &file.default_project {
        Some(d) => {
            let a = to_chars(d.as_str());
            let b = to_chars(project);
            chars_eq(a.as_slice(), b.as_slice())
        }
        None => false,
    };
    if is_default {
        file.default_project = file.projects.first_name();
    }
    Ok(())
}

/// The message for switching to a project the file lacks.
pub open spec fn use_missing_message(name: Seq<char>) -> Seq<char> {
    "Project '"@ + name + "' not found. Run 'sumo auth list' to see available projects."@
}

/// The change `auth use` makes: `name` becomes the default project, if the
/// file has it; otherwise an error and no change.
pub fn use_project(file: &mut FileConfig, name: &str) -> (r: Result<(), String>)
    ensures
        r is Ok <==> has_name(old(file).projects@, name@),
        r is Ok ==> opt_view(final(file).default_project) == Some(name@),
        r is Err ==> opt_view(final(file).default_project) == opt_view(old(file).default_project),
        r matches Err(e) ==> e@ == use_missing_message(name@),
        final(file).projects@ == old(file).projects@,
        final(file).default_endpoint == old(file).default_endpoint,
{
    if !file.projects.contains(name) {
        let e = concat(concat("Project '", name).as_str(), "' not found. Run 'sumo auth list' to see available projects.");
        proof {
            reveal_strlit("Project '");
            reveal_strlit("' not found. Run 'sumo auth list' to see available projects.");
        }
        return Err(e);
    }
    file.default_project = Some(owned(name));
    Ok(())
}

/// The active project: the file's default, else its first project.
pub open spec fn active_project_spec(file: FileConfig) -> Option<Seq<char>> {
    match opt_view(file.default_project) {
        Some(d) => Some(d),
        None => if file.projects@.len() > 0 {
            Some(file.projects@[0].0)
        } else {
            None
        },
    }
}

/// The active project of a file.
pub fn active_project(file: &FileConfig) -> (r: Option<String>)
    ensures
        opt_view(r) == active_project_spec(*file),
{
    match &file.default_project {
        Some(d) => Some(d.clone()),
        None => file.projects.first_name(),
    }
}

/// `s` padded with spaces on the right to at least `width` characters, as
/// the `{:<width}` format does.
pub open spec fn pad_right(s: Seq<char>, width: nat) -> Seq<char> {
    if s.len() >= width {
        s
    } else {
        s + Seq::new((width - s.len()) as nat, |i: int| ' ')
    }
}

fn pad(s: &str, width: usize) -> (r: String)
    ensures
        r@ == pad_right(s@, width as nat),
{
    let mut r = owned(s);
    let n = s.unicode_len();
    let mut k: usize = n;
    while k < width
        invariant
            n == s@.len(),
            k == n || k <= width,
            k >= n,
            r@ == s@ + Seq::new((k - n) as nat, |i: int| ' '),
        decreases width - k,
    {
        push_char(&mut r, ' ');
        assert(s@ + Seq::new((k + 1 - n) as nat, |i: int| ' ') =~= (s@ + Seq::new((k - n) as nat, |i: int| ' ')).push(' '));
        k += 1;
    }
    assert(r@ =~= pad_right(s@, width as nat));
    r
}

/// One line of `auth list`: `*` for the active project (else a space), the
/// name padded to 12, the endpoint and its deployment label.
pub open spec fn list_line(name: Seq<char>, project: Project, active: Option<Seq<char>>) -> Seq<char> {
    let endpoint = match opt_view(project.endpoint) {
        Some(e) => e,
        None => Seq::<char>::empty(),
    };
    let marker = if active == Some(name) { "*"@ } else { " "@ };
    marker + " "@ + pad_right(name, 12) + " "@ + endpoint + " ("@ + deployment_label_spec(endpoint) + ")"@
}

/// The lines `auth list` prints, one per project in order; none when the
/// file has no projects.
pub fn list(file: &FileConfig) -> (r: Vec<String>)
    ensures
        r@.len() == file.projects@.len(),
        forall|i: int| 0 <= i < r@.len() ==> #[trigger] r@[i]@ == list_line(
            file.projects@[i].0,
            file.projects@[i].1,
            active_project_spec(*file),
        ),
{
    let active = active_project(file);
    let mut r: Vec<String> = Vec::new();
    let n = file.projects.len();
    let mut i: usize = 0;
    while i < n
        invariant
            i <= n,
            n == file.projects@.len(),
            opt_view(active) == active_project_spec(*file),
            r@.len() == i,
            forall|k: int| 0 <= k < i ==> #[trigger] r@[k]@ == list_line(
                file.projects@[k].0,
                file.projects@[k].1,
                active_project_spec(*file),
            ),
        decreases n - i,
    {
        let name = file.projects.name_at(i);
        let project = file.projects.project_at(i);
        let is_active = match &active {
            Some(a) => {
                let x = to_chars(a.as_str());
                let y = to_chars(name.as_str());
                chars_eq(x.as_slice(), y.as_slice())
            }
            None => false,
        };
        let endpoint = match &project.endpoint {
            Some(e) => e.clone(),
            None => String::new(),
        };
        let label = deployment_label(endpoint.as_str());
        let marker = if is_active { "*" } else { " " };
        let padded = pad(name.as_str(), 12);
        let mut line = concat(marker, " ");
        line.append(padded.as_str());
        line.append(" ");
        line.append(endpoint.as_str());
        line.append(" (");
        line.append(label);
        line.append(")");
        proof {
            reveal_strlit("*");
            reveal_strlit(" ");
            reveal_strlit(" (");
            reveal_strlit(")");
        }
        r.push(line);
        i += 1;
    }
    r
}


/// The access ID as `auth status` shows it: when it is longer than 8 bytes
/// of UTF-8, its longest prefix of at most 8 bytes that ends between
/// characters and `***`; else whole.
pub open spec fn masked_id(id: Seq<char>) -> Seq<char> {
    if utf8_bytes(id).len() > 8 {
        fit_prefix(id, 8) + "***"@
    } else {
        id
    }
}

/// The lines `auth status` prints for the resolved configuration.
pub open spec fn status_lines(project: Seq<char>, endpoint: Seq<char>, access_id: Seq<char>) -> Seq<Seq<char>> {
    seq![
        "Project:    "@ + project,
        "Endpoint:   "@ + endpoint + " ("@ + deployment_label_spec(endpoint) + ")"@,
        "Access ID:  "@ + masked_id(access_id),
        "Access Key: ****"@,
    ]
}

/// What `auth status` prints; the access key is never shown.
pub fn status(resolved: &ResolvedConfig) -> (r: Vec<String>)
    ensures
        r@.map_values(|l: String| l@) == status_lines(resolved.project@, resolved.endpoint@, resolved.access_id@),
{
    let label = deployment_label(resolved.endpoint.as_str());
    let masked = if byte_len(resolved.access_id.as_str()) > 8 {
        let head = prefix_within(resolved.access_id.as_str(), 8);
        concat(head.as_str(), "***")
    } else {
        resolved.access_id.clone()
    };
    let mut r: Vec<String> = Vec::new();
    r.push(concat("Project:    ", resolved.project.as_str()));
    let mut endpoint_line = concat("Endpoint:   ", resolved.endpoint.as_str());
    endpoint_line.append(" (");
    endpoint_line.append(label);
    endpoint_line.append(")");
    r.push(endpoint_line);
    r.push(concat("Access ID:  ", masked.as_str()));
    r.push(owned("Access Key: ****"));
    proof {
        reveal_strlit("***");
        reveal_strlit(" (");
        reveal_strlit(")");
        assert(r@.map_values(|l: String| l@) =~= status_lines(resolved.project@, resolved.endpoint@, resolved.access_id@));
    }
    r
}

} // verus!
