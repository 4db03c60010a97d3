//! The OS keychain (through the `keyring` crate): per-project secrets,
//! the active project, and the registry of project names, which is kept as
//! one newline-separated secret.

use vstd::prelude::*;
use vstd::string::StringExecFns;
use crate::text::{
    to_chars, from_chars, owned, concat, split_chars, split_spec, char_vecs_view, join_with, lemma_split_nonempty,
};

verus! {

#[verifier::external_type_specification]
#[verifier::external_body]
pub struct ExKeyringEntry(keyring::Entry);

/// How a keychain call failed: whether the entry was missing
/// (`keyring::Error::NoEntry`), and the failure's own text.
pub struct KeyringFailure {
    pub no_entry: bool,
    pub text: String,
}

/// `keyring::Entry::new`: a handle on the keychain entry for `service` and
/// `user`. Whether it succeeds depends on the platform's store; nothing is
/// stated of the outcome.
#[verifier::external_body]
fn new_entry(service: &str, user: &str) -> (r: Result<keyring::Entry, KeyringFailure>) {
    match keyring::Entry::new(service, user) {
        Ok(e) => Ok(e),
        Err(e) => Err(KeyringFailure { no_entry: matches!(e, keyring::Error::NoEntry), text: e.to_string() }),
    }
}

/// `keyring::Entry::get_password`: the secret stored in the entry. What it
/// returns depends on the platform's store; nothing is stated of it.
#[verifier::external_body]
fn entry_password(entry: &keyring::Entry) -> (r: Result<String, KeyringFailure>) {
    match entry.get_password() {
        Ok(v) => Ok(v),
        Err(e) => Err(KeyringFailure { no_entry: matches!(e, keyring::Error::NoEntry), text: e.to_string() }),
    }
}

/// `keyring::Entry::set_password`: stores a secret in the entry. Whether it
/// succeeds depends on the platform's store; nothing is stated of it.
#[verifier::external_body]
fn entry_set_password(entry: &keyring::Entry, value: &str) -> (r: Result<(), KeyringFailure>) {
    match entry.set_password(value) {
        Ok(()) => Ok(()),
        Err(e) => Err(KeyringFailure { no_entry: matches!(e, keyring::Error::NoEntry), text: e.to_string() }),
    }
}

/// `keyring::Entry::delete_credential`: removes the entry's secret. Whether
/// it succeeds depends on the platform's store; nothing is stated of it.
#[verifier::external_body]
fn entry_delete(entry: &keyring::Entry) -> (r: Result<(), KeyringFailure>) {
    match entry.delete_credential() {
        Ok(()) => Ok(()),
        Err(e) => Err(KeyringFailure { no_entry: matches!(e, keyring::Error::NoEntry), text: e.to_string() }),
    }
}

/// The service name of one project's secret `key`.
pub open spec fn service_name_spec(project: Seq<char>, key: Seq<char>) -> Seq<char> {
    "com.sumologic.cli."@ + project + "."@ + key
}

/// The service name under which `key` of `project` is stored.
pub fn service_name(project: &str, key: &str) -> (r: String)
    ensures
        r@ == service_name_spec(project@, key@),
{
    let mut r = concat("com.sumologic.cli.", project);
    r.append(".");
    r.append(key);
    proof {
        reveal_strlit("com.sumologic.cli.");
        reveal_strlit(".");
    }
    r
}

/// The message for any keychain failure.
pub open spec fn keychain_message(detail: Seq<char>) -> Seq<char> {
    "Unable to access OS keychain. ("@ + detail + ")"@
}

/// Whether a message is a keychain failure message.
pub open spec fn is_keychain_message(m: Seq<char>) -> bool {
    exists|detail: Seq<char>| m == keychain_message(detail)
}

fn keychain_error(f: &KeyringFailure) -> (r: String)
    ensures
        r@ == keychain_message(f.text@),
{
    let mut r = concat("Unable to access OS keychain. (", f.text.as_str());
    r.append(")");
    proof {
        reveal_strlit("Unable to access OS keychain. (");
        reveal_strlit(")");
    }
    r
}

fn entry(service: &str) -> (r: Result<keyring::Entry, String>)
    ensures
        r matches Err(e) ==> is_keychain_message(e@),
{
    let user = "sumo-cli";
    match new_entry(service, user) {
        Ok(e) => Ok(e),
        Err(f) => Err(keychain_error(&f)),
    }
}

/// What a read of a keychain entry gives: the secret, nothing when the
/// entry is missing, or the failure's message.
pub fn read_outcome(outcome: Result<String, KeyringFailure>) -> (r: Result<Option<String>, String>)
    ensures
        match outcome {
            Ok(v) => r == Ok::<Option<String>, String>(Some(v)),
            Err(f) => if f.no_entry {
                r == Ok::<Option<String>, String>(None)
            } else {
                r matches Err(e) && e@ == keychain_message(f.text@)
            },
        },
{
    match outcome {
        Ok(v) => Ok(Some(v)),
        Err(f) => if f.no_entry {
            Ok(None)
        } else {
            Err(keychain_error(&f))
        },
    }
}

/// What a deletion from the keychain gives: success also when the entry
/// was already missing.
pub fn delete_outcome(outcome: Result<(), KeyringFailure>) -> (r: Result<(), String>)
    ensures
        match outcome {
            Ok(()) => r is Ok,
            Err(f) => if f.no_entry {
                r is Ok
            } else {
                r matches Err(e) && e@ == keychain_message(f.text@)
            },
        },
{
    match outcome {
        Ok(()) => Ok(()),
        Err(f) => if f.no_entry {
            Ok(())
        } else {
            Err(keychain_error(&f))
        },
    }
}

fn get_password(service: &str) -> (r: Result<Option<String>, String>)
    ensures
        r matches Err(e) ==> is_keychain_message(e@),
{
    let e = entry(service)?;
    read_outcome(entry_password(&e))
}

fn set_password(service: &str, value: &str) -> (r: Result<(), String>)
    ensures
        r matches Err(e) ==> is_keychain_message(e@),
{
    let e = entry(service)?;
    match entry_set_password(&e, value) {
        Ok(()) => Ok(()),
        Err(f) => Err(keychain_error(&f)),
    }
}

fn delete_password(service: &str) -> (r: Result<(), String>)
    ensures
        r matches Err(e) ==> is_keychain_message(e@),
{
    let e = entry(service)?;
    delete_outcome(entry_delete(&e))
}

/// Stores `value` as `key` of `project`.
pub fn set(project: &str, key: &str, value: &str) -> (r: Result<(), String>)
    ensures
        r matches Err(e) ==> is_keychain_message(e@),
{
    set_password(service_name(project, key).as_str(), value)
}

/// The stored `key` of `project`, if any.
pub fn get(project: &str, key: &str) -> (r: Result<Option<String>, String>)
    ensures
        r matches Err(e) ==> is_keychain_message(e@),
{
    get_password(service_name(project, key).as_str())
}

/// Removes `key` of `project`; a missing entry is no error.
pub fn delete(project: &str, key: &str) -> (r: Result<(), String>)
    ensures
        r matches Err(e) ==> is_keychain_message(e@),
{
    delete_password(service_name(project, key).as_str())
}

/// The active project given what the keychain holds: the stored name, or
/// `default` when none is stored.
pub fn active_project_from(stored: Option<String>) -> (r: String)
    ensures
        r@ == match stored {
            Some(v) => v@,
            None => crate::config::default_project_name(),
        },
{
    match stored {
        Some(v) => v,
        None => crate::config::default_project(),
    }
}

/// The active project stored in the keychain, or `default`.
pub fn get_active_project() -> (r: Result<String, String>)
    ensures
        r matches Err(e) ==> is_keychain_message(e@),
{
    let service = "com.sumologic.cli.active-project";
    let stored = get_password(service)?;
    Ok(active_project_from(stored))
}

/// Stores `name` as the active project.
pub fn set_active_project(name: &str) -> (r: Result<(), String>)
    ensures
        r matches Err(e) ==> is_keychain_message(e@),
{
    set_password("com.sumologic.cli.active-project", name)
}


/// A line without the `\r` that ended it, if any.
pub open spec fn strip_cr(p: Seq<char>) -> Seq<char> {
    if p.len() > 0 && p.last() == '\r' {
        p.drop_last()
    } else {
        p
    }
}

/// The non-empty entries of a sequence of lines, in order.
pub open spec fn non_empty_lines(lines: Seq<Seq<char>>) -> Seq<Seq<char>>
    decreases lines.len(),
{
    if lines.len() == 0 {
        Seq::empty()
    } else {
        let r = non_empty_lines(lines.drop_last());
        if lines.last().len() > 0 {
            r.push(lines.last())
        } else {
            r
        }
    }
}

/// The lines of `s` as `str::lines` gives them, padded with a final empty
/// line when `s` ends in a line break: the pieces between `\n`s, each
/// one followed by a `\n` without its final `\r`.
pub open spec fn raw_lines(s: Seq<char>) -> Seq<Seq<char>> {
    let pieces = split_spec(s, '\n');
    Seq::new(pieces.len(), |i: int| if i < pieces.len() - 1 { strip_cr(pieces[i]) } else { pieces[i] })
}

/// The project names a registry secret holds: its non-empty lines.
pub open spec fn registry_names(s: Seq<char>) -> Seq<Seq<char>> {
    non_empty_lines(raw_lines(s))
}

/// The project names held by the registry text `data`.
pub fn parse_registry(data: &str) -> (r: Vec<String>)
    ensures
        r@.map_values(|n: String| n@) == registry_names(data@),
{
    let chars = to_chars(data);
    let pieces = split_chars(chars.as_slice(), '\n');
    let ghost lines = raw_lines(data@);
    proof {
        lemma_split_nonempty(data@, '\n');
    }
    let n = pieces.len();
    let mut r: Vec<String> = Vec::new();
    let mut i: usize = 0;
    while i < n
        invariant
            i <= n,
            n == pieces@.len(),
            n >= 1,
            char_vecs_view(pieces@) == split_spec(data@, '\n'),
            lines == raw_lines(data@),
            lines.len() == n,
            r@.map_values(|x: String| x@) == non_empty_lines(lines.take(i as int)),
        decreases n - i,
    {
        let piece = &pieces[i];
        assert(piece@ == split_spec(data@, '\n')[i as int]);
        let len = piece.len();
        let keep_len: usize = if i + 1 < n && len > 0 && piece[len - 1] == '\r' { len - 1 } else { len };
        let mut line: Vec<char> = Vec::new();
        let mut k: usize = 0;
        while k < keep_len
            invariant
                k <= keep_len <= len,
                len == piece@.len(),
                line@ == piece@.take(k as int),
            decreases keep_len - k,
        {
            line.push(piece[k]);
            assert(piece@.take(k + 1) =~= piece@.take(k as int).push(piece@[k as int]));
            k += 1;
        }
        assert(line@ =~= lines[i as int]);
        let ghost before = r@.map_values(|x: String| x@);
        assert(lines.take(i + 1).drop_last() =~= lines.take(i as int));
        if keep_len > 0 {
            r.push(from_chars(line.as_slice()));
            assert(r@.map_values(|x: String| x@) =~= before.push(lines[i as int]));
        }
        i += 1;
    }
    assert(lines.take(n as int) =~= lines);
    r
}

/// The registry text for a list of names: the names joined by `\n`.
pub fn registry_text(names: &Vec<String>) -> (r: String)
    ensures
        r@ == join_with(names@.map_values(|n: String| n@), '\n'),
{
    let mut r = String::new();
    let ghost view = names@.map_values(|n: String| n@);
    let mut i: usize = 0;
    while i < names.len()
        invariant
            i <= names@.len(),
            view == names@.map_values(|n: String| n@),
            r@ == join_with(view.take(i as int), '\n'),
        decreases names@.len() - i,
    {
        assert(view.take(i + 1).drop_last() =~= view.take(i as int));
        if i > 0 {
            r.append("\n");
            proof {
                reveal_strlit("\n");
            }
        } else {
            assert(view.take(1) =~= seq![view[0]]);
        }
        r.append(names[i].as_str());
        i += 1;
    }
    assert(view.take(names@.len() as int) =~= view);
    r
}

/// The registry after adding `name`: unchanged when present, else with
/// `name` at the end.
pub open spec fn with_name(names: Seq<Seq<char>>, name: Seq<char>) -> Seq<Seq<char>> {
    if names.contains(name) {
        names
    } else {
        names.push(name)
    }
}

/// The registry without `name`, order kept.
pub open spec fn without_name(names: Seq<Seq<char>>, name: Seq<char>) -> Seq<Seq<char>>
    decreases names.len(),
{
    if names.len() == 0 {
        Seq::empty()
    } else {
        let r = without_name(names.drop_last(), name);
        if names.last() == name {
            r
        } else {
            r.push(names.last())
        }
    }
}

/// Adds `name` to a list of names unless it is there already.
pub fn add_name(names: &mut Vec<String>, name: &str)
    ensures
        final(names)@.map_values(|n: String| n@) == with_name(old(names)@.map_values(|n: String| n@), name@),
{
    let ghost view = names@.map_values(|n: String| n@);
    let wanted = owned(name);
    let mut i: usize = 0;
    while i < names.len()
        invariant
            i <= names@.len(),
            view == names@.map_values(|n: String| n@),
            wanted@ == name@,
            forall|k: int| 0 <= k < i ==> view[k] != name@,
        decreases names@.len() - i,
    {
        if names[i] == wanted {
            assert(view.contains(name@)) by {
                assert(view[i as int] == name@);
            }
            return;
        }
        i += 1;
    }
    assert(!view.contains(name@));
    names.push(wanted);
    assert(names@.map_values(|n: String| n@) =~= view.push(name@));
}

/// Removes every occurrence of `name` from a list of names.
pub fn remove_name(names: &mut Vec<String>, name: &str)
    ensures
        final(names)@.map_values(|n: String| n@) == without_name(old(names)@.map_values(|n: String| n@), name@),
{
    let ghost view = names@.map_values(|n: String| n@);
    let wanted = owned(name);
    let mut kept: Vec<String> = Vec::new();
    let mut i: usize = 0;
    while i < names.len()
        invariant
            i <= names@.len(),
            view == names@.map_values(|n: String| n@),
            wanted@ == name@,
            kept@.map_values(|n: String| n@) == without_name(view.take(i as int), name@),
        decreases names@.len() - i,
    {
        assert(view.take(i + 1).drop_last() =~= view.take(i as int));
        let ghost before = kept@.map_values(|n: String| n@);
        if names[i] != wanted {
            kept.push(names[i].clone());
            assert(kept@.map_values(|n: String| n@) =~= before.push(view[i as int]));
        }
        i += 1;
    }
    assert(view.take(names@.len() as int) =~= view);
    *names = kept;
}

/// The project names the registry holds, given what the keychain stored
/// under it: none when nothing is stored, else the text's non-empty lines.
pub open spec fn stored_registry_names(stored: Option<Seq<char>>) -> Seq<Seq<char>> {
    match stored {
        Some(data) => registry_names(data),
        None => Seq::empty(),
    }
}

/// The project names for what the keychain stored under the registry.
pub fn registry_from(stored: Option<String>) -> (r: Vec<String>)
    ensures
        r@.map_values(|n: String| n@) == stored_registry_names(match stored {
            Some(d) => Some(d@),
            None => None,
        }),
{
    match stored {
        Some(data) => parse_registry(data.as_str()),
        None => {
            let names: Vec<String> = Vec::new();
            assert(names@.map_values(|n: String| n@) =~= Seq::<Seq<char>>::empty());
            names
        }
    }
}

/// The names in the registry, or none when it is missing. What the
/// keychain holds is the store's; the names are those `registry_from`
/// gives for it.
pub fn list_projects() -> (r: Result<Vec<String>, String>)
    ensures
        r matches Err(e) ==> is_keychain_message(e@),
        r matches Ok(v) ==> exists|stored: Option<Seq<char>>| v@.map_values(|n: String| n@) == stored_registry_names(stored),
{
    let stored = get_password("com.sumologic.cli.projects")?;
    let ghost sv = match &stored {
        Some(d) => Some(d@),
        None => None::<Seq<char>>,
    };
    let names = registry_from(stored);
    assert(names@.map_values(|n: String| n@) == stored_registry_names(sv));
    Ok(names)
}

/// Writes the registry: deletes it when there are no names, else stores
/// them joined by `\n`.
fn save_project_registry(projects: &Vec<String>) -> (r: Result<(), String>)
    ensures
        r matches Err(e) ==> is_keychain_message(e@),
{
    let service = "com.sumologic.cli.projects";
    if projects.len() == 0 {
        delete_password(service)
    } else {
        let text = registry_text(projects);
        set_password(service, text.as_str())
    }
}

/// Adds `name` to the registry, unless it is listed already.
pub fn add_project_to_registry(name: &str) -> (r: Result<(), String>)
    ensures
        r matches Err(e) ==> is_keychain_message(e@),
{
    let mut projects = list_projects()?;
    add_name(&mut projects, name);
    save_project_registry(&projects)
}

/// Removes `name` from the registry.
pub fn remove_project_from_registry(name: &str) -> (r: Result<(), String>)
    ensures
        r matches Err(e) ==> is_keychain_message(e@),
{
    let mut projects = list_projects()?;
    remove_name(&mut projects, name);
    save_project_registry(&projects)
}

} // verus!
