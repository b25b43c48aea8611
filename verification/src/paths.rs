//! Where things are kept: the folder name of an app, and the paths of the
//! apps directory, of an app's files, of its icon and of the preferences.
//!
//! Paths are texts with `/` between their components.

use crate::adapters::{config_dir, data_dir, text_of};
use crate::error::{Error, ErrorView};
use crate::text::{
    ascii_alnum, ascii_lower, chars_of, is_ascii_alnum, string_of, to_ascii_lower,
};
use vstd::prelude::*;

verus! {

/// The directory of this product under the platform's directories.
pub open spec fn product() -> Seq<char> {
    "kyvyrn"@
}

/// `name` made fit for a folder: ASCII letters become small letters, digits
/// stay, and each run of other characters becomes one hyphen. Nothing is
/// cut at the ends.
pub open spec fn safe_name(name: Seq<char>) -> Seq<char>
    decreases name.len(),
{
    if name.len() == 0 {
        Seq::empty()
    } else {
        let before = name.drop_last();
        let c = name.last();
        if is_ascii_alnum(c) {
            safe_name(before).push(ascii_lower(c))
        } else if before.len() > 0 && !is_ascii_alnum(before.last()) {
            safe_name(before)
        } else {
            safe_name(before).push('-')
        }
    }
}

/// The folder of the app `name` with the id `id`: the safe form of the name,
/// a hyphen, the id. The hyphen counts as part of the name's last run, so
/// a name that ends in other characters gives one hyphen before the id,
/// not two.
pub open spec fn folder_name(name: Seq<char>, id: Seq<char>) -> Seq<char> {
    safe_name(name.push('-')) + id
}

/// A character that a safe name can hold.
pub open spec fn is_safe_char(c: char) -> bool {
    ('0' <= c && c <= '9') || ('a' <= c && c <= 'z') || c == '-'
}

/// `s` holds safe characters only, and no two hyphens in a row.
pub open spec fn is_safe(s: Seq<char>) -> bool {
    &&& forall|i: int| 0 <= i < s.len() ==> is_safe_char(#[trigger] s[i])
    &&& forall|i: int| 0 <= i < s.len() - 1 ==> !(#[trigger] s[i] == '-' && s[i + 1] == '-')
}

/// `base` with the component `part` added: a `/` goes between them unless
/// `base` is empty or ends in one, and a `part` that starts at the root
/// stands alone.
pub open spec fn joined(base: Seq<char>, part: Seq<char>) -> Seq<char> {
    if part.len() > 0 && part[0] == '/' {
        part
    } else if base.len() == 0 || base.last() == '/' {
        base + part
    } else {
        base.push('/') + part
    }
}

/// The apps directory under the data directory `data`.
pub open spec fn apps_path(data: Seq<char>) -> Seq<char> {
    joined(joined(data, product()), "Apps"@)
}

/// The directory of the app in `folder` under the data directory `data`.
pub open spec fn app_path(data: Seq<char>, folder: Seq<char>) -> Seq<char> {
    joined(apps_path(data), folder)
}

/// The configuration file in the app directory `dir`.
pub open spec fn config_path(dir: Seq<char>) -> Seq<char> {
    joined(dir, "config.json"@)
}

/// The file beside the configuration in `dir` that a write goes to first.
pub open spec fn temp_config_path(dir: Seq<char>) -> Seq<char> {
    joined(dir, "config.tmp"@)
}

/// The icon of the app `id` under the data directory `data`. It depends on
/// the id alone, not on the app's folder.
pub open spec fn icon_file(data: Seq<char>, id: Seq<char>) -> Seq<char> {
    joined(joined(data, "kyvyrn/icons"@), id + ".png"@)
}

/// The preference file under the configuration directory `config`.
pub open spec fn global_config_file(config: Seq<char>) -> Seq<char> {
    joined(joined(config, product()), "config.json"@)
}

/// The safe form of a name ends in a hyphen exactly if the name ends in a
/// character that is neither letter nor digit.
pub proof fn lemma_safe_name_end(name: Seq<char>)
    ensures
        name.len() == 0 ==> safe_name(name).len() == 0,
        name.len() > 0 ==> safe_name(name).len() > 0,
        name.len() > 0 ==> (safe_name(name).last() == '-' <==> !is_ascii_alnum(name.last())),
    decreases name.len(),
{
    if name.len() > 0 {
        lemma_safe_name_end(name.drop_last());
    }
}

/// A safe name holds small letters, digits and hyphens only, and never two
/// hyphens in a row.
pub proof fn lemma_safe_name_is_safe(name: Seq<char>)
    ensures
        is_safe(safe_name(name)),
    decreases name.len(),
{
    if name.len() > 0 {
        let before = name.drop_last();
        lemma_safe_name_is_safe(before);
        lemma_safe_name_end(before);
        let s = safe_name(before);
        let c = name.last();
        if is_ascii_alnum(c) {
            let t = s.push(ascii_lower(c));
            assert(is_safe_char(ascii_lower(c)));
            assert forall|i: int| 0 <= i < t.len() implies is_safe_char(#[trigger] t[i]) by {
                if i < s.len() {
                    assert(t[i] == s[i]);
                }
            }
            assert forall|i: int| 0 <= i < t.len() - 1 implies !(#[trigger] t[i] == '-' && t[i
                + 1] == '-') by {
                if i < s.len() - 1 {
                    assert(t[i] == s[i] && t[i + 1] == s[i + 1]);
                }
            }
        } else if before.len() > 0 && !is_ascii_alnum(before.last()) {
        } else {
            let t = s.push('-');
            assert forall|i: int| 0 <= i < t.len() implies is_safe_char(#[trigger] t[i]) by {
                if i < s.len() {
                    assert(t[i] == s[i]);
                }
            }
            assert forall|i: int| 0 <= i < t.len() - 1 implies !(#[trigger] t[i] == '-' && t[i
                + 1] == '-') by {
                if i < s.len() - 1 {
                    assert(t[i] == s[i] && t[i + 1] == s[i + 1]);
                } else {
                    assert(t[i] == s[i]);
                    assert(s[i] == s.last());
                }
            }
        }
    }
}

/// What is safe already stays as it is.
pub proof fn lemma_safe_stays(s: Seq<char>)
    requires
        is_safe(s),
    ensures
        safe_name(s) == s,
    decreases s.len(),
{
    if s.len() > 0 {
        let before = s.drop_last();
        assert(is_safe(before)) by {
            assert forall|i: int| 0 <= i < before.len() implies is_safe_char(
                #[trigger] before[i],
            ) by {
                assert(before[i] == s[i]);
            }
            assert forall|i: int| 0 <= i < before.len() - 1 implies !(#[trigger] before[i] == '-'
                && before[i + 1] == '-') by {
                assert(before[i] == s[i] && before[i + 1] == s[i + 1]);
            }
        }
        lemma_safe_stays(before);
        let c = s.last();
        assert(is_safe_char(c)) by {
            assert(s[s.len() - 1] == c);
        }
        if is_ascii_alnum(c) {
            assert(ascii_lower(c) == c);
        } else {
            assert(c == '-');
            if before.len() > 0 {
                assert(is_safe_char(before.last())) by {
                    assert(before.last() == s[s.len() - 2]);
                }
                assert(!(s[s.len() - 2] == '-' && s[s.len() - 2 + 1] == '-'));
                assert(before.last() != '-');
                assert(is_ascii_alnum(before.last()));
            }
        }
        assert(before.push(c) =~= s);
    }
}

/// Making a name safe twice changes nothing more.
pub proof fn lemma_safe_name_idempotent(name: Seq<char>)
    ensures
        safe_name(safe_name(name)) == safe_name(name),
{
    lemma_safe_name_is_safe(name);
    lemma_safe_stays(safe_name(name));
}

/// The id ends the folder name, after a hyphen.
pub proof fn lemma_folder_name_ends_with_id(name: Seq<char>, id: Seq<char>)
    ensures
        folder_name(name, id).len() >= id.len() + 1,
        folder_name(name, id).subrange(
            folder_name(name, id).len() - id.len(),
            folder_name(name, id).len() as int,
        ) == id,
        folder_name(name, id)[folder_name(name, id).len() - id.len() - 1] == '-',
{
    let stem = safe_name(name.push('-'));
    lemma_safe_name_end(name.push('-'));
    let f = folder_name(name, id);
    assert(f.subrange(f.len() - id.len(), f.len() as int) =~= id);
    assert(f[f.len() - id.len() - 1] == stem.last());
}

/// Two apps whose names come out the same still get folders of their own:
/// with equal safe names, different ids give different folders.
pub proof fn lemma_folder_names_differ(
    name1: Seq<char>,
    id1: Seq<char>,
    name2: Seq<char>,
    id2: Seq<char>,
)
    requires
        safe_name(name1.push('-')) == safe_name(name2.push('-')),
        id1 != id2,
    ensures
        folder_name(name1, id1) != folder_name(name2, id2),
{
    let stem = safe_name(name1.push('-'));
    if folder_name(name1, id1) == folder_name(name2, id2) {
        let f = folder_name(name1, id1);
        assert(f.subrange(stem.len() as int, f.len() as int) =~= id1);
        assert(f.subrange(stem.len() as int, f.len() as int) =~= id2);
    }
}

/// The safe form of `v`.
pub fn sanitize(v: &Vec<char>) -> (r: Vec<char>)
    ensures
        r@ == safe_name(v@),
{
    let mut out: Vec<char> = Vec::new();
    let mut prev_dash = false;
    let mut i: usize = 0;
    assert(v@.take(0) =~= Seq::<char>::empty());
    while i < v.len()
        invariant
            i <= v.len(),
            out@ == safe_name(v@.take(i as int)),
            prev_dash == (i > 0 && !is_ascii_alnum(v@[i - 1])),
        decreases v.len() - i,
    {
        let c = v[i];
        proof {
            let next = v@.take(i + 1);
            assert(next.drop_last() =~= v@.take(i as int));
            assert(next.last() == c);
            if i > 0 {
                assert(next.drop_last().last() == v@[i - 1]);
            }
        }
        if ascii_alnum(c) {
            prev_dash = false;
            out.push(to_ascii_lower(c));
        } else if !prev_dash {
            prev_dash = true;
            out.push('-');
        }
        i += 1;
    }
    assert(v@.take(i as int) =~= v@);
    out
}

/// The safe form of `name`.
pub fn safe_app_name(name: &str) -> (r: String)
    ensures
        r@ == safe_name(name@),
{
    let v = chars_of(name);
    let out = sanitize(&v);
    string_of(&out)
}

/// The folder of the app `name` with the id `id`.
pub fn generate_app_folder(name: &str, id: &str) -> (r: String)
    ensures
        r@ == folder_name(name@, id@),
{
    let mut v = chars_of(name);
    v.push('-');
    let mut out = sanitize(&v);
    let mut tail = chars_of(id);
    out.append(&mut tail);
    string_of(&out)
}

/// `base` with the component `part` added.
pub fn join(base: &str, part: &str) -> (r: String)
    ensures
        r@ == joined(base@, part@),
{
    let mut b = chars_of(base);
    let mut p = chars_of(part);
    if p.len() > 0 && p[0] == '/' {
        return string_of(&p);
    }
    if b.len() > 0 && b[b.len() - 1] != '/' {
        b.push('/');
    }
    b.append(&mut p);
    string_of(&b)
}

/// The apps directory under the data directory `data`.
pub fn apps_dir_in(data: &str) -> (r: String)
    ensures
        r@ == apps_path(data@),
{
    let product = join(data, "kyvyrn");
    join(product.as_str(), "Apps")
}

/// The directory of the app in `folder` under the data directory `data`.
pub fn app_dir_in(data: &str, folder: &str) -> (r: String)
    ensures
        r@ == app_path(data@, folder@),
{
    let apps = apps_dir_in(data);
    join(apps.as_str(), folder)
}

/// The configuration file in the app directory `dir`.
pub fn config_file(dir: &str) -> (r: String)
    ensures
        r@ == config_path(dir@),
{
    join(dir, "config.json")
}

/// The file in `dir` that a configuration is written to before it takes the
/// place of the old one.
pub fn temp_config_file(dir: &str) -> (r: String)
    ensures
        r@ == temp_config_path(dir@),
{
    join(dir, "config.tmp")
}

/// The icon of the app `app_id` under the data directory `data`.
pub fn icon_path_in(data: &str, app_id: &str) -> (r: String)
    ensures
        r@ == icon_file(data@, app_id@),
{
    let icons = join(data, "kyvyrn/icons");
    let mut name = chars_of(app_id);
    let mut ext = chars_of(".png");
    name.append(&mut ext);
    let name = string_of(&name);
    join(icons.as_str(), name.as_str())
}

/// The preference file under the configuration directory `config`.
pub fn global_config_path_in(config: &str) -> (r: String)
    ensures
        r@ == global_config_file(config@),
{
    let product = join(config, "kyvyrn");
    join(product.as_str(), "config.json")
}

/// The apps directory of this user, where the platform names a data
/// directory.
pub fn apps_dir() -> (r: Option<String>)
    ensures
        r matches Some(p) ==> exists|data: Seq<char>| p@ == apps_path(data),
{
    // Whether there is a data directory is for the platform to say; where
    // there is one, the path follows from it.
    let found = data_dir();
    apps_dir_from(found)
}

/// The directory of the app in `folder`, where the platform names a data
/// directory.
pub fn app_dir(folder: &str) -> (r: Option<String>)
    ensures
        r matches Some(p) ==> exists|data: Seq<char>| p@ == app_path(data, folder@),
{
    // Whether there is a data directory is for the platform to say; where
    // there is one, the path follows from it.
    let found = data_dir();
    app_dir_from(found, folder)
}

/// The icon of the app `app_id`, or the error that no data directory is
/// named.
pub fn icon_path(app_id: &str) -> (r: Result<String, Error>)
    ensures
        match r {
            Ok(p) => exists|data: Seq<char>| p@ == icon_file(data, app_id@),
            Err(e) => e@ == ErrorView::NoDataDir,
        },
{
    match data_dir() {
        Some(data) => Ok(icon_path_in(data.as_str(), app_id)),
        None => Err(Error::NoDataDir),
    }
}

/// The preference file of this user, where the platform names a
/// configuration directory.
pub fn global_config_path() -> (r: Option<String>)
    ensures
        r matches Some(p) ==> exists|config: Seq<char>| p@ == global_config_file(config),
{
    // Whether there is a configuration directory is for the platform to say;
    // where there is one, the path follows from it.
    let found = config_dir();
    global_config_path_from(found)
}

/// The apps directory, given what the platform names as the data directory:
/// none where it names none.
pub open spec fn apps_dir_given(found: Option<Seq<char>>) -> Option<Seq<char>> {
    match found {
        Some(data) => Some(apps_path(data)),
        None => None,
    }
}

/// The directory of the app in `folder`, given what the platform names as
/// the data directory: none where it names none.
pub open spec fn app_dir_given(found: Option<Seq<char>>, folder: Seq<char>) -> Option<Seq<char>> {
    match found {
        Some(data) => Some(app_path(data, folder)),
        None => None,
    }
}

/// The preference file, given what the platform names as the configuration
/// directory: none where it names none.
pub open spec fn global_config_path_given(found: Option<Seq<char>>) -> Option<Seq<char>> {
    match found {
        Some(config) => Some(global_config_file(config)),
        None => None,
    }
}

/// The apps directory, given what the platform names as the data directory.
pub fn apps_dir_from(found: Option<String>) -> (r: Option<String>)
    ensures
        text_of(r) == apps_dir_given(text_of(found)),
{
    match found {
        Some(data) => Some(apps_dir_in(data.as_str())),
        None => None,
    }
}

/// The directory of the app in `folder`, given what the platform names as
/// the data directory.
pub fn app_dir_from(found: Option<String>, folder: &str) -> (r: Option<String>)
    ensures
        text_of(r) == app_dir_given(text_of(found), folder@),
{
    match found {
        Some(data) => Some(app_dir_in(data.as_str(), folder)),
        None => None,
    }
}

/// The preference file, given what the platform names as the configuration
/// directory.
pub fn global_config_path_from(found: Option<String>) -> (r: Option<String>)
    ensures
        text_of(r) == global_config_path_given(text_of(found)),
{
    match found {
        Some(config) => Some(global_config_path_in(config.as_str())),
        None => None,
    }
}

} // verus!
