//! Looking desktops up and working out the paths that desktop operations act on.
use vstd::prelude::*;
use crate::model::SpecificDesktop;
use crate::platform::{file_name, join_path, path_file_name, path_joined};
use crate::tools::{find, find_with_index, first_match, key_is, key_is_not};
use crate::data_manager::desk_views;
use crate::text::views;

verus! {

/// The first index at or after `i` whose entry has the name `key`.
pub open spec fn first_from(s: Seq<(Seq<char>, Seq<char>)>, key: Seq<char>, i: int) -> Option<int>
    decreases s.len() - i,
{
    if i < 0 || i >= s.len() {
        None
    } else if s[i].0 == key {
        Some(i)
    } else {
        first_from(s, key, i + 1)
    }
}

/// The first index whose entry has the name `key`.
pub open spec fn first_named(s: Seq<(Seq<char>, Seq<char>)>, key: Seq<char>) -> Option<int> {
    first_from(s, key, 0)
}

/// What `first_named` gives, stated by the entries around it.
pub proof fn lemma_first_named(s: Seq<(Seq<char>, Seq<char>)>, key: Seq<char>)
    ensures
        match first_named(s, key) {
            Some(i) => 0 <= i < s.len() && s[i].0 == key && forall|j: int|
                0 <= j < i ==> #[trigger] s[j].0 != key,
            None => forall|j: int| 0 <= j < s.len() ==> #[trigger] s[j].0 != key,
        },
{
    lemma_first_from(s, key, 0);
}

proof fn lemma_first_from(s: Seq<(Seq<char>, Seq<char>)>, key: Seq<char>, i: int)
    requires
        0 <= i,
    ensures
        match first_from(s, key, i) {
            Some(k) => i <= k < s.len() && s[k].0 == key && forall|j: int|
                i <= j < k ==> #[trigger] s[j].0 != key,
            None => forall|j: int| i <= j < s.len() ==> #[trigger] s[j].0 != key,
        },
    decreases s.len() - i,
{
    if i < s.len() && s[i].0 != key {
        lemma_first_from(s, key, i + 1);
    }
}

/// The key of a specific desktop is its name: a key computed from a clone of `x` has
/// `x`'s name as its text.
proof fn lemma_name_key<F: Fn(SpecificDesktop) -> String>(f: F, x: SpecificDesktop, key: Seq<char>)
    requires
        forall|d: SpecificDesktop, k: String| #[trigger] f.ensures((d,), k) ==> k@ == d.name@,
    ensures
        key_is(f, x, key) ==> x.name@ == key,
        key_is_not(f, x, key) ==> x.name@ != key,
{
    if key_is(f, x, key) {
        let (c, k) = choose|c: SpecificDesktop, k: String|
            #[trigger] cloned(x, c) && #[trigger] f.ensures((c,), k) && k@ == key;
        assert(c@ == x@);
    }
    if key_is_not(f, x, key) {
        let (c, k) = choose|c: SpecificDesktop, k: String|
            #[trigger] cloned(x, c) && #[trigger] f.ensures((c,), k) && k@ != key;
        assert(c@ == x@);
    }
}

/// The index of the first specific desktop named `desk_name`, found as `tools::find_with_index`
/// finds it, keyed by name.
fn specific_position(specific_desktops: &Vec<SpecificDesktop>, desk_name: &String) -> (res: Option<usize>)
    ensures
        match res {
            Some(i) => first_named(desk_views(specific_desktops@), desk_name@) == Some(i as int),
            None => first_named(desk_views(specific_desktops@), desk_name@) is None,
        },
{
    let key = |d: SpecificDesktop| -> (k: String)
        ensures
            k@ == d.name@,
        { d.name };
    let found = find_with_index(specific_desktops.as_slice(), desk_name.clone(), key);
    let ghost s = desk_views(specific_desktops@);
    match found {
        Some((_, i)) => {
            proof {
                lemma_name_key(key, specific_desktops@[i as int], desk_name@);
                assert forall|j: int| 0 <= j < i implies #[trigger] s[j].0 != desk_name@ by {
                    lemma_name_key(key, specific_desktops@[j], desk_name@);
                }
                lemma_first_named_at(s, desk_name@, i as int);
            }
            Some(i)
        },
        None => {
            proof {
                assert forall|j: int| 0 <= j < s.len() implies #[trigger] s[j].0 != desk_name@ by {
                    lemma_name_key(key, specific_desktops@[j], desk_name@);
                }
                lemma_first_named(s, desk_name@);
            }
            None
        },
    }
}

/// A new specific desktop named `desktop_name` at `desktop_path`, unless one of that name exists.
pub fn allocate_new_specific_desktop(
    desktop_name: &String,
    desktop_path: &String,
    specific_desktops: &Vec<SpecificDesktop>,
) -> (res: Result<SpecificDesktop, String>)
    ensures
        match first_named(desk_views(specific_desktops@), desktop_name@) {
            Some(_) => res matches Err(e) && e@ == "Desktop with this name exists"@,
            None => res matches Ok(d) && d@ == (desktop_name@, desktop_path@),
        },
{
    if specific_position(specific_desktops, desktop_name).is_some() {
        return Err("Desktop with this name exists".to_owned());
    }
    Ok(SpecificDesktop::new(desktop_name.clone(), desktop_path.clone()))
}

/// The first specific desktop named `desk_name`.
pub fn get_specific_desktop(desktops: &Vec<SpecificDesktop>, desk_name: String) -> (res: Option<
    SpecificDesktop,
>)
    ensures
        match first_named(desk_views(desktops@), desk_name@) {
            Some(i) => res matches Some(d) && d@ == desktops@[i]@,
            None => res is None,
        },
{
    let key = |d: SpecificDesktop| -> (k: String)
        ensures
            k@ == d.name@,
        { d.name };
    let ghost s = desk_views(desktops@);
    let found = find(desktops.as_slice(), desk_name.clone(), key);
    proof {
        lemma_first_named(s, desk_name@);
        match found {
            Some(ref item) => {
                let i = choose|i: int| #[trigger]
                    first_match(key, desktops@, desk_name@, i) && cloned(desktops@[i], *item);
                lemma_name_key(key, desktops@[i], desk_name@);
                assert forall|j: int| 0 <= j < i implies #[trigger] s[j].0 != desk_name@ by {
                    lemma_name_key(key, desktops@[j], desk_name@);
                }
                lemma_first_named_at(s, desk_name@, i);
                assert(item@ == desktops@[i]@);
            },
            None => {
                assert forall|j: int| 0 <= j < s.len() implies #[trigger] s[j].0 != desk_name@ by {
                    lemma_name_key(key, desktops@[j], desk_name@);
                }
            },
        }
    }
    found
}

/// `first_named` gives `i` when the entry at `i` is the first with that name.
pub proof fn lemma_first_named_at(s: Seq<(Seq<char>, Seq<char>)>, key: Seq<char>, i: int)
    requires
        0 <= i < s.len(),
        s[i].0 == key,
        forall|j: int| 0 <= j < i ==> #[trigger] s[j].0 != key,
    ensures
        first_named(s, key) == Some(i),
{
    lemma_first_named(s, key);
    match first_named(s, key) {
        Some(k) => {
            if k < i {
                assert(s[k].0 != key);
            }
            if k > i {
                assert(s[i].0 != key);
            }
        },
        None => {
            assert(s[i].0 != key);
        },
    }
}

/// The path of the common desktop named `desk_name`, which lives under `desktops_path`,
/// if the entry names of that directory include it.
pub fn get_common_desktop(desktop_names: &Vec<String>, desktops_path: &String, desk_name: String) -> (res:
    Option<String>)
    ensures
        views(desktop_names@).contains(desk_name@) <==> res is Some,
        res matches Some(p) ==> p@ == path_joined(desktops_path@, desk_name@),
{
    let mut i: usize = 0;
    while i < desktop_names.len()
        invariant
            i <= desktop_names@.len(),
            forall|j: int| 0 <= j < i ==> desktop_names@[j]@ != desk_name@,
        decreases desktop_names@.len() - i,
    {
        if desktop_names[i] == desk_name {
            assert(views(desktop_names@)[i as int] == desk_name@);
            return Some(join_path(desktops_path.as_str(), desk_name.as_str()));
        }
        i = i + 1;
    }
    assert forall|j: int| 0 <= j < views(desktop_names@).len() implies views(desktop_names@)[j]
        != desk_name@ by {
        assert(views(desktop_names@)[j] == desktop_names@[j]@);
    }
    None
}

/// The paths of the entries named `names` in the directory `from_dir`.
pub fn files_of(from_dir: &String, names: &Vec<String>) -> (res: Vec<String>)
    ensures
        res@.len() == names@.len(),
        forall|i: int| 0 <= i < names@.len() ==> #[trigger] res@[i]@ == path_joined(from_dir@, names@[i]@),
{
    let mut res: Vec<String> = Vec::new();
    let mut i: usize = 0;
    while i < names.len()
        invariant
            i <= names@.len(),
            res@.len() == i,
            forall|j: int| 0 <= j < i ==> #[trigger] res@[j]@ == path_joined(from_dir@, names@[j]@),
        decreases names@.len() - i,
    {
        res.push(join_path(from_dir.as_str(), names[i].as_str()));
        i = i + 1;
    }
    res
}

/// Where common desktops live under a base path: its `desktops` directory.
pub open spec fn desktops_dir(base: Seq<char>) -> Seq<char> {
    path_joined(base, "desktops"@)
}

/// The directory of the common desktop named `desk` under the base path `base`.
pub open spec fn common_desktop_dir(base: Seq<char>, desk: Seq<char>) -> Seq<char> {
    path_joined(desktops_dir(base), desk)
}

/// The directory to switch to for the common desktop `desktop` under `path_of_base`.
pub fn change_common_desktop(desktop: &String, path_of_base: &String) -> (res: String)
    ensures
        res@ == common_desktop_dir(path_of_base@, desktop@),
{
    let desktops = join_path(path_of_base.as_str(), "desktops");
    join_path(desktops.as_str(), desktop.as_str())
}

/// The directory to switch to for a specific desktop: its own path.
pub fn change_specific_desktop(desktop: &SpecificDesktop) -> (res: String)
    ensures
        res@ == desktop.path@,
{
    desktop.path.clone()
}

/// The directory to delete, with all it holds, to remove the common desktop `desktop_name`.
pub fn remove_common_desktop(desktop_name: &String, path_of_base: &String) -> (res: String)
    ensures
        res@ == common_desktop_dir(path_of_base@, desktop_name@),
{
    let desktops = join_path(path_of_base.as_str(), "desktops");
    join_path(desktops.as_str(), desktop_name.as_str())
}

/// The name of the current desktop whose directory is `path`: the path's last component,
/// if it has one.
pub fn current_desktop_name(path: &String) -> (res: Option<String>)
    ensures
        res is Some <==> path_file_name(path@) is Some,
        res matches Some(n) ==> path_file_name(path@) == Some(n@),
{
    file_name(path.as_str())
}

/// What removing a desktop directory does next. The entries of the directory go first, in
/// order, then the directory itself; the first removal that fails ends the removal with an
/// error that names what could not be deleted.
#[derive(Debug, PartialEq, Eq)]
pub enum RemovalStep {
    /// Delete `path`, with all it holds if it is a directory.
    Remove { path: String },
    /// Stop: the removal failed with `message`.
    Fail { message: String },
    /// Everything was deleted.
    Done,
}

pub enum RemovalStepModel {
    Remove { path: Seq<char> },
    Fail { message: Seq<char> },
    Done,
}

impl View for RemovalStep {
    type V = RemovalStepModel;

    open spec fn view(&self) -> RemovalStepModel {
        match self {
            RemovalStep::Remove { path } => RemovalStepModel::Remove { path: path@ },
            RemovalStep::Fail { message } => RemovalStepModel::Fail { message: message@ },
            RemovalStep::Done => RemovalStepModel::Done,
        }
    }
}

/// The step after `removed` deletions have succeeded, of the entries `files` and then the
/// desktop directory `desktop`, when the deletion just tried failed (`last_failed`) or not.
pub open spec fn removal_step_spec(
    files: Seq<Seq<char>>,
    desktop: Seq<char>,
    removed: int,
    last_failed: bool,
) -> RemovalStepModel {
    if last_failed {
        if removed < files.len() {
            RemovalStepModel::Fail { message: "Cannot delete file "@ + files[removed] }
        } else {
            RemovalStepModel::Fail { message: "Cannot delete desktop "@ + desktop }
        }
    } else if removed < files.len() {
        RemovalStepModel::Remove { path: files[removed] }
    } else if removed == files.len() {
        RemovalStepModel::Remove { path: desktop }
    } else {
        RemovalStepModel::Done
    }
}

/// The next step of removing the desktop directory `desktop` whose entries are `files`, after
/// `removed` deletions have succeeded and the one just tried failed (`last_failed`) or not.
pub fn removal_step(files: &Vec<String>, desktop: &String, removed: usize, last_failed: bool) -> (res:
    RemovalStep)
    requires
        removed <= files@.len() + 1,
        last_failed ==> removed <= files@.len(),
    ensures
        res@ == removal_step_spec(views(files@), desktop@, removed as int, last_failed),
{
    if last_failed {
        if removed < files.len() {
            let mut message = "Cannot delete file ".to_owned();
            message.append(files[removed].as_str());
            return RemovalStep::Fail { message };
        }
        let mut message = "Cannot delete desktop ".to_owned();
        message.append(desktop.as_str());
        return RemovalStep::Fail { message };
    }
    if removed < files.len() {
        RemovalStep::Remove { path: files[removed].clone() }
    } else if removed == files.len() {
        RemovalStep::Remove { path: desktop.clone() }
    } else {
        RemovalStep::Done
    }
}

} // verus!
