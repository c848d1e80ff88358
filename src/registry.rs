//! The registry's operations, computed from what storage holds.
//!
//! Storage is described by the names of the files in the storage directory;
//! the caller lists the directory, performs the file operations that a plan
//! names, and reports back.
use vstd::prelude::*;
use vstd::string::*;

use crate::desktop::{desktop_entry_spec, desktop_entry_text};
use crate::identity::{
    display_name_spec, extension_of, id_of_path, is_valid_id, lemma_file_name_of_join,
    lemma_id_fixed, lemma_last_index, path_stem, lower_seq, lowered_extension, parse_appimage_name,
    sanitize_filename, sanitize_spec,
};
use crate::layout::{EnvMode, LocateError, StorageDirs};
use crate::text::{chars_of, join_path, path_join, same_chars};

verus! {

/// A registered bundle.
#[derive(Debug)]
pub struct AppImageEntry {
    pub id: String,
    pub name: String,
    pub path: String,
    pub icon_path: Option<String>,
    pub desktop_file: String,
}

/// What an entry holds, as character sequences.
pub struct EntryModel {
    pub id: Seq<char>,
    pub name: Seq<char>,
    pub path: Seq<char>,
    pub icon: Option<Seq<char>>,
    pub desktop: Seq<char>,
}

pub open spec fn opt_view(o: Option<String>) -> Option<Seq<char>> {
    match o {
        Some(s) => Some(s@),
        None => None,
    }
}

impl View for AppImageEntry {
    type V = EntryModel;

    open spec fn view(&self) -> EntryModel {
        EntryModel {
            id: self.id@,
            name: self.name@,
            path: self.path@,
            icon: opt_view(self.icon_path),
            desktop: self.desktop_file@,
        }
    }
}

/// The names of a listing, as character sequences.
pub open spec fn names_view(v: Seq<String>) -> Seq<Seq<char>> {
    v.map_values(|s: String| s@)
}

/// Why an operation failed.
#[derive(PartialEq, Eq, Structural, Clone, Copy, Debug)]
pub enum RegistryError {
    /// The directories could not be found.
    Locate(LocateError),
    /// The file to import does not exist.
    SourceMissing,
    /// Nothing of the bundle to remove was found.
    AppMissing,
    /// The bundle to launch is not in storage.
    BundleMissing,
}

impl RegistryError {
    /// The message shown for this error.
    pub fn message(&self) -> (r: String)
        ensures
            r@ == match self {
                RegistryError::Locate(LocateError::DataDirMissing) => "XDG data dir not found"@,
                RegistryError::Locate(LocateError::HomeMissing) => "HOME not found"@,
                RegistryError::SourceMissing => "File not found"@,
                RegistryError::AppMissing => "App not found"@,
                RegistryError::BundleMissing => "AppImage not found"@,
            },
    {
        match self {
            RegistryError::Locate(e) => e.message(),
            RegistryError::SourceMissing => String::from_str("File not found"),
            RegistryError::AppMissing => String::from_str("App not found"),
            RegistryError::BundleMissing => String::from_str("AppImage not found"),
        }
    }
}

/// `id.ext`.
pub open spec fn dotted(id: Seq<char>, ext: Seq<char>) -> Seq<char> {
    id + seq!['.'] + ext
}

/// The file name of the bundle that an import stores for `id`.
pub open spec fn bundle_file_name(id: Seq<char>) -> Seq<char> {
    dotted(id, "AppImage"@)
}

/// The other spelling of a bundle's file name that removal and launch accept.
pub open spec fn bundle_file_name_lower(id: Seq<char>) -> Seq<char> {
    dotted(id, "appimage"@)
}

/// The file name of the menu entry for `id`.
pub open spec fn desktop_file_name(id: Seq<char>) -> Seq<char> {
    "axec-"@ + id + ".desktop"@
}

/// Whether a file name carries the bundle extension, in any case.
pub open spec fn is_bundle_name(n: Seq<char>) -> bool {
    extension_of(n) matches Some(e) && lower_seq(e) == "appimage"@
}

/// The recognised icon extensions, in the order an icon is looked up.
pub open spec fn icon_ext_at(i: int) -> Seq<char> {
    if i == 0 {
        "png"@
    } else if i == 1 {
        "svg"@
    } else if i == 2 {
        "ico"@
    } else {
        "xpm"@
    }
}

fn icon_ext(i: usize) -> (r: &'static str)
    requires
        i < 4,
    ensures
        r@ == icon_ext_at(i as int),
{
    if i == 0 {
        "png"
    } else if i == 1 {
        "svg"
    } else if i == 2 {
        "ico"
    } else {
        "xpm"
    }
}

/// `id.ext` as a string.
fn dotted_name(id: &str, ext: &str) -> (r: String)
    ensures
        r@ == dotted(id@, ext@),
{
    let mut r = String::from_str(id);
    r.append(".");
    proof {
        reveal_strlit(".");
    }
    r.append(ext);
    r
}

fn desktop_name(id: &str) -> (r: String)
    ensures
        r@ == desktop_file_name(id@),
{
    let mut r = String::from_str("axec-");
    r.append(id);
    r.append(".desktop");
    r
}

/// Whether the listing holds a file of this name.
fn listed_name(present: &Vec<String>, n: &String) -> (r: bool)
    ensures
        r == names_view(present@).contains(n@),
{
    let mut i: usize = 0;
    while i < present.len()
        invariant
            i <= present@.len(),
            forall|k: int| 0 <= k < i ==> present@[k]@ != n@,
        decreases present@.len() - i,
    {
        if present[i] == *n {
            assert(names_view(present@)[i as int] == n@);
            return true;
        }
        i = i + 1;
    }
    assert(!names_view(present@).contains(n@)) by {
        if names_view(present@).contains(n@) {
            let k = choose|k: int| 0 <= k < present@.len() && names_view(present@)[k] == n@;
            assert(present@[k]@ == n@);
        }
    }
    false
}

/// The icon of `id` in storage: the first recognised extension under which a
/// file `id.ext` is present, from the `i`th on.
pub open spec fn icon_lookup_from(st: Seq<char>, id: Seq<char>, present: Seq<Seq<char>>, i: int) -> Option<
    Seq<char>,
>
    decreases 4 - i,
{
    if i >= 4 {
        None
    } else if present.contains(dotted(id, icon_ext_at(i))) {
        Some(path_join(st, dotted(id, icon_ext_at(i))))
    } else {
        icon_lookup_from(st, id, present, i + 1)
    }
}

pub open spec fn icon_lookup(st: Seq<char>, id: Seq<char>, present: Seq<Seq<char>>) -> Option<Seq<char>> {
    icon_lookup_from(st, id, present, 0)
}

fn find_icon(storage: &str, id: &str, present: &Vec<String>) -> (r: Option<String>)
    ensures
        opt_view(r) == icon_lookup(storage@, id@, names_view(present@)),
{
    let mut i: usize = 0;
    while i < 4
        invariant
            i <= 4,
            icon_lookup(storage@, id@, names_view(present@)) == icon_lookup_from(
                storage@,
                id@,
                names_view(present@),
                i as int,
            ),
        decreases 4 - i,
    {
        let n = dotted_name(id, icon_ext(i));
        if listed_name(present, &n) {
            return Some(join_path(storage, n.as_str()));
        }
        i = i + 1;
    }
    None
}

/// The entry that listing reconstructs from the stored file `n`.
pub open spec fn entry_for(st: Seq<char>, ap: Seq<char>, n: Seq<char>, present: Seq<Seq<char>>) -> EntryModel {
    let path = path_join(st, n);
    let name = display_name_spec(path);
    let id = sanitize_spec(name);
    EntryModel {
        id,
        name,
        path,
        icon: icon_lookup(st, id, present),
        desktop: path_join(ap, desktop_file_name(id)),
    }
}

/// The entries listed for the files `ns`, in their order, where storage holds
/// the files `present`.
pub open spec fn listed(st: Seq<char>, ap: Seq<char>, ns: Seq<Seq<char>>, present: Seq<Seq<char>>) -> Seq<
    EntryModel,
>
    decreases ns.len(),
{
    if ns.len() == 0 {
        Seq::empty()
    } else {
        let r = listed(st, ap, ns.drop_last(), present);
        if is_bundle_name(ns.last()) {
            r.push(entry_for(st, ap, ns.last(), present))
        } else {
            r
        }
    }
}

pub open spec fn entries_view(v: Seq<AppImageEntry>) -> Seq<EntryModel> {
    v.map_values(|e: AppImageEntry| e@)
}

/// Whether the file name `n` carries the bundle extension, in any case.
fn has_bundle_ext(n: &str) -> (r: bool)
    ensures
        r == is_bundle_name(n@),
{
    match lowered_extension(n) {
        Some(e) => same_chars(&e, &chars_of("appimage")),
        None => false,
    }
}

/// The registered bundles: one entry for each file of the storage listing
/// `present` whose extension is the bundle extension in any case, in the
/// listing's order, with its icon where storage holds one.
pub fn list_apps(dirs: &StorageDirs, present: &Vec<String>) -> (r: Vec<AppImageEntry>)
    ensures
        entries_view(r@) == listed(dirs.storage@, dirs.apps@, names_view(present@), names_view(present@)),
{
    let ghost ns = names_view(present@);
    let mut r: Vec<AppImageEntry> = Vec::new();
    let mut i: usize = 0;
    while i < present.len()
        invariant
            i <= present@.len(),
            ns == names_view(present@),
            entries_view(r@) == listed(dirs.storage@, dirs.apps@, ns.subrange(0, i as int), ns),
        decreases present@.len() - i,
    {
        let n = &present[i];
        proof {
            assert(ns.subrange(0, i + 1).drop_last() =~= ns.subrange(0, i as int));
            assert(ns.subrange(0, i + 1).last() == n@);
        }
        if has_bundle_ext(n.as_str()) {
            let path = join_path(dirs.storage.as_str(), n.as_str());
            let name = parse_appimage_name(path.as_str());
            let id = sanitize_filename(name.as_str());
            let desktop_file = join_path(dirs.apps.as_str(), desktop_name(id.as_str()).as_str());
            let icon_path = find_icon(dirs.storage.as_str(), id.as_str(), present);
            let e = AppImageEntry { id, name, path, icon_path, desktop_file };
            r.push(e);
            assert(entries_view(r@) =~= listed(
                dirs.storage@,
                dirs.apps@,
                ns.subrange(0, i + 1),
                ns,
            ));
        } else {
            assert(entries_view(r@) =~= listed(
                dirs.storage@,
                dirs.apps@,
                ns.subrange(0, i + 1),
                ns,
            ));
        }
        i = i + 1;
    }
    assert(ns.subrange(0, present@.len() as int) =~= ns);
    r
}

} // verus!

verus! {

/// What importing a bundle will write.
#[derive(Debug)]
pub struct AddPlan {
    pub name: String,
    pub id: String,
    /// Where the bundle is copied to.
    pub bundle_path: String,
    /// Where its menu entry goes.
    pub desktop_path: String,
    /// The icon files of the id, deleted before a new icon is extracted, so
    /// that at most one stays.
    pub stale_icons: Vec<String>,
}

/// The plan for importing the file at `file_path`: an error where the file does
/// not exist or the directories could not be found, in that order.
pub fn plan_add(file_path: &str, source_exists: bool, dirs: &Result<StorageDirs, LocateError>) -> (r:
    Result<AddPlan, RegistryError>)
    ensures
        !source_exists ==> r == Err::<AddPlan, RegistryError>(RegistryError::SourceMissing),
        source_exists ==> match dirs {
            Err(e) => r == Err::<AddPlan, RegistryError>(RegistryError::Locate(*e)),
            Ok(d) => r matches Ok(p) && p.name@ == display_name_spec(file_path@) && p.id@
                == sanitize_spec(p.name@) && p.bundle_path@ == path_join(
                d.storage@,
                bundle_file_name(p.id@),
            ) && p.desktop_path@ == path_join(d.apps@, desktop_file_name(p.id@))
                && p.stale_icons@.map_values(|s: String| s@) == icons_of(d.storage@, p.id@),
        },
{
    if !source_exists {
        return Err(RegistryError::SourceMissing);
    }
    let d = match dirs {
        Ok(d) => d,
        Err(e) => return Err(RegistryError::Locate(*e)),
    };
    let name = parse_appimage_name(file_path);
    let id = sanitize_filename(name.as_str());
    let bundle_path = join_path(d.storage.as_str(), dotted_name(id.as_str(), "AppImage").as_str());
    let desktop_path = join_path(d.apps.as_str(), desktop_name(id.as_str()).as_str());
    let stale_icons = icon_paths(d, id.as_str());
    Ok(AddPlan { name, id, bundle_path, desktop_path, stale_icons })
}

/// The entry of an import once the bundle is stored and its icon, if any,
/// extracted; and, out of the sandbox, the text of the menu entry to write.
pub fn finish_add(plan: AddPlan, icon_path: Option<String>, mode: EnvMode) -> (r: (
    AppImageEntry,
    Option<String>,
))
    ensures
        r.0@ == (EntryModel {
            id: plan.id@,
            name: plan.name@,
            path: plan.bundle_path@,
            icon: opt_view(icon_path),
            desktop: plan.desktop_path@,
        }),
        mode == EnvMode::Sandboxed ==> r.1 is None,
        mode == EnvMode::Unrestricted ==> (r.1 matches Some(t) && t@ == desktop_entry_spec(
            plan.name@,
            plan.bundle_path@,
            opt_view(icon_path),
        )),
{
    let text = match mode {
        EnvMode::Sandboxed => None,
        EnvMode::Unrestricted => {
            let icon: Option<&str> = match &icon_path {
                Some(p) => Some(p.as_str()),
                None => None,
            };
            Some(desktop_entry_text(plan.name.as_str(), plan.bundle_path.as_str(), icon))
        },
    };
    let entry = AppImageEntry {
        id: plan.id,
        name: plan.name,
        path: plan.bundle_path,
        icon_path,
        desktop_file: plan.desktop_path,
    };
    (entry, text)
}

/// What removing a bundle will delete.
#[derive(Debug)]
pub struct RemovalPlan {
    /// The stored bundle files of the id.
    pub bundles: Vec<String>,
    /// Every icon file the id may have; deleting them is best effort.
    pub icons: Vec<String>,
    /// The menu entry, where there is one to delete.
    pub desktop: Option<String>,
    /// Whether anything but icons was found.
    pub found: bool,
}

/// The stored bundle files of `id` that the listing holds, as paths.
pub open spec fn bundles_of(st: Seq<char>, id: Seq<char>, present: Seq<Seq<char>>) -> Seq<Seq<char>> {
    let up = bundle_file_name(id);
    let low = bundle_file_name_lower(id);
    (if present.contains(up) { seq![path_join(st, up)] } else { Seq::empty() }) + (if present.contains(
        low,
    ) {
        seq![path_join(st, low)]
    } else {
        Seq::empty()
    })
}

/// The paths of every icon file `id` may have.
pub open spec fn icons_of(st: Seq<char>, id: Seq<char>) -> Seq<Seq<char>> {
    Seq::new(4, |i: int| path_join(st, dotted(id, icon_ext_at(i))))
}

/// The paths of every icon file `id` may have in storage, in lookup order.
pub fn icon_paths(dirs: &StorageDirs, id: &str) -> (r: Vec<String>)
    ensures
        r@.map_values(|s: String| s@) == icons_of(dirs.storage@, id@),
{
    let ghost st = dirs.storage@;
    let mut icons: Vec<String> = Vec::new();
    let mut i: usize = 0;
    while i < 4
        invariant
            i <= 4,
            st == dirs.storage@,
            icons@.map_values(|s: String| s@) == icons_of(st, id@).subrange(0, i as int),
        decreases 4 - i,
    {
        let p = join_path(dirs.storage.as_str(), dotted_name(id, icon_ext(i)).as_str());
        assert(p@ == icons_of(st, id@)[i as int]);
        icons.push(p);
        assert(icons@.map_values(|s: String| s@) =~= icons_of(st, id@).subrange(0, i as int).push(p@));
        i = i + 1;
        assert(icons@.map_values(|s: String| s@) =~= icons_of(st, id@).subrange(0, i as int));
    }
    assert(icons_of(st, id@).subrange(0, 4) =~= icons_of(st, id@));
    icons
}

/// The plan for removing `id`, where storage holds the files `present` and
/// `desktop_exists` tells whether its menu entry exists. In the sandbox the
/// menu entry is left alone.
pub fn plan_removal(
    id: &str,
    dirs: &StorageDirs,
    mode: EnvMode,
    present: &Vec<String>,
    desktop_exists: bool,
) -> (r: RemovalPlan)
    ensures
        r.bundles@.map_values(|s: String| s@) == bundles_of(dirs.storage@, id@, names_view(present@)),
        r.icons@.map_values(|s: String| s@) == icons_of(dirs.storage@, id@),
        opt_view(r.desktop) == (if mode == EnvMode::Unrestricted && desktop_exists {
            Some(path_join(dirs.apps@, desktop_file_name(id@)))
        } else {
            None
        }),
        r.found == (r.bundles@.len() > 0 || r.desktop is Some),
{
    let ghost st = dirs.storage@;
    let ghost ns = names_view(present@);
    let mut bundles: Vec<String> = Vec::new();
    let up = dotted_name(id, "AppImage");
    if listed_name(present, &up) {
        bundles.push(join_path(dirs.storage.as_str(), up.as_str()));
    }
    let low = dotted_name(id, "appimage");
    if listed_name(present, &low) {
        bundles.push(join_path(dirs.storage.as_str(), low.as_str()));
    }
    assert(bundles@.map_values(|s: String| s@) =~= bundles_of(st, id@, ns));
    let icons = icon_paths(dirs, id);
    let desktop = if mode == EnvMode::Unrestricted && desktop_exists {
        Some(join_path(dirs.apps.as_str(), desktop_name(id).as_str()))
    } else {
        None
    };
    let found = bundles.len() > 0 || desktop.is_some();
    RemovalPlan { bundles, icons, desktop, found }
}

impl RemovalPlan {
    /// The result of the removal once the plan has been carried out.
    pub fn outcome(&self) -> (r: Result<(), RegistryError>)
        ensures
            r == (if self.found {
                Ok::<(), RegistryError>(())
            } else {
                Err(RegistryError::AppMissing)
            }),
    {
        if self.found {
            Ok(())
        } else {
            Err(RegistryError::AppMissing)
        }
    }
}

/// The stored bundle to launch for `id`, under either spelling of its
/// extension; an error where storage holds neither.
pub fn launch_target(id: &str, dirs: &StorageDirs, present: &Vec<String>) -> (r: Result<
    String,
    RegistryError,
>)
    ensures
        bundles_of(dirs.storage@, id@, names_view(present@)).len() == 0 ==> r == Err::<
            String,
            RegistryError,
        >(RegistryError::BundleMissing),
        bundles_of(dirs.storage@, id@, names_view(present@)).len() > 0 ==> (r matches Ok(p) && p@
            == bundles_of(dirs.storage@, id@, names_view(present@))[0]),
{
    let up = dotted_name(id, "AppImage");
    if listed_name(present, &up) {
        return Ok(join_path(dirs.storage.as_str(), up.as_str()));
    }
    let low = dotted_name(id, "appimage");
    if listed_name(present, &low) {
        return Ok(join_path(dirs.storage.as_str(), low.as_str()));
    }
    Err(RegistryError::BundleMissing)
}

} // verus!

verus! {

/// The stored bundle file of an identifier is listed as a bundle, under that
/// same identifier.
pub proof fn lemma_stored_bundle_id(st: Seq<char>, id: Seq<char>)
    requires
        is_valid_id(id),
        id.len() > 0,
    ensures
        is_bundle_name(bundle_file_name(id)),
        display_name_spec(path_join(st, bundle_file_name(id))) == id,
        sanitize_spec(display_name_spec(path_join(st, bundle_file_name(id)))) == id,
{
    reveal_strlit("AppImage");
    reveal_strlit("appimage");
    let n = bundle_file_name(id);
    let ext = "AppImage"@;
    assert(n == id + seq!['.'] + ext);
    assert forall|j: int| id.len() < j < n.len() implies n[j] != '.' by {
        assert(n[j] == ext[j - id.len() - 1]);
    }
    lemma_last_index(n, '.', id.len() as int);
    assert(n.subrange(0, id.len() as int) =~= id);
    assert(n.subrange(id.len() + 1int, n.len() as int) =~= ext);
    assert(lower_seq(ext) =~= "appimage"@);
    assert forall|i: int| 0 <= i < n.len() implies n[i] != '/' by {
        if i < id.len() {
            assert(n[i] == id[i]);
        } else if i > id.len() {
            assert(n[i] == ext[i - id.len() - 1]);
        }
    }
    assert(n != seq!['.']) by {
        assert(n.len() != 1);
    }
    assert(n != seq!['.', '.']) by {
        assert(n.len() != 2);
    }
    lemma_file_name_of_join(st, n);
    assert(path_stem(path_join(st, n)) == id);
    lemma_id_fixed(id);
}

/// How many entries carry the identifier `id`.
pub open spec fn count_id(es: Seq<EntryModel>, id: Seq<char>) -> nat
    decreases es.len(),
{
    if es.len() == 0 {
        0
    } else {
        count_id(es.drop_last(), id) + if es.last().id == id {
            1nat
        } else {
            0nat
        }
    }
}

/// Storage holds no bundle file of `id` but, possibly, the one an import writes.
pub open spec fn no_other_bundle_of(
    st: Seq<char>,
    ap: Seq<char>,
    id: Seq<char>,
    ns: Seq<Seq<char>>,
    present: Seq<Seq<char>>,
) -> bool {
    forall|n: Seq<char>|
        #![trigger ns.contains(n)]
        ns.contains(n) && is_bundle_name(n) && n != bundle_file_name(id) ==> entry_for(
            st,
            ap,
            n,
            present,
        ).id != id
}

proof fn lemma_listed_count(
    st: Seq<char>,
    ap: Seq<char>,
    id: Seq<char>,
    ns: Seq<Seq<char>>,
    present: Seq<Seq<char>>,
)
    requires
        is_valid_id(id),
        id.len() > 0,
        ns.no_duplicates(),
        no_other_bundle_of(st, ap, id, ns, present),
    ensures
        count_id(listed(st, ap, ns, present), id) == if ns.contains(bundle_file_name(id)) {
            1nat
        } else {
            0nat
        },
        forall|i: int|
            0 <= i < listed(st, ap, ns, present).len() && (#[trigger] listed(
                st,
                ap,
                ns,
                present,
            )[i]).id == id ==> listed(st, ap, ns, present)[i].path == path_join(
                st,
                bundle_file_name(id),
            ) && listed(st, ap, ns, present)[i].name == id && listed(st, ap, ns, present)[i].desktop
                == path_join(ap, desktop_file_name(id)),
    decreases ns.len(),
{
    let b = bundle_file_name(id);
    if ns.len() > 0 {
        let p = ns.drop_last();
        let x = ns.last();
        assert forall|n: Seq<char>| p.contains(n) implies ns.contains(n) by {
            let k = choose|k: int| 0 <= k < p.len() && p[k] == n;
            assert(ns[k] == n);
        }
        lemma_listed_count(st, ap, id, p, present);
        assert(ns.contains(x)) by {
            assert(ns[ns.len() - 1] == x);
        }
        assert(ns.contains(b) == (p.contains(b) || x == b)) by {
            if ns.contains(b) && x != b {
                let k = choose|k: int| 0 <= k < ns.len() && ns[k] == b;
                assert(p[k] == b);
            }
            if p.contains(b) {
                let k = choose|k: int| 0 <= k < p.len() && p[k] == b;
                assert(ns[k] == b);
            }
        }
        if x == b {
            assert(!p.contains(b)) by {
                if p.contains(b) {
                    let k = choose|k: int| 0 <= k < p.len() && p[k] == b;
                    assert(ns[k] == ns[ns.len() - 1]);
                }
            }
            lemma_stored_bundle_id(st, id);
            assert(entry_for(st, ap, x, present).id == id);
        } else if is_bundle_name(x) {
            assert(entry_for(st, ap, x, present).id != id);
        }
        let l = listed(st, ap, ns, present);
        if is_bundle_name(x) {
            assert(l.drop_last() == listed(st, ap, p, present));
            assert(l.last() == entry_for(st, ap, x, present));
        } else {
            assert(l == listed(st, ap, p, present));
        }
    }
}

/// After an import of the file at `f`, a listing of storage shows the bundle
/// exactly once, under the identifier of `f`, at the path the import wrote and
/// with the menu-entry path the import computed; its name there is the
/// identifier, since it is derived anew from the stored file's name,
/// where storage held no other bundle file of that identifier. (A file whose
/// identifier is empty is stored under a name without a stem, which listing
/// does not take for a bundle.)
pub proof fn lemma_add_then_list(
    f: Seq<char>,
    dirs: StorageDirs,
    after: Seq<Seq<char>>,
)
    requires
        id_of_path(f).len() > 0,
        after.no_duplicates(),
        after.contains(bundle_file_name(id_of_path(f))),
        no_other_bundle_of(dirs.storage@, dirs.apps@, id_of_path(f), after, after),
    ensures
        count_id(listed(dirs.storage@, dirs.apps@, after, after), id_of_path(f)) == 1,
        forall|i: int|
            0 <= i < listed(dirs.storage@, dirs.apps@, after, after).len() && (#[trigger] listed(
                dirs.storage@,
                dirs.apps@,
                after,
                after,
            )[i]).id == id_of_path(f) ==> listed(dirs.storage@, dirs.apps@, after, after)[i].path
                == path_join(dirs.storage@, bundle_file_name(id_of_path(f))) && listed(
                dirs.storage@,
                dirs.apps@,
                after,
                after,
            )[i].name == id_of_path(f) && listed(dirs.storage@, dirs.apps@, after, after)[i].desktop
                == path_join(dirs.apps@, desktop_file_name(id_of_path(f))),
{
    crate::identity::lemma_sanitize_valid(display_name_spec(f));
    lemma_listed_count(dirs.storage@, dirs.apps@, id_of_path(f), after, after);
}

/// After an import of the file at `f` and its removal, a listing of storage no
/// longer shows the bundle, and storage holds no bundle file of its identifier
/// for a second removal to find, where storage held no other bundle file of
/// that identifier.
pub proof fn lemma_add_remove_then_list(
    f: Seq<char>,
    dirs: StorageDirs,
    rest: Seq<Seq<char>>,
)
    requires
        id_of_path(f).len() > 0,
        rest.no_duplicates(),
        !rest.contains(bundle_file_name(id_of_path(f))),
        !rest.contains(bundle_file_name_lower(id_of_path(f))),
        no_other_bundle_of(dirs.storage@, dirs.apps@, id_of_path(f), rest, rest),
    ensures
        count_id(listed(dirs.storage@, dirs.apps@, rest, rest), id_of_path(f)) == 0,
        bundles_of(dirs.storage@, id_of_path(f), rest).len() == 0,
{
    crate::identity::lemma_sanitize_valid(display_name_spec(f));
    lemma_listed_count(dirs.storage@, dirs.apps@, id_of_path(f), rest, rest);
}

/// Two imports of files with the same identifier write the same bundle file
/// and the same menu entry.
pub proof fn lemma_readd_same_file(f1: Seq<char>, f2: Seq<char>, dirs: StorageDirs)
    requires
        id_of_path(f1) == id_of_path(f2),
    ensures
        path_join(dirs.storage@, bundle_file_name(id_of_path(f1))) == path_join(
            dirs.storage@,
            bundle_file_name(id_of_path(f2)),
        ),
        path_join(dirs.apps@, desktop_file_name(id_of_path(f1))) == path_join(
            dirs.apps@,
            desktop_file_name(id_of_path(f2)),
        ),
{
}

} // verus!

verus! {

/// Where the menu entry of `id` is kept.
pub fn menu_entry_path(dirs: &StorageDirs, id: &str) -> (r: String)
    ensures
        r@ == path_join(dirs.apps@, desktop_file_name(id@)),
{
    join_path(dirs.apps.as_str(), desktop_name(id).as_str())
}

} // verus!

verus! {

/// Whether `n` is the name of an icon file of `id`.
pub open spec fn is_icon_file_of(id: Seq<char>, n: Seq<char>) -> bool {
    exists|i: int| 0 <= i < 4 && n == dotted(id, icon_ext_at(i))
}

/// What storage holds after a re-import of `id` deleted the id's icon files
/// from `before` and copied `new_icon`, if any.
pub open spec fn after_icon_refresh(
    id: Seq<char>,
    before: Set<Seq<char>>,
    new_icon: Option<Seq<char>>,
) -> Set<Seq<char>> {
    let kept = before.filter(|n: Seq<char>| !is_icon_file_of(id, n));
    match new_icon {
        Some(n) => kept.insert(n),
        None => kept,
    }
}

/// A re-import that deletes the icon files of its identifier before copying
/// the new icon leaves at most one icon file of that identifier in storage.
pub proof fn lemma_readd_one_icon(id: Seq<char>, before: Set<Seq<char>>, new_icon: Option<Seq<char>>)
    ensures
        forall|a: Seq<char>, b: Seq<char>|
            #![trigger after_icon_refresh(id, before, new_icon).contains(a), after_icon_refresh(id, before, new_icon).contains(b)]
            after_icon_refresh(id, before, new_icon).contains(a) && after_icon_refresh(
                id,
                before,
                new_icon,
            ).contains(b) && is_icon_file_of(id, a) && is_icon_file_of(id, b) ==> a == b,
{
}

} // verus!
