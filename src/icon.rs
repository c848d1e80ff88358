//! Choosing the icon of a bundle among the files it extracts.
use vstd::prelude::*;
use vstd::string::*;

use crate::identity::{extension_of, lower_seq, lowered_extension};
use crate::registry::dotted;
use crate::text::{chars_of, join_path, path_join, same_chars};

verus! {

/// The directory, inside the extraction's working directory, that the bundle
/// unpacks into.
pub fn extraction_root(work_dir: &str) -> (r: String)
    ensures
        r@ == path_join(work_dir@, "squashfs-root"@),
{
    join_path(work_dir, "squashfs-root")
}

/// The bundle's default icon, inside the unpacked tree.
pub fn default_icon_path(root: &str) -> (r: String)
    ensures
        r@ == path_join(root@, ".DirIcon"@),
{
    join_path(root, ".DirIcon")
}

/// The icon directories searched, largest icons first.
pub open spec fn icon_subdir(k: int) -> Seq<char> {
    if k == 0 {
        "usr/share/icons/hicolor/256x256/apps"@
    } else if k == 1 {
        "usr/share/icons/hicolor/128x128/apps"@
    } else if k == 2 {
        "usr/share/icons/hicolor/64x64/apps"@
    } else {
        "usr/share/pixmaps"@
    }
}

pub open spec fn icon_dirs_of(root: Seq<char>) -> Seq<Seq<char>> {
    Seq::new(4, |k: int| path_join(root, icon_subdir(k)))
}

fn icon_subdir_text(k: usize) -> (r: &'static str)
    requires
        k < 4,
    ensures
        r@ == icon_subdir(k as int),
{
    if k == 0 {
        "usr/share/icons/hicolor/256x256/apps"
    } else if k == 1 {
        "usr/share/icons/hicolor/128x128/apps"
    } else if k == 2 {
        "usr/share/icons/hicolor/64x64/apps"
    } else {
        "usr/share/pixmaps"
    }
}

/// The directories of the unpacked tree at `root` to search for icons, in the
/// order they are searched.
pub fn icon_search_dirs(root: &str) -> (r: Vec<String>)
    ensures
        r@.map_values(|s: String| s@) == icon_dirs_of(root@),
{
    let mut r: Vec<String> = Vec::new();
    let mut k: usize = 0;
    while k < 4
        invariant
            k <= 4,
            r@.map_values(|s: String| s@) == icon_dirs_of(root@).subrange(0, k as int),
        decreases 4 - k,
    {
        let d = join_path(root, icon_subdir_text(k));
        assert(d@ == icon_dirs_of(root@)[k as int]);
        r.push(d);
        assert(r@.map_values(|s: String| s@) =~= icon_dirs_of(root@).subrange(0, k as int).push(d@));
        k = k + 1;
    }
    assert(icon_dirs_of(root@).subrange(0, 4) =~= icon_dirs_of(root@));
    r
}

/// Whether a lower-cased extension is that of a recognised image format.
pub open spec fn is_icon_ext(e: Seq<char>) -> bool {
    e == "png"@ || e == "svg"@ || e == "xpm"@ || e == "ico"@
}

/// Whether a file name names an image in a recognised format, in any case.
pub open spec fn is_icon_name(n: Seq<char>) -> bool {
    extension_of(n) matches Some(e) && is_icon_ext(lower_seq(e))
}

/// The first image among the file names `ls`, from the `j`th on.
pub open spec fn first_icon_in(ls: Seq<Seq<char>>, j: int) -> Option<Seq<char>>
    decreases ls.len() - j,
{
    if j < 0 || j >= ls.len() {
        None
    } else if is_icon_name(ls[j]) {
        Some(ls[j])
    } else {
        first_icon_in(ls, j + 1)
    }
}

/// The first image over the listings of the searched directories, from the
/// `k`th directory on, with the index of its directory.
pub open spec fn first_icon_all(lists: Seq<Seq<Seq<char>>>, k: int) -> Option<(int, Seq<char>)>
    decreases 4 - k,
{
    if k < 0 || k >= 4 || k >= lists.len() {
        None
    } else {
        match first_icon_in(lists[k], 0) {
            Some(n) => Some((k, n)),
            None => first_icon_all(lists, k + 1),
        }
    }
}

/// A copy of the chosen icon into storage.
#[derive(Debug)]
pub struct IconCopy {
    pub source: String,
    pub dest: String,
}

pub open spec fn listings_view(v: Seq<Vec<String>>) -> Seq<Seq<Seq<char>>> {
    v.map_values(|l: Vec<String>| l@.map_values(|s: String| s@))
}

fn is_icon_file(n: &str) -> (r: Option<Vec<char>>)
    ensures
        is_icon_name(n@) ==> (r matches Some(e) && extension_of(n@) matches Some(x) && e@ == lower_seq(
            x,
        )),
        !is_icon_name(n@) ==> r is None,
{
    match lowered_extension(n) {
        Some(e) => {
            if same_chars(&e, &chars_of("png")) || same_chars(&e, &chars_of("svg")) || same_chars(
                &e,
                &chars_of("xpm"),
            ) || same_chars(&e, &chars_of("ico")) {
                Some(e)
            } else {
                None
            }
        },
        None => None,
    }
}

fn string_of(cs: &Vec<char>) -> (r: String)
    ensures
        r@ == cs@,
{
    let mut r = String::new();
    let mut i: usize = 0;
    while i < cs.len()
        invariant
            i <= cs@.len(),
            r@ == cs@.subrange(0, i as int),
        decreases cs@.len() - i,
    {
        crate::text::push_char(&mut r, cs[i]);
        assert(r@ =~= cs@.subrange(0, i + 1));
        i = i + 1;
    }
    assert(cs@.subrange(0, cs@.len() as int) =~= cs@);
    r
}

/// The icon to copy into `target_dir` for `id`, after the bundle was unpacked
/// into `root` (where `extracted` tells whether unpacking succeeded): the
/// default icon where it exists, else the first image of a recognised format in
/// the searched directories, whose listings are `listings`, in order. The copy
/// is named `id.ext`, `ext` being the source's extension lower-cased, or `png`
/// where it has none.
pub fn choose_icon(
    extracted: bool,
    root: &str,
    default_icon_exists: bool,
    listings: &Vec<Vec<String>>,
    target_dir: &str,
    id: &str,
) -> (r: Option<IconCopy>)
    ensures
        !extracted ==> r is None,
        extracted && default_icon_exists ==> (r matches Some(c) && c.source@ == path_join(
            root@,
            ".DirIcon"@,
        ) && c.dest@ == path_join(target_dir@, dotted(id@, "png"@))),
        extracted && !default_icon_exists ==> match first_icon_all(listings_view(listings@), 0) {
            None => r is None,
            Some((k, n)) => (r matches Some(c) && c.source@ == path_join(icon_dirs_of(root@)[k], n)
                && (extension_of(n) matches Some(e) && c.dest@ == path_join(
                target_dir@,
                dotted(id@, lower_seq(e)),
            ))),
        },
{
    if !extracted {
        return None;
    }
    if default_icon_exists {
        let mut name = String::from_str(id);
        name.append(".png");
        proof {
            reveal_strlit(".png");
            reveal_strlit("png");
            assert(name@ =~= dotted(id@, "png"@));
        }
        return Some(IconCopy { source: default_icon_path(root), dest: join_path(target_dir, name.as_str()) });
    }
    let ghost lv = listings_view(listings@);
    let dirs = icon_search_dirs(root);
    assert(dirs@.map_values(|s: String| s@).len() == 4);
    let mut k: usize = 0;
    while k < 4 && k < listings.len()
        invariant
            extracted && !default_icon_exists,
            k <= 4,
            k <= listings@.len(),
            lv == listings_view(listings@),
            dirs@.map_values(|s: String| s@) == icon_dirs_of(root@),
            dirs@.len() == 4,
            first_icon_all(lv, 0) == first_icon_all(lv, k as int),
        decreases 4 - k,
    {
        let ls = &listings[k];
        let ghost l = lv[k as int];
        assert(l == ls@.map_values(|s: String| s@));
        let mut j: usize = 0;
        while j < ls.len()
            invariant
                extracted && !default_icon_exists,
                k < 4,
                k < listings@.len(),
                lv == listings_view(listings@),
                l == lv[k as int],
                ls == listings@[k as int],
                dirs@.map_values(|s: String| s@) == icon_dirs_of(root@),
                dirs@.len() == 4,
                first_icon_all(lv, 0) == first_icon_all(lv, k as int),
                j <= ls@.len(),
                l == ls@.map_values(|s: String| s@),
                first_icon_in(l, 0) == first_icon_in(l, j as int),
            decreases ls@.len() - j,
        {
            match is_icon_file(ls[j].as_str()) {
                Some(e) => {
                    let mut name = String::from_str(id);
                    name.append(".");
                    name.append(string_of(&e).as_str());
                    proof {
                        reveal_strlit(".");
                        assert(name@ =~= dotted(id@, e@));
                        assert(dirs@.map_values(|s: String| s@)[k as int] == dirs@[k as int]@);
                        assert(l[j as int] == ls@[j as int]@);
                    }
                    return Some(
                        IconCopy {
                            source: join_path(dirs[k].as_str(), ls[j].as_str()),
                            dest: join_path(target_dir, name.as_str()),
                        },
                    );
                },
                None => {},
            }
            j = j + 1;
        }
        k = k + 1;
    }
    None
}

} // verus!
