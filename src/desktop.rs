//! The text of a desktop-menu entry.
use vstd::prelude::*;
use vstd::string::*;

verus! {

/// The icon line of an entry: a reference to the icon, or empty.
pub open spec fn icon_line(icon: Option<Seq<char>>) -> Seq<char> {
    match icon {
        Some(p) => "Icon="@ + p,
        None => Seq::empty(),
    }
}

/// The whole text of the menu entry for a bundle.
pub open spec fn desktop_entry_spec(name: Seq<char>, exec: Seq<char>, icon: Option<Seq<char>>) -> Seq<
    char,
> {
    "[Desktop Entry]\nType=Application\nName="@ + name + "\nExec=\""@ + exec
        + "\" %U\nTerminal=false\nCategories=Utility;\n"@ + icon_line(icon)
        + "\nX-AppImage-Version=1\nX-AppImage-Integrate=false\n"@
}

/// The menu entry that launches the bundle at `exec_path` under the label
/// `name`, with its icon where there is one.
pub fn desktop_entry_text(name: &str, exec_path: &str, icon_path: Option<&str>) -> (r: String)
    ensures
        r@ == desktop_entry_spec(
            name@,
            exec_path@,
            match icon_path {
                Some(p) => Some(p@),
                None => None,
            },
        ),
{
    let mut r = String::from_str("[Desktop Entry]\nType=Application\nName=");
    r.append(name);
    r.append("\nExec=\"");
    r.append(exec_path);
    r.append("\" %U\nTerminal=false\nCategories=Utility;\n");
    match icon_path {
        Some(p) => {
            r.append("Icon=");
            r.append(p);
        },
        None => {},
    }
    r.append("\nX-AppImage-Version=1\nX-AppImage-Integrate=false\n");
    r
}

} // verus!
