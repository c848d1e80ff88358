use axec::desktop::desktop_entry_text;
use axec::icon::{choose_icon, default_icon_path, extraction_root, icon_search_dirs};
use axec::layout::{detect_mode, resolve_dirs, EnvMode, LocateError, StorageDirs};
use axec::registry::{finish_add, icon_paths, launch_target, list_apps, plan_add, plan_removal, RegistryError};

fn dirs() -> StorageDirs {
    StorageDirs { storage: "/d/axec/appimages".to_string(), apps: "/h/.local/share/applications".to_string() }
}

fn names(v: &[&str]) -> Vec<String> {
    v.iter().map(|s| s.to_string()).collect()
}

#[test]
fn detects_sandbox() {
    assert_eq!(detect_mode(true, None), EnvMode::Sandboxed);
    assert_eq!(detect_mode(false, Some("flatpak")), EnvMode::Sandboxed);
    assert_eq!(detect_mode(false, Some("docker")), EnvMode::Unrestricted);
    assert_eq!(detect_mode(false, None), EnvMode::Unrestricted);
}

#[test]
fn resolves_directories() {
    let d = resolve_dirs(EnvMode::Unrestricted, Some("/home/u/.local/share"), Some("/home/u")).unwrap();
    assert_eq!(d.storage, "/home/u/.local/share/axec/appimages");
    assert_eq!(d.apps, "/home/u/.local/share/applications");
    let s = resolve_dirs(EnvMode::Sandboxed, Some("/data/"), None).unwrap();
    assert_eq!(s.storage, "/data/axec/appimages");
    assert_eq!(s.apps, "/data/applications");
}

#[test]
fn resolve_errors() {
    assert_eq!(resolve_dirs(EnvMode::Unrestricted, None, Some("/h")).unwrap_err(), LocateError::DataDirMissing);
    assert_eq!(resolve_dirs(EnvMode::Unrestricted, Some("/d"), None).unwrap_err(), LocateError::HomeMissing);
    assert_eq!(LocateError::HomeMissing.message(), "HOME not found");
    assert_eq!(LocateError::DataDirMissing.message(), "XDG data dir not found");
}

#[test]
fn desktop_entry_with_icon() {
    let t = desktop_entry_text("My App", "/s/my-app.AppImage", Some("/s/my-app.png"));
    assert_eq!(
        t,
        "[Desktop Entry]\nType=Application\nName=My App\nExec=\"/s/my-app.AppImage\" %U\nTerminal=false\nCategories=Utility;\nIcon=/s/my-app.png\nX-AppImage-Version=1\nX-AppImage-Integrate=false\n"
    );
}

#[test]
fn desktop_entry_without_icon() {
    let t = desktop_entry_text("X", "/s/x.AppImage", None);
    assert_eq!(
        t,
        "[Desktop Entry]\nType=Application\nName=X\nExec=\"/s/x.AppImage\" %U\nTerminal=false\nCategories=Utility;\n\nX-AppImage-Version=1\nX-AppImage-Integrate=false\n"
    );
}

#[test]
fn add_missing_source_is_not_found() {
    let r = plan_add("/tmp/nonexistent.AppImage", false, &Ok(dirs()));
    let e = r.unwrap_err();
    assert_eq!(e, RegistryError::SourceMissing);
    assert!(e.message().contains("not found"));
    let r2 = plan_add("/tmp/nonexistent.AppImage", false, &Err(LocateError::HomeMissing));
    assert_eq!(r2.unwrap_err(), RegistryError::SourceMissing);
}

#[test]
fn add_reports_locate_error() {
    let r = plan_add("/tmp/a.AppImage", true, &Err(LocateError::DataDirMissing));
    assert_eq!(r.unwrap_err(), RegistryError::Locate(LocateError::DataDirMissing));
}

#[test]
fn add_plan_paths() {
    let p = plan_add("/dl/MyApp-1.2.3_x86_64.AppImage", true, &Ok(dirs())).unwrap();
    assert_eq!(p.name, "MyApp-1 2 3_x86_64");
    assert_eq!(p.id, "myapp-1-2-3_x86_64");
    assert_eq!(p.bundle_path, "/d/axec/appimages/myapp-1-2-3_x86_64.AppImage");
    assert_eq!(p.desktop_path, "/h/.local/share/applications/axec-myapp-1-2-3_x86_64.desktop");
    assert_eq!(
        p.stale_icons,
        names(&[
            "/d/axec/appimages/myapp-1-2-3_x86_64.png",
            "/d/axec/appimages/myapp-1-2-3_x86_64.svg",
            "/d/axec/appimages/myapp-1-2-3_x86_64.ico",
            "/d/axec/appimages/myapp-1-2-3_x86_64.xpm",
        ])
    );
}

#[test]
fn icon_paths_of_id() {
    assert_eq!(
        icon_paths(&dirs(), "x"),
        names(&["/d/axec/appimages/x.png", "/d/axec/appimages/x.svg", "/d/axec/appimages/x.ico", "/d/axec/appimages/x.xpm"])
    );
}

#[test]
fn finish_add_outside_sandbox_writes_entry() {
    let p = plan_add("/dl/Tool.AppImage", true, &Ok(dirs())).unwrap();
    let (e, text) = finish_add(p, Some("/d/axec/appimages/tool.svg".to_string()), EnvMode::Unrestricted);
    assert_eq!(e.id, "tool");
    assert_eq!(e.name, "Tool");
    assert_eq!(e.path, "/d/axec/appimages/tool.AppImage");
    assert_eq!(e.icon_path.as_deref(), Some("/d/axec/appimages/tool.svg"));
    assert_eq!(e.desktop_file, "/h/.local/share/applications/axec-tool.desktop");
    let t = text.unwrap();
    assert!(t.contains("Icon=/d/axec/appimages/tool.svg\n"));
    assert!(t.contains("Exec=\"/d/axec/appimages/tool.AppImage\" %U\n"));
}

#[test]
fn finish_add_in_sandbox_writes_no_entry() {
    let p = plan_add("/dl/Tool.AppImage", true, &Ok(dirs())).unwrap();
    let (e, text) = finish_add(p, None, EnvMode::Sandboxed);
    assert!(text.is_none());
    assert_eq!(e.icon_path, None);
    assert_eq!(e.desktop_file, "/h/.local/share/applications/axec-tool.desktop");
}

#[test]
fn add_then_list_shows_bundle_once() {
    let p = plan_add("/dl/My Tool.AppImage", true, &Ok(dirs())).unwrap();
    let stored = p.bundle_path.rsplit('/').next().unwrap().to_string();
    let listing = vec!["other.txt".to_string(), stored, "my-tool.png".to_string()];
    let entries = list_apps(&dirs(), &listing);
    let hits: Vec<_> = entries.iter().filter(|e| e.id == p.id).collect();
    assert_eq!(hits.len(), 1);
    assert_eq!(hits[0].path, p.bundle_path);
    assert_eq!(hits[0].name, "my-tool");
    assert_eq!(hits[0].icon_path.as_deref(), Some("/d/axec/appimages/my-tool.png"));
    assert_eq!(hits[0].desktop_file, "/h/.local/share/applications/axec-my-tool.desktop");
}

#[test]
fn list_filters_and_keeps_order() {
    let listing = names(&["b.appimage", "notes.txt", "a.APPIMAGE", "a.svg", "a.xpm", ".AppImage"]);
    let entries = list_apps(&dirs(), &listing);
    assert_eq!(entries.len(), 2);
    assert_eq!(entries[0].id, "b");
    assert_eq!(entries[0].icon_path, None);
    assert_eq!(entries[1].id, "a");
    assert_eq!(entries[1].path, "/d/axec/appimages/a.APPIMAGE");
    assert_eq!(entries[1].icon_path.as_deref(), Some("/d/axec/appimages/a.svg"));
}

#[test]
fn list_of_empty_storage_is_empty() {
    assert!(list_apps(&dirs(), &Vec::new()).is_empty());
}

#[test]
fn add_remove_then_list() {
    let p = plan_add("/dl/Tool.AppImage", true, &Ok(dirs())).unwrap();
    let listing = names(&["tool.AppImage", "tool.png"]);
    let plan = plan_removal(&p.id, &dirs(), EnvMode::Unrestricted, &listing, true);
    assert_eq!(plan.bundles, vec!["/d/axec/appimages/tool.AppImage".to_string()]);
    assert_eq!(plan.desktop.as_deref(), Some("/h/.local/share/applications/axec-tool.desktop"));
    assert!(plan.outcome().is_ok());
    let after: Vec<String> = Vec::new();
    assert!(list_apps(&dirs(), &after).iter().all(|e| e.id != p.id));
    let again = plan_removal(&p.id, &dirs(), EnvMode::Unrestricted, &after, false);
    let e = again.outcome().unwrap_err();
    assert_eq!(e, RegistryError::AppMissing);
    assert!(e.message().contains("not found"));
}

#[test]
fn remove_never_added_is_not_found() {
    let plan = plan_removal("never-added-id", &dirs(), EnvMode::Unrestricted, &Vec::new(), false);
    assert!(plan.bundles.is_empty());
    assert_eq!(plan.icons.len(), 4);
    assert_eq!(plan.icons[0], "/d/axec/appimages/never-added-id.png");
    assert_eq!(plan.icons[3], "/d/axec/appimages/never-added-id.xpm");
    assert!(plan.desktop.is_none());
    assert_eq!(plan.outcome().unwrap_err().message(), "App not found");
}

#[test]
fn remove_in_sandbox_ignores_menu_entry() {
    let plan = plan_removal("x", &dirs(), EnvMode::Sandboxed, &Vec::new(), true);
    assert!(plan.desktop.is_none());
    assert_eq!(plan.outcome().unwrap_err(), RegistryError::AppMissing);
}

#[test]
fn remove_menu_entry_only_succeeds() {
    let plan = plan_removal("x", &dirs(), EnvMode::Unrestricted, &Vec::new(), true);
    assert!(plan.outcome().is_ok());
}

#[test]
fn remove_takes_both_spellings() {
    let plan = plan_removal("x", &dirs(), EnvMode::Unrestricted, &names(&["x.appimage", "x.AppImage"]), false);
    assert_eq!(plan.bundles, names(&["/d/axec/appimages/x.AppImage", "/d/axec/appimages/x.appimage"]));
}

#[test]
fn launch_missing_is_not_found() {
    let e = launch_target("nothing", &dirs(), &names(&["other.AppImage"])).unwrap_err();
    assert_eq!(e, RegistryError::BundleMissing);
    assert!(e.message().contains("not found"));
}

#[test]
fn launch_finds_either_spelling() {
    assert_eq!(launch_target("x", &dirs(), &names(&["x.appimage"])).unwrap(), "/d/axec/appimages/x.appimage");
    assert_eq!(
        launch_target("x", &dirs(), &names(&["x.appimage", "x.AppImage"])).unwrap(),
        "/d/axec/appimages/x.AppImage"
    );
}

#[test]
fn readd_same_id_overwrites_same_file() {
    let a = plan_add("/one/My App.AppImage", true, &Ok(dirs())).unwrap();
    let b = plan_add("/two/my_app?.appimage", true, &Ok(dirs())).unwrap();
    assert_ne!(a.id, b.id);
    let c = plan_add("/two/My  App.AppImage", true, &Ok(dirs())).unwrap();
    assert_eq!(a.id, c.id);
    assert_eq!(a.bundle_path, c.bundle_path);
    assert_eq!(a.desktop_path, c.desktop_path);
}

#[test]
fn failed_extraction_gives_no_icon() {
    let listings = vec![names(&["a.png"]), Vec::new(), Vec::new(), Vec::new()];
    assert!(choose_icon(false, "/t/squashfs-root", true, &listings, "/s", "a").is_none());
}

#[test]
fn default_icon_preferred() {
    let listings = vec![names(&["a.png"]), Vec::new(), Vec::new(), Vec::new()];
    let c = choose_icon(true, "/t/squashfs-root", true, &listings, "/s", "a").unwrap();
    assert_eq!(c.source, "/t/squashfs-root/.DirIcon");
    assert_eq!(c.dest, "/s/a.png");
}

#[test]
fn first_image_in_search_order() {
    let listings = vec![names(&["readme.txt"]), Vec::new(), names(&["Logo.SVG", "b.png"]), names(&["c.png"])];
    let c = choose_icon(true, "/t/squashfs-root", false, &listings, "/s", "app").unwrap();
    assert_eq!(c.source, "/t/squashfs-root/usr/share/icons/hicolor/64x64/apps/Logo.SVG");
    assert_eq!(c.dest, "/s/app.svg");
}

#[test]
fn no_image_no_icon() {
    let listings = vec![names(&["readme.txt", ".png"]), Vec::new(), Vec::new(), Vec::new()];
    assert!(choose_icon(true, "/t/r", false, &listings, "/s", "app").is_none());
}

#[test]
fn search_locations() {
    let root = extraction_root("/tmp/axec-extract-1");
    assert_eq!(root, "/tmp/axec-extract-1/squashfs-root");
    assert_eq!(default_icon_path(&root), "/tmp/axec-extract-1/squashfs-root/.DirIcon");
    let d = icon_search_dirs(&root);
    assert_eq!(
        d,
        names(&[
            "/tmp/axec-extract-1/squashfs-root/usr/share/icons/hicolor/256x256/apps",
            "/tmp/axec-extract-1/squashfs-root/usr/share/icons/hicolor/128x128/apps",
            "/tmp/axec-extract-1/squashfs-root/usr/share/icons/hicolor/64x64/apps",
            "/tmp/axec-extract-1/squashfs-root/usr/share/pixmaps",
        ])
    );
}
