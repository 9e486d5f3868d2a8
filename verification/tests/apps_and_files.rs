use edex_de::app_index::{
    get_hyprland_launcher_bind, list_apps, parse_bool_field, parse_desktop_file, rank_apps, read_fields, search_apps,
    DesktopFile, LAUNCHER_BIND,
};
use edex_de::desktop::parse_desktop_entry;
use edex_de::files::{
    arrange_entries, entry_mime, missing_path_error, rank_file_matches, FileCandidate, FileEntry,
};
use edex_de::search::{finish_scan, scan_applications, AppSearch};

const FIREFOX: &str = "[Desktop Entry]\nType=Application\nName=Firefox\nExec=firefox %u\nIcon=firefox\nCategories=Network;WebBrowser;\nKeywords=web;browser;\nComment=Browse the Web\n\n[Desktop Action new]\nName=New Window\n";

#[test]
fn desktop_entry_for_the_launcher() {
    let e = parse_desktop_entry(FIREFOX).unwrap();
    assert_eq!(e.name, "Firefox");
    assert_eq!(e.command, "firefox");
    assert_eq!(e.icon.as_deref(), Some("firefox"));
    assert_eq!(e.categories, vec!["Network", "WebBrowser"]);
    assert_eq!(e.comment.as_deref(), Some("Browse the Web"));
    assert!(!e.no_display && !e.terminal);
    let hidden = parse_desktop_entry("[Desktop Entry]\nName=X\nExec=x\nNoDisplay=TRUE\nTerminal=true\n").unwrap();
    assert!(hidden.no_display && hidden.terminal);
    assert!(parse_desktop_entry("[Desktop Entry]\nName=NoExec\n").is_none());
    assert!(parse_desktop_entry("Name=Outside\nExec=x\n").is_none());
}

#[test]
fn desktop_file_for_the_app_index() {
    let a = parse_desktop_file(FIREFOX, "/usr/share/applications/firefox.desktop").unwrap();
    assert_eq!(a.name, "Firefox");
    assert_eq!(a.command, "firefox");
    assert_eq!(a.keywords, vec!["web", "browser"]);
    assert_eq!(a.desktop_file, "/usr/share/applications/firefox.desktop");
    assert!(parse_desktop_file("[Desktop Entry]\nType=Link\nName=L\nExec=x\n", "p").is_none());
    assert!(parse_desktop_file("[Desktop Entry]\nType=Application\nName=H\nExec=x\nHidden=1\n", "p").is_none());
    assert!(parse_desktop_file("[Desktop Entry]\nType=Application\nName=N\nExec=x\nNoDisplay=True\n", "p").is_none());
    let f = read_fields("[Desktop Entry]\nA=1\nB = yes \nA=true\n");
    assert!(parse_bool_field(&f, "A"));
    assert!(!parse_bool_field(&f, "B"));
    assert!(!parse_bool_field(&f, "C"));
}

#[test]
fn app_list_reads_each_file_name_once() {
    let file = |name: &str, content: &str| DesktopFile {
        file_name: name.to_string(),
        path: format!("/apps/{name}"),
        content: content.to_string(),
    };
    let apps = list_apps(vec![
        file("zed.desktop", "[Desktop Entry]\nType=Application\nName=zed\nExec=zed\n"),
        file("notes.txt", "[Desktop Entry]\nType=Application\nName=Notes\nExec=n\n"),
        file("alpha.desktop", "[Desktop Entry]\nType=Application\nName=Alpha\nExec=a\n"),
        file("zed.desktop", "[Desktop Entry]\nType=Application\nName=Other Zed\nExec=z2\n"),
        file("broken.desktop", "nothing"),
    ]);
    let names: Vec<&str> = apps.iter().map(|a| a.name.as_str()).collect();
    assert_eq!(names, vec!["Alpha", "zed"]);
    assert_eq!(apps[1].desktop_file, "/apps/zed.desktop");
}

fn desktop_file(name: &str, content: &str) -> DesktopFile {
    DesktopFile { file_name: name.to_string(), path: format!("/apps/{name}"), content: content.to_string() }
}

#[test]
fn search_over_the_desktop_files() {
    let files = vec![
        desktop_file("term.desktop", "[Desktop Entry]\nType=Application\nName=Terminal\nExec=term\n"),
        desktop_file("fox.desktop", "[Desktop Entry]\nType=Application\nName=Firefox\nExec=firefox %u\n"),
        desktop_file("fox.desktop", "[Desktop Entry]\nType=Application\nName=Firefox Copy\nExec=f2\n"),
        desktop_file("readme.md", "[Desktop Entry]\nType=Application\nName=Fire Readme\nExec=r\n"),
    ];
    let found = search_apps(files.clone(), "fire");
    let names: Vec<&str> = found.iter().map(|r| r.app.name.as_str()).collect();
    assert_eq!(names, vec!["Firefox"]);
    assert_eq!(found[0].app.command, "firefox");
    let all = search_apps(files, "");
    let names: Vec<&str> = all.iter().map(|r| r.app.name.as_str()).collect();
    assert_eq!(names, vec!["Firefox", "Terminal"]);
    assert!(all.iter().all(|r| r.score == 0));
}

#[test]
fn scan_keeps_listed_desktop_entries() {
    let files = vec![
        desktop_file("b.desktop", "[Desktop Entry]\nName=beta\nExec=b %f\n"),
        desktop_file("a.desktop", "[Desktop Entry]\nName=Alpha\nExec=a\n"),
        desktop_file("a2.desktop", "[Desktop Entry]\nName=Alpha\nExec=a2\n"),
        desktop_file("hidden.desktop", "[Desktop Entry]\nName=Hidden\nExec=h\nNoDisplay=true\n"),
        desktop_file("noexec.desktop", "[Desktop Entry]\nName=NoExec\n"),
        desktop_file("notes.txt", "[Desktop Entry]\nName=Notes\nExec=n\n"),
    ];
    let apps = scan_applications(&files);
    let names: Vec<&str> = apps.iter().map(|a| a.name.as_str()).collect();
    assert_eq!(names, vec!["Alpha", "beta"]);
    assert_eq!(apps[0].command, "a");
    assert_eq!(apps[1].command, "b");
    assert!(scan_applications(&vec![]).is_empty());
}

#[test]
fn hyprland_launcher_binding() {
    let bind = get_hyprland_launcher_bind();
    assert_eq!(bind, LAUNCHER_BIND);
    assert!(bind.starts_with("# Add to ~/.config/hypr/hyprland.conf:\n"));
    assert_eq!(bind.lines().count(), 3);
    assert!(bind.ends_with("bind = , catchall, exec, edex-de --launcher"));
}

fn app(name: &str) -> edex_de::app_index::AppEntry {
    parse_desktop_file(
        &format!("[Desktop Entry]\nType=Application\nName={name}\nExec={name}\n"),
        "p",
    )
    .unwrap()
}

#[test]
fn app_ranking() {
    let all: Vec<_> = (0..15).map(|i| app(&format!("App{i}"))).collect();
    let first = rank_apps(all, "  ");
    assert_eq!(first.len(), 12);
    assert!(first.iter().all(|r| r.score == 0));
    assert_eq!(first[0].app.name, "App0");
    let ranked = rank_apps(vec![app("Terminal"), app("Firefox"), app("Files")], "fire");
    assert_eq!(ranked[0].app.name, "Firefox");
    assert!(ranked.iter().all(|r| r.app.name != "Terminal"));
    let direct = rank_file_matches(
        vec![FileCandidate { path: "/x".to_string(), name: "Firefox".to_string() }],
        "fire",
    );
    assert_eq!(ranked[0].score, direct[0].score * 3);
}

#[test]
fn launcher_search() {
    let apps = finish_scan(vec![
        parse_desktop_entry("[Desktop Entry]\nName=files\nExec=f\n").unwrap(),
        parse_desktop_entry("[Desktop Entry]\nName=Editor\nExec=e\n").unwrap(),
        parse_desktop_entry("[Desktop Entry]\nName=Editor\nExec=e2\n").unwrap(),
        parse_desktop_entry("[Desktop Entry]\nName=Ghost\nExec=g\nNoDisplay=true\n").unwrap(),
    ]);
    let names: Vec<&str> = apps.iter().map(|a| a.name.as_str()).collect();
    assert_eq!(names, vec!["Editor", "files"]);
    let search = AppSearch::new();
    assert_eq!(search.search("", &apps).len(), 2);
    let found = search.search("fil", &apps);
    assert_eq!(found.len(), 1);
    assert_eq!(found[0].name, "files");
    let all = rank_file_matches(vec![FileCandidate { path: "p".to_string(), name: "anything".to_string() }], "");
    assert_eq!(all[0].score, 0);
}

fn file_entry(name: &str, is_dir: bool) -> FileEntry {
    FileEntry {
        name: name.to_string(),
        path: format!("/d/{name}"),
        is_dir,
        size: 0,
        mime: None,
        modified: None,
    }
}

#[test]
fn file_browser_listing() {
    let r = arrange_entries(
        vec![file_entry("b.txt", false), file_entry(".git", true), file_entry("Src", true), file_entry("a.txt", false)],
        false,
    );
    let names: Vec<&str> = r.iter().map(|e| e.name.as_str()).collect();
    assert_eq!(names, vec!["Src", "a.txt", "b.txt"]);
    let cased = arrange_entries(vec![file_entry("Zeta", false), file_entry("alpha", false)], false);
    assert_eq!(cased[0].name, "alpha");
    let all = arrange_entries(vec![file_entry("b", false), file_entry(".git", true)], true);
    assert_eq!(all[0].name, ".git");
    assert_eq!(missing_path_error("/nope"), "Path does not exist: /nope");
}

#[test]
fn mime_types() {
    assert_eq!(entry_mime("/d/readme", false).as_deref(), Some("application/octet-stream"));
    assert_eq!(entry_mime("/d/page.html", false).as_deref(), Some("text/html"));
    assert_eq!(entry_mime("/d/pic.PNG", false).as_deref(), Some("image/png"));
    assert_eq!(entry_mime("/d/dir", true), None);
}

#[test]
fn file_search_ranking() {
    let cands: Vec<FileCandidate> = (0..60)
        .map(|i| FileCandidate { path: format!("/p/notes{i}.md"), name: format!("notes{i}.md") })
        .chain(std::iter::once(FileCandidate { path: "/p/zzz".to_string(), name: "zzz".to_string() }))
        .collect();
    let r = rank_file_matches(cands, "notes");
    assert_eq!(r.len(), 50);
    assert!(r.windows(2).all(|w| w[0].score >= w[1].score));
    assert!(r.iter().all(|m| m.name.starts_with("notes")));
    let none = rank_file_matches(vec![FileCandidate { path: "a".to_string(), name: "a".to_string() }], "xyz");
    assert!(none.is_empty());
}
