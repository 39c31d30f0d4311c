use token_monitor::atomcode::AtomCodeSource;
use token_monitor::codearts::{CodeArtsSource, DbProbe};
use token_monitor::model::{Provider, ProviderConfig, ProviderError, ScanRoot};
use token_monitor::paths::{labelled_place, place_below, session_rel};

#[test]
fn missing_data_dir_is_reported() {
    let mut src = AtomCodeSource::new(ProviderConfig {
        provider: Provider::AtomCode,
        data_dir_override: Some("/nonexistent/atomcode/sessions".to_string()),
        ..ProviderConfig::default()
    });
    let is_dir: Vec<bool> = src
        .roots(Vec::new())
        .iter()
        .map(|r| std::path::Path::new(&r.dir).is_dir())
        .collect();
    assert!(matches!(
        src.data_dirs(&is_dir).unwrap_err(),
        ProviderError::DataDirNotFound(Provider::AtomCode)
    ));
}

#[test]
fn missing_db_reports_not_found() {
    let mut src = CodeArtsSource::new(ProviderConfig {
        provider: Provider::CodeArts,
        data_dir_override: Some("/nonexistent/codearts".to_string()),
        ..ProviderConfig::default()
    });
    let is_file: Vec<bool> = src
        .db_paths(DbProbe {
            override_db: "/nonexistent/codearts/opencode.db".to_string(),
            override_db_is_file: false,
            candidates: Vec::new(),
            is_file: Vec::new(),
        })
        .iter()
        .map(|p| std::path::Path::new(p).is_file())
        .collect();
    assert!(matches!(
        src.data_dirs(&is_file).unwrap_err(),
        ProviderError::DataDirNotFound(Provider::CodeArts)
    ));
}

#[test]
fn files_are_named_by_their_place_below_the_root() {
    let root = |label: Option<&str>| ScanRoot {
        dir: "/home/u/sessions".to_string(),
        label: label.map(|l| l.to_string()),
    };
    let path = "/home/u/sessions/abc123/sess-1.meta";
    let below = "abc123/sess-1.meta";
    assert_eq!(session_rel(path, &root(None)), below);
    assert_eq!(session_rel("/elsewhere/x.meta", &root(None)), "/elsewhere/x.meta");
    let labelled = session_rel(path, &root(Some("wsl-Ubuntu")));
    assert_eq!(
        labelled,
        format!("wsl-Ubuntu{}{}", std::path::MAIN_SEPARATOR, below)
    );
    assert_ne!(labelled, session_rel(path, &root(Some("wsl-Debian"))));
    assert_ne!(labelled, session_rel(path, &root(None)));
    assert_eq!(
        session_rel("/elsewhere/x.meta", &root(Some("wsl-Ubuntu"))),
        "/elsewhere/x.meta"
    );
}

#[test]
fn places_below_native_roots_tell_files_apart() {
    let root = |dir: &str| ScanRoot { dir: dir.to_string(), label: None };
    for base in ["C:\\u\\sessions", "C:\\u\\sessions\\", "\\\\wsl$\\Ubuntu\\sessions", "sessions"] {
        let stem = base.trim_end_matches('\\');
        let one = format!("{}\\abc\\one.meta", stem);
        let two = format!("{}\\abc\\two.meta", stem);
        let a = session_rel(&one, &root(base));
        let b = session_rel(&two, &root(base));
        assert!(a == one || a == "abc\\one.meta" || a == "\\abc\\one.meta");
        assert_ne!(a, b);
    }
    assert_eq!(session_rel("s/abc\\one.meta", &root("s/")), "abc\\one.meta");
}

#[test]
fn place_is_the_whole_path_where_it_is_not_below() {
    let below = Some("x".to_string());
    assert_eq!(place_below("/p/x", &below), "x");
    assert_eq!(place_below("/p/x", &None), "/p/x");
    assert_eq!(labelled_place(&None, "/p/x", &below, "j"), "x");
    assert_eq!(labelled_place(&None, "/p/x", &None, "j"), "/p/x");
    assert_eq!(labelled_place(&Some("l".to_string()), "/p/x", &below, "l/x"), "l/x");
}

#[test]
fn places_keep_their_colons_and_lose_their_dots() {
    let root = |dir: &str| ScanRoot { dir: dir.to_string(), label: None };
    assert_eq!(session_rel("/s/abc/12:30.meta", &root("/s")), "abc/12:30.meta");
    assert_eq!(session_rel("/s/./abc//one.meta", &root("/s//")), "abc//one.meta");
    assert_eq!(session_rel("//host/share/s/one.meta", &root("//host/share/s")), "one.meta");
    assert_eq!(session_rel("/sessions/one.meta", &root("/s")), "/sessions/one.meta");
    assert_eq!(session_rel("/s", &root("/s")), "");
}

#[test]
fn files_at_one_place_below_two_roots_get_their_own_names() {
    let roots = [
        ("/home/u/sessions", '/', None),
        ("C:\\u\\sessions", '\\', None),
        ("\\\\wsl$\\Ubuntu\\sessions", '\\', Some("wsl-Ubuntu")),
        ("\\\\wsl$\\Debian\\sessions\\", '\\', Some("wsl-Debian")),
        ("//host/share/sessions", '/', Some("host")),
    ];
    let place = "abc/sess-1.meta";
    let mut names: Vec<(Option<&str>, String)> = Vec::new();
    for (dir, sep, label) in roots {
        let path = format!("{}{}{}", dir.trim_end_matches(sep), sep, place);
        let root = ScanRoot { dir: dir.to_string(), label: label.map(|l| l.to_string()) };
        let name = session_rel(&path, &root);
        assert!(name.ends_with(place));
        for (other, taken) in &names {
            assert!(*other == label || *taken != name);
        }
        names.push((label, name));
    }
}
