use kits_tool::{
    architecture_or_default, check_tool, compare_names, get_kit_bin_dirs, is_reserved, plan_tool_path, resolve,
    DirEntry, KnownBinary, OurError, Outcome, ToolPath,
};

fn dir(name: &str) -> DirEntry {
    DirEntry { name: name.to_string(), is_dir: true }
}

fn file(name: &str) -> DirEntry {
    DirEntry { name: name.to_string(), is_dir: false }
}

// The `10/bin` listing of a kit holding 10.0.19041.0 and 10.0.22000.0, with
// `x64/accevent.exe` under 10.0.22000.0.
fn sample_listing() -> Vec<DirEntry> {
    vec![dir("10.0.22000.0"), dir("x64"), dir("10.0.19041.0")]
}

fn strings(names: &[&str]) -> Vec<String> {
    names.iter().map(|s| s.to_string()).collect()
}

fn run(
    entries: &Vec<DirEntry>,
    binary: KnownBinary,
    kit_version: Option<&str>,
    exists: impl Fn(&ToolPath) -> bool,
    allow_missing: bool,
) -> Result<Outcome, OurError> {
    let dirs = get_kit_bin_dirs(entries);
    let path = plan_tool_path(&dirs, kit_version.map(|s| s.to_string()), Some("x64".to_string()), &binary)?;
    let present = exists(&path);
    check_tool(path, present, allow_missing)
}

fn accevent_present(p: &ToolPath) -> bool {
    p.version == "10.0.22000.0" && p.architecture == "x64" && p.binary == "accevent.exe"
}

#[test]
fn it_works() {
    let result = run(&sample_listing(), KnownBinary::Custom("accevent.exe".to_string()), None, accevent_present, false);
    assert!(result.is_ok());
    let expected = ToolPath {
        version: "10.0.22000.0".to_string(),
        architecture: "x64".to_string(),
        binary: "accevent.exe".to_string(),
    };
    assert_eq!(result, Ok(Outcome::Found(expected)));
}

#[test]
fn test_tool_not_found() {
    let result = run(&sample_listing(), KnownBinary::Custom("afakeexe.exe".to_string()), None, accevent_present, false);
    assert!(result.is_err());
    match result.unwrap_err() {
        OurError::ToolNotFound(p) => {
            assert_eq!(p.binary, "afakeexe.exe");
            assert_eq!(p.version, "10.0.22000.0");
        },
        other => panic!("unexpected error {:?}", other),
    }

    let result = run(&sample_listing(), KnownBinary::Custom("afakeexe.exe".to_string()), None, accevent_present, true);
    assert!(result.is_ok());
    assert!(matches!(result.unwrap(), Outcome::MissingAllowed(p) if p.binary == "afakeexe.exe"));
}

#[test]
fn test_version_not_found() {
    let result = run(&sample_listing(), KnownBinary::Accevent, Some("10.0.12345.0"), accevent_present, false);
    assert!(result.is_err());
    assert!(
        result.unwrap_err()
            == OurError::BinDirNotFound { desired: "10.0.12345.0".to_string(), potential: "10.0.22000.0".to_string() }
    );
}

#[test]
fn known_binary_resolves_in_sample_tree() {
    let result = run(&sample_listing(), KnownBinary::Accevent, None, accevent_present, false);
    assert!(matches!(result, Ok(Outcome::Found(p)) if p.binary == "accevent.exe"));
}

#[test]
fn filtering_drops_exactly_the_reserved_names() {
    let entries = vec![
        dir("x86"),
        dir("arm64"),
        dir("x64a"),
        dir("arm"),
        dir("ARM"),
        dir("x64"),
        dir("arm6"),
        dir("10.0.1.0"),
        file("readme.txt"),
    ];
    assert_eq!(get_kit_bin_dirs(&entries), strings(&["10.0.1.0", "ARM", "arm6", "x64a"]));
}

#[test]
fn listing_is_sorted_by_bytes() {
    let entries = vec![dir("10.0.22000.0"), dir("10.0.9.0"), dir("10.0.10.0"), dir("10.0.19041.0")];
    assert_eq!(
        get_kit_bin_dirs(&entries),
        strings(&["10.0.10.0", "10.0.19041.0", "10.0.22000.0", "10.0.9.0"])
    );
}

#[test]
fn listing_of_nothing_is_empty() {
    assert!(get_kit_bin_dirs(&vec![]).is_empty());
    assert!(get_kit_bin_dirs(&vec![dir("x64"), file("a")]).is_empty());
}

#[test]
fn listing_keeps_equal_names() {
    let entries = vec![dir("b"), dir("a"), dir("b")];
    assert_eq!(get_kit_bin_dirs(&entries), strings(&["a", "b", "b"]));
}

#[test]
fn latest_is_selected_by_default() {
    let versions = strings(&["10.0.1.0", "10.0.2.0", "10.0.3.0"]);
    let r = resolve(&versions, None, "arm64".to_string(), "inspect.exe".to_string()).unwrap();
    assert_eq!(r.version, "10.0.3.0");
    assert_eq!(r.architecture, "arm64");
    assert_eq!(r.binary, "inspect.exe");
}

#[test]
fn requested_version_is_selected_anywhere() {
    let versions = strings(&["10.0.1.0", "10.0.2.0", "10.0.3.0"]);
    for v in ["10.0.1.0", "10.0.2.0", "10.0.3.0"] {
        let r = resolve(&versions, Some(v.to_string()), "x64".to_string(), "a.exe".to_string()).unwrap();
        assert_eq!(r.version, v);
    }
}

#[test]
fn absent_version_suggests_the_latest() {
    let versions = strings(&["10.0.1.0", "10.0.2.0"]);
    let r = resolve(&versions, Some("10.0.1".to_string()), "x64".to_string(), "a.exe".to_string());
    assert_eq!(
        r,
        Err(OurError::BinDirNotFound { desired: "10.0.1".to_string(), potential: "10.0.2.0".to_string() })
    );
}

#[test]
fn empty_set_fails_without_request() {
    let r = resolve(&vec![], None, "x64".to_string(), "a.exe".to_string());
    assert_eq!(r, Err(OurError::NoVersionsAvailable { desired: None }));
}

#[test]
fn empty_set_fails_with_request() {
    let r = resolve(&vec![], Some("10.0.1.0".to_string()), "x64".to_string(), "a.exe".to_string());
    assert_eq!(r, Err(OurError::NoVersionsAvailable { desired: Some("10.0.1.0".to_string()) }));
}

#[test]
fn architecture_defaults_to_x64() {
    assert_eq!(architecture_or_default(None), "x64");
    assert_eq!(architecture_or_default(Some("arm64".to_string())), "arm64");
    let versions = strings(&["10.0.1.0"]);
    let p = plan_tool_path(&versions, None, None, &KnownBinary::Inspect).unwrap();
    assert_eq!(p.architecture, "x64");
    assert_eq!(p.binary, "inspect.exe");
}

#[test]
fn check_tool_decides_each_case() {
    let p = ToolPath { version: "v".to_string(), architecture: "x64".to_string(), binary: "t.exe".to_string() };
    assert_eq!(check_tool(p.clone(), true, false), Ok(Outcome::Found(p.clone())));
    assert_eq!(check_tool(p.clone(), true, true), Ok(Outcome::Found(p.clone())));
    assert_eq!(check_tool(p.clone(), false, true), Ok(Outcome::MissingAllowed(p.clone())));
    assert_eq!(check_tool(p.clone(), false, false), Err(OurError::ToolNotFound(p)));
}

#[test]
fn known_binary_names() {
    assert_eq!(KnownBinary::Accevent.to_string(), "accevent.exe");
    assert_eq!(KnownBinary::Inspect.get_subdir(), "inspect.exe");
    assert_eq!(KnownBinary::Custom("my.exe".to_string()).get_subdir(), "my.exe");
    assert_eq!(KnownBinary::Custom("my.exe".to_string()).to_string(), "my.exe");
    assert_eq!(KnownBinary::value_variants(), vec![KnownBinary::Accevent, KnownBinary::Inspect]);
    assert_eq!(KnownBinary::Accevent.to_possible_value(), Some("accevent".to_string()));
    assert_eq!(KnownBinary::Inspect.to_possible_value(), Some("inspect".to_string()));
    assert_eq!(KnownBinary::Custom("x".to_string()).to_possible_value(), None);
}

#[test]
fn reserved_names_and_order() {
    for n in ["arm", "arm64", "x64", "x86"] {
        assert!(is_reserved(&n.to_string()));
    }
    for n in ["Arm", "x64 ", "x8", "10.0.1.0", ""] {
        assert!(!is_reserved(&n.to_string()));
    }
    assert!(compare_names(&"10.0.1".to_string(), &"10.0.1.0".to_string()));
    assert!(!compare_names(&"10.0.9.0".to_string(), &"10.0.10.0".to_string()));
    assert!(compare_names(&"a".to_string(), &"a".to_string()));
    assert!(compare_names(&"".to_string(), &"a".to_string()));
    assert!(compare_names(&"Z".to_string(), &"a".to_string()));
}
