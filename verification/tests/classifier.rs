use file_search::classifier::{
    default_denylist, is_excluded_path, is_hidden, is_under, Criteria, Matcher,
};

fn criteria(query: &str, extension: &str, include_directories: bool) -> Criteria {
    Criteria {
        query: query.to_string(),
        extension: extension.to_string(),
        include_directories,
        volume: String::new(),
    }
}

#[test]
fn hidden_names_start_with_a_dot() {
    assert!(is_hidden(".git"));
    assert!(is_hidden("."));
    assert!(is_hidden(".secret"));
    assert!(!is_hidden("git"));
    assert!(!is_hidden("a.b"));
    assert!(!is_hidden(""));
}

#[test]
fn under_respects_component_boundaries() {
    assert!(is_under("C:\\Windows", "C:\\Windows"));
    assert!(is_under("C:\\Windows", "C:\\Windows\\System32\\drivers"));
    assert!(!is_under("C:\\Windows", "C:\\WindowsOld"));
    assert!(!is_under("C:\\Windows", "C:\\Win"));
    assert!(is_under("/proc", "/proc/1/status"));
    assert!(!is_under("/proc", "/procfs"));
    assert!(is_under("/", "/etc"));
    assert!(is_under("/sys/", "/sys/kernel"));
    assert!(!is_under("/sys/kernel", "/sys"));
}

#[test]
fn under_with_non_ascii_components() {
    assert!(is_under("/données", "/données/été.txt"));
    assert!(!is_under("/données", "/donnéesé"));
}

#[test]
fn excluded_when_under_any_denied_root() {
    let deny = vec!["/proc".to_string(), "/sys".to_string()];
    assert!(is_excluded_path("/sys/kernel", &deny));
    assert!(is_excluded_path("/proc", &deny));
    assert!(!is_excluded_path("/home/user", &deny));
    assert!(!is_excluded_path("/system", &deny));
    assert!(!is_excluded_path("/proc/1", &Vec::new()));
}

#[test]
fn default_denylist_names_the_system_trees() {
    let deny = default_denylist();
    assert_eq!(deny, vec!["C:\\Windows".to_string(), "C:\\ProgramData".to_string()]);
    assert!(is_excluded_path("C:\\Windows\\explorer.exe", &deny));
    assert!(is_excluded_path("C:\\ProgramData\\x", &deny));
    assert!(!is_excluded_path("C:\\Users\\me", &deny));
}

#[test]
fn query_is_compared_without_regard_to_case() {
    let upper = Matcher::new(criteria("Report", "", false));
    let lower = Matcher::new(criteria("report", "", false));
    for name in ["MyReport.txt", "REPORT", "report.log", "rep.txt", "summary.txt"] {
        assert_eq!(upper.matches(name, false), lower.matches(name, false));
    }
    assert!(upper.matches("MyReport.txt", false));
    assert!(lower.matches("MyReport.txt", false));
    assert!(!lower.matches("summary.txt", false));
}

#[test]
fn query_must_occur_contiguously() {
    let m = Matcher::new(criteria("log", "", false));
    assert!(m.matches("catalog.txt", false));
    assert!(m.matches("LOG", false));
    assert!(!m.matches("lg", false));
    assert!(!m.matches("l-o-g", false));
    assert!(!m.matches("lo", false));
}

#[test]
fn extension_is_a_lowercase_suffix_test_on_files() {
    let m = Matcher::new(criteria("", ".TXT", true));
    assert!(m.matches("notes.txt", false));
    assert!(m.matches("NOTES.Txt", false));
    assert!(!m.matches("notes.txt.bak", false));
    assert!(!m.matches("txt.notes", false));
    assert!(!m.matches("xt", false));
}

#[test]
fn extension_filter_leaves_directories_alone() {
    let with_dirs = Matcher::new(criteria("arch", ".txt", true));
    assert!(with_dirs.matches("archive.zip", true));
    assert!(!with_dirs.matches("archive.zip", false));
    let without_dirs = Matcher::new(criteria("arch", ".zip", false));
    assert!(!without_dirs.matches("archive.zip", true));
    assert!(without_dirs.matches("archive.zip", false));
}

#[test]
fn empty_query_matches_every_eligible_name() {
    let m = Matcher::new(criteria("", "", true));
    assert!(m.matches("anything", false));
    assert!(m.matches("", false));
    assert!(m.matches("dir", true));
    let files_only = Matcher::new(criteria("", "", false));
    assert!(files_only.matches("a", false));
    assert!(!files_only.matches("a", true));
    let by_ext = Matcher::new(criteria("", ".rs", false));
    assert!(by_ext.matches("lib.rs", false));
    assert!(!by_ext.matches("lib.py", false));
}

#[test]
fn lowercase_covers_non_ascii_letters() {
    let m = Matcher::new(criteria("ÉTÉ", "", false));
    assert!(m.matches("été.txt", false));
    assert!(m.matches("L'Été", false));
    assert!(!m.matches("ete.txt", false));
}
