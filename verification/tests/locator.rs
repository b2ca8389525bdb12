use coolclis::locator::{
    best_candidate, expected_tool_name, find_executable_recursively, find_first, find_named,
    is_excluded_name, is_likelier, search_directory, Candidate, Node, Want,
};

fn file(name: &str) -> Node {
    Node::File { name: name.to_string() }
}

fn dir(name: &str, children: Vec<Node>) -> Node {
    Node::Dir { name: name.to_string(), children }
}

fn path(names: &[&str]) -> Option<Vec<String>> {
    Some(names.iter().map(|s| s.to_string()).collect())
}

fn paths(candidates: &Vec<Candidate>) -> Vec<String> {
    candidates
        .iter()
        .map(|c| {
            let mut p = c.dir.clone();
            p.push(c.name.clone());
            p.join("/")
        })
        .collect()
}

#[test]
fn bin_takes_priority_over_top_level_file() {
    let tree = vec![file("tool-v2"), dir("bin", vec![file("tool")])];
    assert_eq!(find_executable_recursively("tool_temp", &tree), path(&["bin", "tool"]));
}

#[test]
fn bin_prefers_the_file_named_like_the_tool() {
    let tree = vec![dir("bin", vec![file("helper"), file("tool-cli"), file("tool")])];
    assert_eq!(find_executable_recursively("tool_temp", &tree), path(&["bin", "tool-cli"]));
}

#[test]
fn bin_falls_back_to_its_first_file() {
    let tree = vec![file("tool"), dir("bin", vec![dir("sub", vec![]), file("other"), file("more")])];
    assert_eq!(find_executable_recursively("tool_temp", &tree), path(&["bin", "other"]));
}

#[test]
fn empty_bin_is_passed_over() {
    let tree = vec![dir("bin", vec![]), file("tool")];
    assert_eq!(find_executable_recursively("tool_temp", &tree), path(&["tool"]));
}

#[test]
fn a_file_named_bin_is_no_bin_directory() {
    let tree = vec![file("bin"), file("tool.sh")];
    assert_eq!(find_executable_recursively("tool_temp", &tree), path(&["bin"]));
}

#[test]
fn documentation_is_excluded() {
    let tree = vec![file("README.md"), file("LICENSE"), file("mytool")];
    assert_eq!(find_executable_recursively("other_temp", &tree), path(&["mytool"]));
}

#[test]
fn only_documentation_finds_nothing() {
    let tree = vec![file("README"), file("LICENSE-MIT"), file("notes.txt"), file(".hidden"), file("a.md")];
    assert_eq!(find_executable_recursively("tool_temp", &tree), None);
}

#[test]
fn ranking_prefers_the_shorter_name() {
    let tree = vec![file("notes.txt"), file("abc"), file("abcdef")];
    assert_eq!(find_executable_recursively("tool_temp", &tree), path(&["abc"]));
    let swapped = vec![file("abcdef"), file("notes.txt"), file("abc")];
    assert_eq!(find_executable_recursively("tool_temp", &swapped), path(&["abc"]));
}

#[test]
fn ranking_prefers_names_without_a_dot() {
    let tree = vec![file("a.sh"), file("longername")];
    assert_eq!(find_executable_recursively("tool_temp", &tree), path(&["longername"]));
}

#[test]
fn ranking_keeps_the_first_of_equals() {
    let tree = vec![file("xyz"), file("abc")];
    assert_eq!(find_executable_recursively("tool_temp", &tree), path(&["xyz"]));
}

#[test]
fn ranking_measures_names_in_bytes() {
    let tree = vec![file("\u{e9}\u{e9}\u{e9}"), file("abcd")];
    assert_eq!(find_executable_recursively("tool_temp", &tree), path(&["abcd"]));
}

#[test]
fn exact_name_in_a_nested_directory() {
    let tree = vec![file("a"), dir("tool-v1.2.3-linux", vec![file("b"), file("tool")])];
    assert_eq!(
        find_executable_recursively("tool_temp", &tree),
        path(&["tool-v1.2.3-linux", "tool"])
    );
}

#[test]
fn top_level_file_named_like_the_tool() {
    let tree = vec![file("a"), file("tool")];
    assert_eq!(find_executable_recursively("tool_temp", &tree), path(&["tool"]));
}

#[test]
fn nested_bin_has_no_priority() {
    let tree = vec![dir("pkg", vec![dir("bin", vec![file("longname")])]), file("x")];
    assert_eq!(find_executable_recursively("tool_temp", &tree), path(&["x"]));
}

#[test]
fn every_directory_is_entered() {
    let tree = vec![dir(".local", vec![file(".profile"), file("x")])];
    assert_eq!(find_executable_recursively("tool_temp", &tree), path(&[".local", "x"]));
}

#[test]
fn empty_tree_finds_nothing() {
    assert_eq!(find_executable_recursively("tool_temp", &vec![]), None);
    assert_eq!(find_executable_recursively("", &vec![dir("empty", vec![])]), None);
}

#[test]
fn directory_without_the_working_suffix() {
    let tree = vec![dir("bin", vec![file("zzz"), file("tool")]), file("tool")];
    assert_eq!(find_executable_recursively("tool", &tree), path(&["bin", "zzz"]));
    let flat = vec![file("tool.exe"), file("tool")];
    assert_eq!(find_executable_recursively("tool", &flat), path(&["tool"]));
}

#[test]
fn expected_name_strips_the_working_suffix() {
    assert_eq!(expected_tool_name("ripgrep_temp"), "ripgrep");
    assert_eq!(expected_tool_name("ripgrep"), "");
    assert_eq!(expected_tool_name("_temp"), "");
    assert_eq!(expected_tool_name("a_temp_temp"), "a_temp");
}

#[test]
fn walk_is_depth_first_in_listing_order() {
    let tree = vec![
        file("one"),
        dir("d", vec![file("two"), dir("e", vec![file("three.bin")]), file("README")]),
        dir(".cache", vec![file("kept"), file(".skipped")]),
        file("four"),
        file("notes.txt"),
    ];
    let mut found = vec![Candidate { dir: vec![], name: "zero".to_string() }];
    search_directory(&tree, &vec!["root".to_string()], &mut found);
    assert_eq!(
        paths(&found),
        vec!["zero", "root/one", "root/d/two", "root/d/e/three.bin", "root/.cache/kept", "root/four"]
    );
}

#[test]
fn excluded_names() {
    assert!(is_excluded_name(".gitignore"));
    assert!(is_excluded_name("LICENSE-APACHE"));
    assert!(is_excluded_name("README"));
    assert!(is_excluded_name("guide.md.bak"));
    assert!(is_excluded_name("a.txt"));
    assert!(!is_excluded_name("tool"));
    assert!(!is_excluded_name("license"));
    assert!(!is_excluded_name("tool.exe"));
}

#[test]
fn likelier_is_strict() {
    assert!(is_likelier("abc", "abcd"));
    assert!(!is_likelier("abcd", "abc"));
    assert!(!is_likelier("abc", "xyz"));
    assert!(is_likelier("longname", "a.b"));
    assert!(!is_likelier("a.b", "longname"));
    assert!(is_likelier("a.b", "a.bc"));
}

#[test]
fn find_first_by_kind_and_name() {
    let entries = vec![file("bin"), dir("lib", vec![]), dir("bin", vec![]), file("tool-x"), file("tool")];
    assert_eq!(find_first(&entries, Want::BinDir), Some(2));
    assert_eq!(find_first(&entries, Want::AnyFile), Some(0));
    assert_eq!(find_first(&entries, Want::FilePrefixed("tool")), Some(3));
    assert_eq!(find_first(&entries, Want::FileNamed("tool")), Some(4));
    assert_eq!(find_first(&entries, Want::FileNamed("lib")), None);
    assert_eq!(find_first(&vec![], Want::AnyFile), None);
}

#[test]
fn find_named_and_best_candidate() {
    let c = vec![
        Candidate { dir: vec!["a".to_string()], name: "tool.sh".to_string() },
        Candidate { dir: vec![], name: "helper".to_string() },
        Candidate { dir: vec!["b".to_string()], name: "tool".to_string() },
        Candidate { dir: vec![], name: "tool".to_string() },
    ];
    assert_eq!(find_named(&c, "tool"), Some(2));
    assert_eq!(find_named(&c, "b"), None);
    assert_eq!(best_candidate(&c), Some(2));
    assert_eq!(best_candidate(&vec![]), None);
}
