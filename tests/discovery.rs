use andromeda_test::discovery::{find_test_files, is_test_file, Entry, InputPath};

fn entry(path: &str, name: &str, is_file: bool) -> Entry {
    Entry { path: path.to_string(), file_name: name.to_string(), is_file }
}

fn input(path: &str, name: &str, walked: Option<Vec<Entry>>) -> InputPath {
    InputPath { path: path.to_string(), file_name: name.to_string(), walked }
}

#[test]
fn test_names_are_recognised() {
    assert!(is_test_file("math.test.ts"));
    assert!(is_test_file("math.test.js"));
    assert!(is_test_file("math.spec.ts"));
    assert!(is_test_file("math.spec.js"));
    assert!(is_test_file("__tests__"));
    assert!(is_test_file("math.test.mjs"));
    assert!(is_test_file("a.spec.b.c"));
}

#[test]
fn other_names_are_not_tests() {
    assert!(!is_test_file(""));
    assert!(!is_test_file("main.ts"));
    assert!(!is_test_file("test.ts"));
    assert!(!is_test_file("mytest.js"));
    assert!(!is_test_file("__tests"));
    assert!(!is_test_file("x.testts"));
}

#[test]
fn explicit_file_and_directory_in_order() {
    let inputs = vec![
        input("b/one.test.ts", "one.test.ts", None),
        input(
            "dir",
            "dir",
            Some(vec![
                entry("dir", "dir", false),
                entry("dir/x.spec.js", "x.spec.js", true),
                entry("dir/helper.ts", "helper.ts", true),
                entry("dir/sub.test.d", "sub.test.d", false),
                entry("dir/sub.test.d/y.test.ts", "y.test.ts", true),
            ]),
        ),
        input("plain.ts", "plain.ts", None),
    ];
    let found = find_test_files(&inputs, &vec![entry("./z.test.ts", "z.test.ts", true)]);
    assert_eq!(found, vec!["b/one.test.ts", "dir/x.spec.js", "dir/sub.test.d/y.test.ts"]);
}

#[test]
fn explicit_test_path_is_taken_even_if_directory() {
    let inputs = vec![input(
        "pkg/__tests__",
        "__tests__",
        Some(vec![entry("pkg/__tests__/a.test.ts", "a.test.ts", true)]),
    )];
    assert_eq!(find_test_files(&inputs, &vec![]), vec!["pkg/__tests__"]);
}

#[test]
fn no_inputs_walks_current_directory() {
    let cwd = vec![
        entry(".", "", false),
        entry("./a.test.js", "a.test.js", true),
        entry("./lib.js", "lib.js", true),
    ];
    assert_eq!(find_test_files(&vec![], &cwd), vec!["./a.test.js"]);
}

#[test]
fn nothing_qualifies_gives_empty_list() {
    let cwd = vec![entry(".", "", false), entry("./lib.js", "lib.js", true)];
    assert!(find_test_files(&vec![], &cwd).is_empty());
    let inputs = vec![input("src", "src", Some(vec![entry("src/main.ts", "main.ts", true)]))];
    assert!(find_test_files(&inputs, &cwd).is_empty());
}

#[test]
fn discovery_is_repeatable() {
    let make = || {
        vec![input(
            "t",
            "t",
            Some(vec![
                entry("t/b.test.ts", "b.test.ts", true),
                entry("t/a.test.ts", "a.test.ts", true),
            ]),
        )]
    };
    let first = find_test_files(&make(), &vec![]);
    let second = find_test_files(&make(), &vec![]);
    assert_eq!(first, second);
    assert_eq!(first, vec!["t/b.test.ts", "t/a.test.ts"]);
}
