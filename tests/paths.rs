use weighted_code_coverage::utility::{
    check_ext, chunk_vector, file_name, has_source_extension, join, relative_path, Complexity,
    JsonFormat,
};

#[test]
fn default_names() {
    assert_eq!(Complexity::default(), "cyclomatic");
    assert_eq!(JsonFormat::default(), "coveralls");
}

#[test]
fn source_extensions() {
    for e in ["rs", "cpp", "c", "js", "java", "py", "tsx", "ts", "jsm"] {
        assert!(check_ext(e));
    }
    assert!(!check_ext("txt"));
    assert!(!check_ext("RS"));
    assert!(has_source_extension("src/a.b/main.rs"));
    assert!(!has_source_extension("src/a.rs/main"));
    assert!(!has_source_extension("src/.rs"));
    assert!(!has_source_extension("Makefile"));
}

#[test]
fn path_helpers() {
    assert_eq!(join("./p", "a.rs"), "./p/a.rs");
    assert_eq!(join("./p/", "a.rs"), "./p/a.rs");
    assert_eq!(join("", "a.rs"), "a.rs");
    assert_eq!(join("./p", "/abs/a.rs"), "/abs/a.rs");
    assert_eq!(file_name("./p/src/main.rs"), "main.rs");
    assert_eq!(file_name("main.rs"), "main.rs");
    assert_eq!(relative_path("./p/src/main.rs", "./p/"), "src/main.rs");
    assert_eq!(relative_path("a", "./p/"), "");
}

fn names(n: usize) -> Vec<String> {
    (0..n).map(|i| format!("f{}", i)).collect()
}

#[test]
fn chunks_are_contiguous_and_near_equal() {
    let c = chunk_vector(names(10), 3);
    assert_eq!(c.len(), 3);
    assert_eq!(c[0], vec!["f0", "f1", "f2", "f3"]);
    assert_eq!(c[1], vec!["f4", "f5", "f6"]);
    assert_eq!(c[2], vec!["f7", "f8", "f9"]);
    let lens: Vec<usize> = chunk_vector(names(10), 4).iter().map(|x| x.len()).collect();
    assert_eq!(lens, vec![3, 3, 2, 2]);
    let c = chunk_vector(names(3), 8);
    assert_eq!(c.len(), 3);
    assert!(c.iter().all(|x| x.len() == 1));
    assert!(chunk_vector(names(0), 2).is_empty());
    let c = chunk_vector(names(8), 2);
    assert_eq!(c, vec![names(4), (4..8).map(|i| format!("f{}", i)).collect::<Vec<_>>()]);
    assert_eq!(chunk_vector(names(7), 7).len(), 7);
}
