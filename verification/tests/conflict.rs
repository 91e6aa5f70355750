use flow_lib::download::conflict::get_conflict_free_file_path;

fn paths(list: &[&str]) -> Vec<String> {
    list.iter().map(|s| s.to_string()).collect()
}

#[test]
fn test_get_conflict_free_file_path() {
    {
        let existing = paths(&["10MB-TESTFILE.ORG.pdf"]);
        let test = get_conflict_free_file_path("10MB-TESTFILE.ORG.pdf", &existing);
        assert_eq!(test, "10MB-TESTFILE.ORG (1).pdf");
    }

    {
        let existing = paths(&["10MB-TESTFILE.ORG.pdf", "10MB-TESTFILE.ORG (1).pdf"]);
        let test = get_conflict_free_file_path("10MB-TESTFILE.ORG (1).pdf", &existing);
        assert_eq!(test, "10MB-TESTFILE.ORG (2).pdf");
    }

    {
        let existing = paths(&["10MB-TESTFILE.ORG.tar.gz"]);
        let test = get_conflict_free_file_path("10MB-TESTFILE.ORG.tar.gz", &existing);
        assert_eq!(test, "10MB-TESTFILE.ORG (1).tar.gz");
    }

    {
        let existing = paths(&["10MB-TESTFILE.ORG.tar.gz", "10MB-TESTFILE.ORG (1).tar.gz"]);
        let test = get_conflict_free_file_path("10MB-TESTFILE.ORG (1).tar.gz", &existing);
        assert_eq!(test, "10MB-TESTFILE.ORG (2).tar.gz");
    }
}

#[test]
fn conflict_resolution_in_a_directory() {
    let existing = paths(&["/tmp/a.tar.gz"]);
    assert_eq!(
        get_conflict_free_file_path("/tmp/a.tar.gz", &existing),
        "/tmp/a (1).tar.gz"
    );
    let existing = paths(&["/tmp/a.tar.gz", "/tmp/a (1).tar.gz"]);
    assert_eq!(
        get_conflict_free_file_path("/tmp/a.tar.gz", &existing),
        "/tmp/a (2).tar.gz"
    );
}

#[test]
fn conflict_resolution_is_idempotent_on_examples() {
    let existing = paths(&["/d/x.pdf", "/d/x (1).pdf", "/d/x (2).pdf", "/d/x (4).pdf"]);
    let once = get_conflict_free_file_path("/d/x.pdf", &existing);
    assert_eq!(once, "/d/x (3).pdf");
    let twice = get_conflict_free_file_path(&once, &existing);
    assert_eq!(twice, once);
    let from_numbered = get_conflict_free_file_path("/d/x (4).pdf", &existing);
    assert_eq!(from_numbered, once);
}

#[test]
fn every_compound_extension_is_kept_whole() {
    for ext in [
        ".tar.gz", ".tar.xz", ".tar.bz2", ".tar.lz", ".tar.lzma", ".tar.lzo", ".tar.lz4", ".tar.Z",
    ] {
        let wanted = format!("dir/archive{}", ext);
        let result = get_conflict_free_file_path(&wanted, &Vec::new());
        assert_eq!(result, format!("dir/archive (1){}", ext));
    }
}

#[test]
fn other_double_extensions_split_at_the_last_dot() {
    assert_eq!(
        get_conflict_free_file_path("a.tar.zip", &Vec::new()),
        "a.tar (1).zip"
    );
    assert_eq!(
        get_conflict_free_file_path("a.tar.gzip", &Vec::new()),
        "a.tar (1).gzip"
    );
    assert_eq!(get_conflict_free_file_path("atar.gz", &Vec::new()), "atar (1).gz");
}

#[test]
fn names_without_extension_are_numbered_at_the_end() {
    assert_eq!(get_conflict_free_file_path("/x/README", &Vec::new()), "/x/README (1)");
    assert_eq!(get_conflict_free_file_path(".bashrc", &Vec::new()), ".bashrc (1)");
    assert_eq!(get_conflict_free_file_path("/x/", &Vec::new()), "/x/ (1)");
    assert_eq!(get_conflict_free_file_path("", &Vec::new()), " (1)");
    assert_eq!(get_conflict_free_file_path("a.", &Vec::new()), "a (1).");
}

#[test]
fn only_a_positive_number_counts_as_numbering() {
    assert_eq!(get_conflict_free_file_path("a (7).txt", &Vec::new()), "a (1).txt");
    assert_eq!(get_conflict_free_file_path("a (007).txt", &Vec::new()), "a (1).txt");
    assert_eq!(get_conflict_free_file_path("a (0).txt", &Vec::new()), "a (0) (1).txt");
    assert_eq!(get_conflict_free_file_path("a (x).txt", &Vec::new()), "a (x) (1).txt");
    assert_eq!(get_conflict_free_file_path("a(7).txt", &Vec::new()), "a(7) (1).txt");
    assert_eq!(get_conflict_free_file_path("a ().txt", &Vec::new()), "a () (1).txt");
    assert_eq!(get_conflict_free_file_path("a (1) (2).txt", &Vec::new()), "a (1) (1).txt");
}

#[test]
fn numbers_grow_past_nine() {
    let mut existing = Vec::new();
    for i in 1..=11 {
        existing.push(format!("f ({}).bin", i));
    }
    assert_eq!(get_conflict_free_file_path("f.bin", &existing), "f (12).bin");
}

#[test]
fn paths_in_other_directories_do_not_count() {
    let existing = paths(&["/other/a (1).txt", "a (1).txt"]);
    assert_eq!(get_conflict_free_file_path("/d/a.txt", &existing), "/d/a (1).txt");
}
