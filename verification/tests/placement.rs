use flow_lib::config::{Category, Config, NamedCategory};
use flow_lib::download::utils::{
    categorized_path, get_output_file_path, get_temp_file, random_scratch_name,
};
use flow_lib::download::FileInfo;
use flow_lib::path::{expand, join_path};

fn category(name: &str, extensions: &[&str], directory: &str) -> NamedCategory {
    NamedCategory {
        name: name.to_string(),
        category: Category {
            extensions: extensions.iter().map(|s| s.to_string()).collect(),
            directory: directory.to_string(),
        },
    }
}

fn config() -> Config {
    Config {
        default_directory: "/home/u/Downloads".to_string(),
        temp_directory: "/tmp/flowd".to_string(),
        user_agent: "flow".to_string(),
        categories: vec![
            category("video", &[".mp4", ".mkv"], "/home/u/Videos"),
            category("archives", &[".zip", ".tar.gz"], "/home/u/Archives/"),
            category("nowhere", &[".nil"], ""),
        ],
        max_sim_downloads: 2,
    }
}

fn info(name: &str) -> FileInfo {
    FileInfo {
        file_name: name.to_string(),
        content_length: None,
        content_type: None,
        resumable: false,
    }
}

#[test]
fn matching_name_goes_to_the_directory_of_its_category() {
    let c = config();
    assert_eq!(categorized_path(&info("film.mkv"), &c), "/home/u/Videos/film.mkv");
    assert_eq!(categorized_path(&info("a.tar.gz"), &c), "/home/u/Archives/a.tar.gz");
    assert_eq!(get_output_file_path(&info("film.mp4"), &c), "/home/u/Videos/film.mp4");
}

#[test]
fn other_name_goes_to_the_default_directory() {
    let c = config();
    assert_eq!(categorized_path(&info("notes.txt"), &c), "/home/u/Downloads/notes.txt");
    assert_eq!(categorized_path(&info("mp4"), &c), "/home/u/Downloads/mp4");
    assert_eq!(get_output_file_path(&info("notes"), &c), "/home/u/Downloads/notes");
}

#[test]
fn name_that_ends_in_a_dot_or_is_empty_is_not_categorized() {
    let mut c = config();
    c.categories.push(category("dots", &["."], "/dots"));
    c.categories.push(category("all", &[""], "/all"));
    assert_eq!(categorized_path(&info("x."), &c), "/home/u/Downloads/x.");
    assert_eq!(categorized_path(&info(""), &c), "/home/u/Downloads/");
    assert_eq!(categorized_path(&info("plain"), &c), "/all/plain");
}

#[test]
fn category_without_directory_falls_back_to_the_default() {
    let c = config();
    assert_eq!(categorized_path(&info("x.nil"), &c), "/home/u/Downloads/x.nil");
}

#[test]
fn first_matching_category_wins() {
    let mut c = config();
    c.categories.insert(0, category("clips", &[".mp4"], "/clips"));
    assert_eq!(categorized_path(&info("a.mp4"), &c), "/clips/a.mp4");
    assert_eq!(categorized_path(&info("a.mkv"), &c), "/home/u/Videos/a.mkv");
}

#[test]
fn tilde_in_the_directory_is_expanded() {
    let mut c = config();
    c.default_directory = "~/Downloads".to_string();
    let path = get_output_file_path(&info("a.bin"), &c);
    assert!(path.ends_with("/Downloads/a.bin"));
    assert_ne!(path, "~/Downloads/a.bin");
    assert_eq!(categorized_path(&info("a.bin"), &c), "~/Downloads/a.bin");
}

#[test]
fn expand_leaves_other_paths_alone() {
    assert_eq!(expand("/etc/flowd/config.toml"), "/etc/flowd/config.toml");
    assert_eq!(expand("relative/~/x"), "relative/~/x");
    assert_eq!(expand(""), "");
    assert_eq!(expand("~someone/x"), "~someone/x");
    let home = expand("~");
    assert_ne!(home, "~");
    assert_eq!(expand("~/a/b"), format!("{}/a/b", home));
}

#[test]
fn join_path_joins_with_one_separator() {
    assert_eq!(join_path("/a", "b"), "/a/b");
    assert_eq!(join_path("/a/", "b"), "/a/b");
    assert_eq!(join_path("", "b"), "b");
    assert_eq!(join_path("/a", "/b"), "/b");
    assert_eq!(join_path("/a", ""), "/a/");
    assert_eq!(join_path("a", "b/c"), "a/b/c");
}

#[test]
fn scratch_name_is_ten_letters_and_digits() {
    let a = random_scratch_name();
    let b = random_scratch_name();
    assert_eq!(a.len(), 10);
    assert!(a.chars().all(|c| c.is_ascii_alphanumeric()));
    assert!(b.chars().all(|c| c.is_ascii_alphanumeric()));
    assert_ne!(a, b);
}

#[test]
fn scratch_file_stands_in_the_scratch_directory() {
    let c = config();
    let path = get_temp_file(&c);
    assert!(path.starts_with("/tmp/flowd/"));
    let name = &path["/tmp/flowd/".len()..];
    assert_eq!(name.len(), 10);
    assert!(name.chars().all(|c| c.is_ascii_alphanumeric()));
}
