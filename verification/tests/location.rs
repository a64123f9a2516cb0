use cargo_merge_driver::location::{attributes_query, locate, locate_from, Base, Location};
use std::path::PathBuf;

fn strings(words: &[&str]) -> Vec<String> {
    words.iter().map(|w| w.to_string()).collect()
}

#[test]
fn the_query_for_the_user_asks_for_the_configured_file() {
    assert_eq!(attributes_query(true), strings(&["config", "--global", "core.attributesFile"]));
}

#[test]
fn the_query_for_the_repository_asks_for_the_git_directory() {
    assert_eq!(attributes_query(false), strings(&["rev-parse", "--git-dir"]));
}

#[test]
fn the_repository_file_is_under_the_git_directory() {
    let expected = Location {
        base: Base::Path(".git".to_string()),
        below: strings(&["info", "attributes"]),
    };
    assert_eq!(locate_from(false, ".git", None), Some(expected));
}

#[test]
fn the_repository_file_does_not_depend_on_the_home_directory() {
    let with = locate_from(false, "/work/repo/.git", Some(PathBuf::from("/home/u")));
    let without = locate_from(false, "/work/repo/.git", None);
    assert_eq!(with, without);
    assert_eq!(
        with,
        Some(Location {
            base: Base::Path("/work/repo/.git".to_string()),
            below: strings(&["info", "attributes"]),
        })
    );
}

#[test]
fn an_empty_git_directory_is_taken_as_it_is() {
    assert_eq!(
        locate_from(false, "", Some(PathBuf::from("/home/u"))),
        Some(Location { base: Base::Path(String::new()), below: strings(&["info", "attributes"]) })
    );
}

#[test]
fn the_configured_user_file_is_taken_as_it_is() {
    assert_eq!(
        locate_from(true, "/etc/gitattributes", Some(PathBuf::from("/home/u"))),
        Some(Location { base: Base::Path("/etc/gitattributes".to_string()), below: Vec::new() })
    );
    assert_eq!(
        locate_from(true, "~/.config/git/attributes", None),
        Some(Location {
            base: Base::Path("~/.config/git/attributes".to_string()),
            below: Vec::new(),
        })
    );
}

#[test]
fn without_a_configured_file_the_user_file_is_in_the_home_directory() {
    assert_eq!(
        locate_from(true, "", Some(PathBuf::from("/home/u"))),
        Some(Location {
            base: Base::Home(PathBuf::from("/home/u")),
            below: strings(&[".gitattributes"]),
        })
    );
}

#[test]
fn without_a_configured_file_and_a_home_directory_there_is_no_user_file() {
    assert_eq!(locate_from(true, "", None), None);
}

#[test]
fn locate_asks_for_the_home_directory_only_when_needed() {
    assert_eq!(locate(false, ".git"), locate_from(false, ".git", None));
    assert_eq!(locate(true, "/etc/gitattributes"), locate_from(true, "/etc/gitattributes", None));
}

#[test]
fn locate_uses_the_home_directory_of_this_user() {
    assert_eq!(locate(true, ""), locate_from(true, "", dirs::home_dir()));
}
