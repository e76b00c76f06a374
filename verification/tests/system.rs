use rokit::system::{exists_in_path, lists_bin_dir, path_lists_suffix};

#[test]
fn finds_the_directory_among_the_items() {
    assert!(lists_bin_dir("/usr/bin:/home/user/.rokit/bin:/bin", '/'));
    assert!(lists_bin_dir("/home/user/.rokit/bin", '/'));
    assert!(lists_bin_dir("/usr/bin:/home/user/.rokit/bin", '/'));
    assert!(lists_bin_dir("rokit/bin", '/'));
    assert!(lists_bin_dir("C\\rokit\\bin", '\\'));
}

#[test]
fn misses_the_directory_where_no_item_ends_with_it() {
    assert!(!lists_bin_dir("", '/'));
    assert!(!lists_bin_dir("/usr/bin:/bin", '/'));
    assert!(!lists_bin_dir("/home/user/.rokit/bin/", '/'));
    assert!(!lists_bin_dir("/home/user/.rokit/bin/x:/usr/bin", '/'));
    assert!(!lists_bin_dir("/home/user/.rokit:/bin", '/'));
    assert!(!lists_bin_dir("/home/user/.rokit/bin", '\\'));
    assert!(!lists_bin_dir("okit/bin", '/'));
}

#[test]
fn an_item_ends_where_the_colon_stands() {
    assert!(path_lists_suffix("ab:cd", "ab"));
    assert!(path_lists_suffix("ab:cd", "cd"));
    assert!(path_lists_suffix("ab:cd", "b"));
    assert!(!path_lists_suffix("ab:cd", "a"));
    assert!(!path_lists_suffix("ab:cd", "b:cd"));
    assert!(!path_lists_suffix("ab:cd", "abcd"));
}

#[test]
fn every_item_ends_with_the_empty_suffix() {
    assert!(path_lists_suffix("", ""));
    assert!(path_lists_suffix("ab", ""));
    assert!(path_lists_suffix(":", ""));
}

#[test]
fn no_item_holds_a_colon() {
    assert!(!path_lists_suffix("a:b", ":b"));
    assert!(!path_lists_suffix("a:b", ":"));
    assert!(!path_lists_suffix(":", ":"));
}

#[test]
fn other_characters_than_ascii_count_once() {
    assert!(path_lists_suffix("/höme/bin:/x", "öme/bin"));
    assert!(!path_lists_suffix("/höme/bin:/x", "home/bin"));
}

#[test]
fn search_path_that_could_not_be_had_holds_nothing() {
    assert!(!exists_in_path(None, '/'));
    assert!(!exists_in_path(None, '\\'));
}

#[test]
fn search_path_is_read_with_the_separator_given() {
    assert!(exists_in_path(Some("/usr/bin:/home/user/.rokit/bin"), '/'));
    assert!(!exists_in_path(Some("/usr/bin:/home/user/.rokit/bin"), '\\'));
    assert!(exists_in_path(Some("C\\Users\\me\\.rokit\\bin"), '\\'));
    assert!(!exists_in_path(Some("C\\Users\\me\\.rokit\\bin"), '/'));
    assert!(!exists_in_path(Some("/usr/bin:/home/user/.rokit-bin"), '/'));
    assert!(!exists_in_path(Some(""), '/'));
}

#[test]
fn search_path_is_read_as_the_list_is() {
    for list in ["", "/rokit/bin", "/usr/bin:/x/rokit/bin:/bin", "/rokit/bin/x", "rokit/bi"] {
        for separator in ['/', '\\'] {
            assert_eq!(exists_in_path(Some(list), separator), lists_bin_dir(list, separator));
        }
    }
}
