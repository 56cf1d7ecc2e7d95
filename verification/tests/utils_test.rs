use live_ascii::utils::{index_of, key_order, sort_path, text_less, try_sort_path};

fn strings(v: &[&str]) -> Vec<String> {
    v.iter().map(|s| s.to_string()).collect()
}

#[test]
fn sort_path_test() {
    let mut files = strings(&[
        "texture_09.png",
        "texture_03.png",
        "texture_06.png",
        "texture_08.png",
        "texture_01.png",
        "texture_07.png",
        "texture_11.png",
        "texture_02.png",
        "texture_10.png",
        "texture_00.png",
        "texture_04.png",
        "texture_05.png",
    ]);
    sort_path(&mut files);
    let expected = strings(&[
        "texture_00.png",
        "texture_01.png",
        "texture_02.png",
        "texture_03.png",
        "texture_04.png",
        "texture_05.png",
        "texture_06.png",
        "texture_07.png",
        "texture_08.png",
        "texture_09.png",
        "texture_10.png",
        "texture_11.png",
    ]);
    assert_eq!(files, expected);
}

#[test]
fn sort_path_orders_by_file_name_not_directory() {
    let mut files = strings(&["z/b.png", "a/c.png", "y/a.png"]);
    sort_path(&mut files);
    assert_eq!(files, strings(&["y/a.png", "z/b.png", "a/c.png"]));
}

#[test]
fn sort_path_is_stable_for_equal_names() {
    let mut files = strings(&["two/x.png", "one/x.png", "a.png"]);
    sort_path(&mut files);
    assert_eq!(files, strings(&["a.png", "two/x.png", "one/x.png"]));
}

#[test]
fn try_sort_path_refuses_a_path_without_file_name() {
    let mut files = strings(&["b.png", "..", "a.png"]);
    assert!(!try_sort_path(&mut files));
    assert_eq!(files, strings(&["b.png", "..", "a.png"]));
    let mut ok = strings(&["b.png", "a.png"]);
    assert!(try_sort_path(&mut ok));
    assert_eq!(ok, strings(&["a.png", "b.png"]));
}

#[test]
fn key_order_is_a_stable_sort() {
    let keys = strings(&["b", "a", "b", "", "ab"]);
    assert_eq!(key_order(&keys), vec![3, 1, 4, 0, 2]);
    assert_eq!(key_order(&Vec::new()), Vec::<usize>::new());
}

#[test]
fn text_less_is_string_order() {
    let pairs = [("a", "b"), ("ab", "a"), ("", "a"), ("a", "a"), ("é", "z"), ("Z", "a")];
    for (a, b) in pairs {
        assert_eq!(text_less(&a.to_string(), &b.to_string()), a < b, "{} < {}", a, b);
    }
}

#[test]
fn index_of_finds_first_match() {
    let ids = strings(&["ParamA", "ParamB", "ParamA"]);
    assert_eq!(index_of(&ids, &"ParamA".to_string()), Some(0));
    assert_eq!(index_of(&ids, &"ParamB".to_string()), Some(1));
    assert_eq!(index_of(&ids, &"ParamC".to_string()), None);
}
