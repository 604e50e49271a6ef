use moon_win32_utils::file_utils;
use moon_win32_utils::random::{file_name_from_indices, random_file_name};

#[test]
fn test_random_file_name() {
    println!("{}", random_file_name(None));
}

#[test]
fn random_name_has_default_length_and_letters() {
    for _ in 0..20 {
        let name = random_file_name(None);
        assert_eq!(name.chars().count(), 15);
        assert!(name.chars().all(|c| c.is_ascii_lowercase()));
    }
}

#[test]
fn random_name_has_requested_length() {
    assert_eq!(random_file_name(Some(0)), "");
    assert_eq!(random_file_name(Some(3)).len(), 3);
    assert_eq!(random_file_name(Some(255)).len(), 255);
    let n = file_utils::random_file_name(Some(8));
    assert_eq!(n.len(), 8);
    assert!(n.chars().all(|c| c.is_ascii_lowercase()));
}

#[test]
fn random_names_vary() {
    let names: std::collections::HashSet<String> = (0..10).map(|_| random_file_name(Some(12))).collect();
    assert!(names.len() > 1);
}

#[test]
fn name_from_indices_spells_letters() {
    assert_eq!(file_name_from_indices(&[0, 1, 25, 7]), "abzh");
    assert_eq!(file_name_from_indices(&[]), "");
}
