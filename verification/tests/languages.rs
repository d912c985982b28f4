use engine_core::language::Language;

#[test]
fn extension_tells_the_language() {
    assert_eq!(Language::from_file_name("diffusion.js"), Some(Language::JavaScript));
    assert_eq!(Language::from_file_name("diffusion.py"), Some(Language::Python));
    assert_eq!(Language::from_file_name("diffusion.rs"), Some(Language::Rust));
}

#[test]
fn other_names_tell_no_language() {
    for name in ["", "js", "diffusion", "diffusion.txt", "diffusion.JS", "diffusion.js ", ".j", "a.jsx"] {
        assert_eq!(Language::from_file_name(name), None, "{name:?}");
    }
}

#[test]
fn bare_extension_is_a_file_name() {
    assert_eq!(Language::from_file_name(".js"), Some(Language::JavaScript));
    assert_eq!(Language::from_file_name(".py"), Some(Language::Python));
    assert_eq!(Language::from_file_name(".rs"), Some(Language::Rust));
}

#[test]
fn only_the_last_extension_counts() {
    assert_eq!(Language::from_file_name("a.js.py"), Some(Language::Python));
    assert_eq!(Language::from_file_name("a.py.rs"), Some(Language::Rust));
    assert_eq!(Language::from_file_name("a.rs.js"), Some(Language::JavaScript));
}

#[test]
fn names_beyond_ascii_are_read_by_their_ending() {
    assert_eq!(Language::from_file_name("größe.py"), Some(Language::Python));
    assert_eq!(Language::from_file_name("@hash/温度/füße.js"), Some(Language::JavaScript));
    assert_eq!(Language::from_file_name("diffusion.rß"), None);
    assert_eq!(Language::from_file_name("diffusion.js\u{301}"), None);
}

#[test]
fn language_indices_are_fixed() {
    assert_eq!(Language::NUM, 3);
    assert_eq!(Language::JavaScript.as_index(), 0);
    assert_eq!(Language::Python.as_index(), 1);
    assert_eq!(Language::Rust.as_index(), 2);
}
