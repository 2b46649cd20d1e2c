use font_install::bytes::join_path;
use font_install::detect::FontKind;
use font_install::resolve::{base_dir, resolve_target, unique_path, user_fonts_base};

fn b(s: &str) -> Vec<u8> {
    s.as_bytes().to_vec()
}

#[test]
fn fresh_name_is_kept() {
    let existing: Vec<Vec<u8>> = vec![];
    assert_eq!(unique_path(&b("font.ttf"), &existing), b("font.ttf"));
}

#[test]
fn unrelated_names_do_not_disturb() {
    let existing = vec![b("other.ttf"), b("font.otf")];
    assert_eq!(unique_path(&b("font.ttf"), &existing), b("font.ttf"));
}

#[test]
fn collision_appends_counter() {
    let existing = vec![b("font.ttf")];
    assert_eq!(unique_path(&b("font.ttf"), &existing), b("font-1.ttf"));
}

#[test]
fn collision_sequence_yields_next_counter() {
    let existing = vec![b("font.ttf"), b("font-1.ttf"), b("font-2.ttf")];
    assert_eq!(unique_path(&b("font.ttf"), &existing), b("font-3.ttf"));
}

#[test]
fn collision_counter_reaches_two_digits() {
    let mut existing = vec![b("font.ttf")];
    for i in 1..=10 {
        existing.push(b(&format!("font-{}.ttf", i)));
    }
    assert_eq!(unique_path(&b("font.ttf"), &existing), b("font-11.ttf"));
}

#[test]
fn gap_in_sequence_is_taken() {
    let existing = vec![b("font.ttf"), b("font-2.ttf")];
    assert_eq!(unique_path(&b("font.ttf"), &existing), b("font-1.ttf"));
}

#[test]
fn name_without_extension_gets_bare_counter() {
    let existing = vec![b("README")];
    assert_eq!(unique_path(&b("README"), &existing), b("README-1"));
}

#[test]
fn trailing_dot_counts_as_empty_extension() {
    let existing = vec![b("foo.")];
    assert_eq!(unique_path(&b("foo."), &existing), b("foo-1"));
}

#[test]
fn leading_dot_name_is_all_stem() {
    let existing = vec![b(".fonts")];
    assert_eq!(unique_path(&b(".fonts"), &existing), b(".fonts-1"));
}

#[test]
fn resolution_is_idempotent() {
    let existing = vec![b("font.ttf"), b("font-1.ttf")];
    let first = unique_path(&b("font.ttf"), &existing);
    let second = unique_path(&b("font.ttf"), &existing);
    assert_eq!(first, second);
    assert_eq!(first, b("font-2.ttf"));
}

#[test]
fn user_base_prefers_xdg_data_home() {
    assert_eq!(
        user_fonts_base(&Some(b("/tmp/x")), &Some(b("/home/u"))),
        b("/tmp/x/fonts")
    );
}

#[test]
fn user_base_falls_back_to_home() {
    assert_eq!(
        user_fonts_base(&None, &Some(b("/home/u"))),
        b("/home/u/.local/share/fonts")
    );
}

#[test]
fn user_base_falls_back_to_relative_path() {
    assert_eq!(user_fonts_base(&None, &None), b(".local/share/fonts"));
}

#[test]
fn system_base_is_fixed() {
    assert_eq!(
        base_dir(false, &Some(b("/tmp/x")), &Some(b("/home/u"))),
        b("/usr/share/fonts")
    );
}

#[test]
fn join_inserts_separator_once() {
    assert_eq!(join_path(&b("/tmp/x"), &b("fonts")), b("/tmp/x/fonts"));
    assert_eq!(join_path(&b("/tmp/x/"), &b("fonts")), b("/tmp/x/fonts"));
    assert_eq!(join_path(&b(""), &b("fonts")), b("fonts"));
}

#[test]
fn user_install_target_for_roboto() {
    let existing: Vec<Vec<u8>> = vec![];
    let target = resolve_target(
        true,
        &Some(b("/tmp/x")),
        &None,
        FontKind::TrueType,
        &b("Roboto.ttf"),
        &existing,
    );
    assert_eq!(target.dir, b("/tmp/x/fonts/TTF"));
    assert_eq!(target.file_name, b("Roboto.ttf"));
    assert_eq!(target.dest, b("/tmp/x/fonts/TTF/Roboto.ttf"));
}

#[test]
fn system_install_target_for_opentype() {
    let existing = vec![b("Sans.otf")];
    let target = resolve_target(
        false,
        &None,
        &None,
        FontKind::OpenType,
        &b("Sans.otf"),
        &existing,
    );
    assert_eq!(target.dir, b("/usr/share/fonts/OTF"));
    assert_eq!(target.dest, b("/usr/share/fonts/OTF/Sans-1.otf"));
}
