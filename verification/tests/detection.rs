use font_install::detect::{
    classify_extension, classify_magic, detect_from_magic, kind_subdir, ExtensionVerdict,
    FontKind,
};
use font_install::errors::IoKind;

fn b(s: &str) -> Vec<u8> {
    s.as_bytes().to_vec()
}

#[test]
fn otf_extension_is_opentype() {
    assert_eq!(
        classify_extension(&Some(b("otf"))),
        ExtensionVerdict::Known(FontKind::OpenType)
    );
}

#[test]
fn otf_extension_any_case_is_opentype() {
    assert_eq!(
        classify_extension(&Some(b("OTF"))),
        ExtensionVerdict::Known(FontKind::OpenType)
    );
    assert_eq!(
        classify_extension(&Some(b("Otf"))),
        ExtensionVerdict::Known(FontKind::OpenType)
    );
    assert_eq!(
        classify_extension(&Some(b("oTf"))),
        ExtensionVerdict::Known(FontKind::OpenType)
    );
}

#[test]
fn ttf_extension_any_case_is_truetype() {
    assert_eq!(
        classify_extension(&Some(b("ttf"))),
        ExtensionVerdict::Known(FontKind::TrueType)
    );
    assert_eq!(
        classify_extension(&Some(b("TTF"))),
        ExtensionVerdict::Known(FontKind::TrueType)
    );
    assert_eq!(
        classify_extension(&Some(b("Ttf"))),
        ExtensionVerdict::Known(FontKind::TrueType)
    );
}

#[test]
fn ttc_extension_any_case_is_truetype() {
    assert_eq!(
        classify_extension(&Some(b("ttc"))),
        ExtensionVerdict::Known(FontKind::TrueType)
    );
    assert_eq!(
        classify_extension(&Some(b("TTC"))),
        ExtensionVerdict::Known(FontKind::TrueType)
    );
}

#[test]
fn unknown_extension_defers_to_magic() {
    assert_eq!(
        classify_extension(&Some(b("woff"))),
        ExtensionVerdict::NeedMagic
    );
    assert_eq!(
        classify_extension(&Some(b("txt"))),
        ExtensionVerdict::NeedMagic
    );
    assert_eq!(classify_extension(&Some(b(""))), ExtensionVerdict::NeedMagic);
}

#[test]
fn absent_extension_defers_to_magic() {
    assert_eq!(classify_extension(&None), ExtensionVerdict::NeedMagic);
}

#[test]
fn magic_otto_is_opentype() {
    assert_eq!(
        classify_magic(&[0x4F, 0x54, 0x54, 0x4F]),
        Some(FontKind::OpenType)
    );
}

#[test]
fn magic_version_tag_is_truetype() {
    assert_eq!(
        classify_magic(&[0x00, 0x01, 0x00, 0x00]),
        Some(FontKind::TrueType)
    );
}

#[test]
fn magic_true_is_truetype() {
    assert_eq!(classify_magic(b"true"), Some(FontKind::TrueType));
}

#[test]
fn magic_ttcf_is_truetype() {
    assert_eq!(classify_magic(b"ttcf"), Some(FontKind::TrueType));
}

#[test]
fn garbage_magic_is_unrecognized() {
    assert_eq!(classify_magic(&[9, 9, 9, 9]), None);
    assert_eq!(classify_magic(&[0xFF, 0xFF, 0xFF, 0xFF]), None);
    assert_eq!(classify_magic(&[0x4F, 0x54, 0x54, 0x4E]), None);
}

#[test]
fn unrecognized_magic_is_an_invalid_data_error() {
    match detect_from_magic(&[9, 9, 9, 9]) {
        Ok(_) => panic!("expected detection to fail"),
        Err(e) => {
            assert_eq!(e.kind, IoKind::InvalidData);
            assert_eq!(e.raw, None);
        }
    }
    assert_eq!(detect_from_magic(b"OTTO"), Ok(FontKind::OpenType));
    assert_eq!(detect_from_magic(b"ttcf"), Ok(FontKind::TrueType));
}

#[test]
fn subdir_names_follow_kind() {
    assert_eq!(kind_subdir(FontKind::OpenType), b("OTF"));
    assert_eq!(kind_subdir(FontKind::TrueType), b("TTF"));
}
