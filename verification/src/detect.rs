//! Format detection.
//!
//! A font file is classified as one of a closed set of kinds. The file
//! extension is inspected first, case-insensitively; when it is absent or
//! unrecognized, detection falls back to the first four bytes of the file.
//! Only the classification decisions live here; opening and reading the
//! file is the driver's job.

use vstd::prelude::*;
use crate::bytes::{lower, to_lower};
use crate::errors::{IoKind, SysError};

verus! {

/// The closed set of font kinds the installer understands.
#[derive(Clone, Copy, Debug, PartialEq, Eq, Structural)]
pub enum FontKind {
    OpenType,
    TrueType,
}

/// What the extension alone decides: either a kind, or that the file's
/// leading bytes must be inspected.
#[derive(Clone, Copy, Debug, PartialEq, Eq, Structural)]
pub enum ExtensionVerdict {
    Known(FontKind),
    NeedMagic,
}

/// The extension `otf`, as bytes.
pub open spec fn ext_otf() -> Seq<u8> {
    seq![111u8, 116u8, 102u8]
}

/// The extension `ttf`, as bytes.
pub open spec fn ext_ttf() -> Seq<u8> {
    seq![116u8, 116u8, 102u8]
}

/// The extension `ttc`, as bytes.
pub open spec fn ext_ttc() -> Seq<u8> {
    seq![116u8, 116u8, 99u8]
}

/// The magic tag `OTTO` of an OpenType file.
pub open spec fn magic_otto() -> Seq<u8> {
    seq![79u8, 84u8, 84u8, 79u8]
}

/// The big-endian version tag `0x00010000` of a TrueType file.
pub open spec fn magic_one() -> Seq<u8> {
    seq![0u8, 1u8, 0u8, 0u8]
}

/// The magic tag `true` of a TrueType file.
pub open spec fn magic_true() -> Seq<u8> {
    seq![116u8, 114u8, 117u8, 101u8]
}

/// The magic tag `ttcf` of a TrueType collection.
pub open spec fn magic_ttcf() -> Seq<u8> {
    seq![116u8, 116u8, 99u8, 102u8]
}

/// What an extension decides, case-insensitively: `otf` names OpenType,
/// `ttf` and `ttc` name TrueType, and anything else (or no extension at
/// all) defers to magic-byte sniffing.
pub open spec fn ext_verdict(ext: Option<Seq<u8>>) -> ExtensionVerdict {
    match ext {
        Option::None => ExtensionVerdict::NeedMagic,
        Option::Some(e) => {
            if lower(e) == ext_otf() {
                ExtensionVerdict::Known(FontKind::OpenType)
            } else if lower(e) == ext_ttf() || lower(e) == ext_ttc() {
                ExtensionVerdict::Known(FontKind::TrueType)
            } else {
                ExtensionVerdict::NeedMagic
            }
        },
    }
}

/// What the first four bytes of a file decide: `OTTO` names OpenType;
/// `0x00010000`, `true` and `ttcf` name TrueType; any other four bytes
/// mean the format is not recognized.
pub open spec fn magic_kind(m: Seq<u8>) -> Option<FontKind> {
    if m == magic_otto() {
        Option::Some(FontKind::OpenType)
    } else if m == magic_one() || m == magic_true() || m == magic_ttcf() {
        Option::Some(FontKind::TrueType)
    } else {
        Option::None
    }
}

/// Whether `v` holds exactly the three bytes `a`, `b`, `c`.
fn eq3(v: &Vec<u8>, a: u8, b: u8, c: u8) -> (r: bool)
    ensures
        r == (v@ == seq![a, b, c]),
{
    let r = v.len() == 3 && v[0] == a && v[1] == b && v[2] == c;
    proof {
        if r {
            assert(v@ =~= seq![a, b, c]);
        } else {
            assert(v@ != seq![a, b, c]);
        }
    }
    r
}

/// Classify a file name's extension; `None` means the name has none.
pub fn classify_extension(ext: &Option<Vec<u8>>) -> (r: ExtensionVerdict)
    ensures
        r == ext_verdict(ext.deep_view()),
{
    match ext {
        Option::None => {
            proof {
                assert(ext.deep_view() is None);
            }
            ExtensionVerdict::NeedMagic
        },
        Option::Some(e) => {
            proof {
                assert(ext.deep_view() == Option::Some(e.deep_view()));
                assert(e.deep_view() =~= e@);
            }
            let le = to_lower(e);
            if eq3(&le, 111, 116, 102) {
                ExtensionVerdict::Known(FontKind::OpenType)
            } else if eq3(&le, 116, 116, 102) || eq3(&le, 116, 116, 99) {
                ExtensionVerdict::Known(FontKind::TrueType)
            } else {
                ExtensionVerdict::NeedMagic
            }
        },
    }
}

/// Classify the first four bytes of a file; `None` means the format is
/// not recognized and detection fails.
pub fn classify_magic(m: &[u8; 4]) -> (r: Option<FontKind>)
    ensures
        r == magic_kind(m@),
{
    proof {
        assert(m@.len() == 4);
    }
    if m[0] == 79 && m[1] == 84 && m[2] == 84 && m[3] == 79 {
        proof {
            assert(m@ =~= magic_otto());
        }
        Option::Some(FontKind::OpenType)
    } else if m[0] == 0 && m[1] == 1 && m[2] == 0 && m[3] == 0 {
        proof {
            assert(m@ =~= magic_one());
        }
        Option::Some(FontKind::TrueType)
    } else if m[0] == 116 && m[1] == 114 && m[2] == 117 && m[3] == 101 {
        proof {
            assert(m@ =~= magic_true());
        }
        Option::Some(FontKind::TrueType)
    } else if m[0] == 116 && m[1] == 116 && m[2] == 99 && m[3] == 102 {
        proof {
            assert(m@ =~= magic_ttcf());
        }
        Option::Some(FontKind::TrueType)
    } else {
        proof {
            assert(m@ != magic_otto());
            assert(m@ != magic_one());
            assert(m@ != magic_true());
            assert(m@ != magic_ttcf());
        }
        Option::None
    }
}

/// Finish detection from the magic bytes: the kind they name, or the
/// distinct invalid-data error that marks an unrecognized format. This
/// is the only detection failure that is not an I/O error.
pub fn detect_from_magic(m: &[u8; 4]) -> (r: Result<FontKind, SysError>)
    ensures
        match r {
            Result::Ok(kind) => magic_kind(m@) == Option::Some(kind),
            Result::Err(e) => magic_kind(m@) is None && e.kind == IoKind::InvalidData
                && e.raw is None,
        },
{
    match classify_magic(m) {
        Option::Some(kind) => Result::Ok(kind),
        Option::None => Result::Err(SysError { kind: IoKind::InvalidData, raw: Option::None }),
    }
}

/// The fixed per-kind subdirectory name used to organize installed fonts.
pub open spec fn subdir_of(kind: FontKind) -> Seq<u8> {
    match kind {
        FontKind::OpenType => seq![79u8, 84u8, 70u8],
        FontKind::TrueType => seq![84u8, 84u8, 70u8],
    }
}

/// The subdirectory name for a kind: `OTF` or `TTF`.
pub fn kind_subdir(kind: FontKind) -> (r: Vec<u8>)
    ensures
        r@ == subdir_of(kind),
{
    let mut v: Vec<u8> = Vec::new();
    match kind {
        FontKind::OpenType => {
            v.push(79);
            v.push(84);
            v.push(70);
            proof {
                assert(v@ =~= subdir_of(kind));
            }
        },
        FontKind::TrueType => {
            v.push(84);
            v.push(84);
            v.push(70);
            proof {
                assert(v@ =~= subdir_of(kind));
            }
        },
    }
    v
}

} // verus!
