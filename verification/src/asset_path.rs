//! Sprite-sheet path handling: validating an image path, deriving the
//! logical name (directory and extension stripped) and the companion
//! descriptor path, and classifying the image extension.
//!
//! All reasoning is over the UTF-8 bytes of the path; `/` and `.` are
//! single bytes that never occur inside a multi-byte UTF-8 sequence, so
//! byte-level splitting is exact.

use vstd::prelude::*;
use vstd::string::StringSliceAdditionalSpecFns;
use vstd::string::StrSliceExecFns;

verus! {

/// The byte `/`, separating directory components.
pub const SLASH: u8 = 47;

/// The byte `.`, separating a file name from its extension.
pub const DOT: u8 = 46;

/// How a `load` request can fail; these are unrecoverable configuration
/// errors surfaced to the caller, never recovered internally.
#[derive(Debug, Clone, Copy, PartialEq, Eq, Structural)]
pub enum LoadError {
    /// The image file itself does not exist.
    MissingImageFile,
    /// The companion descriptor file does not exist.
    MissingDescriptorFile,
    /// The path has an extension, but not an accepted image extension.
    UnsupportedExtension,
    /// No logical name can be derived: the file name has no extension at
    /// all, or is nothing but an extension.
    UnparseablePath,
}

/// The accepted image encodings, as derived from the file extension.
#[derive(Debug, Clone, Copy, PartialEq, Eq, Structural)]
pub enum ImageFormat {
    Png,
    Jpg,
    Bmp,
    Tga,
}

/// Index of the last occurrence of `b` in `s`, or `-1` if `b` does not
/// occur.
pub open spec fn last_pos(s: Seq<u8>, b: u8) -> int
    decreases s.len(),
{
    if s.len() == 0 {
        -1
    } else if s[s.len() - 1] == b {
        s.len() - 1
    } else {
        last_pos(s.drop_last(), b)
    }
}

/// `last_pos` points at an occurrence of `b` with none after it, and is
/// `-1` exactly when `b` does not occur at all.
pub proof fn lemma_last_pos(s: Seq<u8>, b: u8)
    ensures
        -1 <= last_pos(s, b) < s.len(),
        last_pos(s, b) >= 0 ==> s[last_pos(s, b)] == b,
        forall|k: int| last_pos(s, b) < k < s.len() ==> s[k] != b,
    decreases s.len(),
{
    if s.len() == 0 {
    } else if s[s.len() - 1] == b {
    } else {
        lemma_last_pos(s.drop_last(), b);
        assert forall|k: int| last_pos(s, b) < k < s.len() implies s[k] != b by {
            if k < s.len() - 1 {
                assert(s.drop_last()[k] == s[k]);
            }
        }
    }
}

/// Where the file name starts: one past the last `/`, or `0` for a bare
/// name.
pub open spec fn base_start(p: Seq<u8>) -> int {
    last_pos(p, SLASH) + 1
}

/// Absolute index of the dot introducing the file name's trailing
/// extension, or `-1` when the file name has no extension.
pub open spec fn base_dot(p: Seq<u8>) -> int {
    if last_pos(p, DOT) >= base_start(p) {
        last_pos(p, DOT)
    } else {
        -1
    }
}

/// The logical name of an asset path: the file name with directory
/// components and the trailing extension stripped.
pub open spec fn norm_name(p: Seq<u8>) -> Seq<u8> {
    if base_dot(p) >= 0 {
        p.subrange(base_start(p), base_dot(p))
    } else {
        p.subrange(base_start(p), p.len() as int)
    }
}

/// The file name's trailing extension (without the dot); meaningful only
/// when `base_dot(p) >= 0`.
pub open spec fn ext_of(p: Seq<u8>) -> Seq<u8> {
    p.subrange(base_dot(p) + 1, p.len() as int)
}

/// The companion descriptor file: the same path with the image extension
/// replaced by `ron`.
pub open spec fn descriptor_of(p: Seq<u8>) -> Seq<u8> {
    p.subrange(0, base_dot(p) + 1) + seq![114u8, 111u8, 110u8]
}

/// ASCII lower-casing of one byte.
pub open spec fn lower(b: u8) -> u8 {
    if 65 <= b <= 90 {
        (b + 32) as u8
    } else {
        b
    }
}

/// ASCII lower-casing of a byte string.
pub open spec fn lower_seq(s: Seq<u8>) -> Seq<u8> {
    s.map_values(|b: u8| lower(b))
}

/// The format an extension names, compared case-insensitively; `None` for
/// anything but the accepted image extensions.
pub open spec fn spec_format_of(e: Seq<u8>) -> Option<ImageFormat> {
    let l = lower_seq(e);
    if l == seq![112u8, 110u8, 103u8] {  // png
        Some(ImageFormat::Png)
    } else if l == seq![106u8, 112u8, 103u8] {  // jpg
        Some(ImageFormat::Jpg)
    } else if l == seq![106u8, 112u8, 101u8, 103u8] {  // jpeg
        Some(ImageFormat::Jpg)
    } else if l == seq![98u8, 109u8, 112u8] {  // bmp
        Some(ImageFormat::Bmp)
    } else if l == seq![116u8, 103u8, 97u8] {  // tga
        Some(ImageFormat::Tga)
    } else {
        None
    }
}

/// What is wrong with a path, if anything: no derivable name first, then
/// an unaccepted extension.
pub open spec fn path_error(p: Seq<u8>) -> Option<LoadError> {
    if base_dot(p) < 0 || base_dot(p) == base_start(p) {
        Some(LoadError::UnparseablePath)
    } else if spec_format_of(ext_of(p)) is None {
        Some(LoadError::UnsupportedExtension)
    } else {
        None
    }
}

/// Everything `load` derives from a valid image path: the logical cache
/// name, the path of the companion descriptor file, and the image format.
#[derive(Debug, Clone, PartialEq, Eq)]
pub struct LoadPlan {
    /// UTF-8 bytes of the image path the plan was derived from.
    pub image_path: Vec<u8>,
    /// The logical name the sheet is cached under.
    pub name: Vec<u8>,
    /// UTF-8 bytes of the companion descriptor file's path.
    pub descriptor_path: Vec<u8>,
    /// The image encoding named by the extension.
    pub format: ImageFormat,
}

/// Index of the last occurrence of `b`, if any.
fn find_last(v: &[u8], b: u8) -> (r: Option<usize>)
    ensures
        match r {
            Some(i) => i == last_pos(v@, b),
            None => last_pos(v@, b) == -1,
        },
{
    proof {
        lemma_last_pos(v@, b);
    }
    let mut i: usize = v.len();
    while i > 0
        invariant
            i <= v@.len(),
            forall|k: int| i <= k < v@.len() ==> v@[k] != b,
        decreases i,
    {
        i = i - 1;
        if v[i] == b {
            proof {
                lemma_last_pos(v@, b);
                let lp = last_pos(v@, b);
                if lp < i as int {
                    assert(v@[i as int] != b);
                }
                if lp > i as int {
                    assert(v@[lp] == b);
                    assert(v@[lp] != b);
                }
            }
            return Some(i);
        }
    }
    None
}

/// Copy of `v[from..to]`.
fn sub_bytes(v: &[u8], from: usize, to: usize) -> (r: Vec<u8>)
    requires
        from <= to <= v@.len(),
    ensures
        r@ == v@.subrange(from as int, to as int),
{
    let mut r: Vec<u8> = Vec::new();
    let mut i: usize = from;
    while i < to
        invariant
            from <= i <= to <= v@.len(),
            r@ == v@.subrange(from as int, i as int),
        decreases to - i,
    {
        let x = v[i];
        r.push(x);
        i = i + 1;
        proof {
            assert(r@ =~= v@.subrange(from as int, i as int));
        }
    }
    r
}

/// Are two byte strings equal?
pub fn bytes_equal(a: &[u8], b: &[u8]) -> (r: bool)
    ensures
        r == (a@ == b@),
{
    if a.len() != b.len() {
        return false;
    }
    let mut i: usize = 0;
    while i < a.len()
        invariant
            i <= a@.len(),
            a@.len() == b@.len(),
            forall|k: int| 0 <= k < i ==> a@[k] == b@[k],
        decreases a@.len() - i,
    {
        if a[i] != b[i] {
            return false;
        }
        i = i + 1;
    }
    proof {
        assert(a@ =~= b@);
    }
    true
}

/// ASCII lower-casing of one byte.
fn lower_byte(b: u8) -> (r: u8)
    ensures
        r == lower(b),
{
    if 65 <= b && b <= 90 {
        b + 32
    } else {
        b
    }
}

/// Classify an extension, case-insensitively.
fn format_of(e: &[u8]) -> (r: Option<ImageFormat>)
    ensures
        r == spec_format_of(e@),
{
    let mut l: Vec<u8> = Vec::new();
    let mut i: usize = 0;
    while i < e.len()
        invariant
            i <= e@.len(),
            l@.len() == i,
            forall|k: int| 0 <= k < i ==> l@[k] == lower(e@[k]),
        decreases e@.len() - i,
    {
        let x = lower_byte(e[i]);
        l.push(x);
        i = i + 1;
    }
    proof {
        assert(l@ =~= lower_seq(e@));
    }
    let r = if l.len() == 3 && l[0] == 112 && l[1] == 110 && l[2] == 103 {
        proof {
            assert(lower_seq(e@) =~= seq![112u8, 110u8, 103u8]);
        }
        Some(ImageFormat::Png)
    } else if l.len() == 3 && l[0] == 106 && l[1] == 112 && l[2] == 103 {
        proof {
            assert(lower_seq(e@) =~= seq![106u8, 112u8, 103u8]);
        }
        Some(ImageFormat::Jpg)
    } else if l.len() == 4 && l[0] == 106 && l[1] == 112 && l[2] == 101 && l[3] == 103 {
        proof {
            assert(lower_seq(e@) =~= seq![106u8, 112u8, 101u8, 103u8]);
        }
        Some(ImageFormat::Jpg)
    } else if l.len() == 3 && l[0] == 98 && l[1] == 109 && l[2] == 112 {
        proof {
            assert(lower_seq(e@) =~= seq![98u8, 109u8, 112u8]);
        }
        Some(ImageFormat::Bmp)
    } else if l.len() == 3 && l[0] == 116 && l[1] == 103 && l[2] == 97 {
        proof {
            assert(lower_seq(e@) =~= seq![116u8, 103u8, 97u8]);
        }
        Some(ImageFormat::Tga)
    } else {
        None
    };
    r
}

/// The logical name for any path or name a caller hands in: directory
/// components and the trailing extension stripped.
pub fn normalized_name(v: &[u8]) -> (r: Vec<u8>)
    ensures
        r@ == norm_name(v@),
{
    proof {
        lemma_last_pos(v@, SLASH);
        lemma_last_pos(v@, DOT);
    }
    let n: usize = v.len();
    let start: usize = match find_last(v, SLASH) {
        Some(i) => i + 1,
        None => 0,
    };
    let end: usize = match find_last(v, DOT) {
        Some(d) => if d >= start {
            d
        } else {
            n
        },
        None => n,
    };
    sub_bytes(v, start, end)
}

/// Validate an image path and derive the load plan: the logical name, the
/// descriptor path (image extension replaced by `ron`), and the format.
/// Returns `UnparseablePath` when no name-plus-extension can be read off
/// the file name, and `UnsupportedExtension` when the extension is not an
/// accepted image extension (png, jpg, jpeg, bmp, tga, case-insensitive).
pub fn plan_load(path: &str) -> (r: Result<LoadPlan, LoadError>)
    ensures
        ({
            let p = path.spec_bytes();
            match r {
                Ok(plan) => {
                    &&& path_error(p) is None
                    &&& plan.image_path@ == p
                    &&& plan.name@ == norm_name(p)
                    &&& plan.descriptor_path@ == descriptor_of(p)
                    &&& Some(plan.format) == spec_format_of(ext_of(p))
                },
                Err(e) => path_error(p) == Some(e),
            }
        }),
{
    let v: Vec<u8> = path.as_bytes_vec();
    proof {
        lemma_last_pos(v@, SLASH);
        lemma_last_pos(v@, DOT);
    }
    let n: usize = v.len();
    let start: usize = match find_last(v.as_slice(), SLASH) {
        Some(i) => i + 1,
        None => 0,
    };
    let dot: usize = match find_last(v.as_slice(), DOT) {
        Some(d) => if d >= start {
            d
        } else {
            return Err(LoadError::UnparseablePath);
        },
        None => {
            return Err(LoadError::UnparseablePath);
        },
    };
    if dot == start {
        return Err(LoadError::UnparseablePath);
    }
    let ext = sub_bytes(v.as_slice(), dot + 1, n);
    let format = match format_of(ext.as_slice()) {
        Some(f) => f,
        None => {
            return Err(LoadError::UnsupportedExtension);
        },
    };
    let name = sub_bytes(v.as_slice(), start, dot);
    let mut descriptor_path = sub_bytes(v.as_slice(), 0, dot + 1);
    descriptor_path.push(114);
    descriptor_path.push(111);
    descriptor_path.push(110);
    proof {
        assert(descriptor_path@ =~= descriptor_of(v@));
    }
    Ok(LoadPlan { image_path: v, name, descriptor_path, format })
}

} // verus!
