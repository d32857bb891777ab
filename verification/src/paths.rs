//! Byte-string path handling: file names, stems, extensions, joining, and
//! the destination path of a converted image.
//!
//! Paths are byte strings with `/` as the separator. The file name is the
//! part after the last separator; a name splits into stem and extension at
//! its last dot, provided that dot leaves a non-empty stem. A path whose
//! file name has no such split (no dot, a leading dot only, or an empty
//! name) has no usable stem and cannot receive a forced `.jpg` extension.

use vstd::prelude::*;

use crate::errors::ConvertError;

verus! {

/// Path separator byte (`/`).
pub const SLASH: u8 = 47;

/// Extension separator byte (`.`).
pub const DOT: u8 = 46;

/// Index of the last occurrence of `b` in `s`, if any.
pub open spec fn last_index_of(s: Seq<u8>, b: u8) -> Option<int>
    decreases s.len(),
{
    if s.len() == 0 {
        None
    } else if s[s.len() - 1] == b {
        Some(s.len() - 1)
    } else {
        last_index_of(s.drop_last(), b)
    }
}

/// The part of `p` after its last separator (all of `p` if there is none).
pub open spec fn spec_file_name(p: Seq<u8>) -> Seq<u8> {
    match last_index_of(p, SLASH) {
        None => p,
        Some(i) => p.subrange(i + 1, p.len() as int),
    }
}

/// Split a file name into stem and extension at its last dot. The split
/// exists only when that dot is preceded by at least one byte of stem.
pub open spec fn spec_split_name(name: Seq<u8>) -> Option<(Seq<u8>, Seq<u8>)> {
    match last_index_of(name, DOT) {
        Some(i) => if i >= 1 {
            Some((name.subrange(0, i), name.subrange(i + 1, name.len() as int)))
        } else {
            None
        },
        None => None,
    }
}

/// The extension of `p`'s file name, if its name splits.
pub open spec fn spec_extension(p: Seq<u8>) -> Option<Seq<u8>> {
    match spec_split_name(spec_file_name(p)) {
        Some(se) => Some(se.1),
        None => None,
    }
}

/// The byte spelling of the extension `jpg`.
pub open spec fn jpg_ext() -> Seq<u8> {
    seq![106u8, 112u8, 103u8]
}

/// Whether `p`'s extension is exactly `jpg` (case-sensitive).
pub open spec fn spec_is_jpg(p: Seq<u8>) -> bool {
    spec_extension(p) == Some(jpg_ext())
}

/// Everything before `p`'s last separator: empty for a bare name, the root
/// separator alone when the last separator is first.
pub open spec fn spec_parent(p: Seq<u8>) -> Seq<u8> {
    match last_index_of(p, SLASH) {
        None => Seq::empty(),
        Some(i) => if i == 0 {
            seq![SLASH]
        } else {
            p.subrange(0, i)
        },
    }
}

/// Join two paths: an absolute right side stands alone; otherwise the sides
/// are glued with exactly one separator.
pub open spec fn spec_join(a: Seq<u8>, b: Seq<u8>) -> Seq<u8> {
    if b.len() > 0 && b[0] == SLASH {
        b
    } else if a.len() == 0 {
        b
    } else if a[a.len() - 1] == SLASH {
        a + b
    } else {
        a + seq![SLASH] + b
    }
}

/// The destination of a conversion: the source's parent, then the output
/// directory, then the source's stem with a forced `.jpg` extension. None
/// when the source has no usable stem.
pub open spec fn spec_destination(src: Seq<u8>, out_dir: Seq<u8>) -> Option<Seq<u8>> {
    match spec_split_name(spec_file_name(src)) {
        None => None,
        Some(se) => Some(
            spec_join(spec_join(spec_parent(src), out_dir), se.0 + seq![DOT] + jpg_ext()),
        ),
    }
}

/// What `last_index_of` returns is a genuine last occurrence.
pub proof fn lemma_last_index_props(s: Seq<u8>, b: u8)
    ensures
        match last_index_of(s, b) {
            Some(i) => 0 <= i < s.len() && s[i] == b && (forall|j: int|
                i < j < s.len() ==> s[j] != b),
            None => forall|j: int| 0 <= j < s.len() ==> s[j] != b,
        },
    decreases s.len(),
{
    if s.len() == 0 {
    } else if s[s.len() - 1] == b {
    } else {
        lemma_last_index_props(s.drop_last(), b);
        assert forall|j: int| 0 <= j < s.len() - 1 implies s.drop_last()[j] == s[j] by {}
    }
}

/// A witness position with nothing equal after it is the last occurrence.
pub proof fn lemma_last_index_some(s: Seq<u8>, b: u8, i: int)
    requires
        0 <= i < s.len(),
        s[i] == b,
        forall|j: int| i < j < s.len() ==> s[j] != b,
    ensures
        last_index_of(s, b) == Some(i),
    decreases s.len(),
{
    if i == s.len() - 1 {
    } else {
        assert(s[s.len() - 1] != b);
        lemma_last_index_some(s.drop_last(), b, i);
    }
}

/// A byte that occurs nowhere has no last occurrence.
pub proof fn lemma_last_index_none(s: Seq<u8>, b: u8)
    requires
        forall|j: int| 0 <= j < s.len() ==> s[j] != b,
    ensures
        last_index_of(s, b) == None::<int>,
    decreases s.len(),
{
    if s.len() > 0 {
        lemma_last_index_none(s.drop_last(), b);
    }
}

/// Law: a computed destination always carries the `jpg` extension, so a
/// second conversion of it reaches the size comparison rather than the
/// format branch of the rewrite decision.
pub proof fn lemma_destination_is_jpg(src: Seq<u8>, out_dir: Seq<u8>)
    requires
        spec_destination(src, out_dir) is Some,
    ensures
        spec_is_jpg(spec_destination(src, out_dir)->Some_0),
{
    let name = spec_file_name(src);
    lemma_last_index_props(src, SLASH);
    assert(forall|j: int| 0 <= j < name.len() ==> name[j] != SLASH);
    assert(last_index_of(name, DOT) is Some);
    lemma_last_index_props(name, DOT);
    let i = last_index_of(name, DOT)->Some_0;
    assert(1 <= i < name.len());
    let stem = name.subrange(0, i);
    assert(forall|j: int| 0 <= j < stem.len() ==> stem[j] == name[j]);
    let leaf = stem + seq![DOT] + jpg_ext();
    assert(forall|j: int| 0 <= j < leaf.len() ==> leaf[j] != SLASH);
    assert(leaf[stem.len() as int] == DOT);
    assert(forall|j: int| stem.len() < j < leaf.len() ==> leaf[j] != DOT);
    lemma_last_index_some(leaf, DOT, stem.len() as int);
    assert(leaf.subrange(0, stem.len() as int) =~= stem);
    assert(leaf.subrange(stem.len() as int + 1, leaf.len() as int) =~= jpg_ext());
    let base = spec_join(spec_parent(src), out_dir);
    let d = spec_join(base, leaf);
    assert(spec_destination(src, out_dir)->Some_0 == d);
    assert(leaf[0] != SLASH);
    if base.len() == 0 {
        assert(d == leaf);
        lemma_last_index_none(d, SLASH);
        assert(spec_file_name(d) == leaf);
    } else if base[base.len() - 1] == SLASH {
        assert(d == base + leaf);
        assert(d[base.len() - 1] == SLASH);
        assert(forall|j: int| base.len() - 1 < j < d.len() ==> d[j] != SLASH);
        lemma_last_index_some(d, SLASH, base.len() - 1);
        assert(spec_file_name(d) =~= leaf);
    } else {
        assert(d == base + seq![SLASH] + leaf);
        assert(d[base.len() as int] == SLASH);
        assert(forall|j: int| base.len() < j < d.len() ==> d[j] != SLASH);
        lemma_last_index_some(d, SLASH, base.len() as int);
        assert(spec_file_name(d) =~= leaf);
    }
    assert(spec_extension(d) == Some(jpg_ext()));
}

/// Index of the last occurrence of `b` in `s`, scanned from the end.
pub fn rfind_byte(s: &[u8], b: u8) -> (r: Option<usize>)
    ensures
        match r {
            Some(i) => i < s@.len() && s@[i as int] == b && last_index_of(s@, b) == Some(i as int),
            None => last_index_of(s@, b) == None::<int>,
        },
{
    let mut i: usize = s.len();
    while i > 0
        invariant
            i <= s@.len(),
            forall|j: int| i <= j < s@.len() ==> s@[j] != b,
        decreases i,
    {
        i = i - 1;
        if s[i] == b {
            proof {
                lemma_last_index_some(s@, b, i as int);
            }
            return Some(i);
        }
    }
    proof {
        lemma_last_index_none(s@, b);
    }
    None
}

/// Whether the path's extension is exactly `jpg`.
pub fn has_jpg_extension(p: &[u8]) -> (r: bool)
    ensures
        r == spec_is_jpg(p@),
{
    let n = p.len();
    let name_start: usize = match rfind_byte(p, SLASH) {
        Some(i) => i + 1,
        None => 0,
    };
    let name: &[u8] = &p[name_start..n];
    proof {
        assert(name@ =~= spec_file_name(p@));
    }
    match rfind_byte(name, DOT) {
        Some(i) => {
            if i >= 1 {
                let ext: &[u8] = &name[i + 1..name.len()];
                proof {
                    assert(spec_extension(p@) == Some(ext@));
                }
                // the bytes of `jpg`
                if ext.len() == 3 && ext[0] == 106 && ext[1] == 112 && ext[2] == 103 {
                    proof {
                        assert(ext@ =~= jpg_ext());
                    }
                    true
                } else {
                    proof {
                        assert(ext@ != jpg_ext());
                    }
                    false
                }
            } else {
                false
            }
        },
        None => false,
    }
}

/// Join two paths with exactly one separator, the right side winning when
/// absolute.
pub fn path_join(a: &[u8], b: &[u8]) -> (r: Vec<u8>)
    ensures
        r@ == spec_join(a@, b@),
{
    if b.len() > 0 && b[0] == SLASH {
        let mut r: Vec<u8> = Vec::new();
        r.extend_from_slice(b);
        proof {
            assert(r@ =~= spec_join(a@, b@));
        }
        r
    } else if a.len() == 0 {
        let mut r: Vec<u8> = Vec::new();
        r.extend_from_slice(b);
        proof {
            assert(r@ =~= spec_join(a@, b@));
        }
        r
    } else {
        let mut r: Vec<u8> = Vec::new();
        r.extend_from_slice(a);
        if a[a.len() - 1] != SLASH {
            r.push(SLASH);
        }
        r.extend_from_slice(b);
        proof {
            assert(r@ =~= spec_join(a@, b@));
        }
        r
    }
}

/// The destination path for a source file: parent, output directory, stem
/// with a forced `.jpg` extension. A source without a usable stem is
/// refused as an ugly file.
pub fn destination_path(src: &[u8], out_dir: &[u8]) -> (r: Result<Vec<u8>, ConvertError>)
    ensures
        match r {
            Ok(d) => spec_destination(src@, out_dir@) == Some(d@),
            Err(e) => e == ConvertError::UglyFile && spec_destination(src@, out_dir@)
                == None::<Seq<u8>>,
        },
{
    let n = src.len();
    let name_start: usize = match rfind_byte(src, SLASH) {
        Some(i) => i + 1,
        None => 0,
    };
    let name: &[u8] = &src[name_start..n];
    proof {
        assert(name@ =~= spec_file_name(src@));
    }
    let dot = match rfind_byte(name, DOT) {
        Some(i) if i >= 1 => i,
        _ => {
            return Err(ConvertError::UglyFile);
        },
    };
    let stem: &[u8] = &name[0..dot];
    let mut parent: Vec<u8> = Vec::new();
    if name_start > 0 {
        if name_start == 1 {
            parent.push(SLASH);
        } else {
            parent.extend_from_slice(&src[0..name_start - 1]);
        }
    }
    proof {
        assert(parent@ =~= spec_parent(src@));
    }
    let base = path_join(parent.as_slice(), out_dir);
    let mut leaf: Vec<u8> = Vec::new();
    leaf.extend_from_slice(stem);
    leaf.push(DOT);
    // the bytes of `jpg`
    leaf.push(106);
    leaf.push(112);
    leaf.push(103);
    proof {
        assert(leaf@ =~= stem@ + seq![DOT] + jpg_ext());
    }
    let d = path_join(base.as_slice(), leaf.as_slice());
    Ok(d)
}

} // verus!
