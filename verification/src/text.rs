//! Byte-string helpers: name normalization, prefix tests, and the composite
//! deduplication key.
//!
//! A product name is canonicalized by ASCII case folding, collapsing every
//! run of whitespace to a single space, and trimming spaces at both ends.

use vstd::prelude::*;

verus! {

/// Bytes treated as whitespace by normalization: space, tab, LF, CR.
pub open spec fn is_space_byte(b: u8) -> bool {
    b == 32 || b == 9 || b == 10 || b == 13
}

/// ASCII case folding of one byte.
pub open spec fn fold_byte(b: u8) -> u8 {
    if 65 <= b && b <= 90 {
        (b + 32) as u8
    } else {
        b
    }
}

/// One step of normalization: extend the accumulated output by one input byte.
/// Whitespace is emitted as a single space and only after a non-space byte.
pub open spec fn norm_step(acc: Seq<u8>, b: u8) -> Seq<u8> {
    if is_space_byte(b) {
        if acc.len() > 0 && acc.last() != 32 {
            acc.push(32)
        } else {
            acc
        }
    } else {
        acc.push(fold_byte(b))
    }
}

/// Normalization before the final trim: fold `norm_step` over the input.
pub open spec fn norm_body(s: Seq<u8>) -> Seq<u8>
    decreases s.len(),
{
    if s.len() == 0 {
        Seq::empty()
    } else {
        norm_step(norm_body(s.drop_last()), s.last())
    }
}

/// The normalized form of a name: case folded, whitespace collapsed, trimmed.
pub open spec fn normalize_spec(s: Seq<u8>) -> Seq<u8> {
    let t = norm_body(s);
    if t.len() > 0 && t.last() == 32 {
        t.drop_last()
    } else {
        t
    }
}

/// The mathematical contents of a sequence of byte strings.
pub open spec fn views_of(s: Seq<Vec<u8>>) -> Seq<Seq<u8>> {
    s.map_values(|v: Vec<u8>| v@)
}

/// `p` is a prefix of `s`.
pub open spec fn is_prefix_of(p: Seq<u8>, s: Seq<u8>) -> bool {
    p.len() <= s.len() && s.take(p.len() as int) == p
}

/// The deduplication key for one (product, platform) pair: the normalized
/// name, a dash, and the platform bytes.
pub open spec fn dedup_key_spec(name: Seq<u8>, platform: Seq<u8>) -> Seq<u8> {
    normalize_spec(name) + seq![45u8] + platform
}

fn exec_is_space(b: u8) -> (r: bool)
    ensures
        r == is_space_byte(b),
{
    b == 32 || b == 9 || b == 10 || b == 13
}

fn exec_fold(b: u8) -> (r: u8)
    ensures
        r == fold_byte(b),
{
    if 65 <= b && b <= 90 {
        b + 32
    } else {
        b
    }
}

/// Compute the normalized form of `s`.
pub fn normalize(s: &Vec<u8>) -> (r: Vec<u8>)
    ensures
        r@ == normalize_spec(s@),
{
    let mut out: Vec<u8> = Vec::new();
    let mut i: usize = 0;
    while i < s.len()
        invariant
            i <= s.len(),
            out@ == norm_body(s@.take(i as int)),
        decreases s.len() - i,
    {
        let b = s[i];
        proof {
            assert(s@.take(i + 1 as int).drop_last() =~= s@.take(i as int));
            assert(s@.take(i + 1 as int).last() == s@[i as int]);
        }
        if exec_is_space(b) {
            if out.len() > 0 && *out.last().unwrap() != 32 {
                out.push(32);
            }
        } else {
            out.push(exec_fold(b));
        }
        i = i + 1;
    }
    proof {
        assert(s@.take(s@.len() as int) =~= s@);
    }
    if out.len() > 0 && *out.last().unwrap() == 32 {
        out.pop();
        proof {
            assert(out@ =~= norm_body(s@).drop_last());
        }
    }
    out
}

/// Append all of `src` to `out`.
pub fn append_bytes(out: &mut Vec<u8>, src: &Vec<u8>)
    ensures
        final(out)@ == old(out)@ + src@,
{
    let mut j: usize = 0;
    while j < src.len()
        invariant
            j <= src.len(),
            out@ == old(out)@ + src@.take(j as int),
        decreases src.len() - j,
    {
        out.push(src[j]);
        proof {
            assert(old(out)@ + src@.take(j + 1 as int) =~= (old(out)@ + src@.take(
                j as int,
            )).push(src@[j as int]));
        }
        j = j + 1;
    }
    proof {
        assert(src@.take(src@.len() as int) =~= src@);
    }
}

/// An exact copy of a byte string.
pub fn clone_bytes(src: &Vec<u8>) -> (r: Vec<u8>)
    ensures
        r@ == src@,
{
    let mut out: Vec<u8> = Vec::new();
    proof {
        assert(out@ + src@ =~= src@);
    }
    append_bytes(&mut out, src);
    out
}

/// Byte-string equality.
pub fn bytes_eq(a: &Vec<u8>, b: &Vec<u8>) -> (r: bool)
    ensures
        r == (a@ == b@),
{
    if a.len() != b.len() {
        return false;
    }
    let mut i: usize = 0;
    while i < a.len()
        invariant
            i <= a.len(),
            a.len() == b.len(),
            forall|k: int| 0 <= k < i ==> a@[k] == b@[k],
        decreases a.len() - i,
    {
        if a[i] != b[i] {
            return false;
        }
        i = i + 1;
    }
    proof {
        assert(a@ =~= b@);
    }
    true
}

/// `p` is a prefix of `s`, decided byte by byte.
pub fn bytes_is_prefix(p: &Vec<u8>, s: &Vec<u8>) -> (r: bool)
    ensures
        r == is_prefix_of(p@, s@),
{
    if p.len() > s.len() {
        return false;
    }
    let mut i: usize = 0;
    while i < p.len()
        invariant
            i <= p.len(),
            p.len() <= s.len(),
            forall|k: int| 0 <= k < i ==> s@[k] == p@[k],
        decreases p.len() - i,
    {
        if s[i] != p[i] {
            proof {
                assert(s@.take(p@.len() as int)[i as int] != p@[i as int]);
            }
            return false;
        }
        i = i + 1;
    }
    proof {
        assert(s@.take(p@.len() as int) =~= p@);
    }
    true
}

/// Build the deduplication key for a raw product name and a platform.
pub fn dedup_key(product_name: &Vec<u8>, platform: &Vec<u8>) -> (r: Vec<u8>)
    ensures
        r@ == dedup_key_spec(product_name@, platform@),
{
    let mut out = normalize(product_name);
    out.push(45);
    append_bytes(&mut out, platform);
    proof {
        assert(out@ =~= dedup_key_spec(product_name@, platform@));
    }
    out
}

} // verus!
