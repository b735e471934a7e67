//! Comparison of string slices with a proved result.

use vstd::prelude::*;
use vstd::std_specs::iter::IteratorSpec;
use vstd::string::StringSliceAdditionalSpecFns;
use vstd::utf8::{char_u32_cast, encode_utf8_decode_utf8};

verus! {

/// Whether two string slices hold the same characters.
///
/// The slices are compared byte by byte; since UTF-8 encodes each character
/// sequence as exactly one byte sequence, equal bytes mean equal characters.
pub fn str_eq(a: &str, b: &str) -> (same: bool)
    ensures
        same == (a@ == b@),
{
    let x = a.as_bytes();
    let y = b.as_bytes();
    if x.len() != y.len() {
        return false;
    }
    let mut i: usize = 0;
    while i < x.len()
        invariant
            i <= x.len(),
            x.len() == y.len(),
            x@ == a.spec_bytes(),
            y@ == b.spec_bytes(),
            forall|j: int| 0 <= j < i ==> x@[j] == y@[j],
        decreases x.len() - i,
    {
        if x[i] != y[i] {
            return false;
        }
        i += 1;
    }
    proof {
        assert(x@ =~= y@);
        encode_utf8_decode_utf8(a@);
        encode_utf8_decode_utf8(b@);
    }
    true
}

/// Whether `a` and `b` agree on their first `k` characters and `a` then ends
/// or goes on with a smaller character than `b` does.
pub open spec fn name_precedes_at(a: Seq<char>, b: Seq<char>, k: int) -> bool {
    &&& 0 <= k <= a.len()
    &&& k < b.len()
    &&& forall|i: int| 0 <= i < k ==> a[i] == b[i]
    &&& k < a.len() ==> (a[k] as u32) < (b[k] as u32)
}

/// Whether `a` comes strictly before `b` when names are ordered character by
/// character.
pub open spec fn name_precedes(a: Seq<char>, b: Seq<char>) -> bool {
    exists|k: int| name_precedes_at(a, b, k)
}

/// No name precedes itself.
pub proof fn lemma_name_precedes_irreflexive(a: Seq<char>)
    ensures
        !name_precedes(a, a),
{
}

/// A name that precedes a second, which precedes a third, precedes the third.
pub proof fn lemma_name_precedes_transitive(a: Seq<char>, b: Seq<char>, c: Seq<char>)
    requires
        name_precedes(a, b),
        name_precedes(b, c),
    ensures
        name_precedes(a, c),
{
    let k = choose|k: int| name_precedes_at(a, b, k);
    let m = choose|m: int| name_precedes_at(b, c, m);
    if k <= m {
        assert(name_precedes_at(a, c, k));
    } else {
        assert(name_precedes_at(a, c, m));
    }
}

/// Of two names that differ, one precedes the other.
pub proof fn lemma_names_comparable(a: Seq<char>, b: Seq<char>)
    ensures
        a == b || name_precedes(a, b) || name_precedes(b, a),
{
    lemma_comparable_from(a, b, 0);
}

/// Two names that agree on their first `k` characters are the same, or one
/// precedes the other.
proof fn lemma_comparable_from(a: Seq<char>, b: Seq<char>, k: int)
    requires
        0 <= k <= a.len(),
        k <= b.len(),
        forall|i: int| 0 <= i < k ==> a[i] == b[i],
    ensures
        a == b || name_precedes(a, b) || name_precedes(b, a),
    decreases a.len() - k,
{
    if k == a.len() {
        if k == b.len() {
            assert(a =~= b);
        } else {
            assert(name_precedes_at(a, b, k));
        }
    } else if k == b.len() {
        assert(name_precedes_at(b, a, k));
    } else if a[k] == b[k] {
        lemma_comparable_from(a, b, k + 1);
    } else {
        char_u32_cast(a[k], a[k] as u32);
        char_u32_cast(b[k], b[k] as u32);
        if (a[k] as u32) < (b[k] as u32) {
            assert(name_precedes_at(a, b, k));
        } else {
            assert(name_precedes_at(b, a, k));
        }
    }
}

/// How one name stands to another.
#[derive(Debug, Clone, Copy, PartialEq, Eq, Structural)]
pub enum NameOrder {
    Before,
    Same,
    After,
}

/// Orders two names character by character.
pub fn order_names(a: &str, b: &str) -> (order: NameOrder)
    ensures
        match order {
            NameOrder::Before => name_precedes(a@, b@),
            NameOrder::Same => a@ == b@,
            NameOrder::After => name_precedes(b@, a@),
        },
{
    let mut x = a.chars();
    let mut y = b.chars();
    let ghost mut i: int = 0;
    loop
        invariant
            0 <= i <= a@.len(),
            i <= b@.len(),
            x.remaining() == a@.skip(i),
            y.remaining() == b@.skip(i),
            forall|j: int| 0 <= j < i ==> a@[j] == b@[j],
        decreases a@.len() - i,
    {
        let p = x.next();
        let q = y.next();
        match (p, q) {
            (None, None) => {
                assert(a@ =~= b@);
                return NameOrder::Same;
            },
            (None, Some(_)) => {
                assert(name_precedes_at(a@, b@, i));
                return NameOrder::Before;
            },
            (Some(_), None) => {
                assert(name_precedes_at(b@, a@, i));
                return NameOrder::After;
            },
            (Some(c), Some(d)) => {
                if c != d {
                    if (c as u32) < (d as u32) {
                        assert(name_precedes_at(a@, b@, i));
                        return NameOrder::Before;
                    } else {
                        proof {
                            char_u32_cast(c, c as u32);
                            char_u32_cast(d, d as u32);
                        }
                        assert(name_precedes_at(b@, a@, i));
                        return NameOrder::After;
                    }
                }
                proof {
                    i = i + 1;
                }
            },
        }
    }
}

} // verus!
