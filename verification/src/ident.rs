//! The order of entry ids.
//!
//! Ids are ordered as their UTF-8 encodings are: byte by byte, a proper
//! prefix before its extensions. Listings follow this order.

use vstd::prelude::*;
use vstd::utf8::encode_utf8;
use vstd::utf8::encode_utf8_decode_utf8;

verus! {

/// Lexicographic order on byte strings.
pub open spec fn bytes_less(a: Seq<u8>, b: Seq<u8>) -> bool
    decreases a.len(),
{
    if b.len() == 0 {
        false
    } else if a.len() == 0 {
        true
    } else if a[0] == b[0] {
        bytes_less(a.drop_first(), b.drop_first())
    } else {
        a[0] < b[0]
    }
}

/// The strict order of ids.
pub open spec fn id_less(a: Seq<char>, b: Seq<char>) -> bool {
    bytes_less(encode_utf8(a), encode_utf8(b))
}

/// How one id stands to another.
#[derive(Debug, Clone, Copy, PartialEq, Eq, Structural)]
pub enum IdOrder {
    Less,
    Equal,
    Greater,
}

/// How `a` stands to `b`.
pub open spec fn id_order(a: Seq<char>, b: Seq<char>) -> IdOrder {
    if a == b {
        IdOrder::Equal
    } else if id_less(a, b) {
        IdOrder::Less
    } else {
        IdOrder::Greater
    }
}

/// No byte string is below itself.
pub proof fn lemma_bytes_less_irreflexive(a: Seq<u8>)
    ensures
        !bytes_less(a, a),
    decreases a.len(),
{
    if a.len() > 0 {
        lemma_bytes_less_irreflexive(a.drop_first());
    }
}

/// The order on byte strings is transitive.
pub proof fn lemma_bytes_less_transitive(a: Seq<u8>, b: Seq<u8>, c: Seq<u8>)
    requires
        bytes_less(a, b),
        bytes_less(b, c),
    ensures
        bytes_less(a, c),
    decreases a.len(),
{
    if a.len() > 0 && a[0] == b[0] && b[0] == c[0] {
        lemma_bytes_less_transitive(a.drop_first(), b.drop_first(), c.drop_first());
    }
}

/// Two byte strings are equal, or one is below the other.
pub proof fn lemma_bytes_less_total(a: Seq<u8>, b: Seq<u8>)
    ensures
        a == b || bytes_less(a, b) || bytes_less(b, a),
    decreases a.len(),
{
    if a.len() > 0 && b.len() > 0 && a[0] == b[0] {
        lemma_bytes_less_total(a.drop_first(), b.drop_first());
        if a.drop_first() == b.drop_first() {
            assert(b =~= seq![b[0]] + b.drop_first());
        }
    }
}

/// Different ids have different encodings.
pub proof fn lemma_encoding_injective(a: Seq<char>, b: Seq<char>)
    requires
        encode_utf8(a) == encode_utf8(b),
    ensures
        a == b,
{
    encode_utf8_decode_utf8(a);
    encode_utf8_decode_utf8(b);
}

/// The order of ids is a strict total order: no id is below itself, the
/// order is transitive, and of two different ids exactly one is below the
/// other.
pub proof fn lemma_id_less_strict_total(a: Seq<char>, b: Seq<char>, c: Seq<char>)
    ensures
        !id_less(a, a),
        id_less(a, b) && id_less(b, c) ==> id_less(a, c),
        a == b || id_less(a, b) || id_less(b, a),
        !(id_less(a, b) && id_less(b, a)),
{
    lemma_bytes_less_irreflexive(encode_utf8(a));
    if id_less(a, b) && id_less(b, c) {
        lemma_bytes_less_transitive(encode_utf8(a), encode_utf8(b), encode_utf8(c));
    }
    lemma_bytes_less_total(encode_utf8(a), encode_utf8(b));
    if encode_utf8(a) == encode_utf8(b) {
        lemma_encoding_injective(a, b);
    }
    if id_less(a, b) && id_less(b, a) {
        lemma_bytes_less_transitive(encode_utf8(a), encode_utf8(b), encode_utf8(a));
    }
}

/// Compares two ids.
pub fn compare_ids(a: &str, b: &str) -> (order: IdOrder)
    ensures
        order == id_order(a@, b@),
{
    let x = a.as_bytes();
    let y = b.as_bytes();
    let n: usize = x.len();
    let m: usize = y.len();
    let mut i: usize = 0;
    proof {
        assert(x@.skip(0) =~= x@);
        assert(y@.skip(0) =~= y@);
    }
    loop
        invariant
            i <= n == x@.len(),
            i <= m == y@.len(),
            x@ == encode_utf8(a@),
            y@ == encode_utf8(b@),
            x@.subrange(0, i as int) == y@.subrange(0, i as int),
            bytes_less(x@, y@) == bytes_less(x@.skip(i as int), y@.skip(i as int)),
        decreases n - i,
    {
        if i == n {
            if i == m {
                proof {
                    assert(x@ =~= x@.subrange(0, i as int));
                    assert(y@ =~= y@.subrange(0, i as int));
                    lemma_encoding_injective(a@, b@);
                }
                return IdOrder::Equal;
            }
            return IdOrder::Less;
        }
        if i == m {
            return IdOrder::Greater;
        }
        let p: u8 = x[i];
        let q: u8 = y[i];
        if p < q {
            return IdOrder::Less;
        }
        if p > q {
            return IdOrder::Greater;
        }
        proof {
            assert(x@.skip(i as int).drop_first() =~= x@.skip(i + 1));
            assert(y@.skip(i as int).drop_first() =~= y@.skip(i + 1));
        }
        i += 1;
    }
}

} // verus!
