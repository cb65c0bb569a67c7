use vstd::prelude::*;
use vstd::utf8::encode_utf8;
use vstd::utf8::encode_utf8_decode_utf8;

verus! {

/// Strict byte-lexicographic order on byte sequences.  This is the order in
/// which the durable key-value substrate stores its keys, and therefore the
/// order in which every paginated scan yields its entries.
pub open spec fn bytes_lt(a: Seq<u8>, b: Seq<u8>) -> bool
    decreases a.len(),
{
    if b.len() == 0 {
        false
    } else if a.len() == 0 {
        true
    } else if a[0] < b[0] {
        true
    } else if a[0] == b[0] {
        bytes_lt(a.drop_first(), b.drop_first())
    } else {
        false
    }
}

/// Order of two single-component string keys in the substrate: the
/// byte-lexicographic order of their UTF-8 encodings.
pub open spec fn str_lt(a: Seq<char>, b: Seq<char>) -> bool {
    bytes_lt(encode_utf8(a), encode_utf8(b))
}

/// Order of two composite `(connection_id, controller)` keys: first by the
/// connection id, then by the controller, each in byte-lexicographic
/// order.  The store realises this order by separating the two components
/// with a NUL byte, which a connection id therefore may not contain.
pub open spec fn ckey_lt(a: (Seq<char>, Seq<char>), b: (Seq<char>, Seq<char>)) -> bool {
    str_lt(a.0, b.0) || (a.0 == b.0 && str_lt(a.1, b.1))
}

/// No NUL byte anywhere: what the composite-key separator demands of a
/// connection id.
pub open spec fn nul_free(b: Seq<u8>) -> bool {
    forall|i: int| 0 <= i < b.len() ==> b[i] != 0
}

/// The stored form of a composite key: the connection id's UTF-8 bytes, a
/// NUL separator, then the controller's raw UTF-8 bytes.  For NUL-free
/// connection ids this encoding is injective and its byte-lexicographic
/// order is exactly `ckey_lt`.
pub open spec fn ckey_bytes(c: Seq<char>, t: Seq<char>) -> Seq<u8> {
    encode_utf8(c) + seq![0u8] + encode_utf8(t)
}

pub proof fn lemma_bytes_lt_irrefl(a: Seq<u8>)
    ensures
        !bytes_lt(a, a),
    decreases a.len(),
{
    if a.len() > 0 {
        lemma_bytes_lt_irrefl(a.drop_first());
    }
}

pub proof fn lemma_bytes_lt_trans(a: Seq<u8>, b: Seq<u8>, c: Seq<u8>)
    requires
        bytes_lt(a, b),
        bytes_lt(b, c),
    ensures
        bytes_lt(a, c),
    decreases a.len(),
{
    if a.len() > 0 && b.len() > 0 && c.len() > 0 {
        if a[0] == b[0] && b[0] == c[0] {
            lemma_bytes_lt_trans(a.drop_first(), b.drop_first(), c.drop_first());
        }
    }
}

/// UTF-8 encoding is injective: keys with equal encodings are equal.
pub proof fn lemma_encode_injective(a: Seq<char>, b: Seq<char>)
    requires
        encode_utf8(a) == encode_utf8(b),
    ensures
        a == b,
{
    encode_utf8_decode_utf8(a);
    encode_utf8_decode_utf8(b);
}

pub proof fn lemma_str_lt_trans(a: Seq<char>, b: Seq<char>, c: Seq<char>)
    requires
        str_lt(a, b),
        str_lt(b, c),
    ensures
        str_lt(a, c),
{
    lemma_bytes_lt_trans(encode_utf8(a), encode_utf8(b), encode_utf8(c));
}

pub proof fn lemma_str_lt_irrefl(a: Seq<char>)
    ensures
        !str_lt(a, a),
{
    lemma_bytes_lt_irrefl(encode_utf8(a));
}

/// Outcome of comparing two keys.
#[derive(Debug, Clone, Copy, PartialEq, Eq, Structural)]
pub enum KeyCmp {
    Less,
    Equal,
    Greater,
}

/// Compares two byte slices in byte-lexicographic order.
pub fn bytes_compare(x: &[u8], y: &[u8]) -> (r: KeyCmp)
    ensures
        r == KeyCmp::Less ==> bytes_lt(x@, y@),
        r == KeyCmp::Equal ==> x@ == y@,
        r == KeyCmp::Greater ==> bytes_lt(y@, x@),
    decreases x@.len(),
{
    if y.len() == 0 {
        if x.len() == 0 {
            proof {
                assert(x@ =~= y@);
            }
            KeyCmp::Equal
        } else {
            KeyCmp::Greater
        }
    } else if x.len() == 0 {
        KeyCmp::Less
    } else if x[0] < y[0] {
        KeyCmp::Less
    } else if x[0] == y[0] {
        let xt = &x[1..x.len()];
        let yt = &y[1..y.len()];
        let r = bytes_compare(xt, yt);
        proof {
            assert(xt@ =~= x@.drop_first());
            assert(yt@ =~= y@.drop_first());
            if r == KeyCmp::Equal {
                assert(x@.len() == y@.len());
                assert forall|i: int| 0 <= i < x@.len() implies x@[i] == y@[i] by {
                    if i > 0 {
                        assert(x@[i] == x@.drop_first()[i - 1]);
                        assert(y@[i] == y@.drop_first()[i - 1]);
                    }
                }
                assert(x@ =~= y@);
            }
        }
        r
    } else {
        KeyCmp::Greater
    }
}

/// Builds the stored composite key, or nothing when the connection id
/// carries a NUL byte and so cannot stand before the separator.
pub fn encode_ckey(connection_id: &String, controller: &String) -> (r: Option<Vec<u8>>)
    ensures
        r is Some <==> nul_free(encode_utf8(connection_id@)),
        r matches Some(k) ==> k@ == ckey_bytes(connection_id@, controller@),
{
    let cb = connection_id.as_str().as_bytes();
    let tb = controller.as_str().as_bytes();
    proof {
        assert(cb@ == encode_utf8(connection_id@));
        assert(tb@ == encode_utf8(controller@));
    }
    let mut key: Vec<u8> = Vec::new();
    let mut i: usize = 0;
    while i < cb.len()
        invariant
            i <= cb@.len(),
            cb@ == encode_utf8(connection_id@),
            key@ =~= cb@.take(i as int),
            forall|j: int| 0 <= j < i as int ==> cb@[j] != 0,
        decreases cb@.len() - i,
    {
        if cb[i] == 0 {
            proof {
                assert(encode_utf8(connection_id@)[i as int] == 0);
                assert(!nul_free(encode_utf8(connection_id@)));
            }
            return None;
        }
        key.push(cb[i]);
        proof {
            assert(key@ =~= cb@.take(i as int + 1));
        }
        i = i + 1;
    }
    proof {
        assert(key@ =~= cb@);
        assert(nul_free(cb@));
        assert(nul_free(encode_utf8(connection_id@)));
    }
    key.push(0);
    let mut j: usize = 0;
    while j < tb.len()
        invariant
            j <= tb@.len(),
            cb@ == encode_utf8(connection_id@),
            tb@ == encode_utf8(controller@),
            key@ =~= cb@ + seq![0u8] + tb@.take(j as int),
        decreases tb@.len() - j,
    {
        key.push(tb[j]);
        proof {
            assert(key@ =~= cb@ + seq![0u8] + tb@.take(j as int + 1));
        }
        j = j + 1;
    }
    proof {
        assert(key@ =~= ckey_bytes(connection_id@, controller@));
    }
    Some(key)
}

/// Compares two string keys in the substrate's byte-lexicographic order.
pub fn str_compare(a: &str, b: &str) -> (r: KeyCmp)
    ensures
        r == KeyCmp::Less ==> str_lt(a@, b@),
        r == KeyCmp::Equal ==> a@ == b@,
        r == KeyCmp::Greater ==> str_lt(b@, a@),
{
    let r = bytes_compare(a.as_bytes(), b.as_bytes());
    proof {
        if r == KeyCmp::Equal {
            lemma_encode_injective(a@, b@);
        }
    }
    r
}

} // verus!
