//! Names as the file system holds them: bytes that need not be valid Unicode.
use crate::text::chars_of;
use vstd::prelude::*;

verus! {

/// An ASCII text as bytes.
pub open spec fn ascii_of(s: Seq<char>) -> Seq<u8> {
    s.map_values(|c: char| c as u8)
}

pub fn ascii_bytes(s: &str) -> (r: Vec<u8>)
    requires
        forall|i: int| 0 <= i < s@.len() ==> (#[trigger] s@[i]) < '\u{80}',
    ensures
        r@ == ascii_of(s@),
{
    let cs = chars_of(s);
    let mut out: Vec<u8> = Vec::new();
    let mut i: usize = 0;
    while i < cs.len()
        invariant
            cs@ == s@,
            i <= cs@.len(),
            out@ == ascii_of(s@).take(i as int),
        decreases cs@.len() - i,
    {
        out.push(cs[i] as u8);
        i += 1;
        assert(out@ =~= ascii_of(s@).take(i as int));
    }
    assert(out@ =~= ascii_of(s@));
    out
}

/// `a` ends in `b`.
pub open spec fn ends_in(a: Seq<u8>, b: Seq<u8>) -> bool {
    a.len() >= b.len() && a.skip(a.len() - b.len()) == b
}

pub fn bytes_end_in(a: &Vec<u8>, b: &Vec<u8>) -> (r: bool)
    ensures
        r == ends_in(a@, b@),
{
    if a.len() < b.len() {
        return false;
    }
    let cut: usize = a.len() - b.len();
    let ghost tail = a@.skip(cut as int);
    let mut i: usize = 0;
    while i < b.len()
        invariant
            i <= b@.len(),
            cut + b.len() == a.len(),
            tail == a@.skip(cut as int),
            forall|j: int| 0 <= j < i ==> tail[j] == b@[j],
        decreases b@.len() - i,
    {
        if a[cut + i] != b[i] {
            assert(tail[i as int] != b@[i as int]);
            return false;
        }
        i += 1;
    }
    assert(tail =~= b@);
    true
}

/// `a` comes before `b` in the order of their bytes, a name before its continuations.
pub open spec fn bytes_less(a: Seq<u8>, b: Seq<u8>) -> bool
    decreases a.len(),
{
    if b.len() == 0 {
        false
    } else if a.len() == 0 {
        true
    } else if a[0] == b[0] {
        bytes_less(a.drop_first(), b.drop_first())
    } else {
        a[0] < b[0]
    }
}

pub fn bytes_before(a: &Vec<u8>, b: &Vec<u8>) -> (r: bool)
    ensures
        r == bytes_less(a@, b@),
{
    let mut i: usize = 0;
    assert(a@.skip(0) =~= a@ && b@.skip(0) =~= b@);
    while i < a.len() && i < b.len() && a[i] == b[i]
        invariant
            i <= a@.len(),
            i <= b@.len(),
            bytes_less(a@, b@) == bytes_less(a@.skip(i as int), b@.skip(i as int)),
        decreases a@.len() - i,
    {
        assert(a@.skip(i as int).drop_first() =~= a@.skip(i + 1));
        assert(b@.skip(i as int).drop_first() =~= b@.skip(i + 1));
        i += 1;
    }
    if i >= b.len() {
        false
    } else if i >= a.len() {
        true
    } else {
        a[i] < b[i]
    }
}

/// The order of names is irreflexive, transitive and total.
pub proof fn lemma_bytes_order(a: Seq<u8>, b: Seq<u8>, c: Seq<u8>)
    ensures
        !bytes_less(a, a),
        bytes_less(a, b) && bytes_less(b, c) ==> bytes_less(a, c),
        bytes_less(a, b) || bytes_less(b, a) || a == b,
        !(bytes_less(a, b) && bytes_less(b, a)),
    decreases a.len() + b.len() + c.len(),
{
    if a.len() > 0 {
        let b2 = if b.len() > 0 {
            b.drop_first()
        } else {
            b
        };
        let c2 = if c.len() > 0 {
            c.drop_first()
        } else {
            c
        };
        lemma_bytes_order(a.drop_first(), b2, c2);
        if b.len() > 0 && a[0] == b[0] && a.drop_first() == b.drop_first() {
            assert(a =~= seq![a[0]] + a.drop_first());
            assert(b =~= seq![b[0]] + b.drop_first());
        }
    } else if b.len() == 0 {
        assert(a =~= b);
    }
}

// ---------------------------------------------------------------------------
// Laws
// ---------------------------------------------------------------------------

/// A text ends in another where something stands in front of the other.
pub proof fn law_ending(a: Seq<u8>, b: Seq<u8>)
    ensures
        ends_in(a + b, b),
        ends_in(a, b) ==> a == a.take(a.len() - b.len()) + b,
{
    assert((a + b).skip((a + b).len() - b.len()) =~= b);
    if ends_in(a, b) {
        assert(a =~= a.take(a.len() - b.len()) + a.skip(a.len() - b.len()));
    }
}

/// Each ASCII character is the byte of its number, in its place.
pub proof fn law_ascii_bytes(s: Seq<char>, c: char)
    requires
        c < '\u{80}',
    ensures
        ascii_of(s.push(c)).len() == s.len() + 1,
        ascii_of(s.push(c)).drop_last() == ascii_of(s),
        ascii_of(s.push(c)).last() as int == c as int,
{
    assert(ascii_of(s.push(c)).drop_last() =~= ascii_of(s));
}

/// Byte texts are ordered by the first byte in which they differ, and a text comes before
/// every longer one that begins with it.
pub proof fn law_byte_order_by_first_difference(p: Seq<u8>, x: u8, a: Seq<u8>, y: u8, b: Seq<u8>)
    requires
        x != y,
    ensures
        bytes_less(p + seq![x] + a, p + seq![y] + b) == (x < y),
        bytes_less(p, p + seq![x] + a),
        !bytes_less(p + seq![x] + a, p),
        !bytes_less(p, p),
    decreases p.len(),
{
    if p.len() > 0 {
        let t = p.drop_first();
        law_byte_order_by_first_difference(t, x, a, y, b);
        assert((p + seq![x] + a).drop_first() =~= t + seq![x] + a);
        assert((p + seq![y] + b).drop_first() =~= t + seq![y] + b);
    }
}

} // verus!
