//! The order in which hostnames are kept.

use vstd::prelude::*;
use vstd::string::is_ascii;

verus! {

/// How one text stands to another in dictionary order.
#[derive(Debug, Clone, Copy, PartialEq, Eq, Structural)]
pub enum Place {
    /// It comes before.
    Before,
    /// It is the same text.
    Same,
    /// It comes after.
    After,
}

/// Dictionary order: `a` comes before `b`.
pub open spec fn precedes(a: Seq<char>, b: Seq<char>) -> bool {
    exists|k: int| first_difference(a, b, k)
}

/// The texts agree up to `k`, and there `a` ends or holds the smaller character.
pub open spec fn first_difference(a: Seq<char>, b: Seq<char>, k: int) -> bool {
    &&& 0 <= k <= a.len()
    &&& k < b.len()
    &&& a.take(k) == b.take(k)
    &&& k < a.len() ==> a[k] < b[k]
}

/// No text comes before itself.
pub proof fn lemma_precedes_irreflexive(a: Seq<char>)
    ensures
        !precedes(a, a),
{
}

/// The order is transitive.
pub proof fn lemma_precedes_transitive(a: Seq<char>, b: Seq<char>, c: Seq<char>)
    requires
        precedes(a, b),
        precedes(b, c),
    ensures
        precedes(a, c),
{
    let j = choose|k: int| first_difference(a, b, k);
    let k = choose|k: int| first_difference(b, c, k);
    let m = if j <= k { j } else { k };
    assert forall|i: int| 0 <= i < m implies a[i] == c[i] by {
        assert(a.take(j)[i] == b.take(j)[i]);
        assert(b.take(k)[i] == c.take(k)[i]);
    }
    assert(a.take(m) =~= c.take(m));
    if j < k {
        assert(b.take(k)[j] == c.take(k)[j]);
    } else if k < j {
        assert(a.take(j)[k] == b.take(j)[k]);
    }
    assert(first_difference(a, c, m));
}

/// Find how `a` stands to `b`.
pub(crate) fn place(a: &str, b: &str) -> (place: Place)
    requires
        is_ascii(a),
        is_ascii(b),
    ensures
        match place {
            Place::Before => precedes(a@, b@),
            Place::Same => a@ == b@,
            Place::After => precedes(b@, a@),
        },
{
    broadcast use vstd::string::is_ascii_spec_bytes;

    let x = a.as_bytes();
    let y = b.as_bytes();
    let mut i: usize = 0;
    while i < x.len() && i < y.len()
        invariant
            is_ascii(a),
            is_ascii(b),
            x@.len() == a@.len(),
            y@.len() == b@.len(),
            forall|j: int| 0 <= j < a@.len() ==> x@[j] == a@[j] as u8,
            forall|j: int| 0 <= j < b@.len() ==> y@[j] == b@[j] as u8,
            i <= x.len(),
            i <= y.len(),
            a@.take(i as int) == b@.take(i as int),
        decreases x.len() - i,
    {
        assert(a@[i as int] as u8 == a@[i as int] as int);
        if x[i] < y[i] {
            assert(first_difference(a@, b@, i as int));
            return Place::Before;
        }
        if x[i] > y[i] {
            assert(first_difference(b@, a@, i as int));
            return Place::After;
        }
        assert(a@.take(i + 1) =~= a@.take(i as int).push(a@[i as int]));
        assert(b@.take(i + 1) =~= b@.take(i as int).push(b@[i as int]));
        i += 1;
    }
    if i < y.len() {
        assert(first_difference(a@, b@, i as int));
        Place::Before
    } else if i < x.len() {
        assert(first_difference(b@, a@, i as int));
        Place::After
    } else {
        assert(a@.take(i as int) =~= a@);
        assert(b@.take(i as int) =~= b@);
        Place::Same
    }
}

/// A text comes before every longer text that begins with it.
pub proof fn law_shorter_text_comes_first(a: Seq<char>, rest: Seq<char>)
    requires
        rest.len() > 0,
    ensures
        precedes(a, a + rest),
{
    assert(a.take(a.len() as int) =~= (a + rest).take(a.len() as int));
    assert(first_difference(a, a + rest, a.len() as int));
}

/// The first character in which two texts differ decides, whatever follows it.
pub proof fn law_first_difference_decides(
    common: Seq<char>,
    x: char,
    y: char,
    a: Seq<char>,
    b: Seq<char>,
)
    requires
        x < y,
    ensures
        precedes(common.push(x) + a, common.push(y) + b),
{
    let k = common.len() as int;
    assert((common.push(x) + a).take(k) =~= (common.push(y) + b).take(k));
    assert(first_difference(common.push(x) + a, common.push(y) + b, k));
}

/// Of two texts either one comes first, and only one, or they are the same.
pub proof fn law_order_is_total(a: Seq<char>, b: Seq<char>)
    ensures
        precedes(a, b) || precedes(b, a) || a == b,
        precedes(a, b) ==> !precedes(b, a) && a != b,
{
    assert(a.take(0) =~= b.take(0));
    lemma_comparable(a, b, 0);
    lemma_precedes_irreflexive(a);
    if precedes(a, b) && precedes(b, a) {
        lemma_precedes_transitive(a, b, a);
    }
}

proof fn lemma_comparable(a: Seq<char>, b: Seq<char>, k: int)
    requires
        0 <= k <= a.len(),
        k <= b.len(),
        a.take(k) == b.take(k),
    ensures
        precedes(a, b) || precedes(b, a) || a == b,
    decreases a.len() - k,
{
    if k < a.len() && k < b.len() && a[k] == b[k] {
        assert(a.take(k + 1) =~= a.take(k).push(a[k]));
        assert(b.take(k + 1) =~= b.take(k).push(b[k]));
        lemma_comparable(a, b, k + 1);
    } else if k == a.len() && k == b.len() {
        assert(a =~= a.take(k));
        assert(b =~= b.take(k));
    } else if k == a.len() || (k < b.len() && a[k] < b[k]) {
        assert(first_difference(a, b, k));
    } else {
        assert(first_difference(b, a, k));
    }
}

} // verus!
