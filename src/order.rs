use vstd::prelude::*;

use crate::resource_ref::ConfigMapRef;

verus! {

/// Strict lexicographic order on character sequences, by code point.
pub open spec fn chars_lt(a: Seq<char>, b: Seq<char>) -> bool
    decreases a.len(),
{
    if a.len() == 0 {
        b.len() > 0
    } else if b.len() == 0 {
        false
    } else if a[0] != b[0] {
        (a[0] as u32) < (b[0] as u32)
    } else {
        chars_lt(a.drop_first(), b.drop_first())
    }
}

/// Strict order on references: by namespace, then by name.
pub open spec fn ref_lt(p: (Seq<char>, Seq<char>), q: (Seq<char>, Seq<char>)) -> bool {
    chars_lt(p.0, q.0) || (p.0 == q.0 && chars_lt(p.1, q.1))
}

pub proof fn lemma_chars_lt_irreflexive(a: Seq<char>)
    ensures
        !chars_lt(a, a),
    decreases a.len(),
{
    if a.len() > 0 {
        lemma_chars_lt_irreflexive(a.drop_first());
    }
}

pub proof fn lemma_chars_lt_transitive(a: Seq<char>, b: Seq<char>, c: Seq<char>)
    requires
        chars_lt(a, b),
        chars_lt(b, c),
    ensures
        chars_lt(a, c),
    decreases a.len(),
{
    if a.len() > 0 && a[0] == b[0] && b[0] == c[0] {
        lemma_chars_lt_transitive(a.drop_first(), b.drop_first(), c.drop_first());
    }
}

/// Two sequences that agree on their first `i` characters compare as what
/// follows does.
pub proof fn lemma_chars_lt_skip(a: Seq<char>, b: Seq<char>, i: int)
    requires
        0 <= i <= a.len(),
        i <= b.len(),
        a.take(i) == b.take(i),
    ensures
        chars_lt(a, b) == chars_lt(a.skip(i), b.skip(i)),
    decreases i,
{
    if i > 0 {
        assert(a[0] == a.take(i)[0]);
        assert(b[0] == b.take(i)[0]);
        assert(a.drop_first().take(i - 1) =~= a.take(i).drop_first());
        assert(b.drop_first().take(i - 1) =~= b.take(i).drop_first());
        lemma_chars_lt_skip(a.drop_first(), b.drop_first(), i - 1);
        assert(a.drop_first().skip(i - 1) =~= a.skip(i));
        assert(b.drop_first().skip(i - 1) =~= b.skip(i));
    } else {
        assert(a.skip(0) =~= a);
        assert(b.skip(0) =~= b);
    }
}

pub proof fn lemma_ref_lt_irreflexive(p: (Seq<char>, Seq<char>))
    ensures
        !ref_lt(p, p),
{
    lemma_chars_lt_irreflexive(p.0);
    lemma_chars_lt_irreflexive(p.1);
}

pub proof fn lemma_ref_lt_transitive(
    p: (Seq<char>, Seq<char>),
    q: (Seq<char>, Seq<char>),
    r: (Seq<char>, Seq<char>),
)
    requires
        ref_lt(p, q),
        ref_lt(q, r),
    ensures
        ref_lt(p, r),
{
    if chars_lt(p.0, q.0) && chars_lt(q.0, r.0) {
        lemma_chars_lt_transitive(p.0, q.0, r.0);
    } else if !chars_lt(p.0, q.0) && !chars_lt(q.0, r.0) {
        lemma_chars_lt_transitive(p.1, q.1, r.1);
    }
}

/// How two values compare.
pub enum Cmp {
    Less,
    Equal,
    Greater,
}

/// Compares two strings by code point, lexicographically.
pub fn compare_chars(a: &str, b: &str) -> (r: Cmp)
    ensures
        r is Less ==> chars_lt(a@, b@),
        r is Equal ==> a@ == b@,
        r is Greater ==> chars_lt(b@, a@),
{
    let la = a.unicode_len();
    let lb = b.unicode_len();
    let mut i: usize = 0;
    while i < la && i < lb
        invariant
            la == a@.len(),
            lb == b@.len(),
            i <= la,
            i <= lb,
            a@.take(i as int) == b@.take(i as int),
        decreases la - i,
    {
        let x = a.get_char(i);
        let y = b.get_char(i);
        if x != y {
            proof {
                lemma_chars_lt_skip(a@, b@, i as int);
                lemma_chars_lt_skip(b@, a@, i as int);
                assert(a@.skip(i as int)[0] == x);
                assert(b@.skip(i as int)[0] == y);
            }
            if (x as u32) < (y as u32) {
                return Cmp::Less;
            } else {
                return Cmp::Greater;
            }
        }
        assert(a@.take(i + 1) =~= a@.take(i as int).push(x));
        assert(b@.take(i + 1) =~= b@.take(i as int).push(y));
        i = i + 1;
    }
    proof {
        lemma_chars_lt_skip(a@, b@, i as int);
        lemma_chars_lt_skip(b@, a@, i as int);
    }
    if la == lb {
        assert(a@ =~= a@.take(i as int));
        assert(b@ =~= b@.take(i as int));
        Cmp::Equal
    } else if i == la {
        Cmp::Less
    } else {
        Cmp::Greater
    }
}

/// Compares two references by namespace, then by name.
pub fn compare_refs(p: &ConfigMapRef, q: &ConfigMapRef) -> (r: Cmp)
    ensures
        r is Less ==> ref_lt(p@, q@),
        r is Equal ==> p@ == q@,
        r is Greater ==> ref_lt(q@, p@),
{
    match compare_chars(p.namespace.as_str(), q.namespace.as_str()) {
        Cmp::Less => Cmp::Less,
        Cmp::Greater => Cmp::Greater,
        Cmp::Equal => compare_chars(p.name.as_str(), q.name.as_str()),
    }
}

} // verus!
