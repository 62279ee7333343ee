use vstd::prelude::*;

use crate::order::{compare_refs, lemma_ref_lt_irreflexive, lemma_ref_lt_transitive, ref_lt, Cmp};
use crate::resource_ref::{parse_ref_spec, ConfigMapRef, ParseError};

verus! {

/// The config maps this adapter may update, fixed once built. They are held
/// sorted by namespace, then name, without repeats, so that a lookup takes a
/// logarithmic number of comparisons.
pub struct Allowlist {
    refs: Vec<ConfigMapRef>,
}

/// Strictly increasing by namespace, then name.
pub open spec fn sorted_refs(s: Seq<ConfigMapRef>) -> bool {
    forall|i: int, j: int| 0 <= i < j < s.len() ==> ref_lt(#[trigger] s[i]@, #[trigger] s[j]@)
}

/// The references that a sequence holds.
pub open spec fn refs_in(s: Seq<ConfigMapRef>) -> Set<(Seq<char>, Seq<char>)> {
    Set::new(|p: (Seq<char>, Seq<char>)| exists|i: int| 0 <= i < s.len() && s[i]@ == p)
}

/// Where `key` stands in `refs`: `Ok(i)` at index `i`, or `Err(p)` when it is
/// absent and belongs before index `p`.
fn locate(refs: &Vec<ConfigMapRef>, key: &ConfigMapRef) -> (r: Result<usize, usize>)
    requires
        sorted_refs(refs@),
    ensures
        match r {
            Ok(i) => i < refs@.len() && refs@[i as int]@ == key@,
            Err(p) => p <= refs@.len()
                && (forall|j: int| 0 <= j < p ==> ref_lt(#[trigger] refs@[j]@, key@))
                && (forall|j: int| p <= j < refs@.len() ==> ref_lt(key@, #[trigger] refs@[j]@)),
        },
{
    let mut lo: usize = 0;
    let mut hi: usize = refs.len();
    while lo < hi
        invariant
            sorted_refs(refs@),
            lo <= hi <= refs@.len(),
            forall|j: int| 0 <= j < lo ==> ref_lt(#[trigger] refs@[j]@, key@),
            forall|j: int| hi <= j < refs@.len() ==> ref_lt(key@, #[trigger] refs@[j]@),
        decreases hi - lo,
    {
        let mid = lo + (hi - lo) / 2;
        match compare_refs(key, &refs[mid]) {
            Cmp::Equal => {
                return Ok(mid);
            },
            Cmp::Less => {
                assert forall|j: int| mid <= j < refs@.len() implies ref_lt(key@, #[trigger] refs@[j]@) by {
                    if j > mid {
                        lemma_ref_lt_transitive(key@, refs@[mid as int]@, refs@[j]@);
                    }
                }
                hi = mid;
            },
            Cmp::Greater => {
                assert forall|j: int| 0 <= j < mid + 1 implies ref_lt(#[trigger] refs@[j]@, key@) by {
                    if j < mid {
                        lemma_ref_lt_transitive(refs@[j]@, refs@[mid as int]@, key@);
                    }
                }
                lo = mid + 1;
            },
        }
    }
    Err(lo)
}

/// Putting `c` where it belongs keeps a sequence sorted and adds `c` to what
/// it holds.
proof fn lemma_insert_sorted(s: Seq<ConfigMapRef>, p: int, c: ConfigMapRef)
    requires
        sorted_refs(s),
        0 <= p <= s.len(),
        forall|j: int| 0 <= j < p ==> ref_lt(#[trigger] s[j]@, c@),
        forall|j: int| p <= j < s.len() ==> ref_lt(c@, #[trigger] s[j]@),
    ensures
        sorted_refs(s.insert(p, c)),
        refs_in(s.insert(p, c)) == refs_in(s).insert(c@),
{
    let t = s.insert(p, c);
    assert forall|i: int, j: int| 0 <= i < j < t.len() implies ref_lt(#[trigger] t[i]@, #[trigger] t[j]@) by {
        if i < p && j > p {
            lemma_ref_lt_transitive(s[i]@, c@, s[j - 1]@);
        }
    }
    assert forall|q: (Seq<char>, Seq<char>)| #[trigger] refs_in(t).contains(q) <==> refs_in(s).insert(c@).contains(q) by {
        if refs_in(t).contains(q) {
            let i = choose|i: int| 0 <= i < t.len() && t[i]@ == q;
            if i < p {
                assert(s[i]@ == q);
            } else if i > p {
                assert(s[i - 1]@ == q);
            }
        }
        if refs_in(s).contains(q) {
            let i = choose|i: int| 0 <= i < s.len() && s[i]@ == q;
            if i < p {
                assert(t[i]@ == q);
            } else {
                assert(t[i + 1]@ == q);
            }
        }
        if q == c@ {
            assert(t[p]@ == q);
        }
    }
    assert(refs_in(t) =~= refs_in(s).insert(c@));
}

/// The references that the first `n` entries name.
pub open spec fn named_by(entries: Seq<String>, n: int) -> Set<(Seq<char>, Seq<char>)> {
    Set::new(
        |p: (Seq<char>, Seq<char>)|
            exists|i: int| 0 <= i < n && parse_ref_spec(entries[i]@) == Some(p),
    )
}

/// Every entry names a config map.
pub open spec fn all_entries_valid(entries: Seq<String>) -> bool {
    forall|i: int| 0 <= i < entries.len() ==> parse_ref_spec(#[trigger] entries[i]@) is Some
}

impl View for Allowlist {
    type V = Set<(Seq<char>, Seq<char>)>;

    closed spec fn view(&self) -> Set<(Seq<char>, Seq<char>)> {
        refs_in(self.refs@)
    }
}

impl Allowlist {
    #[verifier::type_invariant]
    spec fn well_formed(self) -> bool {
        sorted_refs(self.refs@)
    }

    /// Builds the allowlist from entries of the form `namespace/name`. All or
    /// nothing: the first entry that does not parse is the error.
    pub fn build(entries: &Vec<String>) -> (r: Result<Allowlist, ParseError>)
        ensures
            match r {
                Ok(a) => all_entries_valid(entries@) && a@ == named_by(entries@, entries@.len() as int),
                Err(e) => exists|i: int|
                    0 <= i < entries@.len() && parse_ref_spec(entries@[i]@) is None
                        && e.entry@ == entries@[i]@ && forall|j: int|
                        0 <= j < i ==> parse_ref_spec(#[trigger] entries@[j]@) is Some,
            },
    {
        let mut refs: Vec<ConfigMapRef> = Vec::new();
        let mut i: usize = 0;
        assert(refs_in(refs@) =~= named_by(entries@, 0));
        while i < entries.len()
            invariant
                i <= entries@.len(),
                sorted_refs(refs@),
                forall|j: int| 0 <= j < i ==> parse_ref_spec(#[trigger] entries@[j]@) is Some,
                refs_in(refs@) == named_by(entries@, i as int),
            decreases entries@.len() - i,
        {
            match ConfigMapRef::parse(entries[i].as_str()) {
                Ok(c) => {
                    match locate(&refs, &c) {
                        Ok(_) => {
                            assert(refs_in(refs@).insert(c@) =~= refs_in(refs@));
                        },
                        Err(p) => {
                            proof {
                                lemma_insert_sorted(refs@, p as int, c);
                            }
                            refs.insert(p, c);
                        },
                    }
                    assert(named_by(entries@, i + 1) =~= named_by(entries@, i as int).insert(c@));
                },
                Err(e) => {
                    return Err(e);
                },
            }
            i = i + 1;
        }
        let a = Allowlist { refs };
        Ok(a)
    }

    /// Whether `r` is on the list.
    pub fn contains(&self, r: &ConfigMapRef) -> (b: bool)
        ensures
            b == self@.contains(r@),
    {
        proof {
            use_type_invariant(self);
        }
        match locate(&self.refs, r) {
            Ok(_) => true,
            Err(_) => {
                assert forall|j: int| 0 <= j < self.refs@.len() implies self.refs@[j]@ != r@ by {
                    lemma_ref_lt_irreflexive(r@);
                }
                false
            },
        }
    }
}

} // verus!
