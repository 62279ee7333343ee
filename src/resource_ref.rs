use vstd::prelude::*;

verus! {

/// A config map named by namespace and name.
#[derive(Debug, Clone, PartialEq, Eq, PartialOrd, Ord)]
pub struct ConfigMapRef {
    pub namespace: String,
    pub name: String,
}

/// The error for an allowlist entry that is not of the form `namespace/name`.
#[derive(Debug, Clone, PartialEq, Eq)]
pub struct ParseError {
    pub entry: String,
}

impl View for ConfigMapRef {
    type V = (Seq<char>, Seq<char>);

    open spec fn view(&self) -> (Seq<char>, Seq<char>) {
        (self.namespace@, self.name@)
    }
}

/// `s` holds exactly one `/`, at position `k`, with characters on both sides.
pub open spec fn splits_at(s: Seq<char>, k: int) -> bool {
    &&& 0 < k < s.len() - 1
    &&& s[k] == '/'
    &&& forall|j: int| 0 <= j < s.len() && j != k ==> s[j] != '/'
}

/// What an allowlist entry names: `Some((namespace, name))` when the entry is
/// two non-empty parts around a single `/`, `None` otherwise.
pub open spec fn parse_ref_spec(s: Seq<char>) -> Option<(Seq<char>, Seq<char>)> {
    if exists|k: int| splits_at(s, k) {
        let k = choose|k: int| splits_at(s, k);
        Some((s.take(k), s.skip(k + 1)))
    } else {
        None
    }
}

/// An entry has at most one position where it splits.
pub proof fn lemma_split_unique(s: Seq<char>, k1: int, k2: int)
    requires
        splits_at(s, k1),
        splits_at(s, k2),
    ensures
        k1 == k2,
{
    if k1 != k2 {
        assert(s[k2] != '/');
    }
}

impl ConfigMapRef {
    /// Builds a reference from its two parts, as they came.
    pub fn new(namespace: String, name: String) -> (r: ConfigMapRef)
        ensures
            r@ == (namespace@, name@),
    {
        ConfigMapRef { namespace, name }
    }

    /// Two references are the same when both parts match exactly.
    pub fn same(&self, other: &ConfigMapRef) -> (r: bool)
        ensures
            r == (self@ == other@),
    {
        self.namespace == other.namespace && self.name == other.name
    }

    /// Parses an entry `namespace/name`. The entry must hold exactly one `/`
    /// with a non-empty part on each side; anything else (no `/`, several,
    /// an empty part, the empty string) is an error naming the entry.
    pub fn parse(s: &str) -> (r: Result<ConfigMapRef, ParseError>)
        ensures
            match r {
                Ok(c) => parse_ref_spec(s@) == Some(c@),
                Err(e) => parse_ref_spec(s@) is None && e.entry@ == s@,
            },
    {
        let n = s.unicode_len();
        let mut slash: Option<usize> = None;
        let mut several = false;
        let mut i: usize = 0;
        while i < n
            invariant
                n == s@.len(),
                i <= n,
                !several ==> match slash {
                    Some(k) => k < i && s@[k as int] == '/' && forall|j: int|
                        0 <= j < i && j != k ==> s@[j] != '/',
                    None => forall|j: int| 0 <= j < i ==> s@[j] != '/',
                },
                several ==> exists|a: int, b: int|
                    0 <= a < b < s@.len() && s@[a] == '/' && s@[b] == '/',
            decreases n - i,
        {
            let c = s.get_char(i);
            if c == '/' && !several {
                match slash {
                    Some(k) => {
                        several = true;
                        assert(s@[k as int] == '/' && s@[i as int] == '/');
                    },
                    None => {
                        slash = Some(i);
                    },
                }
            }
            i = i + 1;
        }
        if several {
            proof {
                if exists|k: int| splits_at(s@, k) {
                    let k = choose|k: int| splits_at(s@, k);
                    let (a, b) = choose|a: int, b: int|
                        0 <= a < b < s@.len() && s@[a] == '/' && s@[b] == '/';
                    assert(a == k);
                    assert(b == k);
                }
            }
            return Err(ParseError { entry: String::from_str(s) });
        }
        match slash {
            Some(k) => {
                if k == 0 || k + 1 == n {
                    proof {
                        if exists|j: int| splits_at(s@, j) {
                            let j = choose|j: int| splits_at(s@, j);
                            assert(j == k);
                        }
                    }
                    Err(ParseError { entry: String::from_str(s) })
                } else {
                    assert(splits_at(s@, k as int));
                    proof {
                        let j = choose|j: int| splits_at(s@, j);
                        lemma_split_unique(s@, j, k as int);
                    }
                    let namespace = String::from_str(s.substring_char(0, k));
                    let name = String::from_str(s.substring_char(k + 1, n));
                    assert(namespace@ == s@.take(k as int));
                    assert(name@ == s@.skip(k + 1));
                    Ok(ConfigMapRef { namespace, name })
                }
            },
            None => {
                proof {
                    if exists|j: int| splits_at(s@, j) {
                        let j = choose|j: int| splits_at(s@, j);
                        assert(s@[j] == '/');
                    }
                }
                Err(ParseError { entry: String::from_str(s) })
            },
        }
    }
}

impl std::str::FromStr for ConfigMapRef {
    type Err = ParseError;

    fn from_str(s: &str) -> Result<ConfigMapRef, ParseError> {
        ConfigMapRef::parse(s)
    }
}

} // verus!
