use vstd::prelude::*;

verus! {

/// The advisory set of configuration keys a format implementation declares it
/// understands. Purely descriptive: the conversion core never rejects an
/// argument bag for carrying undeclared keys, nor demands declared ones.
pub struct FormatOptions {
    keys: Vec<String>,
}

/// Whether the stored key sequence holds `k`.
spec fn in_keys(ks: Seq<String>, k: Seq<char>) -> bool {
    exists|i: int| 0 <= i < ks.len() && ks[i]@ == k
}

/// Whether one of the stored keys equals `key`, by view.
fn vec_holds_key(ks: &Vec<String>, key: &String) -> (r: bool)
    ensures
        r == in_keys(ks@, key@),
{
    let n = ks.len();
    let mut i: usize = 0;
    while i < n
        invariant
            n == ks@.len(),
            i <= n,
            forall|j: int| 0 <= j < i ==> ks@[j]@ != key@,
        decreases n - i,
    {
        if ks[i].eq(key) {
            proof {
                assert(ks@[i as int]@ == key@);
            }
            return true;
        }
        i += 1;
    }
    false
}

impl FormatOptions {
    /// The declared keys, as a set of character sequences.
    pub closed spec fn spec_keys(&self) -> Set<Seq<char>> {
        Set::new(|k: Seq<char>| in_keys(self.keys@, k))
    }

    #[verifier::type_invariant]
    closed spec fn keys_unique(&self) -> bool {
        forall|i: int, j: int|
            0 <= i < j < self.keys@.len() ==> self.keys@[i]@ != self.keys@[j]@
    }

    /// A descriptor that declares no keys at all.
    pub fn new() -> (r: FormatOptions)
        ensures
            r.spec_keys() == Set::<Seq<char>>::empty(),
    {
        let r = FormatOptions { keys: Vec::new() };
        proof {
            assert(r.spec_keys() =~= Set::<Seq<char>>::empty());
        }
        r
    }

    /// A descriptor holding exactly the given keys; duplicates collapse.
    pub fn from_keys(keys: &[&str]) -> (r: FormatOptions)
        ensures
            forall|k: Seq<char>|
                #[trigger] r.spec_keys().contains(k) <==> (exists|i: int|
                    0 <= i < keys@.len() && #[trigger] keys@[i]@ == k),
    {
        let mut acc: Vec<String> = Vec::new();
        let n = keys.len();
        let mut i: usize = 0;
        while i < n
            invariant
                n == keys@.len(),
                i <= n,
                forall|p: int, q: int| 0 <= p < q < acc@.len() ==> acc@[p]@ != acc@[q]@,
                forall|k: Seq<char>|
                    in_keys(acc@, k) <==> (exists|j: int|
                        0 <= j < i && #[trigger] keys@[j]@ == k),
            decreases n - i,
        {
            let key = keys[i].to_owned();
            let ghost old_acc = acc@;
            if !vec_holds_key(&acc, &key) {
                acc.push(key);
                proof {
                    assert forall|k: Seq<char>| in_keys(acc@, k) implies (exists|j: int|
                        0 <= j < i + 1 && #[trigger] keys@[j]@ == k) by {
                        let w = choose|w: int| 0 <= w < acc@.len() && acc@[w]@ == k;
                        if w < old_acc.len() {
                            assert(in_keys(old_acc, k));
                        } else {
                            assert(keys@[i as int]@ == k);
                        }
                    }
                    assert forall|k: Seq<char>| (exists|j: int|
                        0 <= j < i + 1 && #[trigger] keys@[j]@ == k) implies in_keys(
                        acc@,
                        k,
                    ) by {
                        let j = choose|j: int| 0 <= j < i + 1 && keys@[j]@ == k;
                        if j < i {
                            assert(in_keys(old_acc, k));
                            let w = choose|w: int| 0 <= w < old_acc.len() && old_acc[w]@ == k;
                            assert(acc@[w]@ == k);
                        } else {
                            assert(acc@[old_acc.len() as int]@ == k);
                        }
                    }
                }
            } else {
                proof {
                    assert(keys@[i as int]@ == key@);
                    assert forall|k: Seq<char>| (exists|j: int|
                        0 <= j < i + 1 && #[trigger] keys@[j]@ == k) implies in_keys(
                        acc@,
                        k,
                    ) by {
                        let j = choose|j: int| 0 <= j < i + 1 && keys@[j]@ == k;
                        if j < i {
                        } else {
                            assert(in_keys(acc@, key@));
                        }
                    }
                }
            }
            i += 1;
        }
        let r = FormatOptions { keys: acc };
        proof {
            assert forall|k: Seq<char>| #[trigger] r.spec_keys().contains(k) implies (exists|
                j: int,
            | 0 <= j < keys@.len() && #[trigger] keys@[j]@ == k) by {
                assert(in_keys(acc@, k));
            }
        }
        r
    }

    /// Whether the given key is declared.
    pub fn contains(&self, key: &str) -> (r: bool)
        ensures
            r == self.spec_keys().contains(key@),
    {
        let needle = key.to_owned();
        vec_holds_key(&self.keys, &needle)
    }

    /// The declared keys, each exactly once, in the order they were first given.
    pub fn keys(&self) -> (r: &Vec<String>)
        ensures
            forall|i: int, j: int| 0 <= i < j < r@.len() ==> r@[i]@ != r@[j]@,
            forall|i: int| 0 <= i < r@.len() ==> self.spec_keys().contains(#[trigger] r@[i]@),
            forall|k: Seq<char>|
                #[trigger] self.spec_keys().contains(k) ==> exists|i: int|
                    0 <= i < r@.len() && #[trigger] r@[i]@ == k,
    {
        proof {
            use_type_invariant(self);
        }
        &self.keys
    }
}

} // verus!
