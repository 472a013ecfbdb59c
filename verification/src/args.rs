use vstd::prelude::*;
use vstd::string::StrSliceExecFns;

verus! {

// ---------------------------------------------------------------------------
// Base-10 signed integer parsing, the `long` accessor's notion of a number:
// an optional sign, then one or more decimal digits, the whole string and
// nothing else, with the value inside `i64`'s range.
// ---------------------------------------------------------------------------

/// Whether `c` is a decimal digit.
pub open spec fn is_decimal_digit(c: char) -> bool {
    48 <= c as u32 && c as u32 <= 57
}

/// The numeric value of a decimal digit.
pub open spec fn digit_of(c: char) -> int {
    c as u32 - 48
}

/// Whether every character of `s` is a decimal digit.
pub open spec fn all_digits(s: Seq<char>) -> bool {
    forall|i: int| 0 <= i < s.len() ==> is_decimal_digit(#[trigger] s[i])
}

/// The value of a digit string read in base 10.
pub open spec fn digits_value(s: Seq<char>) -> int
    decreases s.len(),
{
    if s.len() == 0 {
        0
    } else {
        digits_value(s.drop_last()) * 10 + digit_of(s.last())
    }
}

/// The digit run of `s` with its sign, once an optional leading `+` or `-`
/// is split off.
pub open spec fn spec_parse_digits(digits: Seq<char>, neg: bool) -> Option<int> {
    if digits.len() > 0 && all_digits(digits) {
        let v = if neg {
            -digits_value(digits)
        } else {
            digits_value(digits)
        };
        if i64::MIN <= v <= i64::MAX {
            Some(v)
        } else {
            None
        }
    } else {
        None
    }
}

/// What parsing `s` as a base-10 signed 64-bit integer yields: the value,
/// or nothing when `s` is not such a number.
pub open spec fn spec_parse_long(s: Seq<char>) -> Option<int> {
    if s.len() > 0 && (s[0] == '-' || s[0] == '+') {
        spec_parse_digits(s.subrange(1, s.len() as int), s[0] == '-')
    } else {
        spec_parse_digits(s, false)
    }
}

proof fn lemma_digits_value_nonneg(s: Seq<char>)
    requires
        all_digits(s),
    ensures
        digits_value(s) >= 0,
    decreases s.len(),
{
    if s.len() > 0 {
        assert(all_digits(s.drop_last()));
        lemma_digits_value_nonneg(s.drop_last());
    }
}

/// Reading further digits never shrinks the value.
proof fn lemma_digits_value_extend(s: Seq<char>, i: int)
    requires
        all_digits(s),
        0 <= i <= s.len(),
    ensures
        digits_value(s) >= digits_value(s.subrange(0, i)),
    decreases s.len() - i,
{
    if i < s.len() {
        let p = s.subrange(0, i);
        let q = s.subrange(0, i + 1);
        assert(q.drop_last() =~= p);
        assert(all_digits(p));
        lemma_digits_value_nonneg(p);
        assert(digits_value(q) == digits_value(p) * 10 + digit_of(q.last()));
        lemma_digits_value_extend(s, i + 1);
    } else {
        assert(s.subrange(0, i) =~= s);
    }
}

/// Parses `s` as a base-10 signed 64-bit integer, the whole string at once;
/// yields nothing on any malformed or out-of-range input.
pub fn parse_long(s: &str) -> (r: Option<i64>)
    ensures
        match r {
            Some(v) => spec_parse_long(s@) == Some(v as int),
            None => spec_parse_long(s@) is None,
        },
{
    let n = s.unicode_len();
    if n == 0 {
        return None;
    }
    let first = s.get_char(0);
    let neg = first == '-';
    let start: usize = if first == '-' || first == '+' {
        1
    } else {
        0
    };
    let ghost digits = s@.subrange(start as int, n as int);
    proof {
        if start == 1 {
            assert(spec_parse_long(s@) == spec_parse_digits(digits, neg));
        } else {
            assert(digits =~= s@);
        }
    }
    if start == n {
        return None;
    }
    // The largest magnitude that stays in range, without its last digit,
    // and that last digit itself: i64::MAX is 9223372036854775807 and
    // i64::MIN is -9223372036854775808.
    let premul: u64 = 922337203685477580;
    let maxlast: u64 = if neg {
        8
    } else {
        7
    };
    let mut mag: u64 = 0;
    let mut i: usize = start;
    while i < n
        invariant
            start <= i <= n,
            n == s@.len(),
            digits == s@.subrange(start as int, n as int),
            start < n,
            spec_parse_long(s@) == spec_parse_digits(digits, neg),
            premul == 922337203685477580u64,
            maxlast == (if neg { 8u64 } else { 7u64 }),
            all_digits(s@.subrange(start as int, i as int)),
            mag == digits_value(s@.subrange(start as int, i as int)),
            mag <= 10 * premul + maxlast,
        decreases n - i,
    {
        let ghost prefix = s@.subrange(start as int, i as int);
        let c = s.get_char(i);
        let cv = c as u32;
        if cv < 48 || cv > 57 {
            proof {
                assert(digits[i - start] == s@[i as int]);
                assert(!is_decimal_digit(digits[i - start]));
            }
            return None;
        }
        let d = (cv - 48) as u64;
        let ghost longer = s@.subrange(start as int, i + 1);
        proof {
            assert(longer.drop_last() =~= prefix);
            assert(longer.last() == s@[i as int]);
            assert(digits_value(longer) == mag * 10 + d);
        }
        if mag > premul || (mag == premul && d > maxlast) {
            proof {
                assert(digits_value(longer) > 10 * premul + maxlast);
                assert(longer =~= digits.subrange(0, i + 1 - start));
                if all_digits(digits) {
                    lemma_digits_value_extend(digits, i + 1 - start);
                    assert(digits_value(digits) > 10 * premul + maxlast);
                }
            }
            return None;
        }
        mag = mag * 10 + d;
        proof {
            assert(prefix.push(s@[i as int]) =~= longer);
        }
        i += 1;
    }
    proof {
        assert(s@.subrange(start as int, i as int) =~= digits);
        assert(digits.len() > 0);
        lemma_digits_value_nonneg(digits);
    }
    if neg {
        if mag == 9223372036854775808u64 {
            Some(i64::MIN)
        } else {
            Some(-(mag as i64))
        }
    } else {
        Some(mag as i64)
    }
}

// ---------------------------------------------------------------------------
// The argument bag.
// ---------------------------------------------------------------------------

/// The first byte of a character's UTF-8 encoding.
pub open spec fn utf8_first_byte(c: char) -> u8 {
    let cp = c as u32;
    if cp < 0x80 {
        cp as u8
    } else if cp < 0x800 {
        (0xC0u32 | (cp >> 6u32)) as u8
    } else if cp < 0x10000 {
        (0xE0u32 | (cp >> 12u32)) as u8
    } else {
        (0xF0u32 | (cp >> 18u32)) as u8
    }
}

struct ArgEntry {
    key: String,
    values: Vec<String>,
}

/// The views of a sequence of strings.
pub open spec fn string_views(vs: Seq<String>) -> Seq<Seq<char>> {
    vs.map_values(|v: String| v@)
}

spec fn lookup_values(s: Seq<ArgEntry>, k: Seq<char>) -> Option<Seq<Seq<char>>>
    decreases s.len(),
{
    if s.len() == 0 {
        None
    } else if s[0].key@ == k {
        Some(string_views(s[0].values@))
    } else {
        lookup_values(s.drop_first(), k)
    }
}

proof fn lemma_lookup_from(s: Seq<ArgEntry>, k: Seq<char>, i: int)
    requires
        0 <= i <= s.len(),
        forall|j: int| 0 <= j < i ==> s[j].key@ != k,
    ensures
        lookup_values(s, k) == lookup_values(s.subrange(i, s.len() as int), k),
    decreases i,
{
    if i == 0 {
        assert(s.subrange(0, s.len() as int) =~= s);
    } else {
        let t = s.drop_first();
        assert(forall|j: int| 0 <= j < i - 1 ==> t[j].key@ != k);
        lemma_lookup_from(t, k, i - 1);
        assert(t.subrange(i - 1, t.len() as int) =~= s.subrange(i, s.len() as int));
    }
}

/// An ordered, multi-valued, named-parameter container handed by the caller
/// to a format implementation's read or write call. Every accessor is total:
/// a missing key, an empty value list or a malformed value all come back as
/// absence, never as an error.
pub struct Args {
    entries: Vec<ArgEntry>,
}

impl Args {
    /// The ordered value list stored under key `k`, if any.
    pub closed spec fn spec_list(&self, k: Seq<char>) -> Option<Seq<Seq<char>>> {
        lookup_values(self.entries@, k)
    }

    /// The first value stored under `k`: absent when the key is missing or
    /// its list is empty.
    pub open spec fn spec_string(&self, k: Seq<char>) -> Option<Seq<char>> {
        match self.spec_list(k) {
            Some(vs) => if vs.len() > 0 {
                Some(vs[0])
            } else {
                None
            },
            None => None,
        }
    }

    /// The first value under `k` parsed as a base-10 signed integer; parse
    /// failure counts as absence.
    pub open spec fn spec_long(&self, k: Seq<char>) -> Option<int> {
        match self.spec_string(k) {
            Some(s) => spec_parse_long(s),
            None => None,
        }
    }

    /// The first byte of the first value under `k`: absent when the key is
    /// missing or the value is the empty string.
    pub open spec fn spec_char(&self, k: Seq<char>) -> Option<u8> {
        match self.spec_string(k) {
            Some(s) => if s.len() > 0 {
                Some(utf8_first_byte(s[0]))
            } else {
                None
            },
            None => None,
        }
    }

    /// An empty bag.
    pub fn new() -> (r: Args)
        ensures
            forall|k: Seq<char>| #[trigger] r.spec_list(k) is None,
    {
        Args { entries: Vec::new() }
    }

    /// Appends `value` to the list stored under `key`, creating the list when
    /// the key is new; other keys are untouched.
    pub fn add(&mut self, key: &str, value: &str)
        ensures
            final(self).spec_list(key@) == match old(self).spec_list(key@) {
                Some(vs) => Some(vs.push(value@)),
                None => Some(seq![value@]),
            },
            forall|k: Seq<char>|
                k != key@ ==> final(self).spec_list(k) == #[trigger] old(self).spec_list(k),
    {
        let ghost orig = self.entries@;
        let needle = key.to_owned();
        let n = self.entries.len();
        let mut i: usize = 0;
        while i < n
            invariant
                self.entries@ == orig,
                old(self).entries@ == orig,
                n == self.entries@.len(),
                i <= n,
                needle@ == key@,
                forall|j: int| 0 <= j < i ==> self.entries@[j].key@ != key@,
            decreases n - i,
        {
            if self.entries[i].key.eq(&needle) {
                proof {
                    assert(self.entries@[i as int].key@ == key@);
                }
                let mut e = self.entries.remove(i);
                e.values.push(value.to_owned());
                let ghost e_snap = e;
                self.entries.insert(i, e);
                proof {
                    assert(self.entries@ =~= orig.update(i as int, e_snap));
                    lemma_lookup_update(orig, i as int, e_snap, key@);
                    assert(string_views(e_snap.values@) =~= string_views(
                        orig[i as int].values@,
                    ).push(value@));
                    lemma_lookup_from(orig, key@, i as int);
                    assert(lookup_values(orig.subrange(i as int, orig.len() as int), key@)
                        == Some(string_views(orig[i as int].values@)));
                    assert forall|k: Seq<char>| k != key@ implies lookup_values(
                        self.entries@,
                        k,
                    ) == #[trigger] lookup_values(orig, k) by {
                        lemma_lookup_update(orig, i as int, e_snap, k);
                    }
                }
                return ;
            }
            i += 1;
        }
        let mut vs: Vec<String> = Vec::new();
        vs.push(value.to_owned());
        let e = ArgEntry { key: needle, values: vs };
        let ghost e_snap = e;
        self.entries.push(e);
        proof {
            lemma_lookup_push(orig, e_snap, key@);
            assert(string_views(e_snap.values@) =~= seq![value@]);
            assert forall|k: Seq<char>| k != key@ implies lookup_values(self.entries@, k)
                == #[trigger] lookup_values(orig, k) by {
                lemma_lookup_push(orig, e_snap, k);
            }
            lemma_lookup_from(orig, key@, orig.len() as int);
            assert(orig.subrange(orig.len() as int, orig.len() as int) =~= Seq::<
                ArgEntry,
            >::empty());
        }
    }

    /// The value list under `key`, in insertion order, if the key is present.
    pub fn list(&self, key: &str) -> (r: Option<&Vec<String>>)
        ensures
            match r {
                Some(vs) => self.spec_list(key@) == Some(string_views(vs@)),
                None => self.spec_list(key@) is None,
            },
    {
        let needle = key.to_owned();
        let n = self.entries.len();
        let mut i: usize = 0;
        while i < n
            invariant
                n == self.entries@.len(),
                i <= n,
                needle@ == key@,
                forall|j: int| 0 <= j < i ==> self.entries@[j].key@ != key@,
            decreases n - i,
        {
            if self.entries[i].key.eq(&needle) {
                proof {
                    assert(self.entries@[i as int].key@ == key@);
                    lemma_lookup_from(self.entries@, key@, i as int);
                }
                return Some(&self.entries[i].values);
            }
            i += 1;
        }
        proof {
            lemma_lookup_from(self.entries@, key@, n as int);
            assert(self.entries@.subrange(n as int, n as int) =~= Seq::<ArgEntry>::empty());
        }
        None
    }

    /// The first value under `key`, if any.
    pub fn string(&self, key: &str) -> (r: Option<String>)
        ensures
            match r {
                Some(s) => self.spec_string(key@) == Some(s@),
                None => self.spec_string(key@) is None,
            },
    {
        match self.list(key) {
            Some(vs) => if vs.len() > 0 {
                Some(vs[0].clone())
            } else {
                None
            },
            None => None,
        }
    }

    /// The first value under `key` parsed as a base-10 signed integer.
    pub fn long(&self, key: &str) -> (r: Option<i64>)
        ensures
            match r {
                Some(v) => self.spec_long(key@) == Some(v as int),
                None => self.spec_long(key@) is None,
            },
    {
        match self.string(key) {
            Some(s) => parse_long(s.as_str()),
            None => None,
        }
    }

    /// The first byte of the first value under `key`.
    pub fn char(&self, key: &str) -> (r: Option<u8>)
        ensures
            r == self.spec_char(key@),
    {
        match self.string(key) {
            Some(s) => {
                let slice = s.as_str();
                if slice.unicode_len() == 0 {
                    None
                } else {
                    let c = slice.get_char(0);
                    Some(first_utf8_byte_of(c))
                }
            },
            None => None,
        }
    }
}

/// Computes the first byte of a character's UTF-8 encoding.
fn first_utf8_byte_of(c: char) -> (r: u8)
    ensures
        r == utf8_first_byte(c),
{
    let cp = c as u32;
    if cp < 0x80 {
        cp as u8
    } else if cp < 0x800 {
        let b = 0xC0u32 | (cp >> 6u32);
        assert(b < 0x100) by (bit_vector)
            requires
                cp < 0x800u32,
                b == 0xC0u32 | (cp >> 6u32),
        ;
        b as u8
    } else if cp < 0x10000 {
        let b = 0xE0u32 | (cp >> 12u32);
        assert(b < 0x100) by (bit_vector)
            requires
                cp < 0x10000u32,
                b == 0xE0u32 | (cp >> 12u32),
        ;
        b as u8
    } else {
        let b = 0xF0u32 | (cp >> 18u32);
        assert(b < 0x100) by (bit_vector)
            requires
                cp < 0x110000u32,
                b == 0xF0u32 | (cp >> 18u32),
        ;
        b as u8
    }
}

proof fn lemma_lookup_push(s: Seq<ArgEntry>, e: ArgEntry, k: Seq<char>)
    ensures
        lookup_values(s.push(e), k) == if lookup_values(s, k) is None && e.key@ == k {
            Some(string_views(e.values@))
        } else {
            lookup_values(s, k)
        },
    decreases s.len(),
{
    if s.len() == 0 {
        assert(s.push(e).drop_first() =~= Seq::<ArgEntry>::empty());
        assert(s.push(e)[0] == e);
    } else {
        assert(s.push(e)[0] == s[0]);
        if s[0].key@ == k {
        } else {
            assert(s.push(e).drop_first() =~= s.drop_first().push(e));
            lemma_lookup_push(s.drop_first(), e, k);
        }
    }
}

proof fn lemma_lookup_update(s: Seq<ArgEntry>, i: int, e: ArgEntry, k: Seq<char>)
    requires
        0 <= i < s.len(),
        e.key@ == s[i].key@,
        forall|j: int| 0 <= j < i ==> s[j].key@ != s[i].key@,
    ensures
        lookup_values(s.update(i, e), k) == if k == s[i].key@ {
            Some(string_views(e.values@))
        } else {
            lookup_values(s, k)
        },
    decreases i,
{
    let u = s.update(i, e);
    if i == 0 {
        assert(u[0] == e);
        if k == s[0].key@ {
        } else {
            assert(u.drop_first() =~= s.drop_first());
        }
    } else {
        assert(u[0] == s[0]);
        if s[0].key@ == k {
            assert(k != s[i].key@);
        } else {
            assert(u.drop_first() =~= s.drop_first().update(i - 1, e));
            assert(forall|j: int|
                0 <= j < i - 1 ==> (#[trigger] s.drop_first()[j]).key@ != s.drop_first()[
                    i - 1
                ].key@);
            lemma_lookup_update(s.drop_first(), i - 1, e, k);
        }
    }
}

} // verus!
