//! Storage keys of the time-boxed cache.
//!
//! A key pairs a sanitized logical name with an absolute expiry instant.
//! Two keys address the same cache entry exactly when their names are equal:
//! the expiry never takes part in equality. On disk a key becomes the file
//! name `<name>__YYYYMMDDHHMMSS.dat`; the double underscore is the
//! separator, and a file name is parsed back by splitting at the first
//! double underscore.

use crate::text::chars_to_string;
use crate::timestamp::{plus_days, Timestamp};
use vstd::prelude::*;

verus! {

/// How many days an entry lives when the caller names no lifetime.
pub const DEFAULT_LIFETIME_DAYS: u64 = 3;

/// The largest lifetime, in days, that keeps the expiry year at four digits.
pub const MAX_LIFETIME_DAYS: u64 = 36500;

// ---------------------------------------------------------------------------
// Sanitization of logical names
// ---------------------------------------------------------------------------
/// The characters that survive sanitization unchanged.
pub open spec fn keeps_char(c: char) -> bool {
    ('A' <= c && c <= 'Z') || ('a' <= c && c <= 'z') || ('0' <= c && c <= '9') || c == '.' || c
        == '_' || c == '-'
}

pub open spec fn mapped_char(c: char) -> char {
    if keeps_char(c) {
        c
    } else {
        '_'
    }
}

/// Sanitization: every character outside `[A-Za-z0-9._-]` becomes an
/// underscore, and every run of consecutive underscores collapses to one,
/// so that the result never holds the `__` separator of the file names.
pub open spec fn sanitize_seq(s: Seq<char>) -> Seq<char>
    decreases s.len(),
{
    if s.len() == 0 {
        Seq::empty()
    } else {
        let prev = sanitize_seq(s.drop_last());
        let c = mapped_char(s.last());
        if c == '_' && prev.len() > 0 && prev.last() == '_' {
            prev
        } else {
            prev.push(c)
        }
    }
}

fn map_char(c: char) -> (r: char)
    ensures
        r == mapped_char(c),
{
    if ('A' <= c && c <= 'Z') || ('a' <= c && c <= 'z') || ('0' <= c && c <= '9') || c == '.' || c
        == '_' || c == '-' {
        c
    } else {
        '_'
    }
}

/// Builds a filename-safe logical name: only `[A-Za-z0-9._-]` survive,
/// everything else becomes `_`, and underscore runs collapse to a single
/// underscore so no double underscore ever reaches a file name.
pub fn sanitize(s: &str) -> (r: String)
    ensures
        r@ == sanitize_seq(s@),
{
    let n = s.unicode_len();
    let mut out: Vec<char> = Vec::new();
    let mut i: usize = 0;
    while i < n
        invariant
            i <= n,
            n == s@.len(),
            out@ == sanitize_seq(s@.subrange(0, i as int)),
        decreases n - i,
    {
        let c = map_char(s.get_char(i));
        let skip = c == '_' && out.len() > 0 && out[out.len() - 1] == '_';
        if !skip {
            out.push(c);
        }
        proof {
            let pre = s@.subrange(0, i as int);
            let cur = s@.subrange(0, i + 1 as int);
            assert(cur.drop_last() =~= pre);
            assert(cur.last() == s@[i as int]);
        }
        i += 1;
    }
    proof {
        assert(s@.subrange(0, n as int) =~= s@);
    }
    chars_to_string(&out)
}

/// Every character of a sanitized name is one that sanitization keeps.
pub proof fn lemma_sanitize_chars_kept(s: Seq<char>)
    ensures
        forall|i: int| 0 <= i < sanitize_seq(s).len() ==> keeps_char(#[trigger] sanitize_seq(s)[i]),
    decreases s.len(),
{
    if s.len() > 0 {
        lemma_sanitize_chars_kept(s.drop_last());
        let prev = sanitize_seq(s.drop_last());
        let c = mapped_char(s.last());
        assert(keeps_char(c));
        if !(c == '_' && prev.len() > 0 && prev.last() == '_') {
            assert forall|i: int|
                0 <= i < sanitize_seq(s).len() implies keeps_char(
                #[trigger] sanitize_seq(s)[i],
            ) by {
                if i < prev.len() {
                    assert(sanitize_seq(s)[i] == prev[i]);
                } else {
                    assert(sanitize_seq(s)[i] == c);
                }
            }
        }
    }
}

/// A sanitized name never holds two underscores in a row.
pub proof fn lemma_sanitize_no_double_underscore(s: Seq<char>)
    ensures
        forall|i: int|
            0 <= i && i + 1 < sanitize_seq(s).len() ==> !(#[trigger] sanitize_seq(s)[i] == '_'
                && sanitize_seq(s)[i + 1] == '_'),
    decreases s.len(),
{
    if s.len() > 0 {
        lemma_sanitize_no_double_underscore(s.drop_last());
        let prev = sanitize_seq(s.drop_last());
        let c = mapped_char(s.last());
        if !(c == '_' && prev.len() > 0 && prev.last() == '_') {
            let out = prev.push(c);
            assert forall|i: int|
                0 <= i && i + 1 < out.len() implies !(#[trigger] out[i] == '_' && out[i + 1]
                == '_') by {
                if i + 1 < prev.len() {
                    assert(out[i] == prev[i] && out[i + 1] == prev[i + 1]);
                } else {
                    assert(i + 1 == prev.len());
                    assert(out[i] == prev[prev.len() - 1] && out[i + 1] == c);
                }
            }
        }
    }
}

/// Sanitization leaves a text alone when every character is one it keeps
/// and no two underscores stand next to each other.
pub proof fn lemma_sanitize_fixpoint(s: Seq<char>)
    requires
        forall|i: int| 0 <= i < s.len() ==> keeps_char(#[trigger] s[i]),
        forall|i: int| 0 <= i && i + 1 < s.len() ==> !(#[trigger] s[i] == '_' && s[i + 1] == '_'),
    ensures
        sanitize_seq(s) == s,
    decreases s.len(),
{
    if s.len() == 0 {
        assert(sanitize_seq(s) =~= s);
    } else {
        let pre = s.drop_last();
        assert(forall|i: int| 0 <= i < pre.len() ==> keeps_char(#[trigger] pre[i]));
        assert(forall|i: int|
            0 <= i && i + 1 < pre.len() ==> !(#[trigger] pre[i] == '_' && pre[i + 1] == '_'));
        lemma_sanitize_fixpoint(pre);
        assert(mapped_char(s.last()) == s.last());
        if s.len() >= 2 {
            assert(!(s[s.len() - 2] == '_' && s[s.len() - 1] == '_'));
        }
        assert(sanitize_seq(s) =~= s);
    }
}

/// Sanitization is idempotent: sanitizing a sanitized text changes nothing.
pub proof fn lemma_sanitize_idempotent(s: Seq<char>)
    ensures
        sanitize_seq(sanitize_seq(s)) == sanitize_seq(s),
{
    lemma_sanitize_chars_kept(s);
    lemma_sanitize_no_double_underscore(s);
    lemma_sanitize_fixpoint(sanitize_seq(s));
}

// ---------------------------------------------------------------------------
// The compact fourteen-digit timestamp encoding
// ---------------------------------------------------------------------------
pub open spec fn digit_char(d: int) -> char {
    if d == 0 {
        '0'
    } else if d == 1 {
        '1'
    } else if d == 2 {
        '2'
    } else if d == 3 {
        '3'
    } else if d == 4 {
        '4'
    } else if d == 5 {
        '5'
    } else if d == 6 {
        '6'
    } else if d == 7 {
        '7'
    } else if d == 8 {
        '8'
    } else {
        '9'
    }
}

/// The value of a digit character, or -1 for any other character.
pub open spec fn char_digit(c: char) -> int {
    if c == '0' {
        0
    } else if c == '1' {
        1
    } else if c == '2' {
        2
    } else if c == '3' {
        3
    } else if c == '4' {
        4
    } else if c == '5' {
        5
    } else if c == '6' {
        6
    } else if c == '7' {
        7
    } else if c == '8' {
        8
    } else if c == '9' {
        9
    } else {
        -1
    }
}

pub open spec fn is_digit(c: char) -> bool {
    char_digit(c) >= 0
}

fn digit_to_char(d: u32) -> (r: char)
    requires
        d <= 9,
    ensures
        r == digit_char(d as int),
{
    if d == 0 {
        '0'
    } else if d == 1 {
        '1'
    } else if d == 2 {
        '2'
    } else if d == 3 {
        '3'
    } else if d == 4 {
        '4'
    } else if d == 5 {
        '5'
    } else if d == 6 {
        '6'
    } else if d == 7 {
        '7'
    } else if d == 8 {
        '8'
    } else {
        '9'
    }
}

fn char_to_digit(c: char) -> (r: Option<u32>)
    ensures
        match r {
            Some(d) => d <= 9 && char_digit(c) == d as int,
            None => char_digit(c) == -1,
        },
{
    if c == '0' {
        Some(0)
    } else if c == '1' {
        Some(1)
    } else if c == '2' {
        Some(2)
    } else if c == '3' {
        Some(3)
    } else if c == '4' {
        Some(4)
    } else if c == '5' {
        Some(5)
    } else if c == '6' {
        Some(6)
    } else if c == '7' {
        Some(7)
    } else if c == '8' {
        Some(8)
    } else if c == '9' {
        Some(9)
    } else {
        None
    }
}

/// The digit standing at position `i` of an instant's compact form.
pub open spec fn compact_digit(t: Timestamp, i: int) -> char {
    if i == 0 {
        digit_char(t.year as int / 1000)
    } else if i == 1 {
        digit_char((t.year as int / 100) % 10)
    } else if i == 2 {
        digit_char((t.year as int / 10) % 10)
    } else if i == 3 {
        digit_char(t.year as int % 10)
    } else if i == 4 {
        digit_char(t.month as int / 10)
    } else if i == 5 {
        digit_char(t.month as int % 10)
    } else if i == 6 {
        digit_char(t.day as int / 10)
    } else if i == 7 {
        digit_char(t.day as int % 10)
    } else if i == 8 {
        digit_char(t.hour as int / 10)
    } else if i == 9 {
        digit_char(t.hour as int % 10)
    } else if i == 10 {
        digit_char(t.minute as int / 10)
    } else if i == 11 {
        digit_char(t.minute as int % 10)
    } else if i == 12 {
        digit_char(t.second as int / 10)
    } else {
        digit_char(t.second as int % 10)
    }
}

/// The fourteen digits `YYYYMMDDHHMMSS` of an instant.
pub open spec fn compact_of(t: Timestamp) -> Seq<char> {
    Seq::new(14, |i: int| compact_digit(t, i))
}

pub open spec fn num2(s: Seq<char>, i: int) -> int {
    char_digit(s[i]) * 10 + char_digit(s[i + 1])
}

pub open spec fn num4(s: Seq<char>, i: int) -> int {
    char_digit(s[i]) * 1000 + char_digit(s[i + 1]) * 100 + char_digit(s[i + 2]) * 10 + char_digit(
        s[i + 3],
    )
}

/// What fourteen compact digits mean, if they form a valid instant.
pub open spec fn parse_compact(s: Seq<char>) -> Option<Timestamp> {
    if s.len() == 14 && (forall|i: int| 0 <= i < 14 ==> is_digit(#[trigger] s[i])) {
        let t = Timestamp {
            year: num4(s, 0) as u32,
            month: num2(s, 4) as u32,
            day: num2(s, 6) as u32,
            hour: num2(s, 8) as u32,
            minute: num2(s, 10) as u32,
            second: num2(s, 12) as u32,
        };
        if t.valid() {
            Some(t)
        } else {
            None
        }
    } else {
        None
    }
}

proof fn lemma_digit_round_trip(d: int)
    requires
        0 <= d <= 9,
    ensures
        char_digit(digit_char(d)) == d,
{
}

/// The compact encoding of a valid instant parses back to that instant.
#[verifier::rlimit(100)]
pub proof fn lemma_compact_round_trip(t: Timestamp)
    requires
        t.valid(),
    ensures
        parse_compact(compact_of(t)) == Some(t),
{
    let s = compact_of(t);
    assert(s.len() == 14);
    assert forall|i: int| 0 <= i < 14 implies is_digit(#[trigger] s[i]) by {
        lemma_digit_round_trip(t.year as int / 1000);
        lemma_digit_round_trip((t.year as int / 100) % 10);
        lemma_digit_round_trip((t.year as int / 10) % 10);
        lemma_digit_round_trip(t.year as int % 10);
        lemma_digit_round_trip(t.month as int / 10);
        lemma_digit_round_trip(t.month as int % 10);
        lemma_digit_round_trip(t.day as int / 10);
        lemma_digit_round_trip(t.day as int % 10);
        lemma_digit_round_trip(t.hour as int / 10);
        lemma_digit_round_trip(t.hour as int % 10);
        lemma_digit_round_trip(t.minute as int / 10);
        lemma_digit_round_trip(t.minute as int % 10);
        lemma_digit_round_trip(t.second as int / 10);
        lemma_digit_round_trip(t.second as int % 10);
    }
    lemma_four_digit_value(t.year as int);
    lemma_two_digit_value(t.month as int);
    lemma_two_digit_value(t.day as int);
    lemma_two_digit_value(t.hour as int);
    lemma_two_digit_value(t.minute as int);
    lemma_two_digit_value(t.second as int);
    assert(num4(s, 0) == t.year as int);
    assert(num2(s, 4) == t.month as int);
    assert(num2(s, 6) == t.day as int);
    assert(num2(s, 8) == t.hour as int);
    assert(num2(s, 10) == t.minute as int);
    assert(num2(s, 12) == t.second as int);
}

proof fn lemma_two_digit_value(n: int)
    requires
        0 <= n <= 99,
    ensures
        (n / 10) * 10 + n % 10 == n,
        0 <= n / 10 <= 9,
        0 <= n % 10 <= 9,
{
}

proof fn lemma_four_digit_value(n: int)
    requires
        0 <= n <= 9999,
    ensures
        (n / 1000) * 1000 + ((n / 100) % 10) * 100 + ((n / 10) % 10) * 10 + n % 10 == n,
        0 <= n / 1000 <= 9,
        0 <= (n / 100) % 10 <= 9,
        0 <= (n / 10) % 10 <= 9,
        0 <= n % 10 <= 9,
{
    assert((n / 1000) * 1000 + ((n / 100) % 10) * 100 + ((n / 10) % 10) * 10 + n % 10 == n)
        by (nonlinear_arith)
        requires
            0 <= n <= 9999,
    ;
}

/// Pushes the fourteen compact digits of a valid instant.
#[verifier::rlimit(100)]
fn push_compact(out: &mut Vec<char>, t: &Timestamp)
    requires
        t.valid(),
    ensures
        final(out)@ == old(out)@ + compact_of(*t),
{
    let ghost start = out@;
    out.push(digit_to_char(t.year / 1000));
    out.push(digit_to_char((t.year / 100) % 10));
    out.push(digit_to_char((t.year / 10) % 10));
    out.push(digit_to_char(t.year % 10));
    out.push(digit_to_char(t.month / 10));
    out.push(digit_to_char(t.month % 10));
    out.push(digit_to_char(t.day / 10));
    out.push(digit_to_char(t.day % 10));
    out.push(digit_to_char(t.hour / 10));
    out.push(digit_to_char(t.hour % 10));
    out.push(digit_to_char(t.minute / 10));
    out.push(digit_to_char(t.minute % 10));
    out.push(digit_to_char(t.second / 10));
    out.push(digit_to_char(t.second % 10));
    proof {
        assert(out@ =~= start + compact_of(*t));
    }
}

// ---------------------------------------------------------------------------
// The storage key and its file name
// ---------------------------------------------------------------------------
/// The mathematical content of a storage key.
#[verifier::ext_equal]
pub struct KeyView {
    pub name: Seq<char>,
    pub expires: Timestamp,
}

/// A cache key: a sanitized logical name plus the absolute instant after
/// which the entry is treated as absent. Equality and therefore cache
/// identity rest on the name alone.
#[derive(Debug, Clone)]
pub struct StorageKey {
    pub constant: String,
    expires_on: Timestamp,
}

impl View for StorageKey {
    type V = KeyView;

    closed spec fn view(&self) -> KeyView {
        KeyView { name: self.constant@, expires: self.expires_on }
    }
}

impl PartialEq for StorageKey {
    /// Two keys are the same cache entry exactly when their names agree.
    fn eq(&self, other: &Self) -> (r: bool) {
        self.constant == other.constant
    }
}

impl vstd::std_specs::cmp::PartialEqSpecImpl for StorageKey {
    open spec fn obeys_eq_spec() -> bool {
        true
    }

    open spec fn eq_spec(&self, other: &StorageKey) -> bool {
        self@.name == other@.name
    }
}

impl Eq for StorageKey {
}

pub open spec fn sep_seq() -> Seq<char> {
    seq!['_', '_']
}

pub open spec fn ext_seq() -> Seq<char> {
    seq!['.', 'd', 'a', 't']
}

/// The file name a key is stored under.
pub open spec fn key_file_name(k: KeyView) -> Seq<char> {
    k.name + sep_seq() + compact_of(k.expires) + ext_seq()
}

/// The position of the first double underscore at or after `i`.
pub open spec fn first_sep_from(s: Seq<char>, i: int) -> Option<int>
    decreases s.len() - i,
{
    if i < 0 || i + 1 >= s.len() {
        None
    } else if s[i] == '_' && s[i + 1] == '_' {
        Some(i)
    } else {
        first_sep_from(s, i + 1)
    }
}

/// What a file name means as a key: the part before the first double
/// underscore is the name, what follows must be fourteen compact digits
/// and the `.dat` extension.
pub open spec fn parse_key(s: Seq<char>) -> Option<KeyView> {
    match first_sep_from(s, 0) {
        Some(i) => {
            let name = s.subrange(0, i);
            let rest = s.subrange(i + 2, s.len() as int);
            if rest.len() == 18 && rest.subrange(14, 18) == ext_seq() {
                match parse_compact(rest.subrange(0, 14)) {
                    Some(ts) => Some(KeyView { name: name, expires: ts }),
                    None => None,
                }
            } else {
                None
            }
        },
        None => None,
    }
}

/// Well-formedness of a key: the name is free of the separator and the
/// expiry is a valid instant.
impl KeyView {
    pub open spec fn wf(self) -> bool {
        &&& self.expires.valid()
        &&& forall|i: int|
            0 <= i && i + 1 < self.name.len() ==> !(#[trigger] self.name[i] == '_' && self.name[i + 1]
                == '_')
    }
}

/// A key built from a logical name and an issue instant, spec level.
pub open spec fn spec_new_key(name: Seq<char>, issued: Timestamp, lifetime_days: Option<
    u64,
>) -> KeyView {
    let days = match lifetime_days {
        Some(d) => d as int,
        None => DEFAULT_LIFETIME_DAYS as int,
    };
    KeyView { name: sanitize_seq(name), expires: plus_days(issued, days) }
}

impl StorageKey {
    pub open spec fn wf(self) -> bool {
        self@.wf()
    }

    /// Builds a key: the name is sanitized, the expiry is the issue instant
    /// plus the lifetime (a fixed number of days when none is given).
    pub fn new(constant: &str, issued_at: Timestamp, lifetime_days: Option<u64>) -> (k: StorageKey)
        requires
            issued_at.valid(),
            issued_at.year <= 9899,
            lifetime_days matches Some(d) ==> d <= MAX_LIFETIME_DAYS,
        ensures
            k@ == spec_new_key(constant@, issued_at, lifetime_days),
            k.wf(),
    {
        let days: u64 = match lifetime_days {
            Some(d) => d,
            None => DEFAULT_LIFETIME_DAYS,
        };
        let expires = crate::timestamp::add_days(&issued_at, days);
        let name = sanitize(constant);
        proof {
            lemma_sanitize_no_double_underscore(constant@);
        }
        StorageKey { constant: name, expires_on: expires }
    }

    /// An exact copy of this key.
    pub fn clone_key(&self) -> (r: StorageKey)
        ensures
            r@ == self@,
    {
        StorageKey { constant: self.constant.clone(), expires_on: self.expires_on }
    }

    /// The logical name of this key.
    pub fn name(&self) -> (r: &String)
        ensures
            r@ == self@.name,
    {
        &self.constant
    }

    /// Whether the entry behind this key is already stale at `now`.
    pub fn is_expired(&self, now: &Timestamp) -> (r: bool)
        ensures
            r == self@.expires.spec_before(*now),
    {
        self.expires_on.before(now)
    }

    /// The expiry instant of this key.
    pub fn expiry(&self) -> (r: Timestamp)
        ensures
            r == self@.expires,
    {
        self.expires_on
    }

    /// The file name this key is stored under.
    pub fn encoded_file_name(&self) -> (r: String)
        requires
            self@.expires.valid(),
        ensures
            r@ == key_file_name(self@),
    {
        let n = self.constant.as_str().unicode_len();
        let mut out: Vec<char> = Vec::new();
        let mut i: usize = 0;
        while i < n
            invariant
                i <= n,
                n == self.constant@.len(),
                out@ == self.constant@.subrange(0, i as int),
            decreases n - i,
        {
            out.push(self.constant.as_str().get_char(i));
            proof {
                assert(out@ =~= self.constant@.subrange(0, i + 1 as int));
            }
            i += 1;
        }
        proof {
            assert(self.constant@.subrange(0, n as int) =~= self.constant@);
        }
        out.push('_');
        out.push('_');
        push_compact(&mut out, &self.expires_on);
        out.push('.');
        out.push('d');
        out.push('a');
        out.push('t');
        proof {
            assert(out@ =~= key_file_name(self@));
        }
        chars_to_string(&out)
    }

    /// Parses a file name back into a key, splitting at the first double
    /// underscore; `None` when the name does not follow the encoding.
    #[verifier::loop_isolation(false)]
    pub fn parse_file_name(s: &str) -> (r: Option<StorageKey>)
        ensures
            match r {
                Some(k) => parse_key(s@) == Some(k@) && k.wf(),
                None => parse_key(s@) is None,
            },
    {
        let n = s.unicode_len();
        let mut v: Vec<char> = Vec::new();
        let mut i: usize = 0;
        while i < n
            invariant
                i <= n,
                n == s@.len(),
                v@ == s@.subrange(0, i as int),
            decreases n - i,
        {
            v.push(s.get_char(i));
            proof {
                assert(v@ =~= s@.subrange(0, i + 1 as int));
            }
            i += 1;
        }
        proof {
            assert(s@.subrange(0, n as int) =~= s@);
        }
        let j: usize = match find_first_sep(&v) {
            Some(j) => j,
            None => {
                return None;
            },
        };
        let ghost sep = j as int;
        proof {
            lemma_first_sep_none_before(s@, 0, sep);
        }
        // The remainder must be exactly fourteen digits and ".dat".
        if n < 20 || j != n - 20 {
            proof {
                assert(s@.subrange(sep + 2, n as int).len() != 18);
            }
            return None;
        }
        let ghost rest = s@.subrange(sep + 2, n as int);
        let ghost mid = rest.subrange(0, 14);
        proof {
            assert(rest.len() == 18);
            assert(forall|p: int| 0 <= p < 14 ==> #[trigger] mid[p] == s@[sep + 2 + p]);
            assert(forall|p: int| 0 <= p < 4 ==> #[trigger] rest.subrange(14, 18)[p] == s@[sep + 16 + p]);
        }
        let mut digits: Vec<u32> = Vec::new();
        let mut d: usize = 0;
        while d < 14
            invariant
                d <= 14,
                digits.len() == d,
                n == v.len() && n == s@.len() && n >= 20 && j == n - 20,
                v@ == s@,
                mid == s@.subrange(j + 2, n as int).subrange(0, 14),
                forall|p: int| 0 <= p < 14 ==> #[trigger] mid[p] == s@[j + 2 + p],
                forall|p: int|
                    0 <= p < d ==> is_digit(#[trigger] mid[p]) && digits@[p] as int == char_digit(
                        mid[p],
                    ) && digits@[p] <= 9,
            decreases 14 - d,
        {
            match char_to_digit(v[j + 2 + d]) {
                Some(dd) => {
                    digits.push(dd);
                },
                None => {
                    proof {
                        assert(!is_digit(mid[d as int]));
                        assert(parse_compact(mid) is None);
                    }
                    return None;
                },
            }
            d += 1;
        }
        if !(v[n - 4] == '.' && v[n - 3] == 'd' && v[n - 2] == 'a' && v[n - 1] == 't') {
            proof {
                let tail = rest.subrange(14, 18);
                assert(tail[0] == s@[n - 4] && tail[1] == s@[n - 3] && tail[2] == s@[n - 2]
                    && tail[3] == s@[n - 1]);
                assert(tail != ext_seq());
            }
            return None;
        }
        proof {
            assert(rest.subrange(14, 18) =~= ext_seq());
        }
        let year = digits[0] * 1000 + digits[1] * 100 + digits[2] * 10 + digits[3];
        let month = digits[4] * 10 + digits[5];
        let day = digits[6] * 10 + digits[7];
        let hour = digits[8] * 10 + digits[9];
        let minute = digits[10] * 10 + digits[11];
        let second = digits[12] * 10 + digits[13];
        let t = Timestamp { year, month, day, hour, minute, second };
        proof {
            assert(forall|p: int| 0 <= p < 14 ==> is_digit(#[trigger] mid[p]));
            assert(num4(mid, 0) == year as int);
            assert(num2(mid, 4) == month as int);
            assert(num2(mid, 6) == day as int);
            assert(num2(mid, 8) == hour as int);
            assert(num2(mid, 10) == minute as int);
            assert(num2(mid, 12) == second as int);
        }
        if !t.is_valid() {
            proof {
                assert(parse_compact(mid) is None);
            }
            return None;
        }
        proof {
            assert(parse_compact(mid) == Some(t));
        }
        // Recover the name before the separator.
        let mut nm: Vec<char> = Vec::new();
        let mut p: usize = 0;
        while p < j
            invariant
                p <= j,
                j < n && n == v.len() && n == s@.len(),
                v@ == s@,
                nm@ == s@.subrange(0, p as int),
            decreases j - p,
        {
            nm.push(v[p]);
            proof {
                assert(nm@ =~= s@.subrange(0, p + 1 as int));
            }
            p += 1;
        }
        let name = chars_to_string(&nm);
        let k = StorageKey { constant: name, expires_on: t };
        proof {
            assert(k@.name =~= s@.subrange(0, sep));
            assert forall|q: int|
                0 <= q && q + 1 < k@.name.len() implies !(#[trigger] k@.name[q] == '_' && k@.name[q + 1]
                == '_') by {
                assert(k@.name[q] == s@[q]);
                assert(k@.name[q + 1] == s@[q + 1]);
            }
            assert(parse_key(s@) == Some(k@)) by {
                assert(k@ =~= KeyView { name: s@.subrange(0, sep), expires: t });
            }
        }
        Some(k)
    }
}

/// Finds the first double underscore of a character sequence.
fn find_first_sep(v: &Vec<char>) -> (r: Option<usize>)
    ensures
        match r {
            Some(i) => first_sep_from(v@, 0) == Some(i as int) && i + 1 < v.len(),
            None => first_sep_from(v@, 0) is None,
        },
{
    if v.len() < 2 {
        return None;
    }
    let mut j: usize = 0;
    while j + 1 < v.len()
        invariant
            j + 1 <= v.len(),
            first_sep_from(v@, 0) == first_sep_from(v@, j as int),
        decreases v.len() - j,
    {
        if v[j] == '_' && v[j + 1] == '_' {
            proof {
                assert(first_sep_from(v@, j as int) == Some(j as int));
            }
            return Some(j);
        }
        proof {
            assert(first_sep_from(v@, j as int) == first_sep_from(v@, j + 1 as int));
        }
        j += 1;
    }
    proof {
        assert(first_sep_from(v@, j as int) is None);
    }
    None
}


/// Before the first double underscore there is no double underscore.
proof fn lemma_first_sep_none_before(s: Seq<char>, from: int, found: int)
    requires
        0 <= from,
        first_sep_from(s, from) == Some(found),
    ensures
        from <= found,
        found + 1 < s.len(),
        s[found] == '_' && s[found + 1] == '_',
        forall|q: int| from <= q < found ==> !(#[trigger] s[q] == '_' && s[q + 1] == '_'),
    decreases s.len() - from,
{
    if from + 1 >= s.len() {
    } else if s[from] == '_' && s[from + 1] == '_' {
    } else {
        lemma_first_sep_none_before(s, from + 1, found);
    }
}

// ---------------------------------------------------------------------------
// Laws
// ---------------------------------------------------------------------------
/// Key equality ignores expiry: keys built from one logical name stand for
/// the same cache entry whatever their issue instants and lifetimes.
pub proof fn lemma_key_equality_ignores_expiry(
    name: Seq<char>,
    t1: Timestamp,
    l1: Option<u64>,
    t2: Timestamp,
    l2: Option<u64>,
)
    ensures
        spec_new_key(name, t1, l1).name == spec_new_key(name, t2, l2).name,
{
}

/// Sanitization is idempotent and its result never holds a double
/// underscore.
pub proof fn lemma_sanitize_laws(s: Seq<char>)
    ensures
        sanitize_seq(sanitize_seq(s)) == sanitize_seq(s),
        forall|i: int|
            0 <= i && i + 1 < sanitize_seq(s).len() ==> !(#[trigger] sanitize_seq(s)[i] == '_'
                && sanitize_seq(s)[i + 1] == '_'),
{
    lemma_sanitize_idempotent(s);
    lemma_sanitize_no_double_underscore(s);
}

/// Encoding a well-formed key as a file name and parsing it back yields the
/// key, name and expiry both preserved. The one family of names left out:
/// a name whose last character is an underscore would run into the
/// separator and cannot be split back.
pub proof fn lemma_file_name_round_trip(k: KeyView)
    requires
        k.wf(),
        k.name.len() > 0 ==> k.name.last() != '_',
    ensures
        parse_key(key_file_name(k)) == Some(k),
{
    let s = key_file_name(k);
    let nl = k.name.len() as int;
    assert(s.len() == nl + 20);
    assert(s[nl] == '_' && s[nl + 1] == '_');
    lemma_compact_round_trip(k.expires);
    // The first double underscore stands exactly at the end of the name:
    // inside the name there is none, and the name does not end with '_'.
    assert forall|q: int| 0 <= q < nl implies !(#[trigger] s[q] == '_' && s[q + 1] == '_') by {
        if q + 1 < nl {
            assert(s[q] == k.name[q] && s[q + 1] == k.name[q + 1]);
        } else {
            assert(q == nl - 1);
            assert(s[q] == k.name[nl - 1]);
        }
    }
    lemma_first_sep_is(s, 0, nl);
    let rest = s.subrange(nl + 2, s.len() as int);
    assert(rest =~= compact_of(k.expires) + ext_seq());
    assert(rest.subrange(14, 18) =~= ext_seq());
    assert(rest.subrange(0, 14) =~= compact_of(k.expires));
    assert(s.subrange(0, nl) =~= k.name);
}

/// If no double underscore stands before `at` and one stands at `at`, then
/// `at` is the first one.
proof fn lemma_first_sep_is(s: Seq<char>, from: int, at: int)
    requires
        0 <= from <= at,
        at + 1 < s.len(),
        s[at] == '_' && s[at + 1] == '_',
        forall|q: int| from <= q < at ==> !(#[trigger] s[q] == '_' && s[q + 1] == '_'),
    ensures
        first_sep_from(s, from) == Some(at),
    decreases at - from,
{
    if from < at {
        lemma_first_sep_is(s, from + 1, at);
    }
}

} // verus!
