//! Text building blocks shared by the rest of the library: decimal and hex
//! rendering, and string assembly.

use vstd::prelude::*;

verus! {

/// The ASCII character of a decimal digit.
pub open spec fn digit_char(d: int) -> char {
    (48 + d) as char
}

/// Decimal rendering of a natural number, most significant digit first.
pub open spec fn decimal(n: nat) -> Seq<char>
    decreases n,
{
    if n < 10 {
        seq![digit_char(n as int)]
    } else {
        decimal(n / 10).push(digit_char((n % 10) as int))
    }
}

/// Every decimal rendering has at least one digit, and at least two from ten on.
pub proof fn lemma_decimal_len(n: nat)
    ensures
        decimal(n).len() >= 1,
        n >= 10 ==> decimal(n).len() >= 2,
    decreases n,
{
    if n >= 10 {
        lemma_decimal_len(n / 10);
    }
}

/// Distinct numbers have distinct decimal renderings.
pub proof fn lemma_decimal_injective(a: nat, b: nat)
    requires
        decimal(a) == decimal(b),
    ensures
        a == b,
    decreases a,
{
    lemma_decimal_len(a);
    lemma_decimal_len(b);
    if a < 10 && b < 10 {
        assert(decimal(a)[0] == digit_char(a as int));
        assert(decimal(b)[0] == digit_char(b as int));
        assert((48 + a) as char as int == 48 + a);
        assert((48 + b) as char as int == 48 + b);
    } else if a >= 10 && b >= 10 {
        let da = decimal(a);
        let db = decimal(b);
        assert(da.last() == digit_char((a % 10) as int));
        assert(db.last() == digit_char((b % 10) as int));
        assert((48 + (a % 10)) as char as int == 48 + (a % 10));
        assert((48 + (b % 10)) as char as int == 48 + (b % 10));
        assert(da.drop_last() =~= decimal(a / 10));
        assert(db.drop_last() =~= decimal(b / 10));
        lemma_decimal_injective(a / 10, b / 10);
    } else {
        assert(decimal(a).len() != decimal(b).len());
    }
}

/// Appends one character to a string.
#[verifier::external_body]
pub(crate) fn push_char(s: &mut String, c: char)
    ensures
        final(s)@ == old(s)@.push(c),
{
    s.push(c);
}

fn digit(d: u64) -> (c: char)
    requires
        d < 10,
    ensures
        c == digit_char(d as int),
{
    let b: u8 = 48u8 + (d as u8);
    b as char
}

/// Renders `n` in decimal.
pub fn decimal_string(n: u64) -> (s: String)
    ensures
        s@ == decimal(n as nat),
    decreases n,
{
    if n < 10 {
        let mut s = String::new();
        push_char(&mut s, digit(n));
        s
    } else {
        let mut s = decimal_string(n / 10);
        push_char(&mut s, digit(n % 10));
        s
    }
}


/// The lowercase hex digit of a value below 16.
pub open spec fn hex_char(d: int) -> char {
    if d < 10 {
        (48 + d) as char
    } else {
        (87 + d) as char
    }
}

/// Lowercase hex rendering of a byte string, two digits per byte, high
/// nibble first (what `format!("{b:02x}")` writes for each byte).
pub open spec fn hex(bytes: Seq<u8>) -> Seq<char>
    decreases bytes.len(),
{
    if bytes.len() == 0 {
        Seq::empty()
    } else {
        hex(bytes.drop_last()) + seq![
            hex_char(bytes.last() as int / 16),
            hex_char(bytes.last() as int % 16),
        ]
    }
}

/// A character of `0-9a-f`.
pub open spec fn is_lower_hex_digit(c: char) -> bool {
    ('0' <= c && c <= '9') || ('a' <= c && c <= 'f')
}

/// The hex rendering has two digits per byte, all of them lowercase hex.
pub proof fn lemma_hex_shape(bytes: Seq<u8>)
    ensures
        hex(bytes).len() == 2 * bytes.len(),
        forall|i: int| 0 <= i < hex(bytes).len() ==> is_lower_hex_digit(#[trigger] hex(bytes)[i]),
    decreases bytes.len(),
{
    if bytes.len() > 0 {
        lemma_hex_shape(bytes.drop_last());
        let b = bytes.last() as int;
        assert(0 <= b / 16 < 16 && 0 <= b % 16 < 16);
    }
}

fn hex_digit(d: u8) -> (c: char)
    requires
        d < 16,
    ensures
        c == hex_char(d as int),
{
    if d < 10 {
        (48u8 + d) as char
    } else {
        (87u8 + d) as char
    }
}

/// Lowercase hex of the first `n` bytes.
pub fn hex_prefix(bytes: &[u8], n: usize) -> (s: String)
    requires
        n <= bytes@.len(),
    ensures
        s@ == hex(bytes@.take(n as int)),
{
    let mut s = String::new();
    let mut i: usize = 0;
    while i < n
        invariant
            i <= n <= bytes@.len(),
            s@ == hex(bytes@.take(i as int)),
        decreases n - i,
    {
        let b = bytes[i];
        push_char(&mut s, hex_digit(b / 16));
        push_char(&mut s, hex_digit(b % 16));
        assert(bytes@.take(i + 1).drop_last() =~= bytes@.take(i as int));
        i = i + 1;
    }
    s
}

/// A string with the given content.
pub fn owned(text: &str) -> (s: String)
    ensures
        s@ == text@,
{
    String::from_str(text)
}

/// `prefix` followed by `rest`.
pub fn joined(prefix: &str, rest: &str) -> (s: String)
    ensures
        s@ == prefix@ + rest@,
        has_prefix(s@, prefix@),
{
    let mut s = String::from_str(prefix);
    s.append(rest);
    assert(s@.take(prefix@.len() as int) =~= prefix@);
    s
}

/// `s` begins with `p`.
pub open spec fn has_prefix(s: Seq<char>, p: Seq<char>) -> bool {
    p.len() <= s.len() && s.take(p.len() as int) == p
}

/// Copies a 32-byte slice into an array.
pub fn to_array32(v: &[u8]) -> (a: [u8; 32])
    requires
        v@.len() == 32,
    ensures
        a@ == v@,
{
    let mut a = [0u8; 32];
    let mut i: usize = 0;
    while i < 32
        invariant
            v@.len() == 32,
            i <= 32,
            a@.len() == 32,
            forall|j: int| 0 <= j < i ==> a@[j] == v@[j],
        decreases 32 - i,
    {
        a[i] = v[i];
        i = i + 1;
    }
    assert(a@ =~= v@);
    a
}

/// Appends the bytes of `tail` to `v`.
pub fn append_bytes(v: &mut Vec<u8>, tail: &[u8])
    ensures
        final(v)@ == old(v)@ + tail@,
{
    let mut i: usize = 0;
    while i < tail.len()
        invariant
            i <= tail@.len(),
            v@ == old(v)@ + tail@.take(i as int),
        decreases tail@.len() - i,
    {
        v.push(tail[i]);
        assert(tail@.take(i + 1) =~= tail@.take(i as int).push(tail@[i as int]));
        i = i + 1;
    }
    assert(tail@.take(tail@.len() as int) =~= tail@);
}

/// Whether two byte strings are equal.
pub fn bytes_equal(a: &[u8], b: &[u8]) -> (eq: bool)
    ensures
        eq == (a@ == b@),
{
    if a.len() != b.len() {
        return false;
    }
    let mut i: usize = 0;
    while i < a.len()
        invariant
            a@.len() == b@.len(),
            i <= a@.len(),
            forall|j: int| 0 <= j < i ==> a@[j] == b@[j],
        decreases a@.len() - i,
    {
        if a[i] != b[i] {
            return false;
        }
        i = i + 1;
    }
    assert(a@ =~= b@);
    true
}


/// The characters of a string, in order.
pub fn chars_of(s: &str) -> (v: Vec<char>)
    ensures
        v@ == s@,
{
    broadcast use vstd::string::axiom_spec_iter;
    let mut v: Vec<char> = Vec::new();
    for c in it: s.chars()
        invariant
            v@ == it.seq().take(it.index()),
            it.seq() == s@,
    {
        v.push(c);
    }
    v
}

/// A string made of the given characters.
pub fn string_of(v: &[char]) -> (s: String)
    ensures
        s@ == v@,
{
    let mut s = String::new();
    let mut i: usize = 0;
    while i < v.len()
        invariant
            i <= v@.len(),
            s@ == v@.take(i as int),
        decreases v@.len() - i,
    {
        push_char(&mut s, v[i]);
        assert(v@.take(i + 1) =~= v@.take(i as int).push(v@[i as int]));
        i = i + 1;
    }
    assert(v@.take(v@.len() as int) =~= v@);
    s
}

/// Unicode `White_Space`, the property `char::is_whitespace` and `str::trim`
/// go by.
pub open spec fn is_white_space(c: char) -> bool {
    ('\u{9}' <= c && c <= '\u{d}') || c == ' ' || c == '\u{85}' || c == '\u{a0}' || c
        == '\u{1680}' || ('\u{2000}' <= c && c <= '\u{200a}') || c == '\u{2028}' || c
        == '\u{2029}' || c == '\u{202f}' || c == '\u{205f}' || c == '\u{3000}'
}

/// Whether `c` is white space.
pub fn white_space(c: char) -> (b: bool)
    ensures
        b == is_white_space(c),
{
    ('\u{9}' <= c && c <= '\u{d}') || c == ' ' || c == '\u{85}' || c == '\u{a0}' || c
        == '\u{1680}' || ('\u{2000}' <= c && c <= '\u{200a}') || c == '\u{2028}' || c
        == '\u{2029}' || c == '\u{202f}' || c == '\u{205f}' || c == '\u{3000}'
}

/// `s` without its leading white space.
pub open spec fn trim_start(s: Seq<char>) -> Seq<char>
    decreases s.len(),
{
    if s.len() > 0 && is_white_space(s[0]) {
        trim_start(s.drop_first())
    } else {
        s
    }
}

/// `s` without its trailing white space.
pub open spec fn trim_end(s: Seq<char>) -> Seq<char>
    decreases s.len(),
{
    if s.len() > 0 && is_white_space(s.last()) {
        trim_end(s.drop_last())
    } else {
        s
    }
}

/// `s` without leading and trailing white space (`str::trim`).
pub open spec fn trim(s: Seq<char>) -> Seq<char> {
    trim_end(trim_start(s))
}

/// A text that neither begins nor ends with white space is its own trim.
pub proof fn lemma_trim_unchanged(s: Seq<char>)
    requires
        s.len() > 0 ==> !is_white_space(s[0]) && !is_white_space(s.last()),
    ensures
        trim(s) == s,
{
}

/// The characters of `s` without leading and trailing white space.
pub fn trimmed(s: &[char]) -> (t: Vec<char>)
    ensures
        t@ == trim(s@),
{
    let len = s.len();
    let mut i: usize = 0;
    assert(s@.subrange(0, len as int) =~= s@);
    while i < len && white_space(s[i])
        invariant
            len == s@.len(),
            i <= len,
            trim_start(s@) == trim_start(s@.subrange(i as int, len as int)),
        decreases len - i,
    {
        assert(s@.subrange(i as int, len as int).drop_first() =~= s@.subrange(
            i + 1,
            len as int,
        ));
        i = i + 1;
    }
    let ghost rest = s@.subrange(i as int, len as int);
    assert(trim_start(rest) == rest);
    let mut j: usize = len;
    while j > i && white_space(s[j - 1])
        invariant
            len == s@.len(),
            i <= j <= len,
            trim_end(rest) == trim_end(s@.subrange(i as int, j as int)),
            rest == s@.subrange(i as int, len as int),
        decreases j - i,
    {
        assert(s@.subrange(i as int, j as int).drop_last() =~= s@.subrange(
            i as int,
            j - 1,
        ));
        j = j - 1;
    }
    let mut t: Vec<char> = Vec::new();
    let mut k: usize = i;
    while k < j
        invariant
            i <= k <= j <= len,
            len == s@.len(),
            t@ == s@.subrange(i as int, k as int),
        decreases j - k,
    {
        t.push(s[k]);
        assert(s@.subrange(i as int, k + 1) =~= s@.subrange(i as int, k as int).push(
            s@[k as int],
        ));
        k = k + 1;
    }
    t
}

/// The string `s` without leading and trailing white space.
pub fn trim_str(s: &str) -> (t: String)
    ensures
        t@ == trim(s@),
{
    let v = chars_of(s);
    let t = trimmed(v.as_slice());
    string_of(t.as_slice())
}


/// `p` occurs in `s` at position `i`.
pub open spec fn matches_at(s: Seq<char>, p: Seq<char>, i: int) -> bool {
    0 <= i && i + p.len() <= s.len() && s.subrange(i, i + p.len()) == p
}

/// The first position at or after `i` where `p` occurs in `s`.
pub open spec fn find_from(s: Seq<char>, p: Seq<char>, i: int) -> Option<int>
    decreases s.len() + 1 - i,
{
    if i < 0 || i + p.len() > s.len() {
        None
    } else if matches_at(s, p, i) {
        Some(i)
    } else {
        find_from(s, p, i + 1)
    }
}

/// The first position where `p` occurs in `s` (`str::find`).
pub open spec fn find(s: Seq<char>, p: Seq<char>) -> Option<int> {
    find_from(s, p, 0)
}

/// `p` occurs in `s` (`str::contains`).
pub open spec fn contains(s: Seq<char>, p: Seq<char>) -> bool {
    find(s, p) is Some
}

/// `s` begins with `p` (`str::starts_with`).
pub open spec fn starts_with(s: Seq<char>, p: Seq<char>) -> bool {
    matches_at(s, p, 0)
}

/// A match found from `i` lies at or after `i`, inside `s`, and matches.
pub proof fn lemma_find_from_bounds(s: Seq<char>, p: Seq<char>, i: int)
    ensures
        find_from(s, p, i) matches Some(j) ==> i <= j && matches_at(s, p, j),
    decreases s.len() + 1 - i,
{
    if !(i < 0 || i + p.len() > s.len()) && !matches_at(s, p, i) {
        lemma_find_from_bounds(s, p, i + 1);
    }
}

/// A search from `start` finds an occurrence at or after `start`.
pub proof fn lemma_match_found(s: Seq<char>, p: Seq<char>, start: int, i: int)
    requires
        0 <= start <= i,
        matches_at(s, p, i),
    ensures
        find_from(s, p, start) is Some,
    decreases i - start,
{
    if start < i && !matches_at(s, p, start) {
        lemma_match_found(s, p, start + 1, i);
    }
}

/// A text lacking one of the pattern's characters does not contain it.
pub proof fn lemma_missing_char(s: Seq<char>, p: Seq<char>, k: int)
    requires
        0 <= k < p.len(),
        forall|i: int| 0 <= i < s.len() ==> s[i] != p[k],
    ensures
        !contains(s, p),
{
    if contains(s, p) {
        lemma_find_from_bounds(s, p, 0);
        let i = find(s, p)->Some_0;
        assert(s.subrange(i, i + p.len())[k] == s[i + k]);
    }
}

/// No occurrence of `p` begins in `a` and ends in `b`.
pub open spec fn no_straddle(a: Seq<char>, b: Seq<char>, p: Seq<char>) -> bool {
    forall|j: int|
        0 < j < p.len() && j <= a.len() && p.len() - j <= b.len() ==> !(#[trigger] a.subrange(
            a.len() - j,
            a.len() as int,
        ) == p.subrange(0, j) && b.subrange(0, p.len() - j) == p.subrange(j, p.len() as int))
}

/// Two texts without `p`, with no occurrence across their junction, joined
/// do not contain `p`.
pub proof fn lemma_concat_avoids(a: Seq<char>, b: Seq<char>, p: Seq<char>)
    requires
        p.len() > 0,
        !contains(a, p),
        !contains(b, p),
        no_straddle(a, b, p),
    ensures
        !contains(a + b, p),
{
    let s = a + b;
    if contains(s, p) {
        lemma_find_from_bounds(s, p, 0);
        let i = find(s, p)->Some_0;
        if i + p.len() <= a.len() {
            assert(a.subrange(i, i + p.len()) =~= s.subrange(i, i + p.len()));
            lemma_match_found(a, p, 0, i);
        } else if i >= a.len() {
            assert(b.subrange(i - a.len(), i - a.len() + p.len()) =~= s.subrange(i, i + p.len()));
            lemma_match_found(b, p, 0, i - a.len());
        } else {
            let j = a.len() - i;
            assert(a.subrange(a.len() - j, a.len() as int) =~= p.subrange(0, j));
            assert(b.subrange(0, p.len() - j) =~= p.subrange(j, p.len() as int));
        }
    }
}

/// Nothing straddles into a text whose first character the pattern has
/// nowhere after its own first.
pub proof fn lemma_no_straddle_by_first(a: Seq<char>, b: Seq<char>, p: Seq<char>)
    requires
        b.len() > 0 ==> forall|j: int| 1 <= j < p.len() ==> b[0] != #[trigger] p[j],
    ensures
        no_straddle(a, b, p),
{
    assert forall|j: int|
        0 < j < p.len() && j <= a.len() && p.len() - j <= b.len() implies !(#[trigger] a.subrange(
            a.len() - j,
            a.len() as int,
        ) == p.subrange(0, j) && b.subrange(0, p.len() - j) == p.subrange(j, p.len() as int)) by {
        if b.subrange(0, p.len() - j) == p.subrange(j, p.len() as int) {
            assert(b.subrange(0, p.len() - j)[0] == p.subrange(j, p.len() as int)[0]);
        }
    }
}

/// Nothing straddles out of a text ending in `= ` when no proper prefix of
/// the pattern ends that way (nor is a lone space).
pub proof fn lemma_no_straddle_after_assignment(a: Seq<char>, b: Seq<char>, p: Seq<char>)
    requires
        a.len() >= 2,
        a[a.len() - 1] == ' ',
        a[a.len() - 2] == '=',
        p.len() > 0 ==> p[0] != ' ',
        forall|j: int| 2 <= j < p.len() && p[j - 1] == ' ' ==> #[trigger] p[j - 2] != '=',
    ensures
        no_straddle(a, b, p),
{
    assert forall|j: int|
        0 < j < p.len() && j <= a.len() && p.len() - j <= b.len() implies !(#[trigger] a.subrange(
            a.len() - j,
            a.len() as int,
        ) == p.subrange(0, j) && b.subrange(0, p.len() - j) == p.subrange(j, p.len() as int)) by {
        let t = a.subrange(a.len() - j, a.len() as int);
        if t == p.subrange(0, j) {
            assert(t[j - 1] == p[j - 1]);
            if j >= 2 {
                assert(t[j - 2] == p[j - 2]);
            }
        }
    }
}

/// Whether `p` occurs in `s` at position `i`.
pub fn match_at(s: &[char], p: &[char], i: usize) -> (b: bool)
    ensures
        b == matches_at(s@, p@, i as int),
{
    if i > s.len() || p.len() > s.len() - i {
        return false;
    }
    let n = s.len();
    let mut k: usize = 0;
    while k < p.len()
        invariant
            n == s@.len(),
            i + p@.len() <= s@.len(),
            k <= p@.len(),
            s@.subrange(i as int, i + k) == p@.take(k as int),
        decreases p@.len() - k,
    {
        if s[i + k] != p[k] {
            assert(s@.subrange(i as int, i + p@.len())[k as int] != p@[k as int]);
            return false;
        }
        assert(s@.subrange(i as int, i + k + 1) =~= s@.subrange(i as int, i + k).push(
            s@[i + k],
        ));
        assert(p@.take(k + 1) =~= p@.take(k as int).push(p@[k as int]));
        k = k + 1;
    }
    assert(p@.take(p@.len() as int) =~= p@);
    true
}

/// The first position at or after `start` where `p` occurs in `s`.
pub fn find_chars_from(s: &[char], p: &[char], start: usize) -> (pos: Option<usize>)
    ensures
        match find_from(s@, p@, start as int) {
            Some(j) => pos matches Some(k) && k as int == j,
            None => pos is None,
        },
{
    if p.len() == 0 {
        if start <= s.len() {
            assert(matches_at(s@, p@, start as int)) by {
                assert(s@.subrange(start as int, start as int) =~= p@);
            }
            return Some(start);
        }
        return None;
    }
    let mut i: usize = start;
    while i <= s.len() && p.len() <= s.len() - i
        invariant
            start <= i,
            p@.len() >= 1,
            find_from(s@, p@, start as int) == find_from(s@, p@, i as int),
        decreases s@.len() + 1 - i,
    {
        if match_at(s, p, i) {
            return Some(i);
        }
        i = i + 1;
    }
    None
}

/// Whether `p` occurs in `s`.
pub fn contains_chars(s: &[char], p: &[char]) -> (b: bool)
    ensures
        b == contains(s@, p@),
{
    find_chars_from(s, p, 0).is_some()
}

/// Whether `p` occurs in the string `s`.
pub fn str_contains(s: &str, p: &str) -> (b: bool)
    ensures
        b == contains(s@, p@),
{
    let sv = chars_of(s);
    let pv = chars_of(p);
    contains_chars(sv.as_slice(), pv.as_slice())
}


/// The characters of `s` from `a` to `b`.
pub fn sub_chars(s: &[char], a: usize, b: usize) -> (t: Vec<char>)
    requires
        a <= b <= s@.len(),
    ensures
        t@ == s@.subrange(a as int, b as int),
{
    let mut t: Vec<char> = Vec::new();
    let mut k: usize = a;
    while k < b
        invariant
            a <= k <= b <= s@.len(),
            t@ == s@.subrange(a as int, k as int),
        decreases b - k,
    {
        t.push(s[k]);
        assert(s@.subrange(a as int, k + 1) =~= s@.subrange(a as int, k as int).push(
            s@[k as int],
        ));
        k = k + 1;
    }
    t
}

/// The pieces of `s` from `start` on, between the non-overlapping
/// occurrences of `p` found left to right.
pub open spec fn split_from(s: Seq<char>, p: Seq<char>, start: int) -> Seq<Seq<char>>
    decreases s.len() + 1 - start,
{
    if p.len() == 0 || start < 0 || start > s.len() {
        Seq::empty()
    } else {
        match find_from(s, p, start) {
            None => seq![s.subrange(start, s.len() as int)],
            Some(i) => {
                proof {
                    lemma_find_from_bounds(s, p, start);
                }
                seq![s.subrange(start, i)] + split_from(s, p, i + p.len())
            },
        }
    }
}

/// `str::split` by a non-empty pattern.
pub open spec fn split(s: Seq<char>, p: Seq<char>) -> Seq<Seq<char>> {
    split_from(s, p, 0)
}

/// The nested views of a vector of character vectors.
pub open spec fn pieces_view(v: Seq<Vec<char>>) -> Seq<Seq<char>> {
    v.map_values(|x: Vec<char>| x@)
}

/// Splitting yields at least one piece.
pub proof fn lemma_split_nonempty(s: Seq<char>, p: Seq<char>, start: int)
    requires
        p.len() > 0,
        0 <= start <= s.len(),
    ensures
        split_from(s, p, start).len() >= 1,
{
}

/// See [`split`].
pub fn split_chars(s: &[char], p: &[char]) -> (pieces: Vec<Vec<char>>)
    requires
        p@.len() > 0,
    ensures
        pieces_view(pieces@) == split(s@, p@),
{
    let mut pieces: Vec<Vec<char>> = Vec::new();
    let mut start: usize = 0;
    let slen = s.len();
    loop
        invariant
            slen == s@.len(),
            p@.len() > 0,
            start <= s@.len(),
            split(s@, p@) == pieces_view(pieces@) + split_from(s@, p@, start as int),
        decreases s@.len() + 1 - start,
    {
        let ghost old_pieces = pieces@;
        match find_chars_from(s, p, start) {
            Some(i) => {
                proof {
                    lemma_find_from_bounds(s@, p@, start as int);
                }
                let piece = sub_chars(s, start, i);
                pieces.push(piece);
                assert(pieces_view(pieces@) =~= pieces_view(old_pieces) + seq![
                    s@.subrange(start as int, i as int),
                ]);
                assert(split_from(s@, p@, start as int) == seq![
                    s@.subrange(start as int, i as int),
                ] + split_from(s@, p@, i + p@.len()));
                assert(pieces_view(pieces@) + split_from(s@, p@, i + p@.len()) =~= pieces_view(
                    old_pieces,
                ) + split_from(s@, p@, start as int));
                start = i + p.len();
            },
            None => {
                let piece = sub_chars(s, start, s.len());
                pieces.push(piece);
                assert(pieces_view(pieces@) =~= pieces_view(old_pieces) + split_from(
                    s@,
                    p@,
                    start as int,
                ));
                return pieces;
            },
        }
    }
}

/// `l` without one trailing carriage return.
pub open spec fn strip_cr(l: Seq<char>) -> Seq<char> {
    if l.len() > 0 && l.last() == '\r' {
        l.drop_last()
    } else {
        l
    }
}

/// Each piece without one trailing carriage return.
pub open spec fn strip_cr_all(v: Seq<Seq<char>>) -> Seq<Seq<char>> {
    v.map_values(|l: Seq<char>| strip_cr(l))
}

/// `str::lines`: the pieces between newlines, a carriage return before a
/// newline dropped, and no empty last line after a final newline.
pub open spec fn lines(s: Seq<char>) -> Seq<Seq<char>> {
    let parts = split(s, seq!['\n']);
    let ended = strip_cr_all(parts.drop_last());
    if parts.last().len() == 0 {
        ended
    } else {
        ended.push(parts.last())
    }
}

/// See [`lines`].
pub fn lines_of(s: &[char]) -> (ls: Vec<Vec<char>>)
    ensures
        pieces_view(ls@) == lines(s@),
{
    let nl: Vec<char> = vec!['\n'];
    assert(nl@ =~= seq!['\n']);
    let parts = split_chars(s, nl.as_slice());
    proof {
        lemma_split_nonempty(s@, nl@, 0);
    }
    let ghost pv = pieces_view(parts@);
    let n = parts.len();
    let mut ls: Vec<Vec<char>> = Vec::new();
    let mut i: usize = 0;
    while i + 1 < n
        invariant
            n == parts@.len(),
            n >= 1,
            pv == pieces_view(parts@),
            pv == split(s@, seq!['\n']),
            i + 1 <= n,
            pieces_view(ls@) == strip_cr_all(pv.take(i as int)),
            ls@.len() == i,
        decreases n - i,
    {
        let piece = &parts[i];
        let len = piece.len();
        let line = if len > 0 && piece[len - 1] == '\r' {
            sub_chars(piece.as_slice(), 0, len - 1)
        } else {
            sub_chars(piece.as_slice(), 0, len)
        };
        assert(pv[i as int] == piece@);
        assert(line@ == strip_cr(pv[i as int]));
        let ghost before = ls@;
        let ghost lv = line@;
        ls.push(line);
        assert(ls@.len() == i + 1);
        assert forall|k: int| 0 <= k < i + 1 implies pieces_view(ls@)[k] == strip_cr_all(
            pv.take(i + 1),
        )[k] by {
            assert(pieces_view(ls@)[k] == ls@[k]@);
            assert(strip_cr_all(pv.take(i + 1))[k] == strip_cr(pv.take(i + 1)[k]));
            assert(pv.take(i + 1)[k] == pv[k]);
            if k < i {
                assert(ls@[k] == before[k]);
                assert(pieces_view(before)[k] == before[k]@);
                assert(strip_cr_all(pv.take(i as int))[k] == strip_cr(pv.take(i as int)[k]));
                assert(pieces_view(before)[k] == strip_cr_all(pv.take(i as int))[k]);
            } else {
                assert(ls@[k]@ == lv);
            }
        }
        assert(pieces_view(ls@) =~= strip_cr_all(pv.take(i + 1)));
        i = i + 1;
    }
    assert(pv.take((n - 1) as int) =~= pv.drop_last());
    assert(strip_cr_all(pv.take((n - 1) as int)) == strip_cr_all(pv.drop_last()));
    let last = &parts[n - 1];
    assert(pv.last() == last@);
    if last.len() > 0 {
        let copy = sub_chars(last.as_slice(), 0, last.len());
        let ghost before = ls@;
        ls.push(copy);
        let ghost target = strip_cr_all(pv.drop_last()).push(pv.last());
        assert(lines(s@) == target);
        assert forall|k: int| 0 <= k < ls@.len() implies pieces_view(ls@)[k] == target[k] by {
            assert(pieces_view(ls@)[k] == ls@[k]@);
            if k < ls@.len() - 1 {
                assert(ls@[k] == before[k]);
                assert(pieces_view(before)[k] == before[k]@);
            }
        }
        assert(pieces_view(ls@) =~= lines(s@));
    } else {
        assert(pieces_view(ls@) =~= lines(s@));
    }
    ls
}

/// The characters of `t` up to the first white space.
pub open spec fn word_prefix(t: Seq<char>) -> Seq<char>
    decreases t.len(),
{
    if t.len() == 0 || is_white_space(t[0]) {
        Seq::empty()
    } else {
        seq![t[0]] + word_prefix(t.drop_first())
    }
}

/// The first white-space separated word of `s` (`split_whitespace().next()`).
pub open spec fn first_word(s: Seq<char>) -> Option<Seq<char>> {
    let t = trim_start(s);
    if t.len() == 0 {
        None
    } else {
        Some(word_prefix(t))
    }
}

fn skip_white(s: &[char]) -> (i: usize)
    ensures
        i <= s@.len(),
        trim_start(s@) == s@.subrange(i as int, s@.len() as int),
        i < s@.len() ==> !is_white_space(s@[i as int]),
{
    let len = s.len();
    let mut i: usize = 0;
    assert(s@.subrange(0, len as int) =~= s@);
    while i < len && white_space(s[i])
        invariant
            len == s@.len(),
            i <= len,
            trim_start(s@) == trim_start(s@.subrange(i as int, len as int)),
        decreases len - i,
    {
        assert(s@.subrange(i as int, len as int).drop_first() =~= s@.subrange(
            i + 1,
            len as int,
        ));
        i = i + 1;
    }
    i
}

fn word_end(s: &[char], i: usize) -> (j: usize)
    requires
        i <= s@.len(),
    ensures
        i <= j <= s@.len(),
        word_prefix(s@.subrange(i as int, s@.len() as int)) == s@.subrange(i as int, j as int),
{
    let len = s.len();
    let mut j: usize = i;
    assert(s@.subrange(i as int, i as int) + word_prefix(s@.subrange(i as int, len as int))
        =~= word_prefix(s@.subrange(i as int, len as int)));
    while j < len && !white_space(s[j])
        invariant
            len == s@.len(),
            i <= j <= len,
            word_prefix(s@.subrange(i as int, len as int)) == s@.subrange(i as int, j as int)
                + word_prefix(s@.subrange(j as int, len as int)),
        decreases len - j,
    {
        assert(s@.subrange(j as int, len as int).drop_first() =~= s@.subrange(
            j + 1,
            len as int,
        ));
        assert(s@.subrange(i as int, j + 1) =~= s@.subrange(i as int, j as int) + seq![
            s@[j as int],
        ]);
        j = j + 1;
    }
    assert(word_prefix(s@.subrange(j as int, len as int)) =~= Seq::<char>::empty());
    assert(s@.subrange(i as int, j as int) + Seq::<char>::empty() =~= s@.subrange(
        i as int,
        j as int,
    ));
    j
}

/// See [`first_word`].
pub fn first_word_of(s: &[char]) -> (w: Option<Vec<char>>)
    ensures
        match first_word(s@) {
            Some(x) => w matches Some(v) && v@ == x,
            None => w is None,
        },
{
    let i = skip_white(s);
    if i == s.len() {
        return None;
    }
    let j = word_end(s, i);
    Some(sub_chars(s, i, j))
}

/// The value of a string of decimal digits.
pub open spec fn digits_value(s: Seq<char>) -> nat
    decreases s.len(),
{
    if s.len() == 0 {
        0
    } else {
        digits_value(s.drop_last()) * 10 + (s.last() as nat - 48) as nat
    }
}

/// Every character is an ASCII digit.
pub open spec fn all_digits(s: Seq<char>) -> bool {
    forall|i: int| 0 <= i < s.len() ==> '0' <= #[trigger] s[i] && s[i] <= '9'
}

/// `str::parse::<u32>`: an optional `+`, then at least one decimal digit,
/// and a value that fits in 32 bits.
pub open spec fn parse_u32(s: Seq<char>) -> Option<u32> {
    let d = if s.len() > 0 && s[0] == '+' {
        s.drop_first()
    } else {
        s
    };
    if d.len() > 0 && all_digits(d) && digits_value(d) <= u32::MAX {
        Some(digits_value(d) as u32)
    } else {
        None
    }
}

proof fn lemma_digits_value_grows(s: Seq<char>)
    requires
        all_digits(s),
    ensures
        forall|k: int| 0 <= k <= s.len() ==> digits_value(#[trigger] s.take(k)) <= digits_value(s),
    decreases s.len(),
{
    if s.len() > 0 {
        lemma_digits_value_grows(s.drop_last());
        assert forall|k: int| 0 <= k <= s.len() implies digits_value(#[trigger] s.take(k))
            <= digits_value(s) by {
            if k < s.len() {
                assert(s.take(k) =~= s.drop_last().take(k));
            } else {
                assert(s.take(k) =~= s);
            }
        }
    }
}

/// See [`parse_u32`].
pub fn parse_u32_chars(s: &[char]) -> (v: Option<u32>)
    ensures
        v == parse_u32(s@),
{
    let start: usize = if s.len() > 0 && s[0] == '+' {
        1
    } else {
        0
    };
    let ghost d = if s@.len() > 0 && s@[0] == '+' {
        s@.drop_first()
    } else {
        s@
    };
    assert(d =~= s@.subrange(start as int, s@.len() as int));
    if start >= s.len() {
        return None;
    }
    let mut acc: u64 = 0;
    let mut i: usize = start;
    while i < s.len()
        invariant
            start <= i <= s@.len(),
            d == s@.subrange(start as int, s@.len() as int),
            d == (if s@.len() > 0 && s@[0] == '+' {
                s@.drop_first()
            } else {
                s@
            }),
            all_digits(s@.subrange(start as int, i as int)),
            acc == digits_value(s@.subrange(start as int, i as int)),
            acc <= u32::MAX,
        decreases s@.len() - i,
    {
        let c = s[i];
        assert(s@.subrange(start as int, i + 1).drop_last() =~= s@.subrange(start as int, i as int));
        assert(d[i - start] == s@[i as int]);
        if c < '0' || c > '9' {
            assert(!all_digits(d));
            return None;
        }
        let digit = (c as u32 - 48) as u64;
        let next = acc * 10 + digit;
        assert(s@.subrange(start as int, i + 1).last() == c);
        assert(next == digits_value(s@.subrange(start as int, i + 1)));
        if next > 0xffff_ffff {
            proof {
                assert(s@.subrange(start as int, i + 1) =~= d.take(i + 1 - start));
                if all_digits(d) {
                    lemma_digits_value_grows(d);
                }
            }
            return None;
        }
        acc = next;
        i = i + 1;
    }
    assert(s@.subrange(start as int, s@.len() as int) =~= d);
    Some(acc as u32)
}

/// `s` without the prefix `p`, where it has it (`str::strip_prefix`).
pub open spec fn strip_prefix(s: Seq<char>, p: Seq<char>) -> Option<Seq<char>> {
    if starts_with(s, p) {
        Some(s.skip(p.len() as int))
    } else {
        None
    }
}

/// See [`strip_prefix`].
pub fn strip_prefix_chars(s: &[char], p: &[char]) -> (r: Option<Vec<char>>)
    ensures
        match strip_prefix(s@, p@) {
            Some(x) => r matches Some(v) && v@ == x,
            None => r is None,
        },
{
    if match_at(s, p, 0) {
        let rest = sub_chars(s, p.len(), s.len());
        assert(rest@ =~= s@.skip(p@.len() as int));
        Some(rest)
    } else {
        None
    }
}

/// The last `n` characters of `s` (all of them if it is shorter).
pub open spec fn last_chars(s: Seq<char>, n: nat) -> Seq<char> {
    if s.len() <= n {
        s
    } else {
        s.skip(s.len() - n)
    }
}

/// See [`last_chars`].
pub fn last_chars_of(s: &[char], n: usize) -> (t: Vec<char>)
    ensures
        t@ == last_chars(s@, n as nat),
{
    if s.len() <= n {
        let t = sub_chars(s, 0, s.len());
        assert(t@ =~= s@);
        t
    } else {
        let t = sub_chars(s, s.len() - n, s.len());
        assert(t@ =~= s@.skip(s@.len() - n));
        t
    }
}

/// The lowercase form of a string (`str::to_lowercase`).
pub uninterp spec fn lowercase(s: Seq<char>) -> Seq<char>;

/// `str::to_lowercase`, whose result is a function of the input.
#[verifier::external_body]
pub(crate) fn to_lowercase(s: &str) -> (t: String)
    ensures
        t@ == lowercase(s@),
{
    s.to_lowercase()
}

} // verus!
