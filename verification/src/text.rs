//! Character-sequence helpers shared by the generators and converters.
//!
//! Strings are reasoned about through their views, sequences of `char`.

use vstd::prelude::*;
use vstd::string::*;

verus! {

/// `p` is a prefix of `s`.
pub open spec fn seq_starts_with(s: Seq<char>, p: Seq<char>) -> bool {
    p.len() <= s.len() && s.subrange(0, p.len() as int) == p
}

/// `p` occurs in `s` at position `i`.
pub open spec fn occurs_at(s: Seq<char>, p: Seq<char>, i: int) -> bool {
    0 <= i && i + p.len() <= s.len() && s.subrange(i, i + p.len()) == p
}

/// `p` occurs somewhere in `s`.
pub open spec fn seq_contains(s: Seq<char>, p: Seq<char>) -> bool {
    exists|i: int| occurs_at(s, p, i)
}

/// `s` with its prefix of length `n` removed.
pub open spec fn drop_prefix(s: Seq<char>, n: nat) -> Seq<char> {
    s.subrange(n as int, s.len() as int)
}

/// Every occurrence of the character `from` in `s` replaced by `to`.
pub open spec fn replace_char_spec(s: Seq<char>, from: char, to: Seq<char>) -> Seq<char>
    decreases s.len(),
{
    if s.len() == 0 {
        Seq::empty()
    } else {
        let rest = replace_char_spec(s.drop_last(), from, to);
        if s.last() == from {
            rest + to
        } else {
            rest.push(s.last())
        }
    }
}

/// `s` without its leading occurrences of `c`.
pub open spec fn trim_start_char_spec(s: Seq<char>, c: char) -> Seq<char>
    decreases s.len(),
{
    if s.len() > 0 && s[0] == c {
        trim_start_char_spec(s.drop_first(), c)
    } else {
        s
    }
}

/// The decimal digit for `d < 10`.
pub open spec fn digit_char(d: nat) -> char {
    if d == 0 { '0' }
    else if d == 1 { '1' }
    else if d == 2 { '2' }
    else if d == 3 { '3' }
    else if d == 4 { '4' }
    else if d == 5 { '5' }
    else if d == 6 { '6' }
    else if d == 7 { '7' }
    else if d == 8 { '8' }
    else { '9' }
}

/// Decimal notation of a natural number, without leading zeros.
pub open spec fn decimal(n: nat) -> Seq<char>
    decreases n,
{
    if n < 10 {
        seq![digit_char(n)]
    } else {
        decimal(n / 10).push(digit_char(n % 10))
    }
}

/// Decimal notation of an integer, with a leading `-` for negatives.
pub open spec fn decimal_int(n: int) -> Seq<char> {
    if n < 0 {
        seq!['-'] + decimal((-n) as nat)
    } else {
        decimal(n as nat)
    }
}

/// `parts` joined with `sep` between neighbours.
pub open spec fn join_spec(parts: Seq<Seq<char>>, sep: Seq<char>) -> Seq<char>
    decreases parts.len(),
{
    if parts.len() == 0 {
        Seq::empty()
    } else if parts.len() == 1 {
        parts[0]
    } else {
        join_spec(parts.drop_last(), sep) + sep + parts.last()
    }
}

/// The views of a sequence of strings.
pub open spec fn views_of(v: Seq<String>) -> Seq<Seq<char>> {
    v.map_values(|s: String| s@)
}

/// The view of an optional string.
pub open spec fn opt_view(o: Option<String>) -> Option<Seq<char>> {
    match o {
        Some(s) => Some(s@),
        None => None,
    }
}

/// The first position at or after `from` holding `c`.
pub open spec fn index_of_from(s: Seq<char>, c: char, from: int) -> Option<int>
    decreases s.len() - from,
{
    if from < 0 || from >= s.len() {
        None
    } else if s[from] == c {
        Some(from)
    } else {
        index_of_from(s, c, from + 1)
    }
}

/// `n` copies of two spaces.
pub open spec fn indent_spaces(n: nat) -> Seq<char>
    decreases n,
{
    if n == 0 {
        Seq::empty()
    } else {
        indent_spaces((n - 1) as nat) + "  "@
    }
}

/// Lower-case form of a string as `str::to_lowercase` computes it.
pub uninterp spec fn lowercase(s: Seq<char>) -> Seq<char>;

/// Upper-case form of a string as `str::to_uppercase` computes it.
pub uninterp spec fn uppercase(s: Seq<char>) -> Seq<char>;

/// Appends one character to a string (`String::push`).
#[verifier::external_body]
pub(crate) fn push_char(s: &mut String, c: char)
    ensures
        final(s)@ == old(s)@.push(c),
{
    s.push(c);
}

/// `str::to_lowercase`; its Unicode case mapping is named, not restated.
#[verifier::external_body]
pub(crate) fn to_lowercase(s: &str) -> (r: String)
    ensures
        r@ == lowercase(s@),
{
    s.to_lowercase()
}

/// `str::to_uppercase`; its Unicode case mapping is named, not restated.
#[verifier::external_body]
pub(crate) fn to_uppercase(s: &str) -> (r: String)
    ensures
        r@ == uppercase(s@),
{
    s.to_uppercase()
}

/// The characters of a string slice, in order.
pub fn chars_of(s: &str) -> (v: Vec<char>)
    ensures
        v@ == s@,
{
    let n = s.unicode_len();
    let mut v: Vec<char> = Vec::new();
    let mut i: usize = 0;
    while i < n
        invariant
            n == s@.len(),
            i <= n,
            v@ == s@.subrange(0, i as int),
        decreases n - i,
    {
        v.push(s.get_char(i));
        i = i + 1;
    }
    v
}

/// A string made of the given characters.
pub fn string_of(v: &[char]) -> (s: String)
    ensures
        s@ == v@,
{
    let mut s = String::new();
    let mut i: usize = 0;
    while i < v.len()
        invariant
            i <= v@.len(),
            s@ == v@.subrange(0, i as int),
        decreases v.len() - i,
    {
        push_char(&mut s, v[i]);
        i = i + 1;
    }
    s
}

/// A copy of a string slice as an owned string.
pub fn owned(s: &str) -> (r: String)
    ensures
        r@ == s@,
{
    String::from_str(s)
}

/// Appends a string slice.
pub fn push_str(s: &mut String, t: &str)
    ensures
        final(s)@ == old(s)@ + t@,
{
    s.append(t);
}

/// Whether `s[i..]` begins with `p`, for `i <= s.len()`.
pub fn matches_at(s: &[char], p: &[char], i: usize) -> (r: bool)
    requires
        i <= s@.len(),
    ensures
        r == occurs_at(s@, p@, i as int),
{
    if p.len() > s.len() - i {
        return false;
    }
    let mut k: usize = 0;
    while k < p.len()
        invariant
            i + p@.len() <= s@.len(),
            s@.len() <= usize::MAX,
            k <= p@.len(),
            forall|j: int| 0 <= j < k ==> s@[i + j] == p@[j],
        decreases p.len() - k,
    {
        if s[i + k] != p[k] {
            assert(s@.subrange(i as int, i + p@.len())[k as int] != p@[k as int]);
            return false;
        }
        k = k + 1;
    }
    assert(s@.subrange(i as int, i + p@.len()) =~= p@);
    true
}

/// Whether two character sequences are equal.
pub fn chars_eq(a: &[char], b: &[char]) -> (r: bool)
    ensures
        r == (a@ == b@),
{
    if a.len() != b.len() {
        return false;
    }
    let r = matches_at(a, b, 0);
    proof {
        if r {
            assert(a@.subrange(0, b@.len() as int) =~= a@);
        } else {
            assert(!(a@.subrange(0, b@.len() as int) == b@));
            assert(a@.subrange(0, b@.len() as int) =~= a@);
        }
    }
    r
}

/// Whether two string slices are equal.
pub fn str_eq(a: &str, b: &str) -> (r: bool)
    ensures
        r == (a@ == b@),
{
    let x = chars_of(a);
    let y = chars_of(b);
    chars_eq(x.as_slice(), y.as_slice())
}

/// Whether `s` begins with `p`.
pub fn starts_with(s: &[char], p: &[char]) -> (r: bool)
    ensures
        r == seq_starts_with(s@, p@),
{
    matches_at(s, p, 0)
}

/// The first position at which `p` occurs in `s`.
pub fn find(s: &[char], p: &[char]) -> (r: Option<usize>)
    ensures
        match r {
            Some(i) => occurs_at(s@, p@, i as int) && forall|j: int|
                0 <= j < i ==> !occurs_at(s@, p@, j),
            None => !seq_contains(s@, p@),
        },
{
    if p.len() > s.len() {
        return None;
    }
    let last = s.len() - p.len();
    let mut i: usize = 0;
    while i <= last
        invariant
            last + p@.len() == s@.len(),
            forall|j: int| 0 <= j < i ==> !occurs_at(s@, p@, j),
        decreases last + 1 - i,
    {
        if matches_at(s, p, i) {
            return Some(i);
        }
        if i == last {
            return None;
        }
        i = i + 1;
    }
    None
}

/// Whether `p` occurs in `s`.
pub fn contains(s: &[char], p: &[char]) -> (r: bool)
    ensures
        r == seq_contains(s@, p@),
{
    match find(s, p) {
        Some(_) => true,
        None => false,
    }
}

/// Whether the character `c` occurs in `s`.
pub fn contains_char(s: &[char], c: char) -> (r: bool)
    ensures
        r == s@.contains(c),
{
    let mut i: usize = 0;
    while i < s.len()
        invariant
            i <= s@.len(),
            forall|j: int| 0 <= j < i ==> s@[j] != c,
        decreases s.len() - i,
    {
        if s[i] == c {
            return true;
        }
        i = i + 1;
    }
    false
}

/// Every occurrence of `from` in `s` replaced by `to`.
pub fn replace_char(s: &[char], from: char, to: &[char]) -> (r: Vec<char>)
    ensures
        r@ == replace_char_spec(s@, from, to@),
{
    let mut r: Vec<char> = Vec::new();
    let mut i: usize = 0;
    while i < s.len()
        invariant
            i <= s@.len(),
            r@ == replace_char_spec(s@.subrange(0, i as int), from, to@),
        decreases s.len() - i,
    {
        assert(s@.subrange(0, i + 1).drop_last() =~= s@.subrange(0, i as int));
        if s[i] == from {
            let mut k: usize = 0;
            let ghost before = r@;
            while k < to.len()
                invariant
                    k <= to@.len(),
                    r@ == before + to@.subrange(0, k as int),
                decreases to.len() - k,
            {
                r.push(to[k]);
                k = k + 1;
            }
            assert(to@.subrange(0, to@.len() as int) =~= to@);
        } else {
            r.push(s[i]);
        }
        i = i + 1;
    }
    assert(s@.subrange(0, s@.len() as int) =~= s@);
    r
}

/// `s` without its leading occurrences of `c`.
pub fn trim_start_char(s: &[char], c: char) -> (r: Vec<char>)
    ensures
        r@ == trim_start_char_spec(s@, c),
{
    let mut i: usize = 0;
    assert(s@.subrange(0, s@.len() as int) =~= s@);
    while i < s.len() && s[i] == c
        invariant
            i <= s@.len(),
            trim_start_char_spec(s@.subrange(i as int, s@.len() as int), c)
                == trim_start_char_spec(s@, c),
        decreases s.len() - i,
    {
        assert(s@.subrange(i as int, s@.len() as int).drop_first() =~= s@.subrange(
            i + 1,
            s@.len() as int,
        ));
        i = i + 1;
    }
    let r = slice_from(s, i);
    r
}

/// The characters of `s` from position `i` on.
pub fn slice_from(s: &[char], i: usize) -> (r: Vec<char>)
    requires
        i <= s@.len(),
    ensures
        r@ == s@.subrange(i as int, s@.len() as int),
{
    slice_range(s, i, s.len())
}

/// The characters of `s` in positions `i..j`.
pub fn slice_range(s: &[char], i: usize, j: usize) -> (r: Vec<char>)
    requires
        i <= j <= s@.len(),
    ensures
        r@ == s@.subrange(i as int, j as int),
{
    let mut r: Vec<char> = Vec::new();
    let mut k: usize = i;
    while k < j
        invariant
            i <= k <= j <= s@.len(),
            r@ == s@.subrange(i as int, k as int),
        decreases j - k,
    {
        r.push(s[k]);
        k = k + 1;
    }
    r
}

/// Appends characters to a string.
pub fn push_chars(s: &mut String, v: &[char])
    ensures
        final(s)@ == old(s)@ + v@,
{
    let mut i: usize = 0;
    while i < v.len()
        invariant
            i <= v@.len(),
            s@ == old(s)@ + v@.subrange(0, i as int),
        decreases v.len() - i,
    {
        push_char(s, v[i]);
        i = i + 1;
        assert(v@.subrange(0, i as int) =~= v@.subrange(0, i - 1).push(v@[i - 1]));
    }
    assert(v@.subrange(0, v@.len() as int) =~= v@);
}

/// The strings joined with `sep` between neighbours.
pub fn join(parts: &Vec<String>, sep: &str) -> (r: String)
    ensures
        r@ == join_spec(views_of(parts@), sep@),
{
    let mut r = String::new();
    let mut i: usize = 0;
    while i < parts.len()
        invariant
            i <= parts@.len(),
            r@ == join_spec(views_of(parts@).subrange(0, i as int), sep@),
        decreases parts.len() - i,
    {
        let ghost pre = views_of(parts@).subrange(0, i as int);
        assert(views_of(parts@).subrange(0, i + 1).drop_last() =~= pre);
        if i > 0 {
            r.append(sep);
        } else {
            assert(r@ =~= Seq::<char>::empty());
        }
        r.append(parts[i].as_str());
        i = i + 1;
        assert(views_of(parts@).subrange(0, i as int).last() == parts@[i - 1]@);
    }
    assert(views_of(parts@).subrange(0, parts@.len() as int) =~= views_of(parts@));
    r
}

/// The first position at or after `from` holding `c`.
pub fn find_char_from(s: &[char], c: char, from: usize) -> (r: Option<usize>)
    ensures
        match r {
            Some(i) => index_of_from(s@, c, from as int) == Some(i as int),
            None => index_of_from(s@, c, from as int) is None,
        },
{
    let mut i = from;
    while i < s.len()
        invariant
            from <= i,
            index_of_from(s@, c, from as int) == index_of_from(s@, c, i as int),
        decreases s.len() - i,
    {
        if s[i] == c {
            return Some(i);
        }
        i = i + 1;
    }
    None
}

/// A position found by `index_of_from` lies in range and holds `c`.
pub proof fn lemma_index_of_from(s: Seq<char>, c: char, from: int)
    requires
        index_of_from(s, c, from) is Some,
    ensures
        from <= index_of_from(s, c, from).unwrap() < s.len(),
        s[index_of_from(s, c, from).unwrap()] == c,
    decreases s.len() - from,
{
    if !(from < 0 || from >= s.len()) && s[from] != c {
        lemma_index_of_from(s, c, from + 1);
    }
}

/// `n` copies of two spaces.
pub fn spaces(n: usize) -> (s: String)
    ensures
        s@ == indent_spaces(n as nat),
{
    let mut s = String::new();
    let mut i: usize = 0;
    while i < n
        invariant
            i <= n,
            s@ == indent_spaces(i as nat),
        decreases n - i,
    {
        s.append("  ");
        i = i + 1;
    }
    s
}

/// The decimal digit character for `d < 10`.
pub fn digit(d: u64) -> (c: char)
    requires
        d < 10,
    ensures
        c == digit_char(d as nat),
{
    if d == 0 { '0' }
    else if d == 1 { '1' }
    else if d == 2 { '2' }
    else if d == 3 { '3' }
    else if d == 4 { '4' }
    else if d == 5 { '5' }
    else if d == 6 { '6' }
    else if d == 7 { '7' }
    else if d == 8 { '8' }
    else { '9' }
}

/// Decimal notation of an unsigned integer.
pub fn decimal_u64(n: u64) -> (s: String)
    ensures
        s@ == decimal(n as nat),
    decreases n,
{
    if n < 10 {
        let mut s = String::new();
        push_char(&mut s, digit(n));
        assert(s@ =~= seq![digit_char(n as nat)]);
        s
    } else {
        let mut s = decimal_u64(n / 10);
        push_char(&mut s, digit(n % 10));
        s
    }
}

/// Decimal notation of a wide unsigned integer.
pub fn decimal_u128(n: u128) -> (s: String)
    ensures
        s@ == decimal(n as nat),
    decreases n,
{
    if n < 10 {
        let mut s = String::new();
        push_char(&mut s, digit(n as u64));
        assert(s@ =~= seq![digit_char(n as nat)]);
        s
    } else {
        let mut s = decimal_u128(n / 10);
        push_char(&mut s, digit((n % 10) as u64));
        s
    }
}

/// Decimal notation has at least one digit.
pub proof fn lemma_decimal_len(n: nat)
    ensures
        decimal(n).len() >= 1,
        n >= 10 ==> decimal(n).len() >= 2,
    decreases n,
{
    if n >= 10 {
        lemma_decimal_len(n / 10);
    }
}

/// Different numbers have different decimal notations.
pub proof fn lemma_decimal_injective(a: nat, b: nat)
    requires
        decimal(a) == decimal(b),
    ensures
        a == b,
    decreases a,
{
    lemma_decimal_len(a);
    lemma_decimal_len(b);
    if a < 10 && b < 10 {
        assert(decimal(a)[0] == digit_char(a));
        assert(decimal(b)[0] == digit_char(b));
    } else if a >= 10 && b >= 10 {
        let da = decimal(a);
        assert(da.last() == digit_char(a % 10));
        assert(decimal(b).last() == digit_char(b % 10));
        assert(da.drop_last() =~= decimal(a / 10));
        assert(decimal(b).drop_last() =~= decimal(b / 10));
        lemma_decimal_injective(a / 10, b / 10);
    } else {
        assert(decimal(a).len() != decimal(b).len());
    }
}

/// Decimal notation of a signed integer.
pub fn decimal_i64(n: i64) -> (s: String)
    ensures
        s@ == decimal_int(n as int),
{
    if n < 0 {
        let m: u64 = if n == i64::MIN {
            9223372036854775808u64
        } else {
            (-n) as u64
        };
        let mut s = String::new();
        push_char(&mut s, '-');
        let d = decimal_u64(m);
        push_str(&mut s, d.as_str());
        s
    } else {
        decimal_u64(n as u64)
    }
}


/// `s` from position `i` on, with each occurrence of `p`, taken from left
/// to right without overlap, replaced by `t` (an empty `p` replaces nothing).
pub open spec fn replaced_from(s: Seq<char>, p: Seq<char>, t: Seq<char>, i: int) -> Seq<char>
    decreases s.len() - i,
{
    if i < 0 || i >= s.len() {
        Seq::empty()
    } else if p.len() > 0 && occurs_at(s, p, i) {
        t + replaced_from(s, p, t, i + p.len())
    } else {
        seq![s[i]] + replaced_from(s, p, t, i + 1)
    }
}

/// Every occurrence of `p` in `s`, from left to right without overlap,
/// replaced by `t`.
pub open spec fn replace_spec(s: Seq<char>, p: Seq<char>, t: Seq<char>) -> Seq<char> {
    replaced_from(s, p, t, 0)
}

/// Appends characters to a character vector.
pub fn extend_chars(r: &mut Vec<char>, t: &[char])
    ensures
        final(r)@ == old(r)@ + t@,
{
    let mut k: usize = 0;
    while k < t.len()
        invariant
            k <= t@.len(),
            r@ == old(r)@ + t@.subrange(0, k as int),
        decreases t.len() - k,
    {
        r.push(t[k]);
        k = k + 1;
        assert(t@.subrange(0, k as int) =~= t@.subrange(0, k - 1).push(t@[k - 1]));
    }
    assert(t@.subrange(0, t@.len() as int) =~= t@);
}

/// Every occurrence of `p` in `s`, from left to right without overlap,
/// replaced by `t`.
pub fn replace_str(s: &[char], p: &[char], t: &[char]) -> (r: Vec<char>)
    ensures
        r@ == replace_spec(s@, p@, t@),
{
    let mut r: Vec<char> = Vec::new();
    let mut i: usize = 0;
    assert(r@ + replaced_from(s@, p@, t@, 0) =~= replaced_from(s@, p@, t@, 0));
    while i < s.len()
        invariant
            i <= s@.len(),
            r@ + replaced_from(s@, p@, t@, i as int) == replaced_from(s@, p@, t@, 0),
        decreases s.len() - i,
    {
        let ghost before = r@;
        if p.len() > 0 && matches_at(s, p, i) {
            extend_chars(&mut r, t);
            assert(before + (t@ + replaced_from(s@, p@, t@, i + p@.len())) =~= r@
                + replaced_from(s@, p@, t@, i + p@.len()));
            i = i + p.len();
        } else {
            r.push(s[i]);
            assert(before + (seq![s@[i as int]] + replaced_from(s@, p@, t@, i + 1)) =~= r@
                + replaced_from(s@, p@, t@, i + 1));
            i = i + 1;
        }
    }
    assert(r@ + replaced_from(s@, p@, t@, i as int) =~= r@);
    r
}


/// The pieces of `s` between occurrences of `c`, in order (one piece when
/// `c` does not occur).
pub open spec fn split_char(s: Seq<char>, c: char) -> Seq<Seq<char>>
    decreases s.len(),
{
    match index_of_from(s, c, 0) {
        Some(i) => {
            proof { lemma_index_of_from(s, c, 0); }
            seq![s.subrange(0, i)] + split_char(s.subrange(i + 1, s.len() as int), c)
        },
        None => seq![s],
    }
}

/// The pieces of `s` between occurrences of `c`, in order.
pub fn split_chars(s: &[char], c: char) -> (r: Vec<Vec<char>>)
    ensures
        r@.map_values(|v: Vec<char>| v@) == split_char(s@, c),
    decreases s.len(),
{
    match find_char_from(s, c, 0) {
        Some(i) => {
            proof { lemma_index_of_from(s@, c, 0); }
            let head = slice_range(s, 0, i);
            let tail = slice_from(s, i + 1);
            let rest = split_chars(tail.as_slice(), c);
            let mut r: Vec<Vec<char>> = Vec::new();
            r.push(head);
            let mut rest = rest;
            let ghost rv = rest@;
            r.append(&mut rest);
            assert(r@.map_values(|v: Vec<char>| v@) =~= seq![s@.subrange(0, i as int)] + rv.map_values(
                |v: Vec<char>| v@,
            ));
            r
        },
        None => {
            let mut r: Vec<Vec<char>> = Vec::new();
            r.push(slice_from(s, 0));
            assert(s@.subrange(0, s@.len() as int) =~= s@);
            assert(r@.map_values(|v: Vec<char>| v@) =~= seq![s@]);
            r
        },
    }
}


/// Name–value entries in insertion order, each name at most once.
pub open spec fn entries_view(m: Seq<(String, String)>) -> Seq<(Seq<char>, Seq<char>)> {
    m.map_values(|e: (String, String)| (e.0@, e.1@))
}

/// The first position at or after `from` of the entry named `k`.
pub open spec fn key_index(m: Seq<(Seq<char>, Seq<char>)>, k: Seq<char>, from: int) -> Option<int>
    decreases m.len() - from,
{
    if from < 0 || from >= m.len() {
        None
    } else if m[from].0 == k {
        Some(from)
    } else {
        key_index(m, k, from + 1)
    }
}

/// The entries with `k` set to `v`: its entry replaced where there is
/// one, else a new entry at the end.
pub open spec fn entry_insert(m: Seq<(Seq<char>, Seq<char>)>, k: Seq<char>, v: Seq<char>) -> Seq<(Seq<char>, Seq<char>)> {
    match key_index(m, k, 0) {
        Some(i) => m.update(i, (k, v)),
        None => m.push((k, v)),
    }
}

/// A position found by `key_index` lies in range.
pub proof fn lemma_key_index(m: Seq<(Seq<char>, Seq<char>)>, k: Seq<char>, from: int)
    requires
        key_index(m, k, from) is Some,
    ensures
        from <= key_index(m, k, from).unwrap() < m.len(),
    decreases m.len() - from,
{
    if !(from < 0 || from >= m.len()) && m[from].0 != k {
        lemma_key_index(m, k, from + 1);
    }
}

/// The position of the entry named `k`.
pub fn find_entry(m: &Vec<(String, String)>, k: &str) -> (r: Option<usize>)
    ensures
        match r {
            Some(i) => key_index(entries_view(m@), k@, 0) == Some(i as int),
            None => key_index(entries_view(m@), k@, 0) is None,
        },
{
    let ghost ev = entries_view(m@);
    let mut i: usize = 0;
    while i < m.len()
        invariant
            i <= m@.len(),
            ev == entries_view(m@),
            ev.len() == m@.len(),
            key_index(ev, k@, 0) == key_index(ev, k@, i as int),
        decreases m.len() - i,
    {
        if str_eq(m[i].0.as_str(), k) {
            return Some(i);
        }
        i = i + 1;
    }
    None
}

/// Sets the entry named `k` to `v`.
pub fn insert_entry(m: &mut Vec<(String, String)>, k: String, v: String)
    ensures
        entries_view(final(m)@) == entry_insert(entries_view(old(m)@), k@, v@),
{
    match find_entry(m, k.as_str()) {
        Some(i) => {
            proof { lemma_key_index(entries_view(m@), k@, 0); }
            let ghost before = m@;
            m.set(i, (k, v));
            assert(entries_view(m@) =~= entries_view(before).update(i as int, (k@, v@)));
        },
        None => {
            let ghost before = m@;
            m.push((k, v));
            assert(entries_view(m@) =~= entries_view(before).push((k@, v@)));
        },
    }
}


/// `s` without its leading repetitions of the non-empty `p`.
pub open spec fn trim_start_str_spec(s: Seq<char>, p: Seq<char>) -> Seq<char>
    decreases s.len(),
{
    if p.len() > 0 && seq_starts_with(s, p) {
        trim_start_str_spec(drop_prefix(s, p.len()), p)
    } else {
        s
    }
}

/// `s` without its leading repetitions of `p`.
pub fn trim_start_str(s: &[char], p: &[char]) -> (r: Vec<char>)
    ensures
        r@ == trim_start_str_spec(s@, p@),
{
    let mut i: usize = 0;
    assert(s@.subrange(0, s@.len() as int) =~= s@);
    while p.len() > 0 && i <= s.len() && matches_at(s, p, i)
        invariant
            i <= s@.len(),
            trim_start_str_spec(s@.subrange(i as int, s@.len() as int), p@) == trim_start_str_spec(s@, p@),
        decreases s.len() - i,
    {
        let ghost rest = s@.subrange(i as int, s@.len() as int);
        assert(rest.subrange(0, p@.len() as int) =~= s@.subrange(i as int, i + p@.len()));
        assert(drop_prefix(rest, p@.len()) =~= s@.subrange(i + p@.len(), s@.len() as int));
        i = i + p.len();
    }
    proof {
        let rest = s@.subrange(i as int, s@.len() as int);
        if p@.len() > 0 {
            if seq_starts_with(rest, p@) {
                assert(rest.subrange(0, p@.len() as int) =~= s@.subrange(i as int, i + p@.len()));
            }
        }
    }
    slice_from(s, i)
}

/// A copy of texts.
pub fn copy_strings(v: &Vec<String>) -> (r: Vec<String>)
    ensures
        views_of(r@) == views_of(v@),
{
    let mut r: Vec<String> = Vec::new();
    let mut k: usize = 0;
    while k < v.len()
        invariant
            k <= v@.len(),
            views_of(r@) == views_of(v@).subrange(0, k as int),
        decreases v.len() - k,
    {
        let ghost before = r@;
        let x = v[k].clone();
        r.push(x);
        assert(views_of(r@) =~= views_of(before).push(x@));
        assert(views_of(r@) =~= views_of(v@).subrange(0, k + 1));
        k = k + 1;
    }
    assert(views_of(v@).subrange(0, k as int) =~= views_of(v@));
    r
}


// ---------------------------------------------------------------- regular expressions

/// The first capture group of the first match of `pattern` in `text`, when
/// the pattern compiles and matches.
pub uninterp spec fn regex_capture(pattern: Seq<char>, text: Seq<char>) -> Option<Seq<char>>;

/// `Regex::new`, `Regex::captures` and `Captures::get` of the `regex`
/// crate: the text of the first capture group of the first match, when the
/// pattern compiles and matches. What that text is for given arguments is
/// named, not restated.
#[verifier::external_body]
pub(crate) fn first_capture(pattern: &str, text: &str) -> (r: Option<String>)
    ensures
        opt_view(r) == regex_capture(pattern@, text@),
{
    let re = regex::Regex::new(pattern).ok()?;
    let caps = re.captures(text)?;
    caps.get(1).map(|m| m.as_str().to_string())
}

// ---------------------------------------------------------------- lines

/// A line without one trailing carriage return.
pub open spec fn strip_cr(l: Seq<char>) -> Seq<char> {
    if l.len() > 0 && l.last() == '\r' {
        l.drop_last()
    } else {
        l
    }
}

/// The lines ended by `\n` among the first `n` characters, each without a
/// trailing carriage return, and the characters after the last of them.
pub open spec fn scan_lines(s: Seq<char>, n: int) -> (Seq<Seq<char>>, Seq<char>)
    decreases n,
{
    if n <= 0 || n > s.len() {
        (Seq::empty(), Seq::empty())
    } else {
        let (ls, cur) = scan_lines(s, n - 1);
        if s[n - 1] == '\n' {
            (ls.push(strip_cr(cur)), Seq::empty())
        } else {
            (ls, cur.push(s[n - 1]))
        }
    }
}

/// The lines of a text as `str::lines` gives them: split at each `\n`, a
/// `\r` before it dropped, and no empty last line after a final `\n`.
pub open spec fn text_lines(s: Seq<char>) -> Seq<Seq<char>> {
    let (ls, cur) = scan_lines(s, s.len() as int);
    if cur.len() > 0 {
        ls.push(cur)
    } else {
        ls
    }
}

/// The lines of a text.
pub fn lines_of(s: &str) -> (r: Vec<String>)
    ensures
        views_of(r@) == text_lines(s@),
{
    let c = chars_of(s);
    let mut r: Vec<String> = Vec::new();
    let mut cur: Vec<char> = Vec::new();
    let mut k: usize = 0;
    while k < c.len()
        invariant
            k <= c@.len(),
            c@ == s@,
            (views_of(r@), cur@) == scan_lines(s@, k as int),
        decreases c.len() - k,
    {
        if c[k] == '\n' {
            let n = cur.len();
            let line = if n > 0 && cur[n - 1] == '\r' {
                slice_range(cur.as_slice(), 0, n - 1)
            } else {
                slice_range(cur.as_slice(), 0, n)
            };
            assert(cur@.subrange(0, n as int) =~= cur@);
            assert(line@ == strip_cr(cur@));
            let ghost before = r@;
            let l = string_of(line.as_slice());
            r.push(l);
            assert(views_of(r@) =~= views_of(before).push(l@));
            cur = Vec::new();
            assert(cur@ =~= Seq::<char>::empty());
        } else {
            cur.push(c[k]);
        }
        k = k + 1;
    }
    if cur.len() > 0 {
        let ghost before = r@;
        let l = string_of(cur.as_slice());
        r.push(l);
        assert(views_of(r@) =~= views_of(before).push(l@));
    }
    r
}

} // verus!
