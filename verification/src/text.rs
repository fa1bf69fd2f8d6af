//! Character-level text operations and their mathematical meaning.
//!
//! Every name comparison in the rule families goes through this module, so that
//! case folding and substring tests mean the same thing everywhere.
use vstd::prelude::*;
use vstd::string::*;

verus! {

/// Folds an ASCII upper-case letter to lower case; every other character is unchanged.
pub open spec fn lower_char(c: char) -> char {
    if 'A' <= c && c <= 'Z' {
        ((c as u8) + 32) as char
    } else {
        c
    }
}

/// Folds an ASCII lower-case letter to upper case; every other character is unchanged.
pub open spec fn upper_char(c: char) -> char {
    if 'a' <= c && c <= 'z' {
        ((c as u8) - 32) as char
    } else {
        c
    }
}

/// The text with every ASCII letter folded to lower case.
pub open spec fn lower(s: Seq<char>) -> Seq<char> {
    Seq::new(s.len(), |i: int| lower_char(s[i]))
}

/// The text with every ASCII letter folded to upper case.
pub open spec fn upper(s: Seq<char>) -> Seq<char> {
    Seq::new(s.len(), |i: int| upper_char(s[i]))
}

/// Two names are the same when they agree after ASCII case folding.
pub open spec fn same_name(a: Seq<char>, b: Seq<char>) -> bool {
    lower(a) == lower(b)
}

/// `p` occurs in `s` starting at index `i`.
pub open spec fn occurs_at(s: Seq<char>, p: Seq<char>, i: int) -> bool {
    0 <= i && i + p.len() <= s.len() && s.subrange(i, i + p.len()) == p
}

pub open spec fn starts_with(s: Seq<char>, p: Seq<char>) -> bool {
    occurs_at(s, p, 0)
}

pub open spec fn ends_with(s: Seq<char>, p: Seq<char>) -> bool {
    occurs_at(s, p, s.len() - p.len())
}

pub open spec fn contains(s: Seq<char>, p: Seq<char>) -> bool {
    exists|i: int| occurs_at(s, p, i)
}

pub fn to_lower_char(c: char) -> (r: char)
    ensures
        r == lower_char(c),
{
    if 'A' <= c && c <= 'Z' {
        ((c as u8) + 32) as char
    } else {
        c
    }
}

pub fn to_upper_char(c: char) -> (r: char)
    ensures
        r == upper_char(c),
{
    if 'a' <= c && c <= 'z' {
        ((c as u8) - 32) as char
    } else {
        c
    }
}

/// The characters of a string, in order.
pub fn chars_of(s: &str) -> (r: Vec<char>)
    ensures
        r@ == s@,
{
    let mut out: Vec<char> = Vec::new();
    for c in it: s.chars()
        invariant
            it.seq() == s@,
            out@ == s@.take(it.index()),
    {
        out.push(c);
    }
    out
}

/// `String::push`: the string afterwards is the string before with `c` appended.
#[verifier::external_body]
fn push_char(s: &mut String, c: char)
    ensures
        final(s)@ == old(s)@.push(c),
{
    s.push(c);
}

/// The string made of the given characters.
pub fn string_of(v: &Vec<char>) -> (r: String)
    ensures
        r@ == v@,
{
    let mut out = String::new();
    let mut i: usize = 0;
    while i < v.len()
        invariant
            i <= v.len(),
            out@ == v@.take(i as int),
        decreases v.len() - i,
    {
        push_char(&mut out, v[i]);
        i += 1;
    }
    out
}

/// ASCII case folding of a character vector.
pub fn lower_chars(v: &Vec<char>) -> (r: Vec<char>)
    ensures
        r@ == lower(v@),
{
    let mut out: Vec<char> = Vec::new();
    let mut i: usize = 0;
    while i < v.len()
        invariant
            i <= v.len(),
            out@ == lower(v@).take(i as int),
        decreases v.len() - i,
    {
        out.push(to_lower_char(v[i]));
        i += 1;
    }
    out
}

/// The characters of `s`, folded to upper case.
pub fn upper_chars_of(s: &str) -> (r: Vec<char>)
    ensures
        r@ == upper(s@),
{
    let v = chars_of(s);
    let mut out: Vec<char> = Vec::new();
    let mut i: usize = 0;
    while i < v.len()
        invariant
            i <= v.len(),
            v@ == s@,
            out@ == upper(s@).take(i as int),
        decreases v.len() - i,
    {
        out.push(to_upper_char(v[i]));
        i += 1;
    }
    out
}

/// The characters of `s`, folded to lower case.
pub fn lower_chars_of(s: &str) -> (r: Vec<char>)
    ensures
        r@ == lower(s@),
{
    let v = chars_of(s);
    lower_chars(&v)
}

/// `s` with every ASCII letter folded to lower case.
pub fn to_lower(s: &str) -> (r: String)
    ensures
        r@ == lower(s@),
{
    let v = lower_chars_of(s);
    string_of(&v)
}

/// `s` with every ASCII letter folded to upper case.
pub fn to_upper(s: &str) -> (r: String)
    ensures
        r@ == upper(s@),
{
    let v = chars_of(s);
    let mut out = String::new();
    let mut i: usize = 0;
    while i < v.len()
        invariant
            i <= v.len(),
            v@ == s@,
            out@ == upper(s@).take(i as int),
        decreases v.len() - i,
    {
        push_char(&mut out, to_upper_char(v[i]));
        i += 1;
    }
    out
}

/// Whether `p` occurs in `s` at index `i`.
pub fn chars_occur_at(s: &Vec<char>, p: &Vec<char>, i: usize) -> (r: bool)
    ensures
        r == occurs_at(s@, p@, i as int),
{
    if p.len() > s.len() || i > s.len() - p.len() {
        return false;
    }
    let mut k: usize = 0;
    while k < p.len()
        invariant
            k <= p.len(),
            i + p.len() <= s.len(),
            forall|j: int| 0 <= j < k ==> s@[i + j] == p@[j],
        decreases p.len() - k,
    {
        if s[i + k] != p[k] {
            proof {
                assert(s@.subrange(i as int, i + p.len())[k as int] == s@[i + k]);
            }
            return false;
        }
        k += 1;
    }
    proof {
        assert(s@.subrange(i as int, i + p.len()) =~= p@);
    }
    true
}

pub fn chars_equal(a: &Vec<char>, b: &Vec<char>) -> (r: bool)
    ensures
        r == (a@ == b@),
{
    if a.len() != b.len() {
        return false;
    }
    let r = chars_occur_at(a, b, 0);
    proof {
        assert(a@.subrange(0, a@.len() as int) =~= a@);
    }
    r
}

pub fn chars_start_with(s: &Vec<char>, p: &Vec<char>) -> (r: bool)
    ensures
        r == starts_with(s@, p@),
{
    chars_occur_at(s, p, 0)
}

pub fn chars_end_with(s: &Vec<char>, p: &Vec<char>) -> (r: bool)
    ensures
        r == ends_with(s@, p@),
{
    if p.len() > s.len() {
        return false;
    }
    chars_occur_at(s, p, s.len() - p.len())
}

pub fn chars_contain(s: &Vec<char>, p: &Vec<char>) -> (r: bool)
    ensures
        r == contains(s@, p@),
{
    if p.len() > s.len() {
        return false;
    }
    let last: usize = s.len() - p.len();
    let mut i: usize = 0;
    while i < last
        invariant
            i <= last,
            last == s.len() - p.len(),
            forall|j: int| 0 <= j < i ==> !occurs_at(s@, p@, j),
        decreases last - i,
    {
        if chars_occur_at(s, p, i) {
            return true;
        }
        i += 1;
    }
    chars_occur_at(s, p, last)
}

/// Exact equality of two strings.
pub fn str_eq(a: &str, b: &str) -> (r: bool)
    ensures
        r == (a@ == b@),
{
    let x = chars_of(a);
    let y = chars_of(b);
    chars_equal(&x, &y)
}

/// Equality of two names up to ASCII case.
pub fn same(a: &str, b: &str) -> (r: bool)
    ensures
        r == same_name(a@, b@),
{
    let x = lower_chars_of(a);
    let y = lower_chars_of(b);
    chars_equal(&x, &y)
}

pub fn str_starts_with(s: &str, p: &str) -> (r: bool)
    ensures
        r == starts_with(s@, p@),
{
    let x = chars_of(s);
    let y = chars_of(p);
    chars_start_with(&x, &y)
}

pub fn str_ends_with(s: &str, p: &str) -> (r: bool)
    ensures
        r == ends_with(s@, p@),
{
    let x = chars_of(s);
    let y = chars_of(p);
    chars_end_with(&x, &y)
}

pub fn str_contains(s: &str, p: &str) -> (r: bool)
    ensures
        r == contains(s@, p@),
{
    let x = chars_of(s);
    let y = chars_of(p);
    chars_contain(&x, &y)
}

/// Whether the lower-cased form of `s` is exactly `p`.
pub fn lower_is(s: &str, p: &str) -> (r: bool)
    ensures
        r == (lower(s@) == p@),
{
    let x = lower_chars_of(s);
    let y = chars_of(p);
    chars_equal(&x, &y)
}

/// Whether the lower-cased form of `s` contains `p`.
pub fn lower_contains(s: &str, p: &str) -> (r: bool)
    ensures
        r == contains(lower(s@), p@),
{
    let x = lower_chars_of(s);
    let y = chars_of(p);
    chars_contain(&x, &y)
}

/// Whether the lower-cased form of `s` starts with `p`.
pub fn lower_starts_with(s: &str, p: &str) -> (r: bool)
    ensures
        r == starts_with(lower(s@), p@),
{
    let x = lower_chars_of(s);
    let y = chars_of(p);
    chars_start_with(&x, &y)
}

/// Whether the lower-cased form of `s` ends with `p`.
pub fn lower_ends_with(s: &str, p: &str) -> (r: bool)
    ensures
        r == ends_with(lower(s@), p@),
{
    let x = lower_chars_of(s);
    let y = chars_of(p);
    chars_end_with(&x, &y)
}

/// The decimal digit for a value below ten.
pub open spec fn digit_char(d: nat) -> char {
    ((d + 48) as u8) as char
}

/// The decimal numeral of `n`, without sign or leading zeros.
pub open spec fn decimal(n: nat) -> Seq<char>
    decreases n,
{
    if n < 10 {
        seq![digit_char(n)]
    } else {
        decimal(n / 10).push(digit_char(n % 10))
    }
}

/// The decimal numeral of `n`.
pub fn decimal_text(n: usize) -> (r: String)
    ensures
        r@ == decimal(n as nat),
    decreases n,
{
    if n < 10 {
        let mut s = String::new();
        push_char(&mut s, ((n as u8) + 48) as char);
        s
    } else {
        let mut s = decimal_text(n / 10);
        push_char(&mut s, (((n % 10) as u8) + 48) as char);
        s
    }
}

/// Equality of a character vector with a string.
pub fn chars_are(v: &Vec<char>, lit: &str) -> (r: bool)
    ensures
        r == (v@ == lit@),
{
    let y = chars_of(lit);
    chars_equal(v, &y)
}

/// Whether the characters contain the text `p`.
pub fn holds(v: &Vec<char>, p: &str) -> (r: bool)
    ensures
        r == contains(v@, p@),
{
    let y = chars_of(p);
    chars_contain(v, &y)
}

/// Whether the characters start with the text `p`.
pub fn begins(v: &Vec<char>, p: &str) -> (r: bool)
    ensures
        r == starts_with(v@, p@),
{
    let y = chars_of(p);
    chars_start_with(v, &y)
}

/// Whether the characters end with the text `p`.
pub fn ends(v: &Vec<char>, p: &str) -> (r: bool)
    ensures
        r == ends_with(v@, p@),
{
    let y = chars_of(p);
    chars_end_with(v, &y)
}

/// Unicode white space, as `char::is_whitespace` has it.
pub open spec fn is_space(c: char) -> bool {
    c == ' ' || ('\u{9}' <= c && c <= '\u{d}') || c == '\u{85}' || c == '\u{a0}' || c
        == '\u{1680}' || ('\u{2000}' <= c && c <= '\u{200a}') || c == '\u{2028}' || c
        == '\u{2029}' || c == '\u{202f}' || c == '\u{205f}' || c == '\u{3000}'
}

pub fn char_is_space(c: char) -> (r: bool)
    ensures
        r == is_space(c),
{
    c == ' ' || ('\u{9}' <= c && c <= '\u{d}') || c == '\u{85}' || c == '\u{a0}' || c
        == '\u{1680}' || ('\u{2000}' <= c && c <= '\u{200a}') || c == '\u{2028}' || c
        == '\u{2029}' || c == '\u{202f}' || c == '\u{205f}' || c == '\u{3000}'
}

/// The first index at or after `i` that holds no white space, or the length.
pub open spec fn skip_spaces(s: Seq<char>, i: int) -> int
    decreases s.len() - i,
{
    if i < 0 || i >= s.len() {
        s.len() as int
    } else if !is_space(s[i]) {
        i
    } else {
        skip_spaces(s, i + 1)
    }
}

/// The first index at or after `i` that holds white space, or the length.
pub open spec fn next_space(s: Seq<char>, i: int) -> int
    decreases s.len() - i,
{
    if i < 0 || i >= s.len() {
        s.len() as int
    } else if is_space(s[i]) {
        i
    } else {
        next_space(s, i + 1)
    }
}

/// The end of the text once trailing white space is dropped, never below `lo`.
pub open spec fn trim_end_from(s: Seq<char>, lo: int, n: int) -> int
    decreases n,
{
    if n <= lo || n <= 0 || n > s.len() {
        lo
    } else if !is_space(s[n - 1]) {
        n
    } else {
        trim_end_from(s, lo, n - 1)
    }
}

/// The text without leading and trailing white space.
pub open spec fn trim(s: Seq<char>) -> Seq<char> {
    let a = skip_spaces(s, 0);
    s.subrange(a, trim_end_from(s, a, s.len() as int))
}

/// The first run of characters that are not white space; empty if there is none.
pub open spec fn first_word(s: Seq<char>) -> Seq<char> {
    let a = skip_spaces(s, 0);
    s.subrange(a, next_space(s, a))
}

/// The first index at or after `i` that holds `c`, or the length.
pub open spec fn index_from(s: Seq<char>, c: char, i: int) -> int
    decreases s.len() - i,
{
    if i < 0 || i >= s.len() {
        s.len() as int
    } else if s[i] == c {
        i
    } else {
        index_from(s, c, i + 1)
    }
}

/// One past the last index below `n` that holds `c`, or 0 if there is none.
pub open spec fn after_last_index(s: Seq<char>, c: char, n: int) -> int
    decreases n,
{
    if n <= 0 || n > s.len() {
        0
    } else if s[n - 1] == c {
        n
    } else {
        after_last_index(s, c, n - 1)
    }
}

/// The text before the first `c`; the whole text if `c` does not occur.
pub open spec fn before_first(s: Seq<char>, c: char) -> Seq<char> {
    s.subrange(0, index_from(s, c, 0))
}

/// The text after the last `c`; the whole text if `c` does not occur.
pub open spec fn after_last(s: Seq<char>, c: char) -> Seq<char> {
    s.subrange(after_last_index(s, c, s.len() as int), s.len() as int)
}

/// The characters of `v` from `from` up to `to`.
pub fn chars_between(v: &Vec<char>, from: usize, to: usize) -> (r: Vec<char>)
    requires
        from <= to <= v@.len(),
    ensures
        r@ == v@.subrange(from as int, to as int),
{
    let mut out: Vec<char> = Vec::new();
    let mut i: usize = from;
    while i < to
        invariant
            from <= i <= to,
            to <= v@.len(),
            out@ == v@.subrange(from as int, i as int),
        decreases to - i,
    {
        out.push(v[i]);
        i += 1;
    }
    out
}

pub fn chars_skip_spaces(v: &Vec<char>, from: usize) -> (r: usize)
    requires
        from <= v@.len(),
    ensures
        r == skip_spaces(v@, from as int),
        from <= r <= v@.len(),
{
    let mut i: usize = from;
    while i < v.len()
        invariant
            from <= i <= v@.len(),
            skip_spaces(v@, from as int) == skip_spaces(v@, i as int),
        decreases v@.len() - i,
    {
        if !char_is_space(v[i]) {
            return i;
        }
        i += 1;
    }
    i
}

pub fn chars_next_space(v: &Vec<char>, from: usize) -> (r: usize)
    requires
        from <= v@.len(),
    ensures
        r == next_space(v@, from as int),
        from <= r <= v@.len(),
{
    let mut i: usize = from;
    while i < v.len()
        invariant
            from <= i <= v@.len(),
            next_space(v@, from as int) == next_space(v@, i as int),
        decreases v@.len() - i,
    {
        if char_is_space(v[i]) {
            return i;
        }
        i += 1;
    }
    i
}

pub fn chars_index_from(v: &Vec<char>, c: char, from: usize) -> (r: usize)
    requires
        from <= v@.len(),
    ensures
        r == index_from(v@, c, from as int),
        from <= r <= v@.len(),
{
    let mut i: usize = from;
    while i < v.len()
        invariant
            from <= i <= v@.len(),
            index_from(v@, c, from as int) == index_from(v@, c, i as int),
        decreases v@.len() - i,
    {
        if v[i] == c {
            return i;
        }
        i += 1;
    }
    i
}

pub fn chars_after_last_index(v: &Vec<char>, c: char) -> (r: usize)
    ensures
        r == after_last_index(v@, c, v@.len() as int),
        r <= v@.len(),
{
    let mut n: usize = v.len();
    while n > 0
        invariant
            n <= v@.len(),
            after_last_index(v@, c, v@.len() as int) == after_last_index(v@, c, n as int),
        decreases n,
    {
        if v[n - 1] == c {
            return n;
        }
        n -= 1;
    }
    0
}

pub fn chars_trim(v: &Vec<char>) -> (r: Vec<char>)
    ensures
        r@ == trim(v@),
{
    let a = chars_skip_spaces(v, 0);
    let mut n: usize = v.len();
    while n > a
        invariant
            a <= n <= v@.len(),
            a == skip_spaces(v@, 0),
            trim_end_from(v@, a as int, v@.len() as int) == trim_end_from(v@, a as int, n as int),
        decreases n,
    {
        if !char_is_space(v[n - 1]) {
            return chars_between(v, a, n);
        }
        n -= 1;
    }
    chars_between(v, a, n)
}

pub fn chars_first_word(v: &Vec<char>) -> (r: Vec<char>)
    ensures
        r@ == first_word(v@),
{
    let a = chars_skip_spaces(v, 0);
    let b = chars_next_space(v, a);
    chars_between(v, a, b)
}

pub fn chars_before_first(v: &Vec<char>, c: char) -> (r: Vec<char>)
    ensures
        r@ == before_first(v@, c),
{
    let b = chars_index_from(v, c, 0);
    chars_between(v, 0, b)
}

pub fn chars_after_last(v: &Vec<char>, c: char) -> (r: Vec<char>)
    ensures
        r@ == after_last(v@, c),
{
    let a = chars_after_last_index(v, c);
    chars_between(v, a, v.len())
}

/// `s` without leading and trailing white space.
pub fn trimmed(s: &str) -> (r: String)
    ensures
        r@ == trim(s@),
{
    let v = chars_of(s);
    let t = chars_trim(&v);
    string_of(&t)
}

/// Whether `s` holds nothing but white space.
pub fn is_blank(s: &str) -> (r: bool)
    ensures
        r == (trim(s@).len() == 0),
{
    let v = chars_of(s);
    let t = chars_trim(&v);
    t.len() == 0
}

/// The texts of a list of strings.
pub open spec fn texts(s: Seq<String>) -> Seq<Seq<char>> {
    Seq::new(s.len(), |i: int| s[i]@)
}

pub broadcast proof fn lemma_texts_push(s: Seq<String>, v: String)
    ensures
        #[trigger] texts(s.push(v)) == texts(s).push(v@),
{
    assert(texts(s.push(v)) =~= texts(s).push(v@));
}

pub broadcast proof fn lemma_texts_empty(s: Seq<String>)
    requires
        s.len() == 0,
    ensures
        #[trigger] texts(s) == Seq::<Seq<char>>::empty(),
{
    assert(texts(s) =~= Seq::<Seq<char>>::empty());
}

pub broadcast group group_texts {
    lemma_texts_push,
    lemma_texts_empty,
}

/// Whether `a` comes before `b` in the order of strings, looking from index `i` on:
/// the first differing character decides, and a proper prefix comes first.
pub open spec fn text_lt_from(a: Seq<char>, b: Seq<char>, i: int) -> bool
    decreases b.len() - i,
{
    if i < 0 || i >= b.len() {
        false
    } else if i >= a.len() {
        true
    } else if a[i] != b[i] {
        a[i] < b[i]
    } else {
        text_lt_from(a, b, i + 1)
    }
}

/// The order of strings.
pub open spec fn text_lt(a: Seq<char>, b: Seq<char>) -> bool {
    text_lt_from(a, b, 0)
}

/// Of two texts at most one comes before the other.
pub proof fn lemma_text_lt_asymmetric(a: Seq<char>, b: Seq<char>, i: int)
    requires
        0 <= i,
    ensures
        !(text_lt_from(a, b, i) && text_lt_from(b, a, i)),
    decreases a.len() + b.len() - i,
{
    if i < a.len() && i < b.len() && a[i] == b[i] {
        lemma_text_lt_asymmetric(a, b, i + 1);
    }
}

/// Of two different texts one comes before the other.
pub proof fn lemma_text_lt_total(a: Seq<char>, b: Seq<char>, i: int)
    requires
        0 <= i <= a.len(),
        i <= b.len(),
        forall|j: int| 0 <= j < i ==> a[j] == b[j],
    ensures
        text_lt_from(a, b, i) || text_lt_from(b, a, i) || a == b,
    decreases a.len() - i,
{
    if i < a.len() && i < b.len() {
        if a[i] == b[i] {
            lemma_text_lt_total(a, b, i + 1);
        }
    } else if i == a.len() && i == b.len() {
        assert(a =~= b);
    }
}

pub fn chars_less(a: &Vec<char>, b: &Vec<char>) -> (r: bool)
    ensures
        r == text_lt(a@, b@),
{
    let mut i: usize = 0;
    while i < b.len()
        invariant
            i <= b@.len(),
            i <= a@.len(),
            text_lt(a@, b@) == text_lt_from(a@, b@, i as int),
        decreases b@.len() - i,
    {
        if i >= a.len() {
            return true;
        }
        if a[i] != b[i] {
            return a[i] < b[i];
        }
        i += 1;
    }
    false
}

pub fn text_less(a: &str, b: &str) -> (r: bool)
    ensures
        r == text_lt(a@, b@),
{
    let x = chars_of(a);
    let y = chars_of(b);
    chars_less(&x, &y)
}

/// A sorted list with `x` put in after everything that is not greater.
pub open spec fn insert_sorted(s: Seq<Seq<char>>, x: Seq<char>) -> Seq<Seq<char>>
    decreases s.len(),
{
    if s.len() == 0 {
        seq![x]
    } else if text_lt(x, s.last()) {
        insert_sorted(s.drop_last(), x).push(s.last())
    } else {
        s.push(x)
    }
}

/// The texts in ascending order.
pub open spec fn sort_texts(s: Seq<Seq<char>>) -> Seq<Seq<char>>
    decreases s.len(),
{
    if s.len() == 0 {
        Seq::empty()
    } else {
        insert_sorted(sort_texts(s.drop_last()), s.last())
    }
}

pub proof fn lemma_insert_sorted_len(s: Seq<Seq<char>>, x: Seq<char>)
    ensures
        insert_sorted(s, x).len() == s.len() + 1,
    decreases s.len(),
{
    if s.len() > 0 && text_lt(x, s.last()) {
        lemma_insert_sorted_len(s.drop_last(), x);
    }
}

/// Sorting keeps the number of texts.
pub proof fn lemma_sort_texts_len(s: Seq<Seq<char>>)
    ensures
        sort_texts(s).len() == s.len(),
    decreases s.len(),
{
    if s.len() > 0 {
        lemma_sort_texts_len(s.drop_last());
        lemma_insert_sorted_len(sort_texts(s.drop_last()), s.last());
    }
}

/// The order of strings is transitive.
pub proof fn lemma_text_lt_transitive(a: Seq<char>, b: Seq<char>, c: Seq<char>, i: int)
    requires
        0 <= i,
        text_lt_from(a, b, i),
        text_lt_from(b, c, i),
    ensures
        text_lt_from(a, c, i),
    decreases c.len() - i,
{
    if i < a.len() && i < b.len() && i < c.len() && a[i] == b[i] && b[i] == c[i] {
        lemma_text_lt_transitive(a, b, c, i + 1);
    }
}

/// No text of the list comes before an earlier one.
pub open spec fn ascending(s: Seq<Seq<char>>) -> bool {
    forall|i: int, j: int| 0 <= i < j < s.len() ==> !text_lt(#[trigger] s[j], #[trigger] s[i])
}

/// What is not above a bound before `x` is put in, and `x` itself, is not above it after.
pub proof fn lemma_insert_sorted_not_above(s: Seq<Seq<char>>, x: Seq<char>, bound: Seq<char>)
    requires
        !text_lt(bound, x),
        forall|i: int| 0 <= i < s.len() ==> !text_lt(bound, #[trigger] s[i]),
    ensures
        forall|k: int|
            0 <= k < insert_sorted(s, x).len() ==> !text_lt(bound, #[trigger] insert_sorted(s, x)[k]),
    decreases s.len(),
{
    if s.len() > 0 && text_lt(x, s.last()) {
        let d = s.drop_last();
        assert forall|i: int| 0 <= i < d.len() implies !text_lt(bound, #[trigger] d[i]) by {
            assert(d[i] == s[i]);
        }
        lemma_insert_sorted_not_above(d, x, bound);
        let r = insert_sorted(d, x);
        assert forall|k: int| 0 <= k < r.push(s.last()).len() implies !text_lt(
            bound,
            #[trigger] r.push(s.last())[k],
        ) by {
            if k < r.len() {
                assert(r.push(s.last())[k] == r[k]);
            } else {
                assert(r.push(s.last())[k] == s[s.len() - 1]);
            }
        }
    }
}

/// Putting a text into an ascending list leaves the list ascending.
pub proof fn lemma_insert_sorted_ascending(s: Seq<Seq<char>>, x: Seq<char>)
    requires
        ascending(s),
    ensures
        ascending(insert_sorted(s, x)),
    decreases s.len(),
{
    if s.len() > 0 {
        let last = s.last();
        let d = s.drop_last();
        if text_lt(x, last) {
            assert(ascending(d)) by {
                assert forall|i: int, j: int| 0 <= i < j < d.len() implies !text_lt(
                    #[trigger] d[j],
                    #[trigger] d[i],
                ) by {
                    assert(d[i] == s[i] && d[j] == s[j]);
                }
            }
            lemma_insert_sorted_ascending(d, x);
            lemma_text_lt_asymmetric(x, last, 0);
            assert forall|i: int| 0 <= i < d.len() implies !text_lt(last, #[trigger] d[i]) by {
                assert(d[i] == s[i]);
                assert(last == s[s.len() - 1]);
            }
            lemma_insert_sorted_not_above(d, x, last);
            let r = insert_sorted(d, x);
            assert forall|i: int, j: int| 0 <= i < j < r.push(last).len() implies !text_lt(
                #[trigger] r.push(last)[j],
                #[trigger] r.push(last)[i],
            ) by {
                if j < r.len() {
                    assert(r.push(last)[i] == r[i] && r.push(last)[j] == r[j]);
                } else {
                    assert(r.push(last)[j] == last && r.push(last)[i] == r[i]);
                }
            }
        } else {
            let r = s.push(x);
            assert forall|i: int, j: int| 0 <= i < j < r.len() implies !text_lt(
                #[trigger] r[j],
                #[trigger] r[i],
            ) by {
                if j < s.len() {
                    assert(r[i] == s[i] && r[j] == s[j]);
                } else {
                    assert(r[j] == x && r[i] == s[i]);
                    if text_lt(x, s[i]) {
                        lemma_text_lt_total(s[i], last, 0);
                        if i < s.len() - 1 {
                            assert(!text_lt(s[s.len() - 1], s[i]));
                        }
                        if text_lt(s[i], last) {
                            lemma_text_lt_transitive(x, s[i], last, 0);
                        }
                    }
                }
            }
        }
    } else {
        assert(insert_sorted(s, x) =~= seq![x]);
    }
}

/// Putting a text into a list adds that text and nothing else.
pub proof fn lemma_insert_sorted_texts(s: Seq<Seq<char>>, x: Seq<char>)
    ensures
        insert_sorted(s, x).to_multiset() == s.to_multiset().insert(x),
    decreases s.len(),
{
    broadcast use vstd::seq_lib::group_to_multiset_ensures;

    if s.len() > 0 && text_lt(x, s.last()) {
        let d = s.drop_last();
        lemma_insert_sorted_texts(d, x);
        assert(s =~= d.push(s.last()));
        assert(insert_sorted(d, x).push(s.last()).to_multiset() =~= d.to_multiset().insert(
            x,
        ).insert(s.last()));
        assert(d.push(s.last()).to_multiset() =~= d.to_multiset().insert(s.last()));
        assert(d.to_multiset().insert(x).insert(s.last()) =~= d.to_multiset().insert(
            s.last(),
        ).insert(x));
    } else if s.len() == 0 {
        assert(insert_sorted(s, x) =~= s.push(x));
    }
}

/// The sorted list is ascending and holds the same texts, each as often as the given list.
pub proof fn lemma_sort_texts_sorts(s: Seq<Seq<char>>)
    ensures
        ascending(sort_texts(s)),
        sort_texts(s).to_multiset() == s.to_multiset(),
    decreases s.len(),
{
    broadcast use vstd::seq_lib::group_to_multiset_ensures;

    if s.len() > 0 {
        let d = s.drop_last();
        lemma_sort_texts_sorts(d);
        lemma_insert_sorted_ascending(sort_texts(d), s.last());
        lemma_insert_sorted_texts(sort_texts(d), s.last());
        assert(s =~= d.push(s.last()));
        assert(d.push(s.last()).to_multiset() =~= d.to_multiset().insert(s.last()));
    }
}

/// Puts `x` into a sorted list.
pub fn insert_string(list: &mut Vec<String>, x: String)
    ensures
        texts(final(list)@) == insert_sorted(texts(old(list)@), x@),
{
    let ghost s = texts(list@);
    let mut k: usize = list.len();
    let mut done = false;
    proof {
        assert(s.take(k as int) =~= s);
        assert(insert_sorted(s, x@) =~= insert_sorted(s.take(k as int), x@) + s.skip(k as int));
    }
    while k > 0 && !done
        invariant
            k <= list@.len(),
            list@ == old(list)@,
            s == texts(list@),
            insert_sorted(s, x@) == insert_sorted(s.take(k as int), x@) + s.skip(k as int),
            done ==> k > 0 && !text_lt(x@, s[k - 1]),
        decreases k + (if done { 0int } else { 1int }),
    {
        if text_less(x.as_str(), list[k - 1].as_str()) {
            proof {
                let t = s.take(k as int);
                assert(t.last() == s[k - 1]);
                assert(t.drop_last() =~= s.take(k - 1));
                assert(insert_sorted(t, x@) == insert_sorted(s.take(k - 1), x@).push(s[k - 1]));
                assert(insert_sorted(s.take(k - 1), x@).push(s[k - 1]) + s.skip(k as int)
                    =~= insert_sorted(s.take(k - 1), x@) + s.skip(k - 1));
            }
            k -= 1;
        } else {
            done = true;
        }
    }
    proof {
        let t = s.take(k as int);
        if k > 0 {
            assert(t.last() == s[k - 1]);
        }
        assert(insert_sorted(t, x@) == t.push(x@));
        assert(texts(list@.insert(k as int, x)) =~= t.push(x@) + s.skip(k as int));
    }
    list.insert(k, x);
}

/// The strings in ascending order.
pub fn sorted_strings(v: &Vec<String>) -> (r: Vec<String>)
    ensures
        texts(r@) == sort_texts(texts(v@)),
        ascending(texts(r@)),
        texts(r@).to_multiset() == texts(v@).to_multiset(),
{
    proof {
        lemma_sort_texts_sorts(texts(v@));
    }
    broadcast use group_texts;

    let mut out: Vec<String> = Vec::new();
    let mut i: usize = 0;
    while i < v.len()
        invariant
            i <= v@.len(),
            texts(out@) == sort_texts(texts(v@).take(i as int)),
        decreases v@.len() - i,
    {
        proof {
            let t = texts(v@).take(i + 1);
            assert(t.drop_last() =~= texts(v@).take(i as int));
            assert(t.last() == v@[i as int]@);
        }
        insert_string(&mut out, v[i].clone());
        i += 1;
    }
    proof {
        assert(texts(v@).take(v@.len() as int) =~= texts(v@));
    }
    out
}

/// An ASCII decimal digit.
pub open spec fn is_digit(c: char) -> bool {
    '0' <= c && c <= '9'
}

/// The number that the first `n` characters spell, read as decimal digits.
pub open spec fn digits_value(s: Seq<char>, n: int) -> nat
    decreases n,
{
    if n <= 0 {
        0
    } else {
        digits_value(s, n - 1) * 10 + ((s[n - 1] as u32 - 48) as nat)
    }
}

/// Every character from index `from` on is a digit.
pub open spec fn all_digits_from(s: Seq<char>, from: int) -> bool {
    forall|i: int| from <= i < s.len() ==> is_digit(#[trigger] s[i])
}

/// The integer that a text spells: an optional sign (a minus only where
/// `minus_ok`), then one or more digits and nothing else.
pub open spec fn spelled_integer(s: Seq<char>, minus_ok: bool) -> Option<int> {
    let signed = s.len() > 0 && (s[0] == '+' || (minus_ok && s[0] == '-'));
    let body = if signed {
        s.skip(1)
    } else {
        s
    };
    if body.len() == 0 || !all_digits_from(body, 0) {
        None
    } else if signed && s[0] == '-' {
        Some(-(digits_value(body, body.len() as int) as int))
    } else {
        Some(digits_value(body, body.len() as int) as int)
    }
}

/// The integer that a text spells, if it lies between `lo` and `hi`.
pub open spec fn integer_in_range(s: Seq<char>, minus_ok: bool, lo: int, hi: int) -> Option<int> {
    match spelled_integer(s, minus_ok) {
        Some(v) => if lo <= v <= hi {
            Some(v)
        } else {
            None
        },
        None => None,
    }
}

/// Reads digits into a magnitude that stays at or below `limit`; `None` where
/// a character is no digit, there is none, or the number is larger.
fn read_magnitude(body: &Vec<char>, limit: u64) -> (r: Option<u64>)
    ensures
        match r {
            Some(v) => body@.len() > 0 && all_digits_from(body@, 0) && v == digits_value(
                body@,
                body@.len() as int,
            ) && v <= limit,
            None => body@.len() == 0 || !all_digits_from(body@, 0) || digits_value(
                body@,
                body@.len() as int,
            ) > limit,
        },
{
    if body.len() == 0 {
        return None;
    }
    let mut acc: u64 = 0;
    let mut over = false;
    let mut i: usize = 0;
    while i < body.len()
        invariant
            i <= body@.len(),
            forall|k: int| 0 <= k < i ==> is_digit(#[trigger] body@[k]),
            !over ==> acc == digits_value(body@, i as int) && acc <= limit,
            over ==> digits_value(body@, i as int) > limit,
        decreases body@.len() - i,
    {
        let c = body[i];
        if !('0' <= c && c <= '9') {
            return None;
        }
        let d: u64 = (c as u32 - 48) as u64;
        if !over {
            let next: u128 = (acc as u128) * 10 + (d as u128);
            if next > limit as u128 {
                over = true;
            } else {
                acc = next as u64;
            }
        } else {
            proof {
                assert(digits_value(body@, i + 1) >= digits_value(body@, i as int) * 10);
                assert(digits_value(body@, i as int) * 10 >= digits_value(body@, i as int))
                    by (nonlinear_arith);
            }
        }
        i += 1;
    }
    proof {
        assert(all_digits_from(body@, 0));
    }
    if over {
        None
    } else {
        Some(acc)
    }
}

/// The integer that `s` spells, if it lies between `lo` and `hi`.
pub fn parse_integer(s: &str, minus_ok: bool, lo: i64, hi: i64) -> (r: Option<i64>)
    requires
        lo <= 0 <= hi,
    ensures
        match r {
            Some(v) => integer_in_range(s@, minus_ok, lo as int, hi as int) == Some(v as int),
            None => integer_in_range(s@, minus_ok, lo as int, hi as int).is_none(),
        },
{
    let v = chars_of(s);
    let signed = v.len() > 0 && (v[0] == '+' || (minus_ok && v[0] == '-'));
    let negative = signed && v[0] == '-';
    let body = if signed {
        chars_between(&v, 1, v.len())
    } else {
        chars_between(&v, 0, v.len())
    };
    proof {
        if signed {
            assert(body@ =~= s@.skip(1));
        } else {
            assert(body@ =~= s@);
        }
    }
    if negative {
        let limit: u64 = if lo == i64::MIN {
            0x8000_0000_0000_0000
        } else {
            (-lo) as u64
        };
        match read_magnitude(&body, limit) {
            Some(m) => {
                if m == 0x8000_0000_0000_0000 {
                    Some(i64::MIN)
                } else {
                    Some(-(m as i64))
                }
            },
            None => None,
        }
    } else {
        match read_magnitude(&body, hi as u64) {
            Some(m) => Some(m as i64),
            None => None,
        }
    }
}

/// The integer that `s` spells without minus sign, if it is at most `hi`.
pub fn parse_unsigned(s: &str, hi: u64) -> (r: Option<u64>)
    ensures
        match r {
            Some(v) => integer_in_range(s@, false, 0, hi as int) == Some(v as int),
            None => integer_in_range(s@, false, 0, hi as int).is_none(),
        },
{
    let v = chars_of(s);
    let signed = v.len() > 0 && v[0] == '+';
    let body = if signed {
        chars_between(&v, 1, v.len())
    } else {
        chars_between(&v, 0, v.len())
    };
    proof {
        if signed {
            assert(body@ =~= s@.skip(1));
        } else {
            assert(body@ =~= s@);
        }
    }
    read_magnitude(&body, hi)
}

/// Whether some string of the list has exactly this text.
pub fn list_has(list: &Vec<String>, x: &str) -> (r: bool)
    ensures
        r == texts(list@).contains(x@),
{
    let mut i: usize = 0;
    while i < list.len()
        invariant
            i <= list@.len(),
            forall|j: int| 0 <= j < i ==> (#[trigger] texts(list@)[j]) != x@,
        decreases list@.len() - i,
    {
        if str_eq(list[i].as_str(), x) {
            assert(texts(list@)[i as int] == x@);
            return true;
        }
        i += 1;
    }
    false
}

/// How often `c` occurs among the first `n` characters.
pub open spec fn count_char(s: Seq<char>, c: char, n: int) -> nat
    decreases n,
{
    if n <= 0 {
        0
    } else if s[n - 1] == c {
        count_char(s, c, n - 1) + 1
    } else {
        count_char(s, c, n - 1)
    }
}

/// How often `c` occurs in `s`.
pub fn occurrences(s: &str, c: char) -> (r: usize)
    ensures
        r == count_char(s@, c, s@.len() as int),
{
    let v = chars_of(s);
    let mut count: usize = 0;
    let mut i: usize = 0;
    while i < v.len()
        invariant
            i <= v@.len(),
            count <= i,
            count == count_char(v@, c, i as int),
        decreases v@.len() - i,
    {
        if v[i] == c {
            count += 1;
        }
        i += 1;
    }
    count
}

/// The first `n` characters of the text with every trailing repetition of
/// `p` removed.
pub open spec fn strip_all_suffix(s: Seq<char>, p: Seq<char>, n: int) -> Seq<char>
    decreases n,
{
    if p.len() > 0 && p.len() <= n <= s.len() && s.subrange(n - p.len(), n) == p {
        strip_all_suffix(s, p, n - p.len())
    } else if 0 <= n <= s.len() {
        s.take(n)
    } else {
        s
    }
}

/// The characters without any trailing repetition of `p`.
pub fn chars_strip_all_suffix(v: &Vec<char>, p: &str) -> (r: Vec<char>)
    ensures
        r@ == strip_all_suffix(v@, p@, v@.len() as int),
{
    let pat = chars_of(p);
    let mut n: usize = v.len();
    if pat.len() > 0 {
        while n >= pat.len()
            invariant
                n <= v@.len(),
                pat@ == p@,
                pat@.len() > 0,
                strip_all_suffix(v@, p@, v@.len() as int) == strip_all_suffix(v@, p@, n as int),
            decreases n,
        {
            if !chars_occur_at(v, &pat, n - pat.len()) {
                return chars_between(v, 0, n);
            }
            n -= pat.len();
        }
    }
    chars_between(v, 0, n)
}

/// The first `n` texts joined, with `sep` between neighbours.
pub open spec fn join_upto(parts: Seq<Seq<char>>, sep: Seq<char>, n: int) -> Seq<char>
    decreases n,
{
    if n <= 0 {
        Seq::empty()
    } else if n == 1 {
        parts[0]
    } else {
        join_upto(parts, sep, n - 1) + sep + parts[n - 1]
    }
}

/// The texts joined, with `sep` between neighbours.
pub open spec fn join_texts(parts: Seq<Seq<char>>, sep: Seq<char>) -> Seq<char> {
    join_upto(parts, sep, parts.len() as int)
}

pub fn join_strings(parts: &Vec<String>, sep: &str) -> (r: String)
    ensures
        r@ == join_texts(texts(parts@), sep@),
{
    let mut out = String::new();
    let mut i: usize = 0;
    proof {
        assert(texts(parts@).len() == parts@.len());
    }
    while i < parts.len()
        invariant
            i <= parts@.len(),
            texts(parts@).len() == parts@.len(),
            out@ == join_upto(texts(parts@), sep@, i as int),
        decreases parts@.len() - i,
    {
        proof {
            assert(texts(parts@)[i as int] == parts@[i as int]@);
        }
        if i > 0 {
            out.append(sep);
        } else {
            proof {
                assert(out@ + parts@[0]@ =~= parts@[0]@);
            }
        }
        out.append(parts[i].as_str());
        i += 1;
    }
    out
}

/// What the `Debug` form of a list of strings is for given texts: the texts
/// quoted and escaped, separated by commas, in square brackets.
pub uninterp spec fn debug_list_text(items: Seq<Seq<char>>) -> Seq<char>;

/// The `Debug` form of a list of strings, made by `format!("{:?}", ..)`.
/// Nothing is proved of the escaping: the result is only given its name.
#[verifier::external_body]
pub(crate) fn debug_list(items: &Vec<String>) -> (r: String)
    ensures
        r@ == debug_list_text(texts(items@)),
{
    format!("{:?}", items)
}

/// The decimal numeral of `n`, for numbers beyond the machine word.
pub fn decimal_text_wide(n: u128) -> (r: String)
    ensures
        r@ == decimal(n as nat),
    decreases n,
{
    if n < 10 {
        let mut s = String::new();
        push_char(&mut s, ((n as u8) + 48) as char);
        s
    } else {
        let mut s = decimal_text_wide(n / 10);
        push_char(&mut s, (((n % 10) as u8) + 48) as char);
        s
    }
}

/// Case folding is idempotent.
pub proof fn lemma_lower_idempotent(s: Seq<char>)
    ensures
        lower(lower(s)) == lower(s),
{
    assert(lower(lower(s)) =~= lower(s));
}

/// Folding to upper case first does not change the lower-case form.
pub proof fn lemma_lower_of_upper(s: Seq<char>)
    ensures
        lower(upper(s)) == lower(s),
{
    assert(lower(upper(s)) =~= lower(s));
}

} // verus!
