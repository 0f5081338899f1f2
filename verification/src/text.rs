//! Character and string utilities shared by the compiler and the telemetry store.
//!
//! Everything here works on the `Seq<char>` view of strings. The only trusted
//! items are thin wrappers over `char` case mapping and `String::push`.

use vstd::prelude::*;

verus! {

// ---------------------------------------------------------------------------
// Unicode case mapping (std `char` methods)
// ---------------------------------------------------------------------------

/// Whether `c` has the Unicode `Uppercase` property (`char::is_uppercase`).
pub uninterp spec fn spec_is_uppercase(c: char) -> bool;

/// The characters that `char::to_lowercase` yields for `c`.
pub uninterp spec fn spec_lowercase(c: char) -> Seq<char>;

/// The characters that `char::to_uppercase` yields for `c`.
pub uninterp spec fn spec_uppercase(c: char) -> Seq<char>;

pub open spec fn is_ascii_upper(c: char) -> bool {
    65 <= (c as u32) <= 90
}

pub open spec fn is_ascii_lower(c: char) -> bool {
    97 <= (c as u32) <= 122
}

pub open spec fn is_ascii_digit(c: char) -> bool {
    48 <= (c as u32) <= 57
}

/// Calls `char::is_uppercase`. Claims only the documented property for ASCII
/// letters and digits; other characters are left to the name.
#[verifier::external_body]
pub(crate) fn char_is_uppercase(c: char) -> (r: bool)
    ensures
        r == spec_is_uppercase(c),
        is_ascii_upper(c) ==> r,
        (is_ascii_lower(c) || is_ascii_digit(c) || c == '_') ==> !r,
{
    c.is_uppercase()
}

/// Calls `char::to_lowercase` and gathers what it yields. The iterator always
/// yields at least one character; for ASCII the mapping is the usual one.
#[verifier::external_body]
pub(crate) fn char_to_lowercase(c: char) -> (r: String)
    ensures
        r@ == spec_lowercase(c),
        r@.len() >= 1,
        is_ascii_upper(c) ==> r@ == seq![((c as u32) + 32) as char],
        (is_ascii_lower(c) || is_ascii_digit(c) || c == '_') ==> r@ == seq![c],
{
    c.to_lowercase().to_string()
}

/// Calls `char::to_uppercase` and gathers what it yields. The iterator always
/// yields at least one character; for ASCII the mapping is the usual one.
#[verifier::external_body]
pub(crate) fn char_to_uppercase(c: char) -> (r: String)
    ensures
        r@ == spec_uppercase(c),
        r@.len() >= 1,
        is_ascii_lower(c) ==> r@ == seq![((c as u32) - 32) as char],
        (is_ascii_upper(c) || is_ascii_digit(c) || c == '_') ==> r@ == seq![c],
{
    c.to_uppercase().to_string()
}

/// What `str::to_lowercase` returns for a string with these characters.
pub uninterp spec fn spec_str_lowercase(s: Seq<char>) -> Seq<char>;

pub open spec fn is_ascii_seq(s: Seq<char>) -> bool {
    forall|i: int| 0 <= i < s.len() ==> (s[i] as u32) < 128
}

pub open spec fn ascii_lower_char(c: char) -> char {
    if is_ascii_upper(c) {
        ((c as u32) + 32) as char
    } else {
        c
    }
}

/// Calls `str::to_lowercase`. For ASCII input the result maps each upper-case
/// letter to its lower-case letter and keeps every other character.
#[verifier::external_body]
pub(crate) fn str_to_lowercase(s: &str) -> (r: String)
    ensures
        r@ == spec_str_lowercase(s@),
        is_ascii_seq(s@) ==> r@ == s@.map_values(|c: char| ascii_lower_char(c)),
{
    s.to_lowercase()
}

/// Calls `String::push`.
#[verifier::external_body]
pub(crate) fn push_char(s: &mut String, c: char)
    ensures
        final(s)@ == old(s)@.push(c),
{
    s.push(c)
}

// ---------------------------------------------------------------------------
// Basic conversions
// ---------------------------------------------------------------------------

/// The characters of `s`, in order.
pub fn chars_of(s: &str) -> (r: Vec<char>)
    ensures
        r@ == s@,
{
    let n = s.unicode_len();
    let mut out: Vec<char> = Vec::new();
    let mut i: usize = 0;
    while i < n
        invariant
            n == s@.len(),
            i <= n,
            out@ == s@.subrange(0, i as int),
        decreases n - i,
    {
        let c = s.get_char(i);
        out.push(c);
        i = i + 1;
        assert(out@ =~= s@.subrange(0, i as int));
    }
    assert(out@ =~= s@);
    out
}

/// A `String` holding the characters of `cs`.
pub fn string_from_chars(cs: &Vec<char>) -> (r: String)
    ensures
        r@ == cs@,
{
    let mut s = String::new();
    let mut i: usize = 0;
    while i < cs.len()
        invariant
            i <= cs@.len(),
            s@ == cs@.subrange(0, i as int),
        decreases cs.len() - i,
    {
        push_char(&mut s, cs[i]);
        i = i + 1;
        assert(s@ =~= cs@.subrange(0, i as int));
    }
    assert(s@ =~= cs@);
    s
}

/// A fresh `String` with the contents of `s`.
pub fn to_owned_string(s: &str) -> (r: String)
    ensures
        r@ == s@,
{
    let mut out = String::new();
    out.append(s);
    out
}

/// Whether two strings hold the same characters.
pub fn str_eq(a: &str, b: &str) -> (r: bool)
    ensures
        r == (a@ == b@),
{
    let n = a.unicode_len();
    let m = b.unicode_len();
    if n != m {
        return false;
    }
    let mut i: usize = 0;
    while i < n
        invariant
            n == a@.len(),
            m == b@.len(),
            n == m,
            i <= n,
            a@.subrange(0, i as int) == b@.subrange(0, i as int),
        decreases n - i,
    {
        if a.get_char(i) != b.get_char(i) {
            assert(a@[i as int] != b@[i as int]);
            return false;
        }
        assert(a@.subrange(0, i + 1) =~= a@.subrange(0, i as int).push(a@[i as int]));
        assert(b@.subrange(0, i + 1) =~= b@.subrange(0, i as int).push(b@[i as int]));
        i = i + 1;
    }
    assert(a@ =~= a@.subrange(0, n as int));
    assert(b@ =~= b@.subrange(0, n as int));
    true
}

// ---------------------------------------------------------------------------
// Prefixes, suffixes, substrings
// ---------------------------------------------------------------------------

pub open spec fn seq_starts_with(s: Seq<char>, p: Seq<char>) -> bool {
    p.len() <= s.len() && s.subrange(0, p.len() as int) == p
}

pub open spec fn seq_ends_with(s: Seq<char>, p: Seq<char>) -> bool {
    p.len() <= s.len() && s.subrange(s.len() - p.len(), s.len() as int) == p
}

/// `p` occurs in `s` at position `i`.
pub open spec fn occurs_at(s: Seq<char>, p: Seq<char>, i: int) -> bool {
    0 <= i && i + p.len() <= s.len() && s.subrange(i, i + p.len()) == p
}

pub open spec fn seq_contains(s: Seq<char>, p: Seq<char>) -> bool {
    exists|i: int| occurs_at(s, p, i)
}

/// Whether `p` occurs in `cs` at position `i` (exec).
pub fn occurs_at_exec(cs: &Vec<char>, p: &Vec<char>, i: usize) -> (r: bool)
    requires
        i <= cs@.len(),
    ensures
        r == occurs_at(cs@, p@, i as int),
{
    if p.len() > cs.len() - i {
        return false;
    }
    let mut j: usize = 0;
    while j < p.len()
        invariant
            i + p@.len() <= cs@.len(),
            cs@.len() == cs.len(),
            j <= p@.len(),
            cs@.subrange(i as int, i + j) == p@.subrange(0, j as int),
        decreases p.len() - j,
    {
        if cs[i + j] != p[j] {
            assert(cs@.subrange(i as int, i + p@.len())[j as int] != p@[j as int]);
            return false;
        }
        assert(cs@.subrange(i as int, i + j + 1) =~= cs@.subrange(i as int, i + j).push(cs@[i + j]));
        assert(p@.subrange(0, j + 1) =~= p@.subrange(0, j as int).push(p@[j as int]));
        j = j + 1;
    }
    assert(p@ =~= p@.subrange(0, p@.len() as int));
    true
}

/// Whether `p` is a prefix of `s`.
pub fn starts_with(s: &str, p: &str) -> (r: bool)
    ensures
        r == seq_starts_with(s@, p@),
{
    let cs = chars_of(s);
    let ps = chars_of(p);
    let r = occurs_at_exec(&cs, &ps, 0);
    proof {
        if r {
            assert(s@.subrange(0, p@.len() as int) == p@);
        }
    }
    r
}

/// Whether `p` is a suffix of `s`.
pub fn ends_with(s: &str, p: &str) -> (r: bool)
    ensures
        r == seq_ends_with(s@, p@),
{
    let cs = chars_of(s);
    let ps = chars_of(p);
    if ps.len() > cs.len() {
        return false;
    }
    occurs_at_exec(&cs, &ps, cs.len() - ps.len())
}

/// Whether `p` occurs anywhere in `cs`.
pub fn contains_chars(cs: &Vec<char>, p: &Vec<char>) -> (r: bool)
    ensures
        r == seq_contains(cs@, p@),
{
    let mut i: usize = 0;
    while i < cs.len()
        invariant
            i <= cs@.len(),
            forall|k: int| 0 <= k < i ==> !occurs_at(cs@, p@, k),
        decreases cs.len() - i,
    {
        if occurs_at_exec(cs, p, i) {
            return true;
        }
        i = i + 1;
    }
    if occurs_at_exec(cs, p, i) {
        return true;
    }
    assert forall|k: int| !occurs_at(cs@, p@, k) by {
        if 0 <= k <= i {
        } else {
        }
    }
    false
}

/// Whether `p` occurs anywhere in `s` (`str::contains` with a string pattern).
pub fn contains(s: &str, p: &str) -> (r: bool)
    ensures
        r == seq_contains(s@, p@),
{
    let cs = chars_of(s);
    let ps = chars_of(p);
    contains_chars(&cs, &ps)
}

// ---------------------------------------------------------------------------
// Joining
// ---------------------------------------------------------------------------

/// `parts` joined with `sep` between consecutive elements.
pub open spec fn seq_join(parts: Seq<Seq<char>>, sep: Seq<char>) -> Seq<char>
    decreases parts.len(),
{
    if parts.len() == 0 {
        Seq::empty()
    } else if parts.len() == 1 {
        parts[0]
    } else {
        seq_join(parts.drop_last(), sep) + sep + parts.last()
    }
}

/// The concatenation of `parts`.
pub open spec fn seq_flatten(parts: Seq<Seq<char>>) -> Seq<char>
    decreases parts.len(),
{
    if parts.len() == 0 {
        Seq::empty()
    } else {
        seq_flatten(parts.drop_last()) + parts.last()
    }
}

/// One more element joined onto a `Seq::new`-built list.
pub proof fn lemma_join_new_step(f: spec_fn(int) -> Seq<char>, sep: Seq<char>, i: int)
    requires
        0 <= i,
    ensures
        seq_join(Seq::new((i + 1) as nat, f), sep) == if i == 0 {
            f(0)
        } else {
            seq_join(Seq::new(i as nat, f), sep) + sep + f(i)
        },
{
    let a = Seq::new((i + 1) as nat, f);
    let b = Seq::new(i as nat, f);
    assert(a.drop_last() =~= b);
}

/// One more element concatenated onto a `Seq::new`-built list.
pub proof fn lemma_flatten_new_step(f: spec_fn(int) -> Seq<char>, i: int)
    requires
        0 <= i,
    ensures
        seq_flatten(Seq::new((i + 1) as nat, f)) == seq_flatten(Seq::new(i as nat, f)) + f(i),
{
    let a = Seq::new((i + 1) as nat, f);
    let b = Seq::new(i as nat, f);
    assert(a.drop_last() =~= b);
}

/// The views of a vector of strings.
pub open spec fn views(v: Seq<String>) -> Seq<Seq<char>> {
    v.map_values(|s: String| s@)
}

/// `parts` joined with `sep` (`[String]::join`).
pub fn join(parts: &Vec<String>, sep: &str) -> (r: String)
    ensures
        r@ == seq_join(views(parts@), sep@),
{
    let mut out = String::new();
    let ghost vs = views(parts@);
    let mut i: usize = 0;
    while i < parts.len()
        invariant
            vs == views(parts@),
            i <= parts@.len(),
            out@ == seq_join(vs.subrange(0, i as int), sep@),
        decreases parts.len() - i,
    {
        proof {
            assert(vs.subrange(0, i + 1).drop_last() =~= vs.subrange(0, i as int));
        }
        if i > 0 {
            out.append(sep);
        }
        out.append(parts[i].as_str());
        proof {
            if i == 0 {
                assert(vs.subrange(0, 1) =~= seq![vs[0]]);
                assert(out@ =~= vs[0]);
            }
        }
        i = i + 1;
    }
    assert(vs.subrange(0, parts@.len() as int) =~= vs);
    out
}

// ---------------------------------------------------------------------------
// Decimal rendering of integers
// ---------------------------------------------------------------------------

pub open spec fn digit_char(d: nat) -> char {
    ((d % 10) + 48) as char
}

/// Decimal digits of `n` without leading zeros (`"0"` for zero).
pub open spec fn spec_nat_decimal(n: nat) -> Seq<char>
    decreases n,
{
    if n < 10 {
        seq![digit_char(n)]
    } else {
        spec_nat_decimal(n / 10).push(digit_char(n % 10))
    }
}

/// Decimal rendering of a signed integer, as `{}` prints it.
pub open spec fn spec_int_decimal(n: int) -> Seq<char> {
    if n < 0 {
        seq!['-'] + spec_nat_decimal((-n) as nat)
    } else {
        spec_nat_decimal(n as nat)
    }
}

fn digit_exec(d: u64) -> (c: char)
    requires
        d < 10,
    ensures
        c == digit_char(d as nat),
{
    if d == 0 { '0' } else if d == 1 { '1' } else if d == 2 { '2' } else if d == 3 { '3' }
    else if d == 4 { '4' } else if d == 5 { '5' } else if d == 6 { '6' } else if d == 7 { '7' }
    else if d == 8 { '8' } else { '9' }
}

/// Appends the decimal digits of `n` to `out`.
pub fn push_u64_decimal(out: &mut String, n: u64)
    ensures
        final(out)@ == old(out)@ + spec_nat_decimal(n as nat),
    decreases n,
{
    if n < 10 {
        push_char(out, digit_exec(n));
        assert(spec_nat_decimal(n as nat) =~= seq![digit_char(n as nat)]);
    } else {
        push_u64_decimal(out, n / 10);
        push_char(out, digit_exec(n % 10));
        assert(digit_char((n % 10) as nat) == digit_char(n as nat % 10));
    }
}

/// The decimal rendering of `n` (`u64::to_string`).
pub fn u64_to_string(n: u64) -> (r: String)
    ensures
        r@ == spec_nat_decimal(n as nat),
{
    let mut s = String::new();
    push_u64_decimal(&mut s, n);
    s
}

/// Appends the decimal rendering of `n` to `out`.
pub fn push_i64_decimal(out: &mut String, n: i64)
    ensures
        final(out)@ == old(out)@ + spec_int_decimal(n as int),
{
    if n < 0 {
        push_char(out, '-');
        let m: u64 = if n == i64::MIN { 9223372036854775808u64 } else { (-n) as u64 };
        push_u64_decimal(out, m);
    } else {
        push_u64_decimal(out, n as u64);
    }
}

// ---------------------------------------------------------------------------
// Trimming and splitting
// ---------------------------------------------------------------------------

/// Whether `c` has the Unicode `White_Space` property (`char::is_whitespace`).
pub uninterp spec fn spec_is_whitespace(c: char) -> bool;

/// Calls `char::is_whitespace`. For ASCII the white space characters are
/// space, tab, line feed, vertical tab, form feed and carriage return.
#[verifier::external_body]
pub(crate) fn char_is_whitespace(c: char) -> (r: bool)
    ensures
        r == spec_is_whitespace(c),
        (c as u32) < 128 ==> (r <==> (c == ' ' || c == '\t' || c == '\n' || c == '\x0b' || c == '\x0c'
            || c == '\r')),
{
    c.is_whitespace()
}

/// The first index at or after `i` whose character is not white space.
pub open spec fn skip_ws(s: Seq<char>, i: int) -> int
    decreases s.len() - i,
{
    if i < 0 || i >= s.len() {
        s.len() as int
    } else if spec_is_whitespace(s[i]) {
        skip_ws(s, i + 1)
    } else {
        i
    }
}

/// The length of `s` once trailing white space is removed from its first `n` characters.
pub open spec fn trim_end_len(s: Seq<char>, n: int) -> int
    decreases n,
{
    if n <= 0 || n > s.len() {
        0
    } else if spec_is_whitespace(s[n - 1]) {
        trim_end_len(s, n - 1)
    } else {
        n
    }
}

/// `s` without leading and trailing white space (`str::trim`).
pub open spec fn spec_trim(s: Seq<char>) -> Seq<char> {
    let e = trim_end_len(s, s.len() as int);
    let b = skip_ws(s, 0);
    if b >= e {
        Seq::empty()
    } else {
        s.subrange(b, e)
    }
}

proof fn lemma_skip_ws_range(s: Seq<char>, i: int)
    requires
        0 <= i <= s.len(),
    ensures
        i <= skip_ws(s, i) <= s.len(),
    decreases s.len() - i,
{
    if i < s.len() && spec_is_whitespace(s[i]) {
        lemma_skip_ws_range(s, i + 1);
    }
}

proof fn lemma_trim_end_len_range(s: Seq<char>, n: int)
    requires
        0 <= n <= s.len(),
    ensures
        0 <= trim_end_len(s, n) <= n,
    decreases n,
{
    if n > 0 && spec_is_whitespace(s[n - 1]) {
        lemma_trim_end_len_range(s, n - 1);
    }
}

/// Removes leading and trailing white space.
pub fn trim(s: &str) -> (r: String)
    ensures
        r@ == spec_trim(s@),
{
    let cs = chars_of(s);
    let mut e: usize = cs.len();
    while e > 0 && char_is_whitespace(cs[e - 1])
        invariant
            cs@ == s@,
            e <= cs@.len(),
            trim_end_len(s@, cs@.len() as int) == trim_end_len(s@, e as int),
        decreases e,
    {
        e = e - 1;
    }
    let mut b: usize = 0;
    while b < cs.len() && char_is_whitespace(cs[b])
        invariant
            cs@ == s@,
            b <= cs@.len(),
            skip_ws(s@, 0) == skip_ws(s@, b as int),
        decreases cs.len() - b,
    {
        b = b + 1;
    }
    if b >= e {
        return String::new();
    }
    let mut out = String::new();
    let mut i: usize = b;
    while i < e
        invariant
            cs@ == s@,
            b <= i <= e <= cs@.len(),
            out@ == s@.subrange(b as int, i as int),
        decreases e - i,
    {
        push_char(&mut out, cs[i]);
        i = i + 1;
        assert(out@ =~= s@.subrange(b as int, i as int));
    }
    out
}

/// The first index at or after `i` whose character is not `c`.
pub open spec fn skip_char(s: Seq<char>, c: char, i: int) -> int
    decreases s.len() - i,
{
    if i < 0 || i >= s.len() {
        s.len() as int
    } else if s[i] == c {
        skip_char(s, c, i + 1)
    } else {
        i
    }
}

/// The length of the first `n` characters of `s` without trailing `c`s.
pub open spec fn strip_end_len(s: Seq<char>, c: char, n: int) -> int
    decreases n,
{
    if n <= 0 || n > s.len() {
        0
    } else if s[n - 1] == c {
        strip_end_len(s, c, n - 1)
    } else {
        n
    }
}

/// `s` without its leading `c`s (`str::trim_start_matches`).
pub open spec fn spec_trim_start_char(s: Seq<char>, c: char) -> Seq<char> {
    s.subrange(skip_char(s, c, 0), s.len() as int)
}

/// `s` without its trailing `c`s (`str::trim_end_matches`).
pub open spec fn spec_trim_end_char(s: Seq<char>, c: char) -> Seq<char> {
    s.subrange(0, strip_end_len(s, c, s.len() as int))
}

/// `s` without its leading and trailing `c`s (`str::trim_matches`).
pub open spec fn spec_trim_char(s: Seq<char>, c: char) -> Seq<char> {
    spec_trim_end_char(spec_trim_start_char(s, c), c)
}

proof fn lemma_skip_char_range(s: Seq<char>, c: char, i: int)
    requires
        0 <= i <= s.len(),
    ensures
        i <= skip_char(s, c, i) <= s.len(),
    decreases s.len() - i,
{
    if i < s.len() && s[i] == c {
        lemma_skip_char_range(s, c, i + 1);
    }
}

proof fn lemma_strip_end_len_range(s: Seq<char>, c: char, n: int)
    requires
        0 <= n <= s.len(),
    ensures
        0 <= strip_end_len(s, c, n) <= n,
    decreases n,
{
    if n > 0 && s[n - 1] == c {
        lemma_strip_end_len_range(s, c, n - 1);
    }
}

/// Removes the leading occurrences of `c`.
pub fn trim_start_char(s: &str, c: char) -> (r: String)
    ensures
        r@ == spec_trim_start_char(s@, c),
{
    let cs = chars_of(s);
    let mut b: usize = 0;
    while b < cs.len() && cs[b] == c
        invariant
            cs@ == s@,
            b <= cs@.len(),
            skip_char(s@, c, 0) == skip_char(s@, c, b as int),
        decreases cs.len() - b,
    {
        b = b + 1;
    }
    let mut out = String::new();
    let mut i: usize = b;
    while i < cs.len()
        invariant
            cs@ == s@,
            b <= i <= cs@.len(),
            out@ == s@.subrange(b as int, i as int),
        decreases cs.len() - i,
    {
        push_char(&mut out, cs[i]);
        i = i + 1;
        assert(out@ =~= s@.subrange(b as int, i as int));
    }
    out
}

/// Removes the trailing occurrences of `c`.
pub fn trim_end_char(s: &str, c: char) -> (r: String)
    ensures
        r@ == spec_trim_end_char(s@, c),
{
    let cs = chars_of(s);
    let mut e: usize = cs.len();
    while e > 0 && cs[e - 1] == c
        invariant
            cs@ == s@,
            e <= cs@.len(),
            strip_end_len(s@, c, cs@.len() as int) == strip_end_len(s@, c, e as int),
        decreases e,
    {
        e = e - 1;
    }
    let mut out = String::new();
    let mut i: usize = 0;
    while i < e
        invariant
            cs@ == s@,
            i <= e <= cs@.len(),
            out@ == s@.subrange(0, i as int),
        decreases e - i,
    {
        push_char(&mut out, cs[i]);
        i = i + 1;
        assert(out@ =~= s@.subrange(0, i as int));
    }
    out
}

/// Removes the leading and trailing occurrences of `c`.
pub fn trim_char(s: &str, c: char) -> (r: String)
    ensures
        r@ == spec_trim_char(s@, c),
{
    let a = trim_start_char(s, c);
    trim_end_char(a.as_str(), c)
}

/// Whether `c` is a double or a single quote.
pub open spec fn is_quote(c: char) -> bool {
    c == '"' || c == '\''
}

/// The first index at or after `i` whose character is not a quote.
pub open spec fn skip_quotes(s: Seq<char>, i: int) -> int
    decreases s.len() - i,
{
    if i < 0 || i >= s.len() {
        s.len() as int
    } else if is_quote(s[i]) {
        skip_quotes(s, i + 1)
    } else {
        i
    }
}

/// The length of the first `n` characters of `s` without trailing quotes.
pub open spec fn strip_quotes_len(s: Seq<char>, n: int) -> int
    decreases n,
{
    if n <= 0 || n > s.len() {
        0
    } else if is_quote(s[n - 1]) {
        strip_quotes_len(s, n - 1)
    } else {
        n
    }
}

/// `s` without its leading and trailing quotes, double or single
/// (`str::trim_matches` with both).
pub open spec fn spec_trim_quotes(s: Seq<char>) -> Seq<char> {
    let t = s.subrange(skip_quotes(s, 0), s.len() as int);
    t.subrange(0, strip_quotes_len(t, t.len() as int))
}

/// Removes the leading and trailing quotes, double or single.
pub fn trim_quotes(s: &str) -> (r: String)
    ensures
        r@ == spec_trim_quotes(s@),
{
    let cs = chars_of(s);
    let mut b: usize = 0;
    while b < cs.len() && (cs[b] == '"' || cs[b] == '\'')
        invariant
            cs@ == s@,
            b <= cs@.len(),
            skip_quotes(s@, 0) == skip_quotes(s@, b as int),
        decreases cs.len() - b,
    {
        b = b + 1;
    }
    let ghost t = s@.subrange(b as int, s@.len() as int);
    let mut e: usize = cs.len();
    while e > b && (cs[e - 1] == '"' || cs[e - 1] == '\'')
        invariant
            cs@ == s@,
            b <= e <= cs@.len(),
            t == s@.subrange(b as int, s@.len() as int),
            strip_quotes_len(t, t.len() as int) == strip_quotes_len(t, e - b),
        decreases e,
    {
        assert(t[e - b - 1] == cs@[e - 1]);
        e = e - 1;
    }
    let mut out = String::new();
    let mut i: usize = b;
    while i < e
        invariant
            cs@ == s@,
            b <= i <= e <= cs@.len(),
            out@ == s@.subrange(b as int, i as int),
        decreases e - i,
    {
        push_char(&mut out, cs[i]);
        i = i + 1;
        assert(out@ =~= s@.subrange(b as int, i as int));
    }
    proof {
        if e > b {
            assert(!is_quote(t[e - b - 1]));
        }
        assert(out@ =~= t.subrange(0, strip_quotes_len(t, t.len() as int)));
    }
    out
}

/// The pieces of `s` between occurrences of `c` (`str::split` by a character);
/// an empty string is one empty piece.
pub open spec fn spec_split(s: Seq<char>, c: char) -> Seq<Seq<char>>
    decreases s.len(),
{
    if s.len() == 0 {
        seq![Seq::empty()]
    } else {
        let prev = spec_split(s.drop_last(), c);
        if s.last() == c {
            prev.push(Seq::empty())
        } else {
            prev.update(prev.len() - 1, prev.last().push(s.last()))
        }
    }
}

proof fn lemma_split_nonempty(s: Seq<char>, c: char)
    ensures
        spec_split(s, c).len() >= 1,
    decreases s.len(),
{
    if s.len() > 0 {
        lemma_split_nonempty(s.drop_last(), c);
    }
}

/// Splits `s` at every occurrence of `c`.
pub fn split_char(s: &str, c: char) -> (r: Vec<String>)
    ensures
        views(r@) == spec_split(s@, c),
{
    let cs = chars_of(s);
    let mut pieces: Vec<String> = Vec::new();
    let mut cur = String::new();
    let mut i: usize = 0;
    proof {
        assert(s@.subrange(0, 0) =~= Seq::<char>::empty());
    }
    while i < cs.len()
        invariant
            cs@ == s@,
            i <= cs@.len(),
            views(pieces@).push(cur@) == spec_split(s@.subrange(0, i as int), c),
        decreases cs.len() - i,
    {
        let ghost prefix = s@.subrange(0, i + 1);
        proof {
            assert(prefix.drop_last() =~= s@.subrange(0, i as int));
            lemma_split_nonempty(s@.subrange(0, i as int), c);
        }
        if cs[i] == c {
            let ghost before = views(pieces@);
            let done = cur;
            pieces.push(done);
            cur = String::new();
            proof {
                assert(views(pieces@) =~= before.push(done@));
                assert(views(pieces@).push(cur@) =~= spec_split(prefix, c));
            }
        } else {
            let ghost before = views(pieces@);
            push_char(&mut cur, cs[i]);
            proof {
                assert(views(pieces@).push(cur@) =~= spec_split(prefix, c));
            }
        }
        i = i + 1;
    }
    let ghost before = views(pieces@);
    pieces.push(cur);
    proof {
        assert(s@.subrange(0, s@.len() as int) =~= s@);
        assert(views(pieces@) =~= before.push(pieces@.last()@));
    }
    pieces
}

/// The first index at or after `i` holding `c`, or -1.
pub open spec fn find_char(s: Seq<char>, c: char, i: int) -> int
    decreases s.len() - i,
{
    if i < 0 || i >= s.len() {
        -1
    } else if s[i] == c {
        i
    } else {
        find_char(s, c, i + 1)
    }
}

proof fn lemma_find_char(s: Seq<char>, c: char, i: int, j: int)
    requires
        0 <= i <= j <= s.len(),
        forall|m: int| i <= m < j ==> s[m] != c,
        j == s.len() || s[j] == c,
    ensures
        find_char(s, c, i) == if j == s.len() { -1 } else { j },
    decreases j - i,
{
    if i < j {
        lemma_find_char(s, c, i + 1, j);
    }
}

/// Splits `s` at the first occurrence of `c` (`str::splitn(2, c)` with two pieces).
pub fn split_once_char(s: &str, c: char) -> (r: Option<(String, String)>)
    ensures
        match r {
            Some((a, b)) => {
                let k = find_char(s@, c, 0);
                k >= 0 && a@ == s@.subrange(0, k) && b@ == s@.subrange(k + 1, s@.len() as int)
            },
            None => find_char(s@, c, 0) == -1,
        },
{
    let cs = chars_of(s);
    let mut k: usize = 0;
    while k < cs.len() && cs[k] != c
        invariant
            cs@ == s@,
            k <= cs@.len(),
            forall|m: int| 0 <= m < k ==> s@[m] != c,
        decreases cs.len() - k,
    {
        k = k + 1;
    }
    proof {
        lemma_find_char(s@, c, 0, k as int);
    }
    if k == cs.len() {
        return None;
    }
    let mut a = String::new();
    let mut i: usize = 0;
    while i < k
        invariant
            cs@ == s@,
            i <= k < cs@.len(),
            a@ == s@.subrange(0, i as int),
        decreases k - i,
    {
        push_char(&mut a, cs[i]);
        i = i + 1;
        assert(a@ =~= s@.subrange(0, i as int));
    }
    let mut b = String::new();
    let mut j: usize = k + 1;
    while j < cs.len()
        invariant
            cs@ == s@,
            k < cs@.len(),
            k + 1 <= j <= cs@.len(),
            b@ == s@.subrange(k + 1, j as int),
        decreases cs.len() - j,
    {
        push_char(&mut b, cs[j]);
        j = j + 1;
        assert(b@ =~= s@.subrange(k + 1, j as int));
    }
    Some((a, b))
}

// ---------------------------------------------------------------------------
// Debug rendering of strings
// ---------------------------------------------------------------------------

/// What `<str as Debug>::fmt` writes for a string with these characters.
pub uninterp spec fn spec_str_debug(s: Seq<char>) -> Seq<char>;

/// A string that `Debug` writes between quotes unchanged: printable ASCII
/// without quotes or backslashes.
pub open spec fn is_plain_debug_text(s: Seq<char>) -> bool {
    forall|i: int| 0 <= i < s.len() ==> 0x20 <= (#[trigger] s[i] as u32) <= 0x7e && s[i] != '"' && s[i] != '\\'
}

/// Formats a string with `{:?}`: quoted, with quotes, backslashes and
/// non-printable characters escaped. A plain string is only quoted.
#[verifier::external_body]
pub(crate) fn str_debug(s: &str) -> (r: String)
    ensures
        r@ == spec_str_debug(s@),
        is_plain_debug_text(s@) ==> r@ == seq!['"'] + s@ + seq!['"'],
{
    format!("{:?}", s)
}

// ---------------------------------------------------------------------------
// Byte-wise order
// ---------------------------------------------------------------------------

/// Byte-wise lexicographic order (the order of `str` and `String`).
pub open spec fn bytes_lt(a: Seq<u8>, b: Seq<u8>) -> bool
    decreases a.len(),
{
    if b.len() == 0 {
        false
    } else if a.len() == 0 {
        true
    } else if a[0] != b[0] {
        a[0] < b[0]
    } else {
        bytes_lt(a.drop_first(), b.drop_first())
    }
}

/// Whether `a` comes before `b` byte-wise.
pub fn bytes_less(a: &[u8], b: &[u8]) -> (r: bool)
    ensures
        r == bytes_lt(a@, b@),
{
    let mut i: usize = 0;
    proof {
        assert(a@.subrange(0, a@.len() as int) =~= a@);
        assert(b@.subrange(0, b@.len() as int) =~= b@);
    }
    while i < a.len() && i < b.len()
        invariant
            i <= a@.len(),
            i <= b@.len(),
            forall|k: int| 0 <= k < i ==> a@[k] == b@[k],
            bytes_lt(a@, b@) == bytes_lt(a@.subrange(i as int, a@.len() as int), b@.subrange(i as int, b@.len() as int)),
        decreases a.len() - i,
    {
        if a[i] != b[i] {
            proof {
                let sa = a@.subrange(i as int, a@.len() as int);
                let sb = b@.subrange(i as int, b@.len() as int);
                assert(sa[0] == a@[i as int]);
                assert(sb[0] == b@[i as int]);
            }
            return a[i] < b[i];
        }
        proof {
            let sa = a@.subrange(i as int, a@.len() as int);
            let sb = b@.subrange(i as int, b@.len() as int);
            assert(sa.drop_first() =~= a@.subrange(i + 1, a@.len() as int));
            assert(sb.drop_first() =~= b@.subrange(i + 1, b@.len() as int));
        }
        i = i + 1;
    }
    proof {
        let sa = a@.subrange(i as int, a@.len() as int);
        let sb = b@.subrange(i as int, b@.len() as int);
        if i == b@.len() {
            assert(sb.len() == 0);
        } else {
            assert(sa.len() == 0);
        }
    }
    i < b.len()
}

pub proof fn lemma_lt_irrefl(a: Seq<u8>)
    ensures
        !bytes_lt(a, a),
    decreases a.len(),
{
    if a.len() > 0 {
        lemma_lt_irrefl(a.drop_first());
    }
}

pub proof fn lemma_lt_trans(a: Seq<u8>, b: Seq<u8>, c: Seq<u8>)
    requires
        bytes_lt(a, b),
        bytes_lt(b, c),
    ensures
        bytes_lt(a, c),
    decreases a.len(),
{
    if a.len() > 0 && a[0] == b[0] && b[0] == c[0] {
        lemma_lt_trans(a.drop_first(), b.drop_first(), c.drop_first());
    }
}

pub proof fn lemma_lt_total(a: Seq<u8>, b: Seq<u8>)
    ensures
        bytes_lt(a, b) || bytes_lt(b, a) || a == b,
    decreases a.len(),
{
    if a.len() > 0 && b.len() > 0 && a[0] == b[0] {
        lemma_lt_total(a.drop_first(), b.drop_first());
        if a.drop_first() == b.drop_first() {
            assert(a =~= seq![a[0]] + a.drop_first());
            assert(b =~= seq![b[0]] + b.drop_first());
        }
    } else if a.len() == 0 && b.len() == 0 {
        assert(a =~= b);
    }
}

} // verus!
