//! Character-level string helpers shared by the rest of the library.
//!
//! Strings are handled as `Seq<char>` in specifications; the executable
//! helpers convert between `&str`/`String` and `Vec<char>` and do their work
//! on the character vector.
use vstd::prelude::*;

verus! {

// ---------------------------------------------------------------------------
// Specifications
// ---------------------------------------------------------------------------

/// ASCII lower-casing of a single character; other characters are unchanged.
pub open spec fn ascii_lower(c: char) -> char {
    if 'A' <= c && c <= 'Z' {
        ((c as u32) + 32) as char
    } else {
        c
    }
}

/// Two strings are equal when ASCII letters are compared without case.
pub open spec fn eq_ascii_ci(a: Seq<char>, b: Seq<char>) -> bool {
    &&& a.len() == b.len()
    &&& forall|i: int| 0 <= i < a.len() ==> ascii_lower(#[trigger] a[i]) == ascii_lower(b[i])
}

/// The characters with the Unicode `White_Space` property.
pub open spec fn is_white_space(c: char) -> bool {
    let u = c as u32;
    ||| (0x09 <= u && u <= 0x0d)
    ||| u == 0x20
    ||| u == 0x85
    ||| u == 0xa0
    ||| u == 0x1680
    ||| (0x2000 <= u && u <= 0x200a)
    ||| u == 0x2028
    ||| u == 0x2029
    ||| u == 0x202f
    ||| u == 0x205f
    ||| u == 0x3000
}

/// `s` without its leading white space.
pub open spec fn trim_start(s: Seq<char>) -> Seq<char>
    decreases s.len(),
{
    if s.len() > 0 && is_white_space(s[0]) {
        trim_start(s.drop_first())
    } else {
        s
    }
}

/// `s` without its trailing white space.
pub open spec fn trim_end(s: Seq<char>) -> Seq<char>
    decreases s.len(),
{
    if s.len() > 0 && is_white_space(s.last()) {
        trim_end(s.drop_last())
    } else {
        s
    }
}

/// `s` without leading and trailing white space.
pub open spec fn trim(s: Seq<char>) -> Seq<char> {
    trim_end(trim_start(s))
}

/// `s` with every occurrence of `from` replaced by `to`.
pub open spec fn replace_char(s: Seq<char>, from: char, to: char) -> Seq<char> {
    Seq::new(s.len(), |i: int| if s[i] == from { to } else { s[i] })
}

/// The pieces of `s` between occurrences of `sep` (as `str::split` with a
/// character pattern): there is always at least one piece, and empty pieces
/// are kept.
pub open spec fn split_on(s: Seq<char>, sep: char) -> Seq<Seq<char>>
    decreases s.len(),
{
    if s.len() == 0 {
        seq![Seq::<char>::empty()]
    } else {
        let pieces = split_on(s.drop_last(), sep);
        if s.last() == sep {
            pieces.push(Seq::<char>::empty())
        } else {
            pieces.update(pieces.len() - 1, pieces.last().push(s.last()))
        }
    }
}

/// The pieces joined with `sep` between neighbours.
pub open spec fn join(pieces: Seq<Seq<char>>, sep: Seq<char>) -> Seq<char>
    decreases pieces.len(),
{
    if pieces.len() == 0 {
        Seq::<char>::empty()
    } else if pieces.len() == 1 {
        pieces[0]
    } else {
        join(pieces.drop_last(), sep) + sep + pieces.last()
    }
}

/// `s` with every double quote doubled, as in a quoted CSV field.
pub open spec fn double_quotes(s: Seq<char>) -> Seq<char>
    decreases s.len(),
{
    if s.len() == 0 {
        Seq::<char>::empty()
    } else if s.last() == '"' {
        double_quotes(s.drop_last()) + seq!['"', '"']
    } else {
        double_quotes(s.drop_last()).push(s.last())
    }
}

/// The views of a sequence of strings.
pub open spec fn views(v: Seq<String>) -> Seq<Seq<char>> {
    Seq::new(v.len(), |i: int| v[i]@)
}

/// A name for what `str::to_lowercase` returns: the Unicode lower-case
/// mapping of the string.
pub uninterp spec fn lowercase_of(s: Seq<char>) -> Seq<char>;

/// Every character of `s` is ASCII.
pub open spec fn all_ascii(s: Seq<char>) -> bool {
    forall|i: int| 0 <= i < s.len() ==> (#[trigger] s[i] as u32) < 128
}

// ---------------------------------------------------------------------------
// Conversions between std strings and character vectors
// ---------------------------------------------------------------------------

/// The characters of `s`, in order.
pub fn chars_of(s: &str) -> (res: Vec<char>)
    ensures
        res@ == s@,
{
    broadcast use vstd::string::axiom_spec_iter;

    let mut out: Vec<char> = Vec::new();
    for c in it: s.chars()
        invariant
            it.seq() == s@,
            out@.len() == it.index(),
            forall|j: int| 0 <= j < it.index() ==> out@[j] == s@[j],
    {
        out.push(c);
    }
    out
}

/// Collects characters into a `String` (`FromIterator<char>`); the string
/// holds exactly the given characters.
#[verifier::external_body]
pub fn string_from_chars(v: &Vec<char>) -> (res: String)
    ensures
        res@ == v@,
{
    v.iter().collect()
}

/// Calls `str::to_lowercase`. Its result is named `lowercase_of`; for a
/// string of ASCII characters it is the ASCII lower-casing, as the Unicode
/// mapping agrees with ASCII there.
#[verifier::external_body]
pub fn to_lowercase(s: &str) -> (res: String)
    ensures
        res@ == lowercase_of(s@),
        all_ascii(s@) ==> res@ == Seq::new(s@.len(), |i: int| ascii_lower(s@[i])),
{
    s.to_lowercase()
}

/// Leading white space ends at `p`: `trim_start` keeps `s[p..]`.
proof fn lemma_trim_start_at(s: Seq<char>, p: int)
    requires
        0 <= p <= s.len(),
        forall|j: int| 0 <= j < p ==> is_white_space(#[trigger] s[j]),
        p == s.len() || !is_white_space(s[p]),
    ensures
        trim_start(s) == s.subrange(p, s.len() as int),
    decreases p,
{
    if p == 0 {
        assert(s.subrange(0, s.len() as int) =~= s);
    } else {
        let t = s.drop_first();
        assert forall|j: int| 0 <= j < p - 1 implies is_white_space(#[trigger] t[j]) by {
            assert(t[j] == s[j + 1]);
        }
        lemma_trim_start_at(t, p - 1);
        assert(t.subrange(p - 1, t.len() as int) =~= s.subrange(p, s.len() as int));
    }
}

/// Trailing white space starts at `q`: `trim_end` keeps `s[..q]`.
proof fn lemma_trim_end_at(s: Seq<char>, q: int)
    requires
        0 <= q <= s.len(),
        forall|j: int| q <= j < s.len() ==> is_white_space(#[trigger] s[j]),
        q == 0 || !is_white_space(s[q - 1]),
    ensures
        trim_end(s) == s.subrange(0, q),
    decreases s.len() - q,
{
    if q == s.len() {
        assert(s.subrange(0, s.len() as int) =~= s);
    } else {
        let t = s.drop_last();
        assert forall|j: int| q <= j < t.len() implies is_white_space(#[trigger] t[j]) by {
            assert(t[j] == s[j]);
        }
        assert(is_white_space(s[s.len() - 1]));
        lemma_trim_end_at(t, q);
        assert(t.subrange(0, q) =~= s.subrange(0, q));
    }
}

/// Whether a character has the Unicode `White_Space` property.
fn white_space_char(c: char) -> (res: bool)
    ensures
        res == is_white_space(c),
{
    let u = c as u32;
    (0x09 <= u && u <= 0x0d) || u == 0x20 || u == 0x85 || u == 0xa0 || u == 0x1680 || (0x2000
        <= u && u <= 0x200a) || u == 0x2028 || u == 0x2029 || u == 0x202f || u == 0x205f || u
        == 0x3000
}

/// `s` without leading and trailing white space (the characters that
/// `str::trim` removes).
pub fn trim_str(s: &str) -> (res: String)
    ensures
        res@ == trim(s@),
{
    let cs = chars_of(s);
    let n = cs.len();
    let mut p: usize = 0;
    while p < n && white_space_char(cs[p])
        invariant
            cs@ == s@,
            n == cs@.len(),
            p <= n,
            forall|j: int| 0 <= j < p ==> is_white_space(#[trigger] s@[j]),
        decreases n - p,
    {
        p = p + 1;
    }
    let mut q: usize = n;
    while q > p && white_space_char(cs[q - 1])
        invariant
            cs@ == s@,
            n == cs@.len(),
            p <= q <= n,
            forall|j: int| q <= j < n ==> is_white_space(#[trigger] s@[j]),
        decreases q - p,
    {
        q = q - 1;
    }
    let mut out: Vec<char> = Vec::new();
    let mut k: usize = p;
    while k < q
        invariant
            cs@ == s@,
            n == cs@.len(),
            p <= k <= q <= n,
            out@ == s@.subrange(p as int, k as int),
        decreases q - k,
    {
        out.push(cs[k]);
        assert(out@ =~= s@.subrange(p as int, k + 1));
        k = k + 1;
    }
    proof {
        lemma_trim_start_at(s@, p as int);
        let t = s@.subrange(p as int, n as int);
        assert forall|j: int| q - p <= j < t.len() implies is_white_space(#[trigger] t[j]) by {
            assert(t[j] == s@[p + j]);
        }
        lemma_trim_end_at(t, q - p);
        assert(t.subrange(0, q - p) =~= s@.subrange(p as int, q as int));
    }
    string_from_chars(&out)
}

/// A decimal digit.
pub open spec fn is_digit(c: char) -> bool {
    '0' <= c && c <= '9'
}

/// The value of a string of decimal digits.
pub open spec fn digits_value(s: Seq<char>) -> int
    decreases s.len(),
{
    if s.len() == 0 {
        0
    } else {
        digits_value(s.drop_last()) * 10 + ((s.last() as int) - ('0' as int))
    }
}

/// Every character of `s` is a decimal digit.
pub open spec fn all_digits(s: Seq<char>) -> bool {
    forall|i: int| 0 <= i < s.len() ==> is_digit(#[trigger] s[i])
}

/// The length of a leading `+` or `-`: 1 when there is one, else 0.
pub open spec fn sign_len(s: Seq<char>) -> int {
    if s.len() > 0 && (s[0] == '-' || s[0] == '+') {
        1
    } else {
        0
    }
}

/// The part of `s` after its sign.
pub open spec fn unsigned_part(s: Seq<char>) -> Seq<char> {
    s.subrange(sign_len(s), s.len() as int)
}

/// The signed value `s` spells.
pub open spec fn signed_value(s: Seq<char>) -> int {
    if sign_len(s) == 1 && s[0] == '-' {
        -digits_value(unsigned_part(s))
    } else {
        digits_value(unsigned_part(s))
    }
}

/// The integer a string spells as `i64::from_str` reads it: an optional
/// `+` or `-`, then at least one decimal digit and nothing else, with a
/// value in the range of `i64`.
pub open spec fn decimal_i64(s: Seq<char>) -> Option<i64> {
    if unsigned_part(s).len() > 0 && all_digits(unsigned_part(s)) && i64::MIN <= signed_value(s)
        <= i64::MAX {
        Some(signed_value(s) as i64)
    } else {
        None
    }
}

proof fn lemma_digits_value_grows(s: Seq<char>, k: int, m: int)
    requires
        0 <= k <= m <= s.len(),
        forall|i: int| 0 <= i < s.len() ==> is_digit(#[trigger] s[i]),
    ensures
        0 <= digits_value(s.take(k)) <= digits_value(s.take(m)),
    decreases m,
{
    if m > 0 {
        assert(s.take(m).drop_last() =~= s.take(m - 1));
        assert(is_digit(s[m - 1]));
        if k < m {
            lemma_digits_value_grows(s, k, m - 1);
        } else {
            lemma_digits_value_grows(s, 0, m - 1);
        }
    } else {
        assert(s.take(0).len() == 0);
    }
}

/// Reads a decimal `i64` as `str::parse::<i64>` does.
pub fn parse_i64_str(text: &str) -> (res: Option<i64>)
    ensures
        res == decimal_i64(text@),
{
    let cs = chars_of(text);
    let n = cs.len();
    let signed = n > 0 && (cs[0] == '-' || cs[0] == '+');
    let neg = signed && cs[0] == '-';
    let start: usize = if signed {
        1
    } else {
        0
    };
    let ghost body = unsigned_part(text@);
    assert(start == sign_len(text@));
    assert(neg == (sign_len(text@) == 1 && text@[0] == '-'));
    if start == n {
        assert(body.len() == 0);
        return None;
    }
    let mut k: usize = start;
    while k < n
        invariant
            cs@ == text@,
            n == cs@.len(),
            start <= k <= n,
            body == text@.subrange(start as int, n as int),
            body == unsigned_part(text@),
            start == sign_len(text@),
            neg == (sign_len(text@) == 1 && text@[0] == '-'),
            forall|i: int| 0 <= i < k - start ==> is_digit(#[trigger] body[i]),
        decreases n - k,
    {
        if !('0' <= cs[k] && cs[k] <= '9') {
            assert(body[k - start] == cs@[k as int]);
            assert(!is_digit(body[k - start]));
            assert(!all_digits(body));
            return None;
        }
        k = k + 1;
    }
    let limit: u128 = if neg {
        0x8000_0000_0000_0000
    } else {
        0x7fff_ffff_ffff_ffff
    };
    let mut acc: u128 = 0;
    let mut j: usize = start;
    assert(body.take(0) =~= Seq::<char>::empty());
    while j < n
        invariant
            cs@ == text@,
            n == cs@.len(),
            start <= j <= n,
            body == text@.subrange(start as int, n as int),
            body == unsigned_part(text@),
            start == sign_len(text@),
            neg == (sign_len(text@) == 1 && text@[0] == '-'),
            forall|i: int| 0 <= i < body.len() ==> is_digit(#[trigger] body[i]),
            acc == digits_value(body.take(j - start)),
            acc <= limit,
            limit == (if neg { 0x8000_0000_0000_0000u128 } else { 0x7fff_ffff_ffff_ffffu128 }),
        decreases n - j,
    {
        assert(body.take(j + 1 - start).drop_last() =~= body.take(j - start));
        assert(body.take(j + 1 - start).last() == body[j - start]);
        assert(body[j - start] == cs@[j as int]);
        assert(is_digit(body[j - start]));
        let d: u128 = (cs[j] as u32 - '0' as u32) as u128;
        let next = acc * 10 + d;
        if next > limit {
            proof {
                lemma_digits_value_grows(body, j + 1 - start, body.len() as int);
                assert(body.take(body.len() as int) =~= body);
                assert(digits_value(body) > limit);
                assert(neg == (sign_len(text@) == 1 && text@[0] == '-'));
                if neg {
                    assert(-digits_value(body) < i64::MIN);
                } else {
                    assert(digits_value(body) > i64::MAX);
                }
            }
            return None;
        }
        acc = next;
        j = j + 1;
    }
    assert(body.take(body.len() as int) =~= body);
    assert(all_digits(body));
    assert(neg == (sign_len(text@) == 1 && text@[0] == '-'));
    if neg {
        if acc == 0x8000_0000_0000_0000 {
            Some(i64::MIN)
        } else {
            let a: i64 = acc as i64;
            Some(-a)
        }
    } else {
        Some(acc as i64)
    }
}

/// Whether two strings hold the same characters.
pub fn str_eq(a: &str, b: &str) -> (res: bool)
    ensures
        res == (a@ == b@),
{
    let ac = chars_of(a);
    let bc = chars_of(b);
    if ac.len() != bc.len() {
        return false;
    }
    let n = ac.len();
    let mut i: usize = 0;
    while i < n
        invariant
            n == ac@.len(),
            n == bc@.len(),
            ac@ == a@,
            bc@ == b@,
            i <= n,
            forall|j: int| 0 <= j < i ==> ac@[j] == bc@[j],
        decreases n - i,
    {
        if ac[i] != bc[i] {
            assert(a@[i as int] != b@[i as int]);
            return false;
        }
        i = i + 1;
    }
    assert(a@ =~= b@);
    true
}

// ---------------------------------------------------------------------------
// Verified helpers
// ---------------------------------------------------------------------------

/// ASCII lower-casing of one character.
pub fn ascii_lower_char(c: char) -> (res: char)
    ensures
        res == ascii_lower(c),
{
    if 'A' <= c && c <= 'Z' {
        let u: u32 = (c as u32) + 32;
        assert(0x61 <= u <= 0x7a);
        char_from_ascii(u)
    } else {
        c
    }
}

/// The character with a given code below 128.
fn char_from_ascii(u: u32) -> (res: char)
    requires
        u < 128,
    ensures
        res == u as char,
{
    let b: u8 = u as u8;
    b as char
}

/// Compares two strings, treating ASCII letters without regard to case
/// (the comparison of `str::eq_ignore_ascii_case`).
pub fn eq_ignore_ascii_case(a: &str, b: &str) -> (res: bool)
    ensures
        res == eq_ascii_ci(a@, b@),
{
    let ac = chars_of(a);
    let bc = chars_of(b);
    if ac.len() != bc.len() {
        return false;
    }
    let n = ac.len();
    let mut i: usize = 0;
    while i < n
        invariant
            n == ac@.len(),
            n == bc@.len(),
            ac@ == a@,
            bc@ == b@,
            i <= n,
            forall|j: int| 0 <= j < i ==> ascii_lower(#[trigger] ac@[j]) == ascii_lower(bc@[j]),
        decreases n - i,
    {
        if ascii_lower_char(ac[i]) != ascii_lower_char(bc[i]) {
            return false;
        }
        i = i + 1;
    }
    true
}

/// `s` with every `from` replaced by `to`.
pub fn replace_char_str(s: &str, from: char, to: char) -> (res: String)
    ensures
        res@ == replace_char(s@, from, to),
{
    let cs = chars_of(s);
    let mut out: Vec<char> = Vec::new();
    let mut i: usize = 0;
    while i < cs.len()
        invariant
            cs@ == s@,
            i <= cs@.len(),
            out@ == replace_char(s@.take(i as int), from, to),
        decreases cs@.len() - i,
    {
        let c = cs[i];
        if c == from {
            out.push(to);
        } else {
            out.push(c);
        }
        assert(out@ =~= replace_char(s@.take(i + 1), from, to));
        i = i + 1;
    }
    assert(s@.take(cs@.len() as int) =~= s@);
    string_from_chars(&out)
}

/// `s` with every double quote doubled.
pub fn double_quotes_str(s: &str) -> (res: String)
    ensures
        res@ == double_quotes(s@),
{
    let cs = chars_of(s);
    let mut out: Vec<char> = Vec::new();
    let mut i: usize = 0;
    while i < cs.len()
        invariant
            cs@ == s@,
            i <= cs@.len(),
            out@ == double_quotes(s@.take(i as int)),
        decreases cs@.len() - i,
    {
        let c = cs[i];
        assert(s@.take(i + 1).drop_last() =~= s@.take(i as int));
        if c == '"' {
            out.push('"');
            out.push('"');
            assert(out@ =~= double_quotes(s@.take(i as int)) + seq!['"', '"']);
        } else {
            out.push(c);
        }
        i = i + 1;
    }
    assert(s@.take(cs@.len() as int) =~= s@);
    string_from_chars(&out)
}

/// Splits `s` at every `sep` (the pieces of `str::split` with a character).
pub fn split_str(s: &str, sep: char) -> (res: Vec<String>)
    ensures
        views(res@) == split_on(s@, sep),
{
    let cs = chars_of(s);
    let mut done: Vec<String> = Vec::new();
    let mut cur: Vec<char> = Vec::new();
    let mut i: usize = 0;
    assert(s@.take(0) =~= Seq::<char>::empty());
    assert(views(done@).push(cur@) =~= split_on(s@.take(0), sep));
    while i < cs.len()
        invariant
            cs@ == s@,
            i <= cs@.len(),
            views(done@).push(cur@) == split_on(s@.take(i as int), sep),
        decreases cs@.len() - i,
    {
        let c = cs[i];
        let ghost before = views(done@);
        let ghost old_cur = cur@;
        assert(s@.take(i + 1).drop_last() =~= s@.take(i as int));
        assert(s@.take(i + 1).last() == c);
        if c == sep {
            let piece = string_from_chars(&cur);
            done.push(piece);
            cur = Vec::new();
            assert(views(done@) =~= before.push(old_cur));
            assert(views(done@).push(cur@) =~= before.push(old_cur).push(Seq::<char>::empty()));
        } else {
            cur.push(c);
            assert(views(done@) =~= before);
            assert(views(done@).push(cur@) =~= before.push(old_cur).update(
                before.len() as int,
                old_cur.push(c),
            ));
        }
        i = i + 1;
    }
    assert(s@.take(cs@.len() as int) =~= s@);
    let last = string_from_chars(&cur);
    let ghost before = views(done@);
    done.push(last);
    assert(views(done@) =~= before.push(cur@));
    done
}

/// Concatenates the strings with `sep` between neighbours.
pub fn join_strings(pieces: &Vec<String>, sep: &str) -> (res: String)
    ensures
        res@ == join(views(pieces@), sep@),
{
    let mut out = String::from_str("");
    let mut i: usize = 0;
    proof {
        reveal_strlit("");
        assert(views(pieces@).take(0) =~= Seq::<Seq<char>>::empty());
    }
    while i < pieces.len()
        invariant
            i <= pieces@.len(),
            out@ == join(views(pieces@).take(i as int), sep@),
        decreases pieces@.len() - i,
    {
        let ghost prefix = views(pieces@).take(i as int);
        assert(views(pieces@).take(i + 1).drop_last() =~= prefix);
        assert(views(pieces@).take(i + 1).last() == pieces@[i as int]@);
        if i > 0 {
            out.append(sep);
        }
        out.append(pieces[i].as_str());
        proof {
            if i == 0 {
                assert(out@ =~= pieces@[0]@);
            }
        }
        i = i + 1;
    }
    assert(views(pieces@).take(pieces@.len() as int) =~= views(pieces@));
    out
}

} // verus!
