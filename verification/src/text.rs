//! Character-level helpers shared by the routing, CORS and scaffolding code.

use vstd::prelude::*;
use vstd::string::*;

verus! {

/// The views of a sequence of owned strings.
pub open spec fn string_views(v: Seq<String>) -> Seq<Seq<char>> {
    v.map_values(|s: String| s@)
}

/// The views of a sequence of owned string pairs.
pub open spec fn pair_views(v: Seq<(String, String)>) -> Seq<(Seq<char>, Seq<char>)> {
    v.map_values(|p: (String, String)| (p.0@, p.1@))
}

/// Index of the first `/` in `s`, or its length when there is none.
pub open spec fn first_slash(s: Seq<char>) -> nat
    decreases s.len(),
{
    if s.len() == 0 {
        0
    } else if s[0] == '/' {
        0
    } else {
        1 + first_slash(s.skip(1))
    }
}

/// The non-empty `/`-separated segments of `s`, in order.
pub open spec fn path_segments(s: Seq<char>) -> Seq<Seq<char>>
    decreases s.len(),
{
    if s.len() == 0 {
        seq![]
    } else if s[0] == '/' {
        path_segments(s.skip(1))
    } else {
        let n = first_slash(s);
        proof {
            lemma_first_slash_bound(s);
        }
        seq![s.take(n as int)] + path_segments(s.skip(n as int))
    }
}

/// `first_slash(s)` is the position of the first `/` of `s`, or its length.
pub proof fn lemma_first_slash_bound(s: Seq<char>)
    ensures
        first_slash(s) <= s.len(),
        first_slash(s) < s.len() ==> s[first_slash(s) as int] == '/',
        forall|k: int| 0 <= k < first_slash(s) ==> s[k] != '/',
    decreases s.len(),
{
    if s.len() > 0 && s[0] != '/' {
        lemma_first_slash_bound(s.skip(1));
        assert forall|k: int| 0 <= k < first_slash(s) implies s[k] != '/' by {
            if k > 0 {
                assert(s.skip(1)[k - 1] == s[k]);
            }
        }
    }
}

/// `first_slash` is determined by the position of the first `/`.
proof fn lemma_first_slash_at(s: Seq<char>, m: int)
    requires
        0 <= m <= s.len(),
        forall|k: int| 0 <= k < m ==> s[k] != '/',
        m == s.len() || s[m] == '/',
    ensures
        first_slash(s) == m,
    decreases s.len(),
{
    if s.len() > 0 && m > 0 {
        assert forall|k: int| 0 <= k < m - 1 implies s.skip(1)[k] != '/' by {
            assert(s.skip(1)[k] == s[k + 1]);
        }
        if m < s.len() {
            assert(s.skip(1)[m - 1] == s[m]);
        }
        lemma_first_slash_at(s.skip(1), m - 1);
    }
}

/// The characters of `s`, as a vector.
pub fn chars_of(s: &str) -> (v: Vec<char>)
    ensures
        v@ == s@,
{
    let n = s.unicode_len();
    let mut v: Vec<char> = Vec::new();
    let mut i: usize = 0;
    while i < n
        invariant
            n == s@.len(),
            i <= n,
            v@ == s@.subrange(0, i as int),
        decreases n - i,
    {
        let c = s.get_char(i);
        v.push(c);
        i = i + 1;
    }
    assert(v@ == s@);
    v
}

/// An owned copy of the characters `from..to` of `s`.
pub fn substring(s: &str, from: usize, to: usize) -> (r: String)
    requires
        from <= to <= s@.len(),
    ensures
        r@ == s@.subrange(from as int, to as int),
{
    let sub = s.substring_char(from, to);
    sub.to_owned()
}

/// The non-empty `/`-separated segments of `s`.
pub fn split_segments(s: &str) -> (segs: Vec<String>)
    ensures
        string_views(segs@) == path_segments(s@),
{
    let cs = chars_of(s);
    let n = cs.len();
    let mut segs: Vec<String> = Vec::new();
    let mut i: usize = 0;
    assert(s@.skip(0) == s@);
    while i < n
        invariant
            n == s@.len(),
            cs@ == s@,
            i <= n,
            path_segments(s@) == string_views(segs@) + path_segments(s@.skip(i as int)),
        decreases n - i,
    {
        let ghost rest = s@.skip(i as int);
        if cs[i] == '/' {
            assert(rest.skip(1) == s@.skip(i + 1));
            i = i + 1;
        } else {
            let mut j: usize = i;
            while j < n && cs[j] != '/'
                invariant
                    n == s@.len(),
                    cs@ == s@,
                    i <= j <= n,
                    forall|k: int| i <= k < j ==> s@[k] != '/',
                decreases n - j,
            {
                j = j + 1;
            }
            proof {
                assert forall|k: int| 0 <= k < j - i implies rest[k] != '/' by {
                    assert(rest[k] == s@[i + k]);
                }
                if j < n {
                    assert(rest[j - i] == s@[j as int]);
                }
                lemma_first_slash_at(rest, j - i);
                assert(rest.take((j - i) as int) == s@.subrange(i as int, j as int));
                assert(rest.skip((j - i) as int) == s@.skip(j as int));
            }
            let seg = substring(s, i, j);
            let ghost old_segs = segs@;
            segs.push(seg);
            proof {
                assert(string_views(segs@) == string_views(old_segs) + seq![seg@]);
            }
            i = j;
        }
    }
    assert(s@.skip(n as int).len() == 0);
    assert(string_views(segs@) + path_segments(s@.skip(n as int)) == string_views(segs@));
    segs
}

} // verus!

verus! {

/// Whether `a` and `b` hold the same characters.
pub fn chars_eq(a: &Vec<char>, b: &Vec<char>) -> (r: bool)
    ensures
        r == (a@ == b@),
{
    if a.len() != b.len() {
        return false;
    }
    let mut i: usize = 0;
    while i < a.len()
        invariant
            a.len() == b.len(),
            i <= a.len(),
            forall|k: int| 0 <= k < i ==> a@[k] == b@[k],
        decreases a.len() - i,
    {
        if a[i] != b[i] {
            return false;
        }
        i = i + 1;
    }
    assert(a@ == b@);
    true
}

/// Whether the characters of `a` begin with those of `prefix`.
pub fn chars_start_with(a: &Vec<char>, prefix: &Vec<char>) -> (r: bool)
    ensures
        r == (prefix@.len() <= a@.len() && a@.take(prefix@.len() as int) == prefix@),
{
    if prefix.len() > a.len() {
        return false;
    }
    let mut i: usize = 0;
    while i < prefix.len()
        invariant
            prefix.len() <= a.len(),
            i <= prefix.len(),
            forall|k: int| 0 <= k < i ==> a@[k] == prefix@[k],
        decreases prefix.len() - i,
    {
        if a[i] != prefix[i] {
            assert(a@.take(prefix@.len() as int)[i as int] != prefix@[i as int]);
            return false;
        }
        i = i + 1;
    }
    assert(a@.take(prefix@.len() as int) == prefix@);
    true
}

/// Whether `s` holds the character `c`.
pub fn has_char(s: &str, c: char) -> (r: bool)
    ensures
        r == s@.contains(c),
{
    let cs = chars_of(s);
    let mut i: usize = 0;
    while i < cs.len()
        invariant
            cs@ == s@,
            i <= cs.len(),
            forall|k: int| 0 <= k < i ==> cs@[k] != c,
        decreases cs.len() - i,
    {
        if cs[i] == c {
            assert(s@[i as int] == c);
            return true;
        }
        i = i + 1;
    }
    false
}

/// The string `"/"`.
pub fn slash_string() -> (r: String)
    ensures
        r@ == seq!['/'],
{
    proof {
        reveal_strlit("/");
    }
    "/".to_owned()
}

} // verus!

verus! {

/// `items` joined with `sep` between consecutive items.
pub open spec fn join_with(items: Seq<Seq<char>>, sep: Seq<char>) -> Seq<char>
    decreases items.len(),
{
    if items.len() == 0 {
        seq![]
    } else if items.len() == 1 {
        items[0]
    } else {
        join_with(items.drop_last(), sep) + sep + items.last()
    }
}

/// Join `items` with `sep` between consecutive items.
pub fn join_strings(items: &Vec<String>, sep: &str) -> (r: String)
    ensures
        r@ == join_with(string_views(items@), sep@),
{
    let mut r = String::new();
    let mut i: usize = 0;
    while i < items.len()
        invariant
            i <= items.len(),
            r@ == join_with(string_views(items@).take(i as int), sep@),
        decreases items.len() - i,
    {
        let ghost before = string_views(items@).take(i as int);
        let ghost after = string_views(items@).take(i + 1);
        assert(after.drop_last() == before);
        assert(after.last() == items@[i as int]@);
        if i > 0 {
            r.append(sep);
        } else {
            assert(before.len() == 0);
        }
        r.append(items[i].as_str());
        i = i + 1;
    }
    assert(string_views(items@).take(items.len() as int) == string_views(items@));
    r
}

/// The decimal digit `d` (`d < 10`).
pub open spec fn digit_char(d: nat) -> char {
    if d == 0 {
        '0'
    } else if d == 1 {
        '1'
    } else if d == 2 {
        '2'
    } else if d == 3 {
        '3'
    } else if d == 4 {
        '4'
    } else if d == 5 {
        '5'
    } else if d == 6 {
        '6'
    } else if d == 7 {
        '7'
    } else if d == 8 {
        '8'
    } else {
        '9'
    }
}

/// The decimal notation of `n`, without leading zeros.
pub open spec fn decimal(n: nat) -> Seq<char>
    decreases n,
{
    if n < 10 {
        seq![digit_char(n)]
    } else {
        decimal(n / 10).push(digit_char(n % 10))
    }
}

fn digit_str(d: u64) -> (s: &'static str)
    requires
        d < 10,
    ensures
        s@ == seq![digit_char(d as nat)],
{
    proof {
        reveal_strlit("0");
        reveal_strlit("1");
        reveal_strlit("2");
        reveal_strlit("3");
        reveal_strlit("4");
        reveal_strlit("5");
        reveal_strlit("6");
        reveal_strlit("7");
        reveal_strlit("8");
        reveal_strlit("9");
    }
    if d == 0 {
        "0"
    } else if d == 1 {
        "1"
    } else if d == 2 {
        "2"
    } else if d == 3 {
        "3"
    } else if d == 4 {
        "4"
    } else if d == 5 {
        "5"
    } else if d == 6 {
        "6"
    } else if d == 7 {
        "7"
    } else if d == 8 {
        "8"
    } else {
        "9"
    }
}

/// The decimal notation of `n`.
pub fn decimal_string(n: u64) -> (s: String)
    ensures
        s@ == decimal(n as nat),
    decreases n,
{
    if n < 10 {
        let mut s = String::new();
        s.append(digit_str(n));
        s
    } else {
        let mut s = decimal_string(n / 10);
        s.append(digit_str(n % 10));
        s
    }
}

} // verus!

verus! {

/// Unicode white space (the `White_Space` property, as `char::is_whitespace`
/// reads it).
pub open spec fn is_white_space(c: char) -> bool {
    ||| ('\u{9}' <= c && c <= '\u{d}')
    ||| c == ' '
    ||| c == '\u{85}'
    ||| c == '\u{a0}'
    ||| c == '\u{1680}'
    ||| ('\u{2000}' <= c && c <= '\u{200a}')
    ||| c == '\u{2028}'
    ||| c == '\u{2029}'
    ||| c == '\u{202f}'
    ||| c == '\u{205f}'
    ||| c == '\u{3000}'
}

/// Whether `c` is Unicode white space.
pub fn white_space(c: char) -> (r: bool)
    ensures
        r == is_white_space(c),
{
    ('\u{9}' <= c && c <= '\u{d}') || c == ' ' || c == '\u{85}' || c == '\u{a0}' || c == '\u{1680}'
        || ('\u{2000}' <= c && c <= '\u{200a}') || c == '\u{2028}' || c == '\u{2029}' || c
        == '\u{202f}' || c == '\u{205f}' || c == '\u{3000}'
}

/// Number of leading white-space characters of `s`.
pub open spec fn leading_space(s: Seq<char>) -> nat
    decreases s.len(),
{
    if s.len() > 0 && is_white_space(s[0]) {
        1 + leading_space(s.skip(1))
    } else {
        0
    }
}

/// Number of trailing white-space characters of `s`.
pub open spec fn trailing_space(s: Seq<char>) -> nat
    decreases s.len(),
{
    if s.len() > 0 && is_white_space(s.last()) {
        1 + trailing_space(s.drop_last())
    } else {
        0
    }
}

/// `s` without leading and trailing white space (`str::trim`).
pub open spec fn trim_spec(s: Seq<char>) -> Seq<char> {
    let lead = leading_space(s);
    let rest = s.skip(lead as int);
    rest.take(rest.len() - trailing_space(rest))
}

proof fn lemma_leading_space_at(s: Seq<char>, m: int)
    requires
        0 <= m <= s.len(),
        forall|k: int| 0 <= k < m ==> is_white_space(#[trigger] s[k]),
        m == s.len() || !is_white_space(s[m]),
    ensures
        leading_space(s) == m,
    decreases s.len(),
{
    if m > 0 {
        assert forall|k: int| 0 <= k < m - 1 implies is_white_space(#[trigger] s.skip(1)[k]) by {
            assert(s.skip(1)[k] == s[k + 1]);
        }
        if m < s.len() {
            assert(s.skip(1)[m - 1] == s[m]);
        }
        lemma_leading_space_at(s.skip(1), m - 1);
    }
}

proof fn lemma_trailing_space_at(s: Seq<char>, m: int)
    requires
        0 <= m <= s.len(),
        forall|k: int| m <= k < s.len() ==> is_white_space(#[trigger] s[k]),
        m == 0 || !is_white_space(s[m - 1]),
    ensures
        trailing_space(s) == s.len() - m,
    decreases s.len(),
{
    if m < s.len() {
        assert forall|k: int| m <= k < s.len() - 1 implies is_white_space(
            #[trigger] s.drop_last()[k],
        ) by {
            assert(s.drop_last()[k] == s[k]);
        }
        if m > 0 {
            assert(s.drop_last()[m - 1] == s[m - 1]);
        }
        lemma_trailing_space_at(s.drop_last(), m);
    }
}

/// The characters of `v` without leading and trailing white space.
pub fn trim_chars(v: &Vec<char>) -> (r: Vec<char>)
    ensures
        r@ == trim_spec(v@),
{
    let n = v.len();
    let mut start: usize = 0;
    while start < n && white_space(v[start])
        invariant
            start <= n,
            n == v@.len(),
            forall|k: int| 0 <= k < start ==> is_white_space(#[trigger] v@[k]),
        decreases n - start,
    {
        start = start + 1;
    }
    proof {
        lemma_leading_space_at(v@, start as int);
    }
    let ghost rest = v@.skip(start as int);
    let mut end: usize = n;
    while end > start && white_space(v[end - 1])
        invariant
            start <= end <= n,
            n == v@.len(),
            forall|k: int| end <= k < n ==> is_white_space(#[trigger] v@[k]),
        decreases end,
    {
        end = end - 1;
    }
    proof {
        assert forall|k: int| end - start <= k < rest.len() implies is_white_space(
            #[trigger] rest[k],
        ) by {
            assert(rest[k] == v@[k + start]);
        }
        if end > start {
            assert(rest[end - start - 1] == v@[end - 1]);
        }
        lemma_trailing_space_at(rest, end - start);
    }
    let mut r: Vec<char> = Vec::new();
    let mut i: usize = start;
    while i < end
        invariant
            start <= i <= end <= n,
            n == v@.len(),
            r@ == v@.subrange(start as int, i as int),
        decreases end - i,
    {
        r.push(v[i]);
        i = i + 1;
    }
    assert(r@ == rest.take(rest.len() - trailing_space(rest)));
    r
}

/// The code point of the ASCII lower case of `c`
/// (`char::to_ascii_lowercase`).
pub open spec fn ascii_lower(c: char) -> u32 {
    if 'A' <= c && c <= 'Z' {
        ((c as u32) + 32) as u32
    } else {
        c as u32
    }
}

/// Whether `a` and `b` are equal ignoring ASCII case
/// (`str::eq_ignore_ascii_case`).
pub open spec fn eq_ignore_ascii_case_spec(a: Seq<char>, b: Seq<char>) -> bool {
    a.len() == b.len() && forall|i: int| 0 <= i < a.len() ==> ascii_lower(a[i]) == ascii_lower(b[i])
}

fn lower(c: char) -> (r: u32)
    ensures
        r == ascii_lower(c),
{
    if 'A' <= c && c <= 'Z' {
        c as u32 + 32
    } else {
        c as u32
    }
}

/// Whether `a` and `b` are equal ignoring ASCII case.
pub fn chars_eq_ignore_ascii_case(a: &Vec<char>, b: &Vec<char>) -> (r: bool)
    ensures
        r == eq_ignore_ascii_case_spec(a@, b@),
{
    if a.len() != b.len() {
        return false;
    }
    let mut i: usize = 0;
    while i < a.len()
        invariant
            a.len() == b.len(),
            i <= a.len(),
            forall|k: int| 0 <= k < i ==> ascii_lower(a@[k]) == ascii_lower(b@[k]),
        decreases a.len() - i,
    {
        if lower(a[i]) != lower(b[i]) {
            return false;
        }
        i = i + 1;
    }
    true
}

} // verus!

verus! {

/// Whether `c` is an ASCII decimal digit.
pub open spec fn is_digit(c: char) -> bool {
    '0' <= c && c <= '9'
}

/// The value of the decimal digit `c`.
pub open spec fn digit_value(c: char) -> nat {
    ((c as u32) - ('0' as u32)) as nat
}

/// The value of the decimal numeral `s` (all digits).
pub open spec fn numeral_value(s: Seq<char>) -> nat
    decreases s.len(),
{
    if s.len() == 0 {
        0
    } else {
        numeral_value(s.drop_last()) * 10 + digit_value(s.last())
    }
}

/// What `u64::from_str` (`str::parse::<u64>`) gives for `s`: an optional
/// `+` followed by at least one decimal digit, with a value that fits in a
/// `u64`.
pub open spec fn parse_u64_spec(s: Seq<char>) -> Option<u64> {
    let body = numeral_body(s);
    if body.len() > 0 && all_digits(body) && numeral_value(body) <= u64::MAX {
        Some(numeral_value(body) as u64)
    } else {
        None
    }
}

/// `s` without a leading `+`.
pub open spec fn numeral_body(s: Seq<char>) -> Seq<char> {
    if s.len() > 0 && s[0] == '+' {
        s.skip(1)
    } else {
        s
    }
}

/// Whether every character of `s` is a decimal digit.
pub open spec fn all_digits(s: Seq<char>) -> bool {
    forall|i: int| 0 <= i < s.len() ==> is_digit(#[trigger] s[i])
}

proof fn lemma_numeral_monotone(s: Seq<char>, k: int)
    requires
        0 <= k <= s.len(),
        forall|i: int| 0 <= i < s.len() ==> is_digit(#[trigger] s[i]),
    ensures
        numeral_value(s.take(k)) <= numeral_value(s),
    decreases s.len() - k,
{
    if k < s.len() {
        lemma_numeral_monotone(s, k + 1);
        assert(s.take(k + 1).drop_last() == s.take(k));
    } else {
        assert(s.take(k) == s);
    }
}

/// Parse `s` as a `u64`, as `str::parse::<u64>` does.
pub fn parse_u64(s: &str) -> (r: Option<u64>)
    ensures
        r == parse_u64_spec(s@),
{
    let cs = chars_of(s);
    let n = cs.len();
    let start: usize = if n > 0 && cs[0] == '+' {
        1
    } else {
        0
    };
    let ghost body = numeral_body(s@);
    assert(body == s@.skip(start as int));
    if start == n {
        return None;
    }
    let mut value: u64 = 0;
    let mut i: usize = start;
    while i < n
        invariant
            start <= i <= n,
            n == s@.len(),
            cs@ == s@,
            body == s@.skip(start as int),
            body == numeral_body(s@),
            forall|k: int| 0 <= k < i - start ==> is_digit(#[trigger] body[k]),
            value == numeral_value(body.take(i - start)),
        decreases n - i,
    {
        let c = cs[i];
        assert(body[i - start] == c);
        if !('0' <= c && c <= '9') {
            assert(!is_digit(body[i - start]));
            assert(!all_digits(body));
            return None;
        }
        let d: u64 = (c as u32 - '0' as u32) as u64;
        assert(body.take(i - start + 1).drop_last() == body.take(i - start));
        assert(body.take(i - start + 1).last() == c);
        if value > (u64::MAX - d) / 10 {
            proof {
                let vv = value as int;
                let dd = d as int;
                assert(vv * 10 + dd > 18446744073709551615) by (nonlinear_arith)
                    requires
                        vv > (18446744073709551615 - dd) / 10,
                        0 <= dd <= 9,
                ;
                assert(numeral_value(body.take(i - start + 1)) > u64::MAX);
                if all_digits(body) {
                    lemma_numeral_monotone(body, i - start + 1);
                }
            }
            return None;
        }
        value = value * 10 + d;
        i = i + 1;
    }
    assert(body.take(n - start) == body);
    Some(value)
}

/// The part of `s` before its first `;` (all of `s` when it has none).
pub open spec fn before_semicolon(s: Seq<char>) -> Seq<char> {
    if s.contains(';') {
        s.take(choose|i: int| 0 <= i < s.len() && s[i] == ';' && forall|k: int| 0 <= k < i ==> s[k] != ';')
    } else {
        s
    }
}

/// The characters of `v` before its first `;`.
pub fn chars_before_semicolon(v: &Vec<char>) -> (r: Vec<char>)
    ensures
        r@ == before_semicolon(v@),
{
    let mut r: Vec<char> = Vec::new();
    let mut i: usize = 0;
    while i < v.len() && v[i] != ';'
        invariant
            i <= v.len(),
            r@ == v@.take(i as int),
            forall|k: int| 0 <= k < i ==> v@[k] != ';',
        decreases v.len() - i,
    {
        r.push(v[i]);
        i = i + 1;
    }
    if i < v.len() {
        let ghost w = choose|j: int| 0 <= j < v@.len() && v@[j] == ';' && forall|k: int| 0 <= k < j ==> v@[k] != ';';
        assert(v@.contains(';'));
        assert(0 <= w < v@.len() && v@[w] == ';' && forall|k: int| 0 <= k < w ==> v@[k] != ';') by {
            assert(0 <= i < v@.len() && v@[i as int] == ';' && forall|k: int| 0 <= k < i ==> v@[k] != ';');
        }
        assert(w == i) by {
            if w < i {
                assert(v@[w] != ';');
            } else if w > i {
                assert(v@[i as int] != ';');
            }
        }
    } else {
        assert(!v@.contains(';'));
        assert(r@ == v@);
    }
    r
}

/// Whether the characters of `a` end with those of `suffix`.
pub fn chars_end_with(a: &Vec<char>, suffix: &Vec<char>) -> (r: bool)
    ensures
        r == (suffix@.len() <= a@.len() && a@.skip(a@.len() - suffix@.len()) == suffix@),
{
    if suffix.len() > a.len() {
        return false;
    }
    let off = a.len() - suffix.len();
    let mut i: usize = 0;
    while i < suffix.len()
        invariant
            off + suffix.len() == a.len(),
            i <= suffix.len(),
            forall|k: int| 0 <= k < i ==> a@[off + k] == suffix@[k],
        decreases suffix.len() - i,
    {
        if a[off + i] != suffix[i] {
            assert(a@.skip(off as int)[i as int] != suffix@[i as int]);
            return false;
        }
        i = i + 1;
    }
    assert(a@.skip(off as int) == suffix@);
    true
}

} // verus!
