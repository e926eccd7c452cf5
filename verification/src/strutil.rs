//! Character and string helpers shared by the parser and the serializer.
//!
//! Everything here is verified against spec functions over `Seq<char>`;
//! the one trusted item is the wrapper around `String::push`, which vstd
//! does not specify.

use vstd::prelude::*;

verus! {

/// An ASCII lower-case letter.
pub open spec fn is_lower(c: char) -> bool {
    'a' <= c && c <= 'z'
}

/// An ASCII upper-case letter.
pub open spec fn is_upper(c: char) -> bool {
    'A' <= c && c <= 'Z'
}

/// An ASCII decimal digit.
pub open spec fn is_digit(c: char) -> bool {
    '0' <= c && c <= '9'
}

/// Numeric value of an ASCII decimal digit.
pub open spec fn digit_val(c: char) -> int {
    c as int - '0' as int
}

/// The character with `A..Z` mapped to `a..z` and everything else unchanged.
pub open spec fn to_lower_char(c: char) -> char {
    if is_upper(c) {
        (c as u32 + 32) as char
    } else {
        c
    }
}

/// The character with `a..z` mapped to `A..Z` and everything else unchanged.
pub open spec fn to_upper_char(c: char) -> char {
    if is_lower(c) {
        (c as u32 - 32) as char
    } else {
        c
    }
}

/// `s` with every ASCII upper-case letter lowered.
pub open spec fn lower_seq(s: Seq<char>) -> Seq<char> {
    s.map_values(|c: char| to_lower_char(c))
}

/// True iff the two string slices view to the same character sequence.
pub fn str_eq(a: &str, b: &str) -> (r: bool)
    ensures
        r == (a@ == b@),
{
    let alen = a.unicode_len();
    let blen = b.unicode_len();
    if alen != blen {
        return false;
    }
    for i in 0..alen
        invariant
            alen == a@.len(),
            alen == b@.len(),
            forall|j: int| 0 <= j < i ==> a@[j] == b@[j],
    {
        if a.get_char(i) != b.get_char(i) {
            return false;
        }
    }
    proof {
        assert(a@ =~= b@);
    }
    true
}

/// Index of the first occurrence of `c` in `s`, or `s.len()` when absent.
pub open spec fn find_idx(s: Seq<char>, c: char) -> int
    decreases s.len(),
{
    if s.len() == 0 {
        0
    } else if s[0] == c {
        0
    } else {
        1 + find_idx(s.drop_first(), c)
    }
}

/// What `find_idx` returns: the first index holding `c`, or the length.
pub proof fn lemma_find_idx(s: Seq<char>, c: char)
    ensures
        0 <= find_idx(s, c) <= s.len(),
        find_idx(s, c) < s.len() ==> s[find_idx(s, c)] == c,
        forall|j: int| 0 <= j < find_idx(s, c) ==> s[j] != c,
    decreases s.len(),
{
    if s.len() > 0 && s[0] != c {
        lemma_find_idx(s.drop_first(), c);
        assert forall|j: int| 0 <= j < find_idx(s, c) implies s[j] != c by {
            if j > 0 {
                assert(s.drop_first()[j - 1] != c);
            }
        }
    }
}

/// Index of the first occurrence of `c` in `s`, or `s@.len()` when absent.
pub fn find_char(s: &str, c: char) -> (r: usize)
    ensures
        r == find_idx(s@, c),
{
    proof {
        lemma_find_idx(s@, c);
    }
    let n = s.unicode_len();
    for i in 0..n
        invariant
            n == s@.len(),
            forall|j: int| 0 <= j < i ==> s@[j] != c,
    {
        if s.get_char(i) == c {
            proof {
                lemma_find_idx(s@, c);
                if i < find_idx(s@, c) {
                    assert(s@[i as int] != c);
                }
                if i > find_idx(s@, c) {
                    assert(s@[find_idx(s@, c)] == c);
                }
            }
            return i;
        }
    }
    proof {
        lemma_find_idx(s@, c);
        if find_idx(s@, c) < s@.len() {
            assert(s@[find_idx(s@, c)] == c);
        }
    }
    n
}

/// True iff `s` holds the character `c`.
pub fn contains_char(s: &str, c: char) -> (r: bool)
    ensures
        r == s@.contains(c),
{
    proof {
        lemma_find_idx(s@, c);
    }
    let i = find_char(s, c);
    proof {
        if i < s@.len() {
            assert(s@.contains(c));
        } else {
            assert forall|j: int| 0 <= j < s@.len() implies s@[j] != c by {}
            if s@.contains(c) {
                let w = choose|w: int| 0 <= w < s@.len() && s@[w] == c;
                assert(s@[w] != c);
            }
        }
    }
    i < s.unicode_len()
}

/// True iff `p@` is a prefix of `s@`.
pub fn starts_with(s: &str, p: &str) -> (r: bool)
    ensures
        r == p@.is_prefix_of(s@),
{
    let n = s.unicode_len();
    let m = p.unicode_len();
    if m > n {
        proof {
            if p@.is_prefix_of(s@) {
                assert(p@.len() <= s@.len());
            }
        }
        return false;
    }
    for i in 0..m
        invariant
            n == s@.len(),
            m == p@.len(),
            m <= n,
            forall|j: int| 0 <= j < i ==> s@[j] == p@[j],
    {
        if s.get_char(i) != p.get_char(i) {
            proof {
                if p@.is_prefix_of(s@) {
                    assert(s@.subrange(0, m as int)[i as int] == p@[i as int]);
                }
            }
            return false;
        }
    }
    proof {
        assert(s@.subrange(0, m as int) =~= p@);
    }
    true
}

/// An owned copy of `s[from..to]` (in characters).
pub fn substr(s: &str, from: usize, to: usize) -> (r: String)
    requires
        from <= to <= s@.len(),
    ensures
        r@ == s@.subrange(from as int, to as int),
{
    let sub = s.substring_char(from, to);
    sub.to_owned()
}

/// The views of a sequence of owned strings.
pub open spec fn views(v: Seq<String>) -> Seq<Seq<char>> {
    v.map_values(|x: String| x@)
}

/// `s` split at every occurrence of `sep`, keeping empty pieces,
/// as `str::split` does.
pub open spec fn split_spec(s: Seq<char>, sep: char) -> Seq<Seq<char>>
    decreases s.len(),
{
    let i = find_idx(s, sep);
    if 0 <= i < s.len() {
        seq![s.subrange(0, i)] + split_spec(s.subrange(i + 1, s.len() as int), sep)
    } else {
        seq![s]
    }
}

/// `s` split at every occurrence of `sep`.
pub fn split_char(s: &str, sep: char) -> (r: Vec<String>)
    ensures
        views(r@) == split_spec(s@, sep),
{
    let mut out: Vec<String> = Vec::new();
    let mut pos: usize = 0;
    let n = s.unicode_len();
    proof {
        assert(s@.subrange(0, n as int) =~= s@);
        assert(views(out@) + split_spec(s@, sep) =~= split_spec(s@, sep));
    }
    loop
        invariant
            pos <= n,
            n == s@.len(),
            views(out@) + split_spec(s@.subrange(pos as int, n as int), sep) =~= split_spec(
                s@,
                sep,
            ),
        decreases n - pos,
    {
        let ghost prev = out@;
        let rest = s.substring_char(pos, n);
        let i = find_char(rest, sep);
        proof {
            lemma_find_idx(rest@, sep);
        }
        if i == rest.unicode_len() {
            out.push(rest.to_owned());
            proof {
                assert(split_spec(rest@, sep) =~= seq![rest@]);
                assert(views(out@) =~= views(prev).push(rest@));
                assert(views(out@) =~= split_spec(s@, sep));
            }
            return out;
        } else {
            out.push(substr(rest, 0, i));
            proof {
                assert(views(out@) =~= views(prev).push(rest@.subrange(0, i as int)));
            }
            let ghost tail = rest@.subrange(i + 1, rest@.len() as int);
            pos = pos + i + 1;
            proof {
                assert(tail =~= s@.subrange(pos as int, n as int));
                assert(views(out@) + split_spec(s@.subrange(pos as int, n as int), sep)
                    =~= split_spec(s@, sep));
            }
        }
    }
}

/// `s` split at the first occurrence of `sep`, or `None` when `sep` is absent.
pub fn split_first(s: &str, sep: char) -> (r: Option<(String, String)>)
    ensures
        match r {
            Some(p) => {
                &&& find_idx(s@, sep) < s@.len()
                &&& p.0@ == s@.subrange(0, find_idx(s@, sep))
                &&& p.1@ == s@.subrange(find_idx(s@, sep) + 1, s@.len() as int)
            },
            None => find_idx(s@, sep) == s@.len(),
        },
{
    proof {
        lemma_find_idx(s@, sep);
    }
    let n = s.unicode_len();
    let i = find_char(s, sep);
    if i == n {
        None
    } else {
        Some((substr(s, 0, i), substr(s, i + 1, n)))
    }
}

/// An ASCII whitespace character.
pub open spec fn is_ws(c: char) -> bool {
    c == ' ' || c == '\t' || c == '\r' || c == '\n'
}

/// `s` without leading ASCII whitespace.
pub open spec fn trim_left(s: Seq<char>) -> Seq<char>
    decreases s.len(),
{
    if s.len() > 0 && is_ws(s[0]) {
        trim_left(s.drop_first())
    } else {
        s
    }
}

/// `s` without trailing ASCII whitespace.
pub open spec fn trim_right(s: Seq<char>) -> Seq<char>
    decreases s.len(),
{
    if s.len() > 0 && is_ws(s.last()) {
        trim_right(s.drop_last())
    } else {
        s
    }
}

/// `s` without leading or trailing ASCII whitespace: space, tab,
/// carriage return and line feed, and only those.
pub open spec fn trim_spec(s: Seq<char>) -> Seq<char> {
    trim_right(trim_left(s))
}

proof fn lemma_trim_left_at(s: Seq<char>, a: int)
    requires
        0 <= a <= s.len(),
        forall|j: int| 0 <= j < a ==> is_ws(s[j]),
        a < s.len() ==> !is_ws(s[a]),
    ensures
        trim_left(s) =~= s.subrange(a, s.len() as int),
    decreases s.len(),
{
    if s.len() > 0 && is_ws(s[0]) {
        assert(a > 0);
        lemma_trim_left_at(s.drop_first(), a - 1);
        assert(s.drop_first().subrange(a - 1, s.drop_first().len() as int) =~= s.subrange(
            a,
            s.len() as int,
        ));
    }
}

proof fn lemma_trim_right_at(s: Seq<char>, b: int)
    requires
        0 <= b <= s.len(),
        forall|j: int| b <= j < s.len() ==> is_ws(s[j]),
        b > 0 ==> !is_ws(s[b - 1]),
    ensures
        trim_right(s) =~= s.subrange(0, b),
    decreases s.len(),
{
    if s.len() > 0 && is_ws(s.last()) {
        assert(b < s.len());
        lemma_trim_right_at(s.drop_last(), b);
        assert(s.drop_last().subrange(0, b) =~= s.subrange(0, b));
    }
}

/// An executable test for ASCII whitespace.
pub fn is_ws_exec(c: char) -> (r: bool)
    ensures
        r == is_ws(c),
{
    c == ' ' || c == '\t' || c == '\r' || c == '\n'
}

/// `s` without leading or trailing ASCII whitespace.
pub fn trim(s: &str) -> (r: String)
    ensures
        r@ == trim_spec(s@),
{
    let n = s.unicode_len();
    let mut a: usize = 0;
    while a < n && is_ws_exec(s.get_char(a))
        invariant
            a <= n,
            n == s@.len(),
            forall|j: int| 0 <= j < a ==> is_ws(s@[j]),
        decreases n - a,
    {
        a = a + 1;
    }
    if a == n {
        proof {
            lemma_trim_left_at(s@, a as int);
            assert(trim_left(s@) =~= Seq::<char>::empty());
            assert(trim_right(trim_left(s@)) =~= Seq::<char>::empty());
        }
        return String::new();
    }
    let mut b: usize = n - 1;
    while b > a && is_ws_exec(s.get_char(b))
        invariant
            a <= b < n,
            n == s@.len(),
            forall|j: int| b < j < n ==> is_ws(s@[j]),
        decreases b,
    {
        b = b - 1;
    }
    proof {
        lemma_trim_left_at(s@, a as int);
        let t = s@.subrange(a as int, n as int);
        lemma_trim_right_at(t, b + 1 - a);
        assert(t.subrange(0, b + 1 - a) =~= s@.subrange(a as int, b + 1));
    }
    substr(s, a, b + 1)
}

/// The ASCII lower-case counterpart of `c`.
pub fn lower_char(c: char) -> (r: char)
    ensures
        r == to_lower_char(c),
{
    if 'A' <= c && c <= 'Z' {
        let u: u32 = c as u32;
        let b: u8 = u as u8;
        proof {
            assert((u as u8) as u32 == u) by (bit_vector)
                requires
                    u < 128,
            ;
        }
        ((b + 32) as char)
    } else {
        c
    }
}

/// The ASCII upper-case counterpart of `c`.
pub fn upper_char(c: char) -> (r: char)
    ensures
        r == to_upper_char(c),
{
    if 'a' <= c && c <= 'z' {
        let u: u32 = c as u32;
        let b: u8 = u as u8;
        proof {
            assert((u as u8) as u32 == u) by (bit_vector)
                requires
                    u < 128,
            ;
        }
        ((b - 32) as char)
    } else {
        c
    }
}

/// The pieces joined with `sep` between each two.
pub open spec fn join_char(ps: Seq<Seq<char>>, sep: char) -> Seq<char>
    decreases ps.len(),
{
    if ps.len() == 0 {
        Seq::empty()
    } else if ps.len() == 1 {
        ps[0]
    } else {
        join_char(ps.drop_last(), sep) + seq![sep] + ps.last()
    }
}

/// A word with its first letter raised.
pub open spec fn title_word(w: Seq<char>) -> Seq<char> {
    if w.len() == 0 {
        w
    } else {
        seq![to_upper_char(w[0])] + w.drop_first()
    }
}

/// `s` with the first letter of each `-`-separated word raised.
pub open spec fn title_case(s: Seq<char>) -> Seq<char> {
    join_char(split_spec(s, '-').map_values(|w: Seq<char>| title_word(w)), '-')
}

/// `s` with every ASCII upper-case letter lowered.
pub fn to_lower(s: &str) -> (r: String)
    ensures
        r@ == lower_seq(s@),
{
    let n = s.unicode_len();
    let mut out = String::new();
    for i in 0..n
        invariant
            n == s@.len(),
            out@ =~= s@.subrange(0, i as int).map_values(|c: char| to_lower_char(c)),
    {
        let c = s.get_char(i);
        let lc = lower_char(c);
        push_char(&mut out, lc);
        proof {
            assert(out@ =~= s@.subrange(0, i + 1).map_values(|c: char| to_lower_char(c)));
        }
    }
    proof {
        assert(s@.subrange(0, n as int) =~= s@);
    }
    out
}

/// `s` with one space put between each ASCII lower-case letter and the
/// ASCII upper-case letter that follows it.
pub open spec fn spread_camel(s: Seq<char>) -> Seq<char>
    decreases s.len(),
{
    if s.len() < 2 {
        s
    } else if is_lower(s[0]) && is_upper(s[1]) {
        seq![s[0], ' '] + spread_camel(s.drop_first())
    } else {
        seq![s[0]] + spread_camel(s.drop_first())
    }
}

/// True iff every character of `s` is an ASCII decimal digit.
pub open spec fn all_digits(s: Seq<char>) -> bool {
    forall|i: int| 0 <= i < s.len() ==> is_digit(s[i])
}

/// The value of `s` read as a decimal numeral.
pub open spec fn dec_val(s: Seq<char>) -> int
    decreases s.len(),
{
    if s.len() == 0 {
        0
    } else {
        dec_val(s.drop_last()) * 10 + digit_val(s.last())
    }
}

/// A decimal numeral never has a negative value.
pub proof fn lemma_dec_val_nonneg(s: Seq<char>)
    requires
        all_digits(s),
    ensures
        dec_val(s) >= 0,
    decreases s.len(),
{
    if s.len() > 0 {
        assert(all_digits(s.drop_last()));
        lemma_dec_val_nonneg(s.drop_last());
    }
}

/// A prefix of a numeral is worth no more than the numeral.
pub proof fn lemma_dec_val_prefix(s: Seq<char>, i: int)
    requires
        all_digits(s),
        0 <= i <= s.len(),
    ensures
        dec_val(s.subrange(0, i)) <= dec_val(s),
    decreases s.len() - i,
{
    if i < s.len() {
        lemma_dec_val_prefix(s, i + 1);
        let p = s.subrange(0, i);
        let q = s.subrange(0, i + 1);
        assert(q.drop_last() =~= p);
        assert(all_digits(p));
        lemma_dec_val_nonneg(p);
        assert(dec_val(q) == dec_val(p) * 10 + digit_val(q.last()));
    } else {
        assert(s.subrange(0, i) =~= s);
    }
}

/// True iff `s` is a numeral whose value fits in a `u64`.
pub open spec fn u64_numeral(s: Seq<char>) -> bool {
    s.len() > 0 && all_digits(s) && dec_val(s) <= u64::MAX
}

/// Reads a decimal numeral: `Some` exactly for a non-empty, all-digit
/// string whose value fits in a `u64`.
pub fn parse_u64(s: &str) -> (r: Option<u64>)
    ensures
        r matches Some(v) ==> u64_numeral(s@) && v == dec_val(s@),
        r is None ==> !u64_numeral(s@),
{
    let n = s.unicode_len();
    if n == 0 {
        return None;
    }
    let mut acc: u64 = 0;
    for i in 0..n
        invariant
            n == s@.len(),
            all_digits(s@.subrange(0, i as int)),
            acc == dec_val(s@.subrange(0, i as int)),
    {
        let c = s.get_char(i);
        if !('0' <= c && c <= '9') {
            return None;
        }
        let d: u64 = ((c as u32) - 48) as u64;
        proof {
            assert(s@.subrange(0, i + 1).drop_last() =~= s@.subrange(0, i as int));
            assert(s@.subrange(0, i + 1).last() == s@[i as int]);
        }
        if acc > (u64::MAX - d) / 10 {
            proof {
                assert(all_digits(s@.subrange(0, i + 1)));
                assert(acc * 10 + d > u64::MAX) by (nonlinear_arith)
                    requires
                        acc > (u64::MAX - d) / 10,
                        d <= 9,
                ;
                assert(dec_val(s@.subrange(0, i + 1)) > u64::MAX);
                if all_digits(s@) {
                    lemma_dec_val_prefix(s@, i + 1);
                }
            }
            return None;
        }
        proof {
            assert(acc * 10 + d <= u64::MAX) by (nonlinear_arith)
                requires
                    acc <= (u64::MAX - d) / 10,
                    d <= 9,
            ;
        }
        acc = acc * 10 + d;
    }
    proof {
        assert(s@.subrange(0, n as int) =~= s@);
    }
    Some(acc)
}

/// The numeral for `d` in `0 ..= 9`.
pub open spec fn digit_char(d: int) -> char {
    ((48 + d) as u32) as char
}

/// The decimal numeral of `n` without the special case for zero:
/// empty when `n == 0`.
pub open spec fn rep0(n: int) -> Seq<char>
    decreases n,
{
    if n <= 0 {
        Seq::empty()
    } else {
        rep0(n / 10).push(digit_char(n % 10))
    }
}

/// The decimal numeral of a non-negative `n`.
pub open spec fn dec_rep(n: int) -> Seq<char> {
    if n == 0 {
        seq!['0']
    } else {
        rep0(n)
    }
}

/// The executable numeral for one digit.
pub fn digit_char_exec(d: u64) -> (r: char)
    requires
        d <= 9,
    ensures
        r == digit_char(d as int),
{
    let b: u8 = d as u8;
    proof {
        assert((d as u8) as u64 == d) by (bit_vector)
            requires
                d <= 9,
        ;
    }
    ((48 + b) as char)
}

/// Writes `x` as a decimal numeral.
pub fn u64_to_dec(x: u64) -> (r: String)
    ensures
        r@ == dec_rep(x as int),
{
    let mut out = String::new();
    if x == 0 {
        push_char(&mut out, '0');
        return out;
    }
    let mut digits: Vec<char> = Vec::new();
    let mut v: u64 = x;
    while v > 0
        invariant
            rep0(x as int) =~= rep0(v as int) + digits@.reverse(),
        decreases v,
    {
        let ghost prev = digits@;
        let d: u64 = v % 10;
        digits.push(digit_char_exec(d));
        v = v / 10;
        proof {
            assert(digits@.reverse() =~= seq![digit_char(d as int)] + prev.reverse());
            assert(rep0(x as int) =~= rep0(v as int) + digits@.reverse());
        }
    }
    let k = digits.len();
    for i in 0..k
        invariant
            k == digits@.len(),
            rep0(x as int) =~= digits@.reverse(),
            out@ =~= digits@.reverse().subrange(0, i as int),
    {
        push_char(&mut out, digits[k - 1 - i]);
        proof {
            assert(out@ =~= digits@.reverse().subrange(0, i + 1));
        }
    }
    proof {
        assert(out@ =~= rep0(x as int));
    }
    out
}

/// True iff `p` occurs in `s` as a contiguous substring.
pub open spec fn has_sub(s: Seq<char>, p: Seq<char>) -> bool {
    exists|i: int| 0 <= i <= s.len() - p.len() && #[trigger] s.subrange(i, i + p.len()) == p
}

fn match_at(s: &str, p: &str, at: usize) -> (r: bool)
    requires
        at + p@.len() <= s@.len(),
        s@.len() <= usize::MAX,
    ensures
        r == (s@.subrange(at as int, at as int + p@.len()) == p@),
{
    let m = p.unicode_len();
    for j in 0..m
        invariant
            m == p@.len(),
            at + m <= s@.len(),
            s@.len() <= usize::MAX,
            forall|k: int| 0 <= k < j ==> s@[at + k] == p@[k],
    {
        if s.get_char(at + j) != p.get_char(j) {
            proof {
                let sub = s@.subrange(at as int, at as int + p@.len());
                if sub == p@ {
                    assert(sub[j as int] == p@[j as int]);
                }
            }
            return false;
        }
    }
    proof {
        assert(s@.subrange(at as int, at as int + p@.len()) =~= p@);
    }
    true
}

/// True iff `p@` occurs somewhere in `s@`.
pub fn contains_sub(s: &str, p: &str) -> (r: bool)
    ensures
        r == has_sub(s@, p@),
{
    let n = s.unicode_len();
    let m = p.unicode_len();
    if m > n {
        return false;
    }
    if m == 0 {
        proof {
            assert(s@.subrange(0, 0 + p@.len() as int) =~= p@);
            assert(has_sub(s@, p@));
        }
        return true;
    }
    let mut i: usize = 0;
    while i <= n - m
        invariant
            1 <= m <= n,
            n == s@.len(),
            m == p@.len(),
            i <= n - m + 1,
            forall|k: int| 0 <= k < i ==> #[trigger] s@.subrange(k, k + p@.len()) != p@,
        decreases n - i,
    {
        if match_at(s, p, i) {
            return true;
        }
        i = i + 1;
    }
    proof {
        if has_sub(s@, p@) {
            let w = choose|w: int|
                0 <= w <= s@.len() - p@.len() && #[trigger] s@.subrange(w, w + p@.len()) == p@;
            assert(s@.subrange(w, w + p@.len()) != p@);
        }
    }
    false
}

/// `p` without one trailing carriage return, as `str::lines` strips it.
pub open spec fn strip_cr(p: Seq<char>) -> Seq<char> {
    if p.len() > 0 && p.last() == '\r' {
        p.drop_last()
    } else {
        p
    }
}

/// What `str::lines` yields: pieces between newlines, a final empty
/// piece dropped, and a carriage return stripped only where a newline
/// followed it — a lone `\r` closing the final, unterminated line
/// stays.
pub open spec fn lines_spec(s: Seq<char>) -> Seq<Seq<char>> {
    if s.len() == 0 {
        Seq::empty()
    } else {
        let pieces = split_spec(s, '\n');
        let stripped = pieces.drop_last().map_values(|p: Seq<char>| strip_cr(p));
        if s.last() == '\n' {
            stripped
        } else {
            stripped.push(pieces.last())
        }
    }
}

proof fn lemma_split_spec_nonempty(s: Seq<char>, sep: char)
    ensures
        split_spec(s, sep).len() >= 1,
{
}

/// The lines of `s`, as `str::lines` yields them.
pub fn lines_vec(s: &str) -> (r: Vec<String>)
    ensures
        views(r@) == lines_spec(s@),
{
    let n = s.unicode_len();
    let mut out: Vec<String> = Vec::new();
    if n == 0 {
        proof {
            assert(views(out@) =~= lines_spec(s@));
        }
        return out;
    }
    let pieces = split_char(s, '\n');
    proof {
        lemma_split_spec_nonempty(s@, '\n');
    }
    let ghost all = split_spec(s@, '\n');
    let m = pieces.len();
    let mut i: usize = 0;
    while i < m - 1
        invariant
            1 <= m == pieces@.len(),
            i <= m - 1,
            views(pieces@) == all,
            n == s@.len(),
            n > 0,
            views(out@) =~= all.subrange(0, i as int).map_values(|p: Seq<char>| strip_cr(p)),
        decreases m - 1 - i,
    {
        let ghost prev = out@;
        let pc = pieces[i].as_str();
        proof {
            assert(pc@ == views(pieces@)[i as int]);
        }
        let len_i = pc.unicode_len();
        if len_i > 0 && pc.get_char(len_i - 1) == '\r' {
            out.push(substr(pc, 0, len_i - 1));
            proof {
                assert(pc@.subrange(0, len_i - 1) =~= strip_cr(all[i as int]));
                assert(views(out@) =~= views(prev).push(strip_cr(all[i as int])));
            }
        } else {
            let copy = pieces[i].clone();
            proof {
                assert(copy@ == strip_cr(all[i as int]));
            }
            out.push(copy);
            proof {
                assert(views(out@) =~= views(prev).push(strip_cr(all[i as int])));
            }
        }
        proof {
            assert(views(out@) =~= all.subrange(0, i + 1).map_values(
                |p: Seq<char>| strip_cr(p),
            ));
        }
        i = i + 1;
    }
    proof {
        assert(all.subrange(0, m - 1) =~= all.drop_last());
        assert(all.subrange(0, m - 1).map_values(|p: Seq<char>| strip_cr(p))
            =~= all.drop_last().map_values(|p: Seq<char>| strip_cr(p)));
        assert(views(out@) =~= all.drop_last().map_values(|p: Seq<char>| strip_cr(p)));
    }
    if s.get_char(n - 1) != '\n' {
        let ghost prev = out@;
        let last_piece = pieces[m - 1].clone();
        proof {
            assert(last_piece@ == all.last());
        }
        out.push(last_piece);
        proof {
            assert(views(out@) =~= views(prev).push(all.last()));
        }
    }
    proof {
        assert(views(out@) =~= lines_spec(s@));
    }
    out
}

/// Relies on `String::push`: appends exactly the given character.
#[verifier::external_body]
pub fn push_char(s: &mut String, c: char)
    ensures
        final(s)@ == old(s)@.push(c),
{
    s.push(c);
}

} // verus!
