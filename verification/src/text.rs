//! Character and string utilities shared by the request parser, the header
//! rewriters and the response builders: whitespace trimming, prefix tests,
//! line splitting and joining, and decimal formatting.

use vstd::prelude::*;
use vstd::string::*;

verus! {

/// True of the characters with the Unicode `White_Space` property, the set
/// that `str::trim` removes from both ends of a string.
pub open spec fn is_ws_char(c: char) -> bool {
    let u = c as u32;
    (9 <= u && u <= 13) || u == 32 || u == 0x85 || u == 0xA0 || u == 0x1680 || (0x2000 <= u && u
        <= 0x200A) || u == 0x2028 || u == 0x2029 || u == 0x202F || u == 0x205F || u == 0x3000
}

/// Decides [`is_ws_char`] for a concrete character.
pub fn char_is_ws(c: char) -> (r: bool)
    ensures
        r == is_ws_char(c),
{
    let u = c as u32;
    (9 <= u && u <= 13) || u == 32 || u == 0x85 || u == 0xA0 || u == 0x1680 || (0x2000 <= u && u
        <= 0x200A) || u == 0x2028 || u == 0x2029 || u == 0x202F || u == 0x205F || u == 0x3000
}

/// Character-wise string equality.
pub fn str_eq(a: &str, b: &str) -> (r: bool)
    ensures
        r == (a@ == b@),
{
    let alen = a.unicode_len();
    let blen = b.unicode_len();
    if alen != blen {
        return false;
    }
    let mut i: usize = 0;
    while i < alen
        invariant
            0 <= i <= alen,
            alen == a@.len(),
            alen == b@.len(),
            forall|j: int| 0 <= j < i ==> a@[j] == b@[j],
        decreases alen - i,
    {
        if a.get_char(i) != b.get_char(i) {
            return false;
        }
        i += 1;
    }
    proof {
        assert(a@ =~= b@);
    }
    true
}

/// `p` is a prefix of `s`.
pub open spec fn starts_with_spec(s: Seq<char>, p: Seq<char>) -> bool {
    p.len() <= s.len() && s.subrange(0, p.len() as int) == p
}

/// Decides [`starts_with_spec`] for concrete strings.
pub fn starts_with(s: &str, p: &str) -> (r: bool)
    ensures
        r == starts_with_spec(s@, p@),
{
    let slen = s.unicode_len();
    let plen = p.unicode_len();
    if plen > slen {
        return false;
    }
    let mut i: usize = 0;
    while i < plen
        invariant
            0 <= i <= plen,
            plen <= slen,
            slen == s@.len(),
            plen == p@.len(),
            forall|j: int| 0 <= j < i ==> s@[j] == p@[j],
        decreases plen - i,
    {
        if s.get_char(i) != p.get_char(i) {
            return false;
        }
        i += 1;
    }
    proof {
        assert(s@.subrange(0, p@.len() as int) =~= p@);
    }
    true
}

/// Index of the first occurrence of `c` in `s` at or after position `i`,
/// or `s.len()` when there is none.
pub open spec fn find_idx(s: Seq<char>, c: char, i: int) -> int
    decreases s.len() - i when 0 <= i <= s.len()
{
    if i >= s.len() {
        s.len() as int
    } else if s[i] == c {
        i
    } else {
        find_idx(s, c, i + 1)
    }
}

/// [`find_idx`] returns an in-range index, points at `c` when it finds one,
/// and skips no earlier occurrence.
pub proof fn lemma_find_idx(s: Seq<char>, c: char, i: int)
    requires
        0 <= i <= s.len(),
    ensures
        i <= find_idx(s, c, i) <= s.len(),
        find_idx(s, c, i) < s.len() ==> s[find_idx(s, c, i)] == c,
        forall|j: int| i <= j < find_idx(s, c, i) ==> s[j] != c,
    decreases s.len() - i,
{
    if i < s.len() && s[i] != c {
        lemma_find_idx(s, c, i + 1);
    }
}

/// [`find_idx`] is the only index that is in range, hits `c`, and has no
/// earlier hit: any `k` with those properties equals it.
pub proof fn lemma_find_idx_unique(s: Seq<char>, c: char, i: int, k: int)
    requires
        0 <= i <= k <= s.len(),
        forall|j: int| i <= j < k ==> s[j] != c,
        k == s.len() || s[k] == c,
    ensures
        find_idx(s, c, i) == k,
    decreases k - i,
{
    if i < k {
        lemma_find_idx_unique(s, c, i + 1, k);
    }
}

/// Position of the first occurrence of `c` in `s` at or after `from`.
pub fn find_char_from(s: &str, c: char, from: usize) -> (r: usize)
    requires
        from <= s@.len(),
    ensures
        r == find_idx(s@, c, from as int),
{
    let n = s.unicode_len();
    let mut i: usize = from;
    while i < n
        invariant
            from <= i <= n,
            n == s@.len(),
            forall|j: int| from <= j < i ==> s@[j] != c,
        decreases n - i,
    {
        if s.get_char(i) == c {
            proof {
                lemma_find_idx_unique(s@, c, from as int, i as int);
            }
            return i;
        }
        i += 1;
    }
    proof {
        lemma_find_idx_unique(s@, c, from as int, n as int);
    }
    n
}

/// `s` without its leading whitespace characters.
pub open spec fn trim_start_spec(s: Seq<char>) -> Seq<char>
    decreases s.len(),
{
    if s.len() > 0 && is_ws_char(s[0]) {
        trim_start_spec(s.drop_first())
    } else {
        s
    }
}

/// `s` without its trailing whitespace characters.
pub open spec fn trim_end_spec(s: Seq<char>) -> Seq<char>
    decreases s.len(),
{
    if s.len() > 0 && is_ws_char(s[s.len() - 1]) {
        trim_end_spec(s.drop_last())
    } else {
        s
    }
}

/// `s` without leading and trailing whitespace, as `str::trim` leaves it.
pub open spec fn trim_spec(s: Seq<char>) -> Seq<char> {
    trim_end_spec(trim_start_spec(s))
}

proof fn lemma_trim_start_skip(s: Seq<char>, i: int)
    requires
        0 <= i <= s.len(),
        forall|j: int| 0 <= j < i ==> is_ws_char(s[j]),
    ensures
        trim_start_spec(s) == trim_start_spec(s.subrange(i, s.len() as int)),
    decreases i,
{
    if i > 0 {
        assert(is_ws_char(s[0]));
        assert(s.drop_first() =~= s.subrange(1, s.len() as int));
        let t = s.subrange(1, s.len() as int);
        assert(trim_start_spec(s) == trim_start_spec(t));
        assert(forall|j: int| 0 <= j < i - 1 ==> t[j] == s[j + 1] && is_ws_char(t[j]));
        lemma_trim_start_skip(t, i - 1);
        assert(t.subrange(i - 1, t.len() as int) =~= s.subrange(i, s.len() as int));
    } else {
        assert(s.subrange(0, s.len() as int) =~= s);
    }
}

proof fn lemma_trim_end_skip(s: Seq<char>, i: int)
    requires
        0 <= i <= s.len(),
        forall|j: int| i <= j < s.len() ==> is_ws_char(s[j]),
    ensures
        trim_end_spec(s) == trim_end_spec(s.subrange(0, i)),
    decreases s.len() - i,
{
    if i < s.len() {
        assert(is_ws_char(s[s.len() - 1]));
        assert(s.drop_last() =~= s.subrange(0, s.len() - 1));
        let t = s.subrange(0, s.len() - 1);
        assert(trim_end_spec(s) == trim_end_spec(t));
        assert(forall|j: int| i <= j < t.len() ==> t[j] == s[j] && is_ws_char(t[j]));
        lemma_trim_end_skip(t, i);
        assert(t.subrange(0, i) =~= s.subrange(0, i));
    } else {
        assert(s.subrange(0, i) =~= s);
    }
}

/// `s` with leading and trailing whitespace removed; agrees with
/// [`trim_spec`] on the view.
pub fn trim(s: &str) -> (r: &str)
    ensures
        r@ == trim_spec(s@),
{
    let n = s.unicode_len();
    let mut i: usize = 0;
    while i < n && char_is_ws(s.get_char(i))
        invariant
            0 <= i <= n,
            n == s@.len(),
            forall|j: int| 0 <= j < i ==> is_ws_char(s@[j]),
        decreases n - i,
    {
        i += 1;
    }
    let mut j: usize = n;
    while j > i && char_is_ws(s.get_char(j - 1))
        invariant
            i <= j <= n,
            n == s@.len(),
            forall|k: int| 0 <= k < i ==> is_ws_char(s@[k]),
            forall|k: int| j <= k < n ==> is_ws_char(s@[k]),
        decreases j,
    {
        j -= 1;
    }
    proof {
        lemma_trim_start_skip(s@, i as int);
        let t = s@.subrange(i as int, n as int);
        if i < n {
            assert(!is_ws_char(t[0]));
            assert(trim_start_spec(t) == t);
        } else {
            assert(t =~= Seq::<char>::empty());
            assert(trim_start_spec(t) == t);
        }
        assert(forall|k: int| j - i <= k < t.len() ==> is_ws_char(t[k]));
        lemma_trim_end_skip(t, j - i);
        let u = t.subrange(0, j - i);
        if j > i {
            assert(!is_ws_char(u[u.len() - 1]));
            assert(trim_end_spec(u) == u);
        } else {
            assert(u =~= Seq::<char>::empty());
            assert(trim_end_spec(u) == u);
        }
        assert(u =~= s@.subrange(i as int, j as int));
    }
    s.substring_char(i, j)
}

/// A line with one trailing carriage return removed, as `str::lines` strips
/// it before a line feed.
pub open spec fn strip_cr(l: Seq<char>) -> Seq<char> {
    if l.len() > 0 && l[l.len() - 1] == '\r' {
        l.drop_last()
    } else {
        l
    }
}

/// The lines of `s` under the splitting rule of `str::lines`: lines end at
/// each line feed, a carriage return just before a line feed is dropped, a
/// final line ending is optional, and a carriage return anywhere else stays
/// in its line.
pub open spec fn lines_of(s: Seq<char>) -> Seq<Seq<char>>
    decreases s.len(),
    via lines_of_decreases
{
    if s.len() == 0 {
        Seq::empty()
    } else {
        let i = find_idx(s, '\n', 0);
        if i == s.len() {
            seq![s]
        } else {
            seq![strip_cr(s.subrange(0, i))] + lines_of(s.subrange(i + 1, s.len() as int))
        }
    }
}

#[via_fn]
proof fn lines_of_decreases(s: Seq<char>) {
    if s.len() != 0 {
        lemma_find_idx(s, '\n', 0);
    }
}

/// The lines of `s`, as string slices into `s`.
pub fn split_lines<'a>(s: &'a str) -> (r: Vec<&'a str>)
    ensures
        r@.map_values(|t: &str| t@) == lines_of(s@),
{
    let n = s.unicode_len();
    let mut parts: Vec<&'a str> = Vec::new();
    let mut pos: usize = 0;
    proof {
        assert(s@.subrange(0, n as int) =~= s@);
        assert(parts@.map_values(|t: &str| t@) =~= Seq::<Seq<char>>::empty());
    }
    while pos < n
        invariant
            0 <= pos <= n,
            n == s@.len(),
            lines_of(s@) =~= parts@.map_values(|t: &str| t@) + lines_of(
                s@.subrange(pos as int, n as int),
            ),
        decreases n - pos,
    {
        let ghost t = s@.subrange(pos as int, n as int);
        let ghost parts_before = parts@;
        let j = find_char_from(s, '\n', pos);
        proof {
            lemma_find_idx(s@, '\n', pos as int);
            assert(forall|k: int| 0 <= k < (j - pos) ==> t[k] == s@[pos + k] && t[k] != '\n');
            if j < n {
                assert(t[j - pos] == '\n');
            }
            lemma_find_idx_unique(t, '\n', 0, j - pos);
        }
        if j == n {
            let line = s.substring_char(pos, n);
            parts.push(line);
            proof {
                assert(line@ =~= t);
                assert(parts@.map_values(|x: &str| x@) =~= parts_before.map_values(
                    |x: &str| x@,
                ).push(t));
                assert(lines_of(t) == seq![t]);
                assert(parts_before.map_values(|x: &str| x@) + seq![t]
                    =~= parts_before.map_values(|x: &str| x@).push(t));
                assert(s@.subrange(n as int, n as int) =~= Seq::<char>::empty());
            }
            pos = n;
        } else {
            let end = if j > pos && s.get_char(j - 1) == '\r' {
                j - 1
            } else {
                j
            };
            let line = s.substring_char(pos, end);
            parts.push(line);
            proof {
                assert(t.subrange(0, j - pos) =~= s@.subrange(pos as int, j as int));
                if j > pos && s@[j - 1] == '\r' {
                    assert(strip_cr(t.subrange(0, j - pos)) =~= s@.subrange(pos as int, j - 1));
                } else {
                    assert(strip_cr(t.subrange(0, j - pos)) =~= s@.subrange(
                        pos as int,
                        j as int,
                    ));
                }
                assert(line@ == strip_cr(t.subrange(0, j - pos)));
                assert(t.subrange(j - pos + 1, t.len() as int) =~= s@.subrange(
                    j + 1,
                    n as int,
                ));
                assert(lines_of(t) == seq![strip_cr(t.subrange(0, j - pos))] + lines_of(
                    s@.subrange(j + 1, n as int),
                ));
                assert(parts@.map_values(|x: &str| x@) =~= parts_before.map_values(
                    |x: &str| x@,
                ).push(line@));
                assert(parts_before.map_values(|x: &str| x@) + lines_of(t)
                    =~= parts_before.map_values(|x: &str| x@).push(line@) + lines_of(
                    s@.subrange(j + 1, n as int),
                ));
            }
            pos = j + 1;
        }
    }
    proof {
        assert(s@.subrange(pos as int, n as int) =~= Seq::<char>::empty());
        assert(lines_of(Seq::<char>::empty()) == Seq::<Seq<char>>::empty());
        assert(parts@.map_values(|t: &str| t@) + Seq::<Seq<char>>::empty() =~= parts@.map_values(
            |t: &str| t@,
        ));
    }
    parts
}

/// `s` with every repetition of the leading prefix `p` removed, as
/// `str::trim_start_matches` strips it.
pub open spec fn strip_all_prefix(s: Seq<char>, p: Seq<char>) -> Seq<char>
    decreases s.len(),
{
    if p.len() > 0 && starts_with_spec(s, p) {
        strip_all_prefix(s.subrange(p.len() as int, s.len() as int), p)
    } else {
        s
    }
}

/// Removes every repetition of the leading prefix `p` from `s`.
pub fn strip_prefix_rep<'a>(s: &'a str, p: &str) -> (r: &'a str)
    requires
        p@.len() > 0,
    ensures
        r@ == strip_all_prefix(s@, p@),
    decreases s@.len(),
{
    if starts_with(s, p) {
        let plen = p.unicode_len();
        let n = s.unicode_len();
        let rest = s.substring_char(plen, n);
        strip_prefix_rep(rest, p)
    } else {
        s
    }
}

/// The two-character line separator used when rewritten lines are rejoined.
pub open spec fn crlf() -> Seq<char> {
    seq!['\r', '\n']
}

/// The lines of `ls` joined with CRLF between consecutive lines.
pub open spec fn join_crlf(ls: Seq<Seq<char>>) -> Seq<char>
    decreases ls.len(),
{
    if ls.len() == 0 {
        Seq::empty()
    } else if ls.len() == 1 {
        ls[0]
    } else {
        ls[0] + crlf() + join_crlf(ls.drop_first())
    }
}

/// Joining one more line appends a CRLF separator exactly when some line
/// came before it.
pub proof fn lemma_join_crlf_push(ls: Seq<Seq<char>>, x: Seq<char>)
    ensures
        ls.len() == 0 ==> join_crlf(ls.push(x)) == x,
        ls.len() > 0 ==> join_crlf(ls.push(x)) == join_crlf(ls) + crlf() + x,
    decreases ls.len(),
{
    if ls.len() == 0 {
        assert(ls.push(x).len() == 1);
        assert(ls.push(x)[0] == x);
    } else {
        assert(ls.push(x).drop_first() =~= ls.drop_first().push(x));
        lemma_join_crlf_push(ls.drop_first(), x);
        if ls.len() == 1 {
            assert(join_crlf(ls.push(x)) == ls[0] + crlf() + x);
            assert(join_crlf(ls) == ls[0]);
        } else {
            assert(join_crlf(ls.push(x)) == ls[0] + crlf() + (join_crlf(ls.drop_first()) + crlf()
                + x));
            assert(ls[0] + crlf() + (join_crlf(ls.drop_first()) + crlf() + x) =~= (ls[0] + crlf()
                + join_crlf(ls.drop_first())) + crlf() + x);
        }
    }
}

/// The character for the decimal digit `d`.
pub open spec fn digit_char(d: int) -> char {
    ((48 + d) as u8) as char
}

/// The decimal digit characters of the nonnegative integer `n`, most
/// significant first.
pub open spec fn dec_digits(n: int) -> Seq<char>
    decreases n,
{
    if n < 10 {
        seq![digit_char(n)]
    } else {
        dec_digits(n / 10).push(digit_char(n % 10))
    }
}

fn digit_str(d: u16) -> (r: String)
    requires
        d < 10,
    ensures
        r@ == seq![digit_char(d as int)],
{
    let r = match d {
        0 => String::from_str("0"),
        1 => String::from_str("1"),
        2 => String::from_str("2"),
        3 => String::from_str("3"),
        4 => String::from_str("4"),
        5 => String::from_str("5"),
        6 => String::from_str("6"),
        7 => String::from_str("7"),
        8 => String::from_str("8"),
        _ => String::from_str("9"),
    };
    proof {
        reveal_strlit("0");
        reveal_strlit("1");
        reveal_strlit("2");
        reveal_strlit("3");
        reveal_strlit("4");
        reveal_strlit("5");
        reveal_strlit("6");
        reveal_strlit("7");
        reveal_strlit("8");
        reveal_strlit("9");
        assert(r@ =~= seq![digit_char(d as int)]);
    }
    r
}

/// The decimal rendering of `n`.
pub fn u16_dec(n: u16) -> (r: String)
    ensures
        r@ == dec_digits(n as int),
    decreases n,
{
    if n < 10 {
        digit_str(n)
    } else {
        let mut s = u16_dec(n / 10);
        let d = digit_str(n % 10);
        s.append(d.as_str());
        proof {
            assert(dec_digits((n / 10) as int) + seq![digit_char((n % 10) as int)] =~= dec_digits(
                (n / 10) as int,
            ).push(digit_char((n % 10) as int)));
        }
        s
    }
}

/// `c` is a decimal digit.
pub open spec fn is_digit_char(c: char) -> bool {
    48 <= c as u32 <= 57
}

/// The numeric value of the digit character `c`.
pub open spec fn digit_val(c: char) -> int {
    c as u32 - 48
}

/// The value of a string of digit characters read in base ten.
pub open spec fn digits_val(s: Seq<char>) -> int
    decreases s.len(),
{
    if s.len() == 0 {
        0
    } else {
        digits_val(s.drop_last()) * 10 + digit_val(s[s.len() - 1])
    }
}

/// Every character of `s` is a decimal digit.
pub open spec fn all_digits(s: Seq<char>) -> bool {
    forall|i: int| 0 <= i < s.len() ==> is_digit_char(s[i])
}

/// The digit part of a decimal integer string: everything after an optional
/// leading plus sign.
pub open spec fn u16_digits(s: Seq<char>) -> Seq<char> {
    if s.len() > 0 && s[0] == '+' {
        s.drop_first()
    } else {
        s
    }
}

/// `s` is accepted by `str::parse::<u16>`: an optional plus sign, then one
/// or more digits, with a value that fits in sixteen bits.
pub open spec fn is_valid_u16_str(s: Seq<char>) -> bool {
    let d = u16_digits(s);
    d.len() > 0 && all_digits(d) && digits_val(d) <= 65535
}

/// What `str::parse::<u16>` returns on `s`, with errors collapsed to `None`.
pub open spec fn parse_u16_spec(s: Seq<char>) -> Option<u16> {
    if is_valid_u16_str(s) {
        Some(digits_val(u16_digits(s)) as u16)
    } else {
        None
    }
}

proof fn lemma_digits_val_nonneg(s: Seq<char>)
    requires
        all_digits(s),
    ensures
        digits_val(s) >= 0,
    decreases s.len(),
{
    if s.len() > 0 {
        assert(all_digits(s.drop_last()));
        lemma_digits_val_nonneg(s.drop_last());
    }
}

proof fn lemma_digits_val_prefix(s: Seq<char>, k: int)
    requires
        all_digits(s),
        0 <= k <= s.len(),
    ensures
        digits_val(s) >= digits_val(s.subrange(0, k)),
    decreases s.len() - k,
{
    if k == s.len() {
        assert(s.subrange(0, k) =~= s);
    } else {
        let t = s.drop_last();
        assert(all_digits(t));
        lemma_digits_val_nonneg(t);
        lemma_digits_val_prefix(t, k);
        assert(t.subrange(0, k) =~= s.subrange(0, k));
        assert(digits_val(s) == digits_val(t) * 10 + digit_val(s[s.len() - 1]));
        assert(digits_val(t) * 10 >= digits_val(t));
    }
}

/// Parses `s` as `str::parse::<u16>` does, returning `None` on any input
/// that it rejects.
pub fn parse_u16(s: &str) -> (r: Option<u16>)
    ensures
        r == parse_u16_spec(s@),
{
    let n = s.unicode_len();
    let start: usize = if n > 0 && s.get_char(0) == '+' {
        1
    } else {
        0
    };
    let ghost d = u16_digits(s@);
    proof {
        assert(d =~= s@.subrange(start as int, n as int));
    }
    if start >= n {
        return None;
    }
    let mut acc: u32 = 0;
    let mut i: usize = start;
    while i < n
        invariant
            start <= i <= n,
            start < n,
            n == s@.len(),
            d == u16_digits(s@),
            d =~= s@.subrange(start as int, n as int),
            forall|j: int| start <= j < i ==> is_digit_char(s@[j]),
            acc == digits_val(s@.subrange(start as int, i as int)),
            acc <= 65535,
        decreases n - i,
    {
        let c = s.get_char(i);
        let u = c as u32;
        if u < 48 || u > 57 {
            proof {
                assert(d[i - start] == s@[i as int]);
                assert(!is_digit_char(d[i - start]));
                assert(!all_digits(d));
                assert(!is_valid_u16_str(s@));
            }
            return None;
        }
        let ghost pre = s@.subrange(start as int, i as int);
        acc = acc * 10 + (u - 48);
        proof {
            let pre1 = s@.subrange(start as int, i + 1);
            assert(pre1.drop_last() =~= pre);
            assert(digits_val(pre1) == digits_val(pre) * 10 + digit_val(s@[i as int]));
        }
        if acc > 65535 {
            proof {
                if all_digits(d) {
                    lemma_digits_val_prefix(d, i + 1 - start);
                    assert(d.subrange(0, i + 1 - start) =~= s@.subrange(start as int, i + 1));
                    assert(digits_val(s@.subrange(start as int, i + 1)) > 65535);
                    assert(digits_val(d) > 65535);
                }
                assert(!is_valid_u16_str(s@));
            }
            return None;
        }
        i += 1;
    }
    proof {
        assert(s@.subrange(start as int, i as int) =~= d);
        assert(forall|j: int| 0 <= j < d.len() ==> d[j] == s@[start + j]);
        assert(all_digits(d));
    }
    Some(acc as u16)
}

} // verus!
