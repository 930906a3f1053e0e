//! Character-level helpers on strings: splitting, prefixes and substring
//! search, each with its meaning stated over character sequences.
use vstd::prelude::*;
use vstd::string::*;

verus! {

broadcast use vstd::seq_lib::group_seq_properties;

/// `s` split at every occurrence of `sep`, as `str::split` does: `n`
/// separators give `n + 1` parts, possibly empty.
pub open spec fn split_chars(s: Seq<char>, sep: char) -> Seq<Seq<char>>
    decreases s.len(),
{
    if s.len() == 0 {
        seq![Seq::<char>::empty()]
    } else {
        let rest = split_chars(s.drop_last(), sep);
        if s.last() == sep {
            rest.push(Seq::<char>::empty())
        } else {
            rest.update(rest.len() - 1, rest.last().push(s.last()))
        }
    }
}

/// Splitting always yields at least one part.
pub proof fn lemma_split_nonempty(s: Seq<char>, sep: char)
    ensures
        split_chars(s, sep).len() >= 1,
    decreases s.len(),
{
    if s.len() > 0 {
        lemma_split_nonempty(s.drop_last(), sep);
    }
}

/// A string without the separator is a single part.
pub proof fn lemma_split_no_separator(s: Seq<char>, sep: char)
    requires
        forall|i: int| 0 <= i < s.len() ==> s[i] != sep,
    ensures
        split_chars(s, sep) == seq![s],
    decreases s.len(),
{
    if s.len() > 0 {
        lemma_split_no_separator(s.drop_last(), sep);
        assert(s.last() != sep);
        assert(s.drop_last().push(s.last()) =~= s);
        assert(seq![s.drop_last()].update(0, s) =~= seq![s]);
    } else {
        assert(s =~= Seq::<char>::empty());
    }
}

/// Splitting a join at a separator splits both sides.
pub proof fn lemma_split_join(x: Seq<char>, y: Seq<char>, sep: char)
    ensures
        split_chars(x + seq![sep] + y, sep) == split_chars(x, sep) + split_chars(y, sep),
    decreases y.len(),
{
    let j = x + seq![sep] + y;
    if y.len() == 0 {
        assert(j.drop_last() =~= x);
        assert(split_chars(y, sep) =~= seq![Seq::<char>::empty()]);
        assert(split_chars(x, sep).push(Seq::<char>::empty()) =~= split_chars(x, sep)
            + seq![Seq::<char>::empty()]);
    } else {
        lemma_split_join(x, y.drop_last(), sep);
        lemma_split_nonempty(y.drop_last(), sep);
        assert(j.drop_last() =~= x + seq![sep] + y.drop_last());
        assert(j.last() == y.last());
        let sx = split_chars(x, sep);
        let sy = split_chars(y.drop_last(), sep);
        if y.last() == sep {
            assert((sx + sy).push(Seq::<char>::empty()) =~= sx + sy.push(Seq::<char>::empty()));
        } else {
            let t = sx + sy;
            assert(t.update(t.len() - 1, t.last().push(y.last())) =~= sx + sy.update(
                sy.len() - 1,
                sy.last().push(y.last()),
            ));
        }
    }
}

/// `p` is a prefix of `s`.
pub open spec fn has_prefix(s: Seq<char>, p: Seq<char>) -> bool {
    p.len() <= s.len() && s.subrange(0, p.len() as int) == p
}

/// `t` occurs somewhere in `s`.
pub open spec fn has_substring(s: Seq<char>, t: Seq<char>) -> bool {
    exists|i: int| 0 <= i && i + t.len() <= s.len() && #[trigger] s.subrange(i, i + t.len()) == t
}

/// The views of a sequence of strings.
pub open spec fn string_views(v: Seq<String>) -> Seq<Seq<char>> {
    v.map_values(|x: String| x@)
}

/// Copies a string slice into an owned string.
pub fn to_owned_string(s: &str) -> (r: String)
    ensures
        r@ == s@,
{
    broadcast use vstd::string::to_string_from_display_ensures_for_str;

    s.to_string()
}

/// `t` is a stretch of consecutive characters of `s`.
pub open spec fn is_stretch_of(t: Seq<char>, s: Seq<char>) -> bool {
    exists|i: int, j: int| 0 <= i <= j <= s.len() && t == #[trigger] s.subrange(i, j)
}

/// Whether `c` has Unicode's White_Space property (the characters that
/// `str::trim` removes).
pub open spec fn is_white_space(c: char) -> bool {
    let v = c as u32;
    ||| 0x9 <= v <= 0xd
    ||| v == 0x20
    ||| v == 0x85
    ||| v == 0xa0
    ||| v == 0x1680
    ||| 0x2000 <= v <= 0x200a
    ||| v == 0x2028
    ||| v == 0x2029
    ||| v == 0x202f
    ||| v == 0x205f
    ||| v == 0x3000
}

/// `s` without its leading White_Space characters.
pub open spec fn trimmed_start(s: Seq<char>) -> Seq<char>
    decreases s.len(),
{
    if s.len() > 0 && is_white_space(s[0]) {
        trimmed_start(s.drop_first())
    } else {
        s
    }
}

/// `s` without its trailing White_Space characters.
pub open spec fn trimmed_end(s: Seq<char>) -> Seq<char>
    decreases s.len(),
{
    if s.len() > 0 && is_white_space(s.last()) {
        trimmed_end(s.drop_last())
    } else {
        s
    }
}

/// `s` without its leading and trailing White_Space characters.
pub open spec fn whitespace_trimmed(s: Seq<char>) -> Seq<char> {
    trimmed_end(trimmed_start(s))
}

/// Whether a character has Unicode's White_Space property.
pub fn is_white_space_char(c: char) -> (r: bool)
    ensures
        r == is_white_space(c),
{
    let v = c as u32;
    (0x9 <= v && v <= 0xd) || v == 0x20 || v == 0x85 || v == 0xa0 || v == 0x1680 || (0x2000 <= v
        && v <= 0x200a) || v == 0x2028 || v == 0x2029 || v == 0x202f || v == 0x205f || v == 0x3000
}

/// `s` without its leading and trailing whitespace (Unicode's White_Space
/// property), as `str::trim` leaves it: a stretch of the string.
pub fn trim_whitespace(s: &str) -> (r: String)
    ensures
        r@ == whitespace_trimmed(s@),
        is_stretch_of(r@, s@),
{
    let n = s.unicode_len();
    let mut i: usize = 0;
    proof {
        assert(s@.subrange(0, n as int) =~= s@);
    }
    while i < n && is_white_space_char(s.get_char(i))
        invariant
            n == s@.len(),
            i <= n,
            trimmed_start(s@) == trimmed_start(s@.subrange(i as int, n as int)),
        decreases n - i,
    {
        proof {
            assert(s@.subrange(i as int, n as int).drop_first() =~= s@.subrange(i + 1, n as int));
        }
        i = i + 1;
    }
    proof {
        if i < n {
            assert(s@.subrange(i as int, n as int)[0] == s@[i as int]);
        }
        assert(trimmed_start(s@) == s@.subrange(i as int, n as int));
    }
    let mut j: usize = n;
    while j > i && is_white_space_char(s.get_char(j - 1))
        invariant
            n == s@.len(),
            i <= j <= n,
            trimmed_start(s@) == s@.subrange(i as int, n as int),
            trimmed_end(s@.subrange(i as int, n as int)) == trimmed_end(
                s@.subrange(i as int, j as int),
            ),
        decreases j - i,
    {
        proof {
            assert(s@.subrange(i as int, j as int).drop_last() =~= s@.subrange(i as int, j - 1));
        }
        j = j - 1;
    }
    proof {
        if j > i {
            assert(s@.subrange(i as int, j as int).last() == s@[j - 1]);
        }
        assert(trimmed_end(s@.subrange(i as int, j as int)) == s@.subrange(i as int, j as int));
    }
    slice_chars(s, i, j)
}

/// The characters `from..to` of `s` as an owned string.
fn slice_chars(s: &str, from: usize, to: usize) -> (r: String)
    requires
        from <= to <= s@.len(),
    ensures
        r@ == s@.subrange(from as int, to as int),
{
    to_owned_string(s.substring_char(from, to))
}

/// Splits `s` at every occurrence of `sep`.
pub fn split_str(s: &str, sep: char) -> (r: Vec<String>)
    ensures
        string_views(r@) == split_chars(s@, sep),
{
    let n = s.unicode_len();
    let mut parts: Vec<String> = Vec::new();
    let mut start: usize = 0;
    let mut i: usize = 0;
    while i < n
        invariant
            n == s@.len(),
            start <= i <= n,
            string_views(parts@).push(s@.subrange(start as int, i as int)) == split_chars(
                s@.subrange(0, i as int),
                sep,
            ),
        decreases n - i,
    {
        let c = s.get_char(i);
        let ghost pre = s@.subrange(0, i as int);
        let ghost post = s@.subrange(0, i + 1);
        proof {
            assert(post.drop_last() =~= pre);
            assert(post.last() == c);
        }
        if c == sep {
            let part = slice_chars(s, start, i);
            parts.push(part);
            proof {
                assert(string_views(parts@) =~= string_views(parts@.drop_last()).push(part@));
                assert(s@.subrange((i + 1) as int, (i + 1) as int) =~= Seq::<char>::empty());
            }
            start = i + 1;
        } else {
            proof {
                assert(s@.subrange(start as int, i + 1) =~= s@.subrange(start as int, i as int).push(
                    c,
                ));
                let old_parts = string_views(parts@).push(s@.subrange(start as int, i as int));
                assert(string_views(parts@).push(s@.subrange(start as int, i + 1)) =~= old_parts.update(
                    old_parts.len() - 1,
                    old_parts.last().push(c),
                ));
            }
        }
        i = i + 1;
    }
    let last = slice_chars(s, start, n);
    let ghost before = string_views(parts@);
    parts.push(last);
    proof {
        assert(string_views(parts@) =~= before.push(last@));
        assert(s@.subrange(0, n as int) =~= s@);
    }
    parts
}

/// Whether `s` starts with `p`.
pub fn starts_with(s: &str, p: &str) -> (r: bool)
    ensures
        r == has_prefix(s@, p@),
{
    let n = s.unicode_len();
    let m = p.unicode_len();
    if m > n {
        return false;
    }
    let mut i: usize = 0;
    while i < m
        invariant
            m <= n,
            n == s@.len(),
            m == p@.len(),
            i <= m,
            forall|k: int| 0 <= k < i ==> s@[k] == p@[k],
        decreases m - i,
    {
        if s.get_char(i) != p.get_char(i) {
            proof {
                assert(s@.subrange(0, m as int)[i as int] != p@[i as int]);
            }
            return false;
        }
        i = i + 1;
    }
    proof {
        assert(s@.subrange(0, m as int) =~= p@);
    }
    true
}

/// `s` without its prefix `p`, when it has that prefix.
pub fn strip_prefix(s: &str, p: &str) -> (r: Option<String>)
    ensures
        r is Some <==> has_prefix(s@, p@),
        r matches Some(t) ==> t@ == s@.subrange(p@.len() as int, s@.len() as int),
{
    if starts_with(s, p) {
        let n = s.unicode_len();
        let m = p.unicode_len();
        Some(slice_chars(s, m, n))
    } else {
        None
    }
}

/// Whether `t` occurs in `s`.
pub fn contains_str(s: &str, t: &str) -> (r: bool)
    ensures
        r == has_substring(s@, t@),
{
    let n = s.unicode_len();
    let m = t.unicode_len();
    if m > n {
        return false;
    }
    let mut i: usize = 0;
    while i <= n - m
        invariant
            n == s@.len(),
            m == t@.len(),
            m <= n,
            i <= n - m + 1,
            forall|k: int| 0 <= k < i ==> #[trigger] s@.subrange(k, k + m) != t@,
        decreases n - i,
    {
        let window = s.substring_char(i, i + m);
        if starts_with(window, t) {
            proof {
                assert(window@.subrange(0, m as int) =~= window@);
                assert(s@.subrange(i as int, i + t@.len()) == t@);
            }
            return true;
        }
        proof {
            assert(window@.subrange(0, m as int) =~= window@);
        }
        i = i + 1;
    }
    proof {
        assert forall|k: int| 0 <= k && k + t@.len() <= s@.len() implies #[trigger] s@.subrange(
            k,
            k + t@.len(),
        ) != t@ by {
            assert(k < i);
        }
    }
    false
}

/// The position of the first `c` in `s`, if any.
pub fn find_char(s: &str, c: char) -> (r: Option<usize>)
    ensures
        r matches Some(i) ==> i < s@.len() && s@[i as int] == c && forall|k: int|
            0 <= k < i ==> s@[k] != c,
        r is None ==> forall|k: int| 0 <= k < s@.len() ==> s@[k] != c,
{
    let n = s.unicode_len();
    let mut i: usize = 0;
    while i < n
        invariant
            n == s@.len(),
            i <= n,
            forall|k: int| 0 <= k < i ==> s@[k] != c,
        decreases n - i,
    {
        if s.get_char(i) == c {
            return Some(i);
        }
        i = i + 1;
    }
    None
}

/// The characters of `s` after position `from`.
pub fn chars_from(s: &str, from: usize) -> (r: String)
    requires
        from <= s@.len(),
    ensures
        r@ == s@.subrange(from as int, s@.len() as int),
{
    let n = s.unicode_len();
    slice_chars(s, from, n)
}

/// The first `to` characters of `s`.
pub fn chars_until(s: &str, to: usize) -> (r: String)
    requires
        to <= s@.len(),
    ensures
        r@ == s@.subrange(0, to as int),
{
    slice_chars(s, 0, to)
}

/// `a` followed by `b`.
pub fn concat(a: &str, b: &str) -> (r: String)
    ensures
        r@ == a@ + b@,
{
    let mut out = to_owned_string(a);
    out.append(b);
    out
}

/// Whether two strings are equal.
pub fn str_equal(a: &str, b: &str) -> (r: bool)
    ensures
        r == (a@ == b@),
{
    let x = to_owned_string(a);
    let y = to_owned_string(b);
    x == y
}


/// The order of `str`'s `Ord`: lexicographic by character code, a proper
/// prefix first.
pub open spec fn chars_le(a: Seq<char>, b: Seq<char>) -> bool
    decreases a.len(),
{
    if a.len() == 0 {
        true
    } else if b.len() == 0 {
        false
    } else if (a[0] as int) < (b[0] as int) {
        true
    } else if (a[0] as int) > (b[0] as int) {
        false
    } else {
        chars_le(a.drop_first(), b.drop_first())
    }
}

/// Strictly before in that order.
pub open spec fn chars_lt(a: Seq<char>, b: Seq<char>) -> bool {
    chars_le(a, b) && a != b
}

/// Every string is ordered before itself.
pub proof fn lemma_chars_reflexive(a: Seq<char>)
    ensures
        chars_le(a, a),
    decreases a.len(),
{
    if a.len() > 0 {
        lemma_chars_reflexive(a.drop_first());
    }
}

/// Any two strings are ordered one way or the other.
pub proof fn lemma_chars_total(a: Seq<char>, b: Seq<char>)
    ensures
        chars_le(a, b) || chars_le(b, a),
    decreases a.len(),
{
    if a.len() > 0 && b.len() > 0 && a[0] == b[0] {
        lemma_chars_total(a.drop_first(), b.drop_first());
    }
}

/// Two strings ordered both ways are equal.
pub proof fn lemma_chars_antisymmetric(a: Seq<char>, b: Seq<char>)
    requires
        chars_le(a, b),
        chars_le(b, a),
    ensures
        a == b,
    decreases a.len(),
{
    if a.len() > 0 && b.len() > 0 {
        lemma_chars_antisymmetric(a.drop_first(), b.drop_first());
        assert(a[0] == b[0]);
        assert(a =~= seq![a[0]] + a.drop_first());
        assert(b =~= seq![b[0]] + b.drop_first());
    } else {
        assert(a.len() == 0 && b.len() == 0);
        assert(a =~= b);
    }
}

/// The order is transitive.
pub proof fn lemma_chars_transitive(a: Seq<char>, b: Seq<char>, c: Seq<char>)
    requires
        chars_le(a, b),
        chars_le(b, c),
    ensures
        chars_le(a, c),
    decreases a.len(),
{
    if a.len() > 0 && b.len() > 0 && c.len() > 0 && a[0] == b[0] && b[0] == c[0] {
        lemma_chars_transitive(a.drop_first(), b.drop_first(), c.drop_first());
    }
}

/// The strict order is transitive.
pub proof fn lemma_chars_lt_transitive(a: Seq<char>, b: Seq<char>, c: Seq<char>)
    requires
        chars_lt(a, b),
        chars_le(b, c),
    ensures
        chars_lt(a, c),
{
    lemma_chars_transitive(a, b, c);
    if a == c {
        lemma_chars_antisymmetric(a, b);
    }
}

/// Whether `a` comes no later than `b` in string order.
pub fn str_le(a: &str, b: &str) -> (r: bool)
    ensures
        r == chars_le(a@, b@),
{
    let n = a.unicode_len();
    let m = b.unicode_len();
    let mut i: usize = 0;
    proof {
        assert(a@.subrange(0, n as int) =~= a@);
        assert(b@.subrange(0, m as int) =~= b@);
    }
    while i < n && i < m
        invariant
            n == a@.len(),
            m == b@.len(),
            i <= n,
            i <= m,
            chars_le(a@, b@) == chars_le(a@.subrange(i as int, n as int), b@.subrange(i as int, m as int)),
        decreases n - i,
    {
        let x = a.get_char(i);
        let y = b.get_char(i);
        let ghost sa = a@.subrange(i as int, n as int);
        let ghost sb = b@.subrange(i as int, m as int);
        proof {
            assert(sa[0] == x);
            assert(sb[0] == y);
        }
        if (x as u32) < (y as u32) {
            return true;
        }
        if (x as u32) > (y as u32) {
            return false;
        }
        proof {
            assert(sa.drop_first() =~= a@.subrange(i + 1, n as int));
            assert(sb.drop_first() =~= b@.subrange(i + 1, m as int));
        }
        i = i + 1;
    }
    i == n
}

/// The decimal digits of `n`, most significant first, as `u64`'s
/// `Display` writes them.
pub open spec fn decimal_chars(n: nat) -> Seq<char>
    decreases n,
{
    if n < 10 {
        seq![digit_char(n)]
    } else {
        decimal_chars(n / 10).push(digit_char(n % 10))
    }
}

/// The character of a decimal digit.
pub open spec fn digit_char(d: nat) -> char {
    if d == 0 { '0' } else if d == 1 { '1' } else if d == 2 { '2' } else if d == 3 { '3' }
    else if d == 4 { '4' } else if d == 5 { '5' } else if d == 6 { '6' } else if d == 7 { '7' }
    else if d == 8 { '8' } else { '9' }
}

fn digit_str(d: u64) -> (r: &'static str)
    requires
        d < 10,
    ensures
        r@ == seq![digit_char(d as nat)],
{
    proof {
        reveal_strlit("0");
        reveal_strlit("1");
        reveal_strlit("2");
        reveal_strlit("3");
        reveal_strlit("4");
        reveal_strlit("5");
        reveal_strlit("6");
        reveal_strlit("7");
        reveal_strlit("8");
        reveal_strlit("9");
    }
    if d == 0 { "0" } else if d == 1 { "1" } else if d == 2 { "2" } else if d == 3 { "3" }
    else if d == 4 { "4" } else if d == 5 { "5" } else if d == 6 { "6" } else if d == 7 { "7" }
    else if d == 8 { "8" } else { "9" }
}

/// `n` written in decimal.
pub fn decimal_string(n: u64) -> (r: String)
    ensures
        r@ == decimal_chars(n as nat),
    decreases n,
{
    if n < 10 {
        to_owned_string(digit_str(n))
    } else {
        let head = decimal_string(n / 10);
        concat(head.as_str(), digit_str(n % 10))
    }
}

} // verus!
