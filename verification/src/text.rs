//! Text helpers: trimming, case mapping, comparison of strings.

use vstd::prelude::*;
use vstd::utf8::encode_utf8;

verus! {

/// The characters with the Unicode property White_Space, which is what
/// `char::is_whitespace` and `str::trim` go by.
pub open spec fn spec_is_whitespace(c: char) -> bool {
    let u = c as u32;
    ||| 0x09 <= u <= 0x0D
    ||| u == 0x20
    ||| u == 0x85
    ||| u == 0xA0
    ||| u == 0x1680
    ||| 0x2000 <= u <= 0x200A
    ||| u == 0x2028
    ||| u == 0x2029
    ||| u == 0x202F
    ||| u == 0x205F
    ||| u == 0x3000
}

/// Number of leading whitespace characters.
pub open spec fn leading_whitespace(s: Seq<char>) -> nat
    decreases s.len(),
{
    if s.len() > 0 && spec_is_whitespace(s[0]) {
        1 + leading_whitespace(s.drop_first())
    } else {
        0
    }
}

/// Number of trailing whitespace characters.
pub open spec fn trailing_whitespace(s: Seq<char>) -> nat
    decreases s.len(),
{
    if s.len() > 0 && spec_is_whitespace(s.last()) {
        1 + trailing_whitespace(s.drop_last())
    } else {
        0
    }
}

/// `s` without its leading and trailing whitespace.
pub open spec fn spec_trim(s: Seq<char>) -> Seq<char> {
    if leading_whitespace(s) == s.len() {
        Seq::empty()
    } else {
        s.subrange(leading_whitespace(s) as int, s.len() - trailing_whitespace(s))
    }
}

/// What `str::to_uppercase` returns for a string.
pub uninterp spec fn spec_to_uppercase(s: Seq<char>) -> Seq<char>;

/// What `str::to_lowercase` returns for a string.
pub uninterp spec fn spec_to_lowercase(s: Seq<char>) -> Seq<char>;

/// Whether a character is whitespace; see [`spec_is_whitespace`].
pub fn is_whitespace(c: char) -> (b: bool)
    ensures
        b == spec_is_whitespace(c),
{
    let u = c as u32;
    (0x09 <= u && u <= 0x0D) || u == 0x20 || u == 0x85 || u == 0xA0 || u == 0x1680 || (0x2000 <= u && u <= 0x200A)
        || u == 0x2028 || u == 0x2029 || u == 0x202F || u == 0x205F || u == 0x3000
}

/// The leading whitespace ends at the first character that is not
/// whitespace.
proof fn lemma_leading_whitespace(s: Seq<char>, k: int)
    requires
        0 <= k <= s.len(),
        forall|j: int| 0 <= j < k ==> spec_is_whitespace(#[trigger] s[j]),
        k == s.len() || !spec_is_whitespace(s[k]),
    ensures
        leading_whitespace(s) == k,
    decreases k,
{
    if k > 0 {
        let t = s.drop_first();
        assert forall|j: int| 0 <= j < k - 1 implies spec_is_whitespace(#[trigger] t[j]) by {
            assert(t[j] == s[j + 1]);
        }
        if k < s.len() {
            assert(t[k - 1] == s[k]);
        }
        lemma_leading_whitespace(t, k - 1);
    }
}

/// The trailing whitespace starts after the last character that is not
/// whitespace.
proof fn lemma_trailing_whitespace(s: Seq<char>, k: int)
    requires
        0 <= k <= s.len(),
        forall|j: int| s.len() - k <= j < s.len() ==> spec_is_whitespace(#[trigger] s[j]),
        k == s.len() || !spec_is_whitespace(s[s.len() - 1 - k]),
    ensures
        trailing_whitespace(s) == k,
    decreases k,
{
    if k > 0 {
        let t = s.drop_last();
        assert(s.last() == s[s.len() - 1]);
        assert forall|j: int| t.len() - (k - 1) <= j < t.len() implies spec_is_whitespace(#[trigger] t[j]) by {
            assert(t[j] == s[j]);
        }
        if k < s.len() {
            assert(t[t.len() - 1 - (k - 1)] == s[s.len() - 1 - k]);
        }
        lemma_trailing_whitespace(t, k - 1);
    }
}

/// The string without its leading and trailing whitespace, as `str::trim`
/// gives it.
pub fn str_trim(s: &str) -> (r: &str)
    ensures
        r@ == spec_trim(s@),
{
    let n = s.unicode_len();
    let mut i: usize = 0;
    while i < n && is_whitespace(s.get_char(i))
        invariant
            i <= n,
            n == s@.len(),
            forall|j: int| 0 <= j < i ==> spec_is_whitespace(#[trigger] s@[j]),
        decreases n - i,
    {
        i += 1;
    }
    proof {
        lemma_leading_whitespace(s@, i as int);
    }
    if i == n {
        return s.substring_char(n, n);
    }
    let mut j: usize = n;
    while j > i && is_whitespace(s.get_char(j - 1))
        invariant
            i < n,
            i <= j <= n,
            n == s@.len(),
            !spec_is_whitespace(s@[i as int]),
            forall|x: int| j <= x < n ==> spec_is_whitespace(#[trigger] s@[x]),
        decreases j,
    {
        j -= 1;
    }
    proof {
        assert(j > i);
        lemma_trailing_whitespace(s@, n - j);
    }
    let r = s.substring_char(i, j);
    assert(r@ =~= spec_trim(s@));
    r
}

/// `str::to_uppercase`; its result is named, not stated.
#[verifier::external_body]
pub(crate) fn str_to_uppercase(s: &str) -> (r: String)
    ensures
        r@ == spec_to_uppercase(s@),
{
    s.to_uppercase()
}

/// `str::to_lowercase`; its result is named, not stated.
#[verifier::external_body]
pub(crate) fn str_to_lowercase(s: &str) -> (r: String)
    ensures
        r@ == spec_to_lowercase(s@),
{
    s.to_lowercase()
}

/// Whether two strings hold the same characters.
pub fn str_eq(a: &str, b: &str) -> (r: bool)
    ensures
        r == (a@ == b@),
{
    let n = a.unicode_len();
    if n != b.unicode_len() {
        return false;
    }
    let mut i: usize = 0;
    while i < n
        invariant
            n == a@.len(),
            n == b@.len(),
            i <= n,
            forall|k: int| 0 <= k < i ==> a@[k] == b@[k],
        decreases n - i,
    {
        if a.get_char(i) != b.get_char(i) {
            return false;
        }
        i += 1;
    }
    assert(a@ =~= b@);
    true
}

/// Whether the string starts with the character `c`.
pub fn starts_with_char(s: &str, c: char) -> (r: bool)
    ensures
        r == (s@.len() > 0 && s@[0] == c),
{
    if s.unicode_len() == 0 {
        false
    } else {
        s.get_char(0) == c
    }
}

/// Lexicographic order of byte sequences (a proper prefix comes first).
pub open spec fn bytes_lt(a: Seq<u8>, b: Seq<u8>) -> bool
    decreases a.len(),
{
    if a.len() == 0 {
        b.len() > 0
    } else if b.len() == 0 {
        false
    } else if a[0] != b[0] {
        a[0] < b[0]
    } else {
        bytes_lt(a.drop_first(), b.drop_first())
    }
}

/// The order of `String`s: lexicographic on their UTF-8 bytes.
pub open spec fn text_lt(a: Seq<char>, b: Seq<char>) -> bool {
    bytes_lt(encode_utf8(a), encode_utf8(b))
}

proof fn lemma_bytes_lt_suffix(a: Seq<u8>, b: Seq<u8>, i: int)
    requires
        0 <= i <= a.len(),
        i <= b.len(),
        forall|k: int| 0 <= k < i ==> a[k] == b[k],
    ensures
        bytes_lt(a, b) == bytes_lt(a.subrange(i, a.len() as int), b.subrange(i, b.len() as int)),
    decreases i,
{
    if i > 0 {
        lemma_bytes_lt_suffix(a.drop_first(), b.drop_first(), i - 1);
        assert(a.drop_first().subrange(i - 1, a.len() - 1) =~= a.subrange(i, a.len() as int));
        assert(b.drop_first().subrange(i - 1, b.len() - 1) =~= b.subrange(i, b.len() as int));
    } else {
        assert(a.subrange(0, a.len() as int) =~= a);
        assert(b.subrange(0, b.len() as int) =~= b);
    }
}

/// Whether `a` sorts before `b` as `String`s do.
pub fn text_less(a: &str, b: &str) -> (r: bool)
    ensures
        r == text_lt(a@, b@),
{
    let x = a.as_bytes();
    let y = b.as_bytes();
    let mut i: usize = 0;
    while i < x.len() && i < y.len()
        invariant
            x@ == encode_utf8(a@),
            y@ == encode_utf8(b@),
            i <= x.len(),
            i <= y.len(),
            forall|k: int| 0 <= k < i ==> x@[k] == y@[k],
        decreases x.len() - i,
    {
        if x[i] != y[i] {
            proof {
                lemma_bytes_lt_suffix(x@, y@, i as int);
            }
            return x[i] < y[i];
        }
        i += 1;
    }
    proof {
        lemma_bytes_lt_suffix(x@, y@, i as int);
    }
    i == x.len() && i < y.len()
}

/// Equal texts have equal bytes, and unequal texts are ordered one way or
/// the other.
pub proof fn lemma_text_lt_total(a: Seq<char>, b: Seq<char>)
    ensures
        a != b ==> (text_lt(a, b) || text_lt(b, a)),
        !(text_lt(a, b) && text_lt(b, a)),
        !text_lt(a, a),
{
    vstd::utf8::encode_utf8_decode_utf8(a);
    vstd::utf8::encode_utf8_decode_utf8(b);
    lemma_bytes_lt_total(encode_utf8(a), encode_utf8(b));
    lemma_bytes_lt_total(encode_utf8(a), encode_utf8(a));
}

proof fn lemma_bytes_lt_total(a: Seq<u8>, b: Seq<u8>)
    ensures
        a != b ==> (bytes_lt(a, b) || bytes_lt(b, a)),
        !(bytes_lt(a, b) && bytes_lt(b, a)),
        a == b ==> !bytes_lt(a, b),
    decreases a.len(),
{
    if a.len() > 0 && b.len() > 0 && a[0] == b[0] {
        lemma_bytes_lt_total(a.drop_first(), b.drop_first());
        if a.drop_first() == b.drop_first() {
            assert forall|i: int| 0 <= i < a.len() implies a[i] == b[i] by {
                if i > 0 {
                    assert(a[i] == a.drop_first()[i - 1]);
                    assert(b[i] == b.drop_first()[i - 1]);
                }
            }
            assert(a =~= b);
        }
    } else if a.len() == 0 && b.len() == 0 {
        assert(a =~= b);
    }
}

/// `text_lt` is transitive.
pub proof fn lemma_text_lt_transitive(a: Seq<char>, b: Seq<char>, c: Seq<char>)
    requires
        text_lt(a, b),
        text_lt(b, c),
    ensures
        text_lt(a, c),
{
    lemma_bytes_lt_transitive(encode_utf8(a), encode_utf8(b), encode_utf8(c));
}

proof fn lemma_bytes_lt_transitive(a: Seq<u8>, b: Seq<u8>, c: Seq<u8>)
    requires
        bytes_lt(a, b),
        bytes_lt(b, c),
    ensures
        bytes_lt(a, c),
    decreases a.len(),
{
    if a.len() > 0 && b.len() > 0 && c.len() > 0 && a[0] == b[0] && b[0] == c[0] {
        lemma_bytes_lt_transitive(a.drop_first(), b.drop_first(), c.drop_first());
    }
}

/// The texts of a list of string slices.
pub open spec fn strs_view(v: Seq<&str>) -> Seq<Seq<char>> {
    v.map_values(|s: &str| s@)
}

/// Each text sorts strictly before the next, so none occurs twice.
pub open spec fn strictly_sorted(s: Seq<Seq<char>>) -> bool {
    forall|i: int, j: int| 0 <= i < j < s.len() ==> text_lt(s[i], s[j])
}

/// The distinct texts of `names` in `String` order, as a sorted set of
/// strings would list them.
pub fn sorted_unique<'a>(names: &Vec<&'a str>) -> (r: Vec<&'a str>)
    ensures
        strictly_sorted(strs_view(r@)),
        forall|x: Seq<char>| #[trigger] strs_view(r@).contains(x) <==> strs_view(names@).contains(x),
{
    let mut r: Vec<&'a str> = Vec::new();
    let mut k: usize = 0;
    while k < names.len()
        invariant
            k <= names.len(),
            strictly_sorted(strs_view(r@)),
            forall|x: Seq<char>| #[trigger] strs_view(r@).contains(x) <==> strs_view(names@.take(k as int)).contains(x),
        decreases names.len() - k,
    {
        let name = names[k];
        let mut p: usize = 0;
        while p < r.len() && text_less(r[p], name)
            invariant
                p <= r.len(),
                forall|i: int| 0 <= i < p ==> text_lt(#[trigger] strs_view(r@)[i], name@),
            decreases r.len() - p,
        {
            p += 1;
        }
        let ghost old_r = strs_view(r@);
        let ghost cur = strs_view(names@.take(k as int));
        let ghost nxt = strs_view(names@.take(k + 1));
        proof {
            assert(names@.take(k + 1) =~= names@.take(k as int).push(name));
            assert(nxt =~= cur.push(name@));
        }
        if p < r.len() && str_eq(r[p], name) {
            proof {
                assert(old_r[p as int] == name@);
                assert forall|x: Seq<char>| #[trigger] strs_view(r@).contains(x) <==> nxt.contains(x) by {
                    if x == name@ {
                        assert(old_r.contains(x));
                    }
                    if old_r.contains(x) {
                        let m = choose|m: int| 0 <= m < cur.len() && cur[m] == x;
                        assert(nxt[m] == x);
                    }
                    if nxt.contains(x) && x != name@ {
                        let i = choose|i: int| 0 <= i < nxt.len() && nxt[i] == x;
                        assert(cur[i] == x);
                    }
                }
            }
        } else {
            proof {
                if p < r.len() {
                    lemma_text_lt_total(old_r[p as int], name@);
                    assert(text_lt(name@, old_r[p as int]));
                }
            }
            r.insert(p, name);
            proof {
                let nr = strs_view(r@);
                assert(nr =~= old_r.insert(p as int, name@));
                assert forall|i: int, j: int| 0 <= i < j < nr.len() implies text_lt(nr[i], nr[j]) by {
                    if j < p {
                    } else if j == p {
                    } else if i == p {
                        if j - 1 > p {
                            lemma_text_lt_transitive(name@, old_r[p as int], old_r[j - 1]);
                        }
                    } else if i < p {
                        if j - 1 > p {
                            lemma_text_lt_transitive(name@, old_r[p as int], old_r[j - 1]);
                        }
                        lemma_text_lt_transitive(old_r[i], name@, old_r[j - 1]);
                    } else {
                    }
                }
                assert forall|x: Seq<char>| #[trigger] nr.contains(x) <==> nxt.contains(x) by {
                    if nr.contains(x) && x != name@ {
                        let i = choose|i: int| 0 <= i < nr.len() && nr[i] == x;
                        if i < p {
                            assert(old_r[i] == x);
                        } else {
                            assert(old_r[i - 1] == x);
                        }
                        assert(old_r.contains(x));
                        let m = choose|m: int| 0 <= m < cur.len() && cur[m] == x;
                        assert(nxt[m] == x);
                    }
                    if x == name@ {
                        assert(nr[p as int] == x);
                        assert(nxt[k as int] == x);
                    }
                    if nxt.contains(x) && x != name@ {
                        let i = choose|i: int| 0 <= i < nxt.len() && nxt[i] == x;
                        assert(cur[i] == x);
                        assert(old_r.contains(x));
                        let m = choose|m: int| 0 <= m < old_r.len() && old_r[m] == x;
                        if m < p {
                            assert(nr[m] == x);
                        } else {
                            assert(nr[m + 1] == x);
                        }
                    }
                }
            }
        }
        k += 1;
    }
    proof {
        assert(names@.take(names.len() as int) =~= names@);
    }
    r
}

/// The decimal digit for a number below 10.
pub open spec fn digit_char(d: nat) -> char {
    (48 + d) as char
}

/// The decimal numeral of a number, as `Display` writes it.
pub open spec fn spec_decimal(n: nat) -> Seq<char>
    decreases n,
{
    if n < 10 {
        seq![digit_char(n)]
    } else {
        spec_decimal(n / 10).push(digit_char(n % 10))
    }
}

fn digit_str(d: u64) -> (s: &'static str)
    requires
        d < 10,
    ensures
        s@ == seq![digit_char(d as nat)],
{
    proof {
        reveal_strlit("0");
        reveal_strlit("1");
        reveal_strlit("2");
        reveal_strlit("3");
        reveal_strlit("4");
        reveal_strlit("5");
        reveal_strlit("6");
        reveal_strlit("7");
        reveal_strlit("8");
        reveal_strlit("9");
    }
    match d {
        0 => "0",
        1 => "1",
        2 => "2",
        3 => "3",
        4 => "4",
        5 => "5",
        6 => "6",
        7 => "7",
        8 => "8",
        _ => "9",
    }
}

/// The decimal numeral of `n`.
pub fn decimal(n: u64) -> (s: String)
    ensures
        s@ == spec_decimal(n as nat),
    decreases n,
{
    if n < 10 {
        String::from_str(digit_str(n))
    } else {
        let mut s = decimal(n / 10);
        s.append(digit_str(n % 10));
        s
    }
}


/// The rest of `s` after `prefix`, where `s` starts with it.
pub fn strip_prefix<'a>(s: &'a str, prefix: &str) -> (r: Option<&'a str>)
    ensures
        match r {
            Some(rest) => s@.len() >= prefix@.len() && s@.take(prefix@.len() as int) == prefix@ && rest@ == s@.skip(
                prefix@.len() as int,
            ),
            None => !(s@.len() >= prefix@.len() && s@.take(prefix@.len() as int) == prefix@),
        },
{
    let n = s.unicode_len();
    let m = prefix.unicode_len();
    if n < m {
        return None;
    }
    let head = s.substring_char(0, m);
    assert(s@.take(m as int) =~= head@);
    if !str_eq(head, prefix) {
        return None;
    }
    let rest = s.substring_char(m, n);
    assert(rest@ =~= s@.skip(m as int));
    Some(rest)
}

} // verus!
