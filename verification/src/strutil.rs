//! String helpers shared by the decision engine: whitespace tokenization,
//! lexicographic comparison, substring tests, trimming, joining, and decimal
//! rendering of integers and of proportions held in thousandths.

use vstd::prelude::*;

verus! {

/// Whitespace as the tokenizer understands it: the Unicode `White_Space`
/// code points, matching what `char::is_whitespace` accepts.
pub open spec fn is_space_char(c: char) -> bool {
    let u = c as u32;
    (0x09 <= u && u <= 0x0d) || u == 0x20 || u == 0x85 || u == 0xa0 || u == 0x1680 || (0x2000
        <= u && u <= 0x200a) || u == 0x2028 || u == 0x2029 || u == 0x202f || u == 0x205f || u
        == 0x3000
}

pub fn is_space(c: char) -> (r: bool)
    ensures
        r == is_space_char(c),
{
    let u = c as u32;
    (0x09 <= u && u <= 0x0d) || u == 0x20 || u == 0x85 || u == 0xa0 || u == 0x1680 || (0x2000 <= u
        && u <= 0x200a) || u == 0x2028 || u == 0x2029 || u == 0x202f || u == 0x205f || u == 0x3000
}

/// Length of the leading run of non-whitespace characters.
pub open spec fn head_len(s: Seq<char>) -> nat
    decreases s.len(),
{
    if s.len() == 0 || is_space_char(s[0]) {
        0
    } else {
        1 + head_len(s.skip(1))
    }
}

pub proof fn lemma_head_len_le(s: Seq<char>)
    ensures
        head_len(s) <= s.len(),
    decreases s.len(),
{
    if s.len() > 0 && !is_space_char(s[0]) {
        lemma_head_len_le(s.skip(1));
    }
}

/// `head_len` is the unique split point: everything before it is
/// non-whitespace and it is either the end or a whitespace position.
pub proof fn lemma_head_len_at(s: Seq<char>, k: int)
    requires
        0 <= k <= s.len(),
        forall|j: int| 0 <= j < k ==> !is_space_char(s[j]),
        k == s.len() || is_space_char(s[k]),
    ensures
        head_len(s) == k,
    decreases s.len(),
{
    if k == 0 {
    } else {
        let t = s.skip(1);
        assert(forall|j: int| 0 <= j < k - 1 ==> s[j + 1] == t[j]);
        lemma_head_len_at(t, k - 1);
    }
}

/// The whitespace-separated tokens of a character sequence, in order.
pub open spec fn tokens_of(s: Seq<char>) -> Seq<Seq<char>>
    decreases s.len(),
    via tokens_of_dec
{
    if s.len() == 0 {
        Seq::empty()
    } else if is_space_char(s[0]) {
        tokens_of(s.skip(1))
    } else {
        seq![s.take(head_len(s) as int)] + tokens_of(s.skip(head_len(s) as int))
    }
}

#[via_fn]
proof fn tokens_of_dec(s: Seq<char>) {
    if s.len() > 0 && !is_space_char(s[0]) {
        lemma_head_len_le(s);
    }
}

/// The views of a vector of strings.
pub open spec fn views_of(v: Seq<String>) -> Seq<Seq<char>> {
    v.map_values(|s: String| s@)
}

/// Collects the characters of a string slice.
pub fn chars_vec(s: &str) -> (r: Vec<char>)
    ensures
        r@ == s@,
{
    let n = s.unicode_len();
    let mut r: Vec<char> = Vec::new();
    let mut i: usize = 0;
    while i < n
        invariant
            i <= n,
            n == s@.len(),
            r@ == s@.take(i as int),
        decreases n - i,
    {
        r.push(s.get_char(i));
        i = i + 1;
        assert(r@ =~= s@.take(i as int));
    }
    assert(r@ =~= s@);
    r
}

/// The Unicode lowercase mapping of a character sequence, as
/// `str::to_lowercase` computes it; a function of the characters alone.
pub uninterp spec fn lower_of(s: Seq<char>) -> Seq<char>;

/// Relies on `str::to_lowercase`: the result is the Unicode lowercase
/// mapping of the input, depending on the input characters alone; an empty
/// string stays empty.
#[verifier::external_body]
pub fn lowercase(s: &str) -> (r: String)
    ensures
        r@ == lower_of(s@),
        s@.len() == 0 ==> r@.len() == 0,
{
    s.to_lowercase()
}

/// Relies on std's `FromIterator` impl for `String`: collecting an iterator
/// of characters yields the string made of exactly those characters.
#[verifier::external_body]
pub fn string_from_chars(cs: &Vec<char>) -> (r: String)
    ensures
        r@ == cs@,
{
    cs.iter().collect()
}

/// Splits a character sequence into its whitespace-separated tokens.
pub fn tokenize_chars(cs: &Vec<char>) -> (r: Vec<String>)
    ensures
        views_of(r@) == tokens_of(cs@),
        forall|k: int| 0 <= k < r@.len() ==> r@[k]@ == tokens_of(cs@)[k],
{
    let n = cs.len();
    let mut r: Vec<String> = Vec::new();
    let mut i: usize = 0;
    assert(cs@.skip(0) =~= cs@);
    while i < n
        invariant
            i <= n,
            n == cs@.len(),
            views_of(r@) + tokens_of(cs@.skip(i as int)) =~= tokens_of(cs@),
        decreases n - i,
    {
        if is_space(cs[i]) {
            assert(cs@.skip(i as int).skip(1) =~= cs@.skip(i + 1));
            i = i + 1;
        } else {
            let ghost rest = cs@.skip(i as int);
            let start = i;
            let mut tok: Vec<char> = Vec::new();
            while i < n && !is_space(cs[i])
                invariant
                    start <= i <= n,
                    n == cs@.len(),
                    tok@ == cs@.subrange(start as int, i as int),
                    forall|j: int| start <= j < i ==> !is_space_char(cs@[j]),
                decreases n - i,
            {
                tok.push(cs[i]);
                i = i + 1;
                assert(tok@ =~= cs@.subrange(start as int, i as int));
            }
            proof {
                assert(forall|j: int| 0 <= j < i - start ==> rest[j] == cs@[j + start]);
                lemma_head_len_at(rest, i - start);
                assert(rest.take((i - start) as int) =~= cs@.subrange(start as int, i as int));
                assert(rest.skip((i - start) as int) =~= cs@.skip(i as int));
            }
            let piece = string_from_chars(&tok);
            r.push(piece);
            proof {
                assert(views_of(r@) =~= views_of(r@.drop_last()) + seq![tok@]);
                assert(views_of(r@) + tokens_of(cs@.skip(i as int)) =~= tokens_of(cs@));
            }
        }
    }
    assert(tokens_of(cs@.skip(n as int)) =~= Seq::<Seq<char>>::empty());
    assert(views_of(r@) =~= tokens_of(cs@));
    r
}

/// Splits a string into its whitespace-separated tokens.
pub fn tokenize(s: &str) -> (r: Vec<String>)
    ensures
        views_of(r@) == tokens_of(s@),
        forall|k: int| 0 <= k < r@.len() ==> r@[k]@ == tokens_of(s@)[k],
{
    let cs = chars_vec(s);
    tokenize_chars(&cs)
}

/// Strict lexicographic order on character sequences by scalar value, the
/// order in which Rust compares strings.
pub open spec fn lex_lt(a: Seq<char>, b: Seq<char>) -> bool
    decreases a.len(),
{
    if b.len() == 0 {
        false
    } else if a.len() == 0 {
        true
    } else if a[0] != b[0] {
        (a[0] as u32) < (b[0] as u32)
    } else {
        lex_lt(a.skip(1), b.skip(1))
    }
}

/// `lex_lt` is transitive.
pub proof fn lemma_lex_lt_trans(a: Seq<char>, b: Seq<char>, c: Seq<char>)
    requires
        lex_lt(a, b),
        lex_lt(b, c),
    ensures
        lex_lt(a, c),
    decreases a.len(),
{
    if a.len() == 0 {
        assert(c.len() > 0);
    } else {
        assert(b.len() > 0 && c.len() > 0);
        if a[0] == b[0] && b[0] == c[0] {
            lemma_lex_lt_trans(a.skip(1), b.skip(1), c.skip(1));
        } else if a[0] == c[0] {
            assert((a[0] as u32) <= (b[0] as u32) && (b[0] as u32) <= (c[0] as u32));
            assert(false);
        }
    }
}

/// `lex_lt` is decided at the first differing position.
pub proof fn lemma_lex_lt_first_diff(a: Seq<char>, b: Seq<char>, k: int)
    requires
        0 <= k < a.len(),
        k < b.len(),
        forall|j: int| 0 <= j < k ==> a[j] == b[j],
        a[k] != b[k],
    ensures
        lex_lt(a, b) == ((a[k] as u32) < (b[k] as u32)),
    decreases k,
{
    if k == 0 {
    } else {
        let ta = a.skip(1);
        let tb = b.skip(1);
        assert(forall|j: int| 0 <= j < k - 1 ==> ta[j] == a[j + 1] && tb[j] == b[j + 1]);
        assert(ta[k - 1] == a[k] && tb[k - 1] == b[k]);
        lemma_lex_lt_first_diff(ta, tb, k - 1);
        assert(a[0] == b[0]);
    }
}

/// `lex_lt` is irreflexive.
pub proof fn lemma_lex_lt_irrefl(a: Seq<char>)
    ensures
        !lex_lt(a, a),
    decreases a.len(),
{
    if a.len() > 0 {
        lemma_lex_lt_irrefl(a.skip(1));
    }
}

/// Two sequences that `lex_lt` orders in neither direction are equal.
pub proof fn lemma_lex_lt_connected(a: Seq<char>, b: Seq<char>)
    requires
        !lex_lt(a, b),
        !lex_lt(b, a),
    ensures
        a == b,
    decreases a.len(),
{
    if a.len() == 0 {
        assert(b.len() == 0);
        assert(a =~= b);
    } else {
        assert(b.len() > 0);
        assert((a[0] as u32) == (b[0] as u32));
        vstd::utf8::char_u32_cast(a[0], a[0] as u32);
        vstd::utf8::char_u32_cast(b[0], b[0] as u32);
        assert(a[0] == b[0]);
        lemma_lex_lt_connected(a.skip(1), b.skip(1));
        assert(a.skip(1).len() == a.len() - 1);
        assert(b.skip(1).len() == b.len() - 1);
        assert(a.len() == b.len());
        assert forall|i: int| 0 <= i < a.len() implies a[i] == b[i] by {
            if i > 0 {
                assert(a.skip(1)[i - 1] == a[i]);
                assert(b.skip(1)[i - 1] == b[i]);
            }
        }
        assert(a =~= b);
    }
}

/// Decides `lex_lt` on two strings.
pub fn str_lt(a: &str, b: &str) -> (r: bool)
    ensures
        r == lex_lt(a@, b@),
{
    let av = chars_vec(a);
    let bv = chars_vec(b);
    let mut i: usize = 0;
    assert(a@.skip(0) =~= a@ && b@.skip(0) =~= b@);
    loop
        invariant
            i <= av@.len(),
            i <= bv@.len(),
            av@ == a@,
            bv@ == b@,
            forall|j: int| 0 <= j < i ==> a@[j] == b@[j],
            lex_lt(a@, b@) == lex_lt(a@.skip(i as int), b@.skip(i as int)),
        decreases av@.len() - i,
    {
        if i >= bv.len() {
            return false;
        }
        if i >= av.len() {
            return true;
        }
        let ca = av[i];
        let cb = bv[i];
        if ca != cb {
            assert(a@.skip(i as int)[0] == ca && b@.skip(i as int)[0] == cb);
            return (ca as u32) < (cb as u32);
        }
        proof {
            assert(a@.skip(i as int)[0] == ca && b@.skip(i as int)[0] == cb);
            assert(a@.skip(i as int).skip(1) =~= a@.skip(i + 1));
            assert(b@.skip(i as int).skip(1) =~= b@.skip(i + 1));
        }
        i = i + 1;
    }
}

/// Decides equality of two strings by their characters.
pub fn str_eq(a: &str, b: &str) -> (r: bool)
    ensures
        r == (a@ == b@),
{
    let av = chars_vec(a);
    let bv = chars_vec(b);
    let n = av.len();
    if bv.len() != n {
        proof {
            assert(a@.len() != b@.len());
        }
        return false;
    }
    let mut i: usize = 0;
    while i < n
        invariant
            i <= n,
            n == av@.len(),
            n == bv@.len(),
            av@ == a@,
            bv@ == b@,
            forall|j: int| 0 <= j < i ==> a@[j] == b@[j],
        decreases n - i,
    {
        if av[i] != bv[i] {
            return false;
        }
        i = i + 1;
    }
    proof {
        assert(a@ =~= b@);
    }
    true
}

/// True when `p` occurs as a contiguous subsequence of `s`.
pub open spec fn has_sub(s: Seq<char>, p: Seq<char>) -> bool {
    exists|k: int| 0 <= k && k + p.len() <= s.len() && #[trigger] s.subrange(k, k + p.len() as int)
        == p
}

/// True when `s` ends with `p`.
pub open spec fn ends_with(s: Seq<char>, p: Seq<char>) -> bool {
    p.len() <= s.len() && s.subrange(s.len() - p.len(), s.len() as int) == p
}

fn match_at(s: &Vec<char>, p: &Vec<char>, k: usize) -> (r: bool)
    requires
        k + p@.len() <= s@.len(),
    ensures
        r == (s@.subrange(k as int, k + p@.len() as int) == p@),
{
    let n = s.len();
    let m = p.len();
    let mut j: usize = 0;
    while j < m
        invariant
            j <= m,
            n == s@.len(),
            m == p@.len(),
            k + m <= n,
            forall|t: int| 0 <= t < j ==> s@[k + t] == p@[t],
        decreases m - j,
    {
        if s[k + j] != p[j] {
            assert(s@.subrange(k as int, k + p@.len() as int)[j as int] == s@[k + j]);
            return false;
        }
        j = j + 1;
    }
    assert(s@.subrange(k as int, k + p@.len() as int) =~= p@);
    true
}

/// Decides `has_sub` on character vectors.
pub fn contains_chars(s: &Vec<char>, p: &Vec<char>) -> (r: bool)
    ensures
        r == has_sub(s@, p@),
{
    let n = s.len();
    let m = p.len();
    if m > n {
        return false;
    }
    let limit = n - m;
    let mut k: usize = 0;
    loop
        invariant
            m <= n,
            n == s@.len(),
            m == p@.len(),
            limit == n - m,
            k <= limit,
            forall|t: int| 0 <= t < k ==> #[trigger] s@.subrange(t, t + p@.len() as int) != p@,
        decreases limit - k,
    {
        if match_at(s, p, k) {
            return true;
        }
        if k == limit {
            return false;
        }
        k = k + 1;
    }
}

/// Decides `has_sub` on strings.
pub fn str_contains(s: &str, p: &str) -> (r: bool)
    ensures
        r == has_sub(s@, p@),
{
    let sv = chars_vec(s);
    let pv = chars_vec(p);
    contains_chars(&sv, &pv)
}

/// Decides `ends_with` on strings.
pub fn str_ends_with(s: &str, p: &str) -> (r: bool)
    ensures
        r == ends_with(s@, p@),
{
    let sv = chars_vec(s);
    let pv = chars_vec(p);
    let n = sv.len();
    let m = pv.len();
    if m > n {
        return false;
    }
    match_at(&sv, &pv, n - m)
}

/// The sequence with leading whitespace removed.
pub open spec fn trim_front(s: Seq<char>) -> Seq<char>
    decreases s.len(),
{
    if s.len() > 0 && is_space_char(s[0]) {
        trim_front(s.skip(1))
    } else {
        s
    }
}

/// The sequence with trailing whitespace removed.
pub open spec fn trim_back(s: Seq<char>) -> Seq<char>
    decreases s.len(),
{
    if s.len() > 0 && is_space_char(s[s.len() - 1]) {
        trim_back(s.drop_last())
    } else {
        s
    }
}

/// The sequence with whitespace removed from both ends, as `str::trim`
/// produces it.
pub open spec fn trim_spec(s: Seq<char>) -> Seq<char> {
    trim_back(trim_front(s))
}

proof fn lemma_trim_front_skip(s: Seq<char>, k: int)
    requires
        0 <= k <= s.len(),
        forall|j: int| 0 <= j < k ==> is_space_char(s[j]),
        k == s.len() || !is_space_char(s[k]),
    ensures
        trim_front(s) == s.skip(k),
    decreases s.len(),
{
    if k == 0 {
        assert(s.skip(0) =~= s);
    } else {
        let t = s.skip(1);
        assert(forall|j: int| 0 <= j < k - 1 ==> s[j + 1] == t[j]);
        lemma_trim_front_skip(t, k - 1);
        assert(t.skip(k - 1) =~= s.skip(k));
    }
}

proof fn lemma_trim_back_take(s: Seq<char>, k: int)
    requires
        0 <= k <= s.len(),
        forall|j: int| k <= j < s.len() ==> is_space_char(s[j]),
        k == 0 || !is_space_char(s[k - 1]),
    ensures
        trim_back(s) == s.take(k),
    decreases s.len(),
{
    if k == s.len() {
        assert(s.take(k) =~= s);
    } else {
        let t = s.drop_last();
        lemma_trim_back_take(t, k);
        assert(t.take(k) =~= s.take(k));
    }
}

/// Removes whitespace from both ends of a string.
pub fn trim(s: &str) -> (r: String)
    ensures
        r@ == trim_spec(s@),
{
    let cs = chars_vec(s);
    let n = cs.len();
    let mut lo: usize = 0;
    while lo < n && is_space(cs[lo])
        invariant
            lo <= n,
            n == cs@.len(),
            cs@ == s@,
            forall|j: int| 0 <= j < lo ==> is_space_char(s@[j]),
        decreases n - lo,
    {
        lo = lo + 1;
    }
    proof {
        lemma_trim_front_skip(s@, lo as int);
    }
    if lo == n {
        proof {
            assert(s@.skip(lo as int) =~= Seq::<char>::empty());
        }
        let r = String::new();
        return r;
    }
    let mut hi: usize = n;
    while hi > lo + 1 && is_space(cs[hi - 1])
        invariant
            lo < hi <= n,
            n == cs@.len(),
            cs@ == s@,
            forall|j: int| hi <= j < n ==> is_space_char(s@[j]),
        decreases hi,
    {
        hi = hi - 1;
    }
    let mut out: Vec<char> = Vec::new();
    let mut i: usize = lo;
    while i < hi
        invariant
            lo <= i <= hi <= n,
            n == cs@.len(),
            cs@ == s@,
            out@ == s@.subrange(lo as int, i as int),
        decreases hi - i,
    {
        out.push(cs[i]);
        i = i + 1;
        assert(out@ =~= s@.subrange(lo as int, i as int));
    }
    proof {
        let f = s@.skip(lo as int);
        assert(!is_space_char(s@[hi - 1]));
        assert(forall|j: int| hi - lo <= j < f.len() ==> f[j] == s@[j + lo]);
        assert(forall|j: int| (hi - lo) <= j < f.len() ==> is_space_char(f[j]));
        assert(!is_space_char(f[hi - lo - 1]));
        lemma_trim_back_take(f, hi - lo);
        assert(f.take(hi - lo) =~= s@.subrange(lo as int, hi as int));
    }
    string_from_chars(&out)
}

/// The concatenation of `elts` with `sep` between consecutive elements.
pub open spec fn join_spec(elts: Seq<Seq<char>>, sep: Seq<char>) -> Seq<char>
    decreases elts.len(),
{
    if elts.len() == 0 {
        Seq::empty()
    } else if elts.len() == 1 {
        elts[0]
    } else {
        join_spec(elts.drop_last(), sep) + sep + elts.last()
    }
}

/// Joins strings with a separator.
pub fn join(elts: &Vec<String>, sep: &str) -> (r: String)
    ensures
        r@ == join_spec(views_of(elts@), sep@),
{
    let mut out = String::new();
    let n = elts.len();
    let mut i: usize = 0;
    while i < n
        invariant
            i <= n,
            n == elts@.len(),
            out@ == join_spec(views_of(elts@).take(i as int), sep@),
        decreases n - i,
    {
        if i > 0 {
            out.append(sep);
        }
        out.append(elts[i].as_str());
        i = i + 1;
        proof {
            let vs = views_of(elts@);
            assert(vs.take(i as int).drop_last() =~= vs.take(i - 1));
            assert(vs.take(i as int).last() == elts@[i - 1]@);
        }
    }
    assert(views_of(elts@).take(n as int) =~= views_of(elts@));
    out
}

/// The character for one decimal digit.
pub open spec fn digit_char(d: int) -> char {
    if d == 0 {
        '0'
    } else if d == 1 {
        '1'
    } else if d == 2 {
        '2'
    } else if d == 3 {
        '3'
    } else if d == 4 {
        '4'
    } else if d == 5 {
        '5'
    } else if d == 6 {
        '6'
    } else if d == 7 {
        '7'
    } else if d == 8 {
        '8'
    } else {
        '9'
    }
}

/// The decimal rendering of a natural number, without leading zeros.
pub open spec fn dec_spec(n: int) -> Seq<char>
    decreases n,
{
    if n < 10 {
        seq![digit_char(n)]
    } else {
        dec_spec(n / 10).push(digit_char(n % 10))
    }
}

pub(crate) fn digit_str(d: u64) -> (r: &'static str)
    requires
        d < 10,
    ensures
        r@ == seq![digit_char(d as int)],
{
    proof {
        reveal_strlit("0");
        reveal_strlit("1");
        reveal_strlit("2");
        reveal_strlit("3");
        reveal_strlit("4");
        reveal_strlit("5");
        reveal_strlit("6");
        reveal_strlit("7");
        reveal_strlit("8");
        reveal_strlit("9");
    }
    if d == 0 {
        let r = "0";
        assert(r@ =~= seq![digit_char(0)]);
        r
    } else if d == 1 {
        let r = "1";
        assert(r@ =~= seq![digit_char(1)]);
        r
    } else if d == 2 {
        let r = "2";
        assert(r@ =~= seq![digit_char(2)]);
        r
    } else if d == 3 {
        let r = "3";
        assert(r@ =~= seq![digit_char(3)]);
        r
    } else if d == 4 {
        let r = "4";
        assert(r@ =~= seq![digit_char(4)]);
        r
    } else if d == 5 {
        let r = "5";
        assert(r@ =~= seq![digit_char(5)]);
        r
    } else if d == 6 {
        let r = "6";
        assert(r@ =~= seq![digit_char(6)]);
        r
    } else if d == 7 {
        let r = "7";
        assert(r@ =~= seq![digit_char(7)]);
        r
    } else if d == 8 {
        let r = "8";
        assert(r@ =~= seq![digit_char(8)]);
        r
    } else {
        let r = "9";
        assert(r@ =~= seq![digit_char(9)]);
        r
    }
}

/// Renders a natural number in decimal.
pub fn u64_to_string(n: u64) -> (r: String)
    ensures
        r@ == dec_spec(n as int),
    decreases n,
{
    if n < 10 {
        let d = digit_str(n);
        let mut r = String::new();
        r.append(d);
        assert(r@ =~= seq![digit_char(n as int)]);
        r
    } else {
        let mut r = u64_to_string(n / 10);
        r.append(digit_str(n % 10));
        assert(r@ =~= dec_spec((n / 10) as int).push(digit_char((n % 10) as int)));
        r
    }
}

/// Renders a natural number in decimal from a wide counter.
pub fn u128_to_string(n: u128) -> (r: String)
    ensures
        r@ == dec_spec(n as int),
    decreases n,
{
    if n < 10 {
        let d = digit_str((n % 10) as u64);
        let mut r = String::new();
        r.append(d);
        assert(r@ =~= seq![digit_char(n as int)]);
        r
    } else {
        let mut r = u128_to_string(n / 10);
        r.append(digit_str((n % 10) as u64));
        assert(r@ =~= dec_spec((n / 10) as int).push(digit_char((n % 10) as int)));
        r
    }
}

/// The rendering of a proportion held in thousandths with three decimal
/// places, as `{:.3}` formats the equivalent fraction.
pub open spec fn thousandths_spec(v: int) -> Seq<char> {
    let sign: Seq<char> = if v < 0 { seq!['-'] } else { Seq::empty() };
    let m = if v < 0 { -v } else { v };
    sign + dec_spec(m / 1000) + seq!['.'] + seq![
        digit_char((m / 100) % 10),
        digit_char((m / 10) % 10),
        digit_char(m % 10),
    ]
}

/// Renders a value in thousandths as a decimal fraction with three places.
pub fn thousandths_to_string(v: i64) -> (r: String)
    ensures
        r@ == thousandths_spec(v as int),
{
    let mut r = String::new();
    let m: u64 = if v < 0 {
        r.append("-");
        proof {
            reveal_strlit("-");
        }
        if v == i64::MIN {
            9223372036854775808u64
        } else {
            (-v) as u64
        }
    } else {
        v as u64
    };
    assert(r@ =~= (if v < 0 { seq!['-'] } else { Seq::<char>::empty() }));
    let whole = u64_to_string(m / 1000);
    r.append(whole.as_str());
    r.append(".");
    proof {
        reveal_strlit(".");
    }
    r.append(digit_str((m / 100) % 10));
    r.append(digit_str((m / 10) % 10));
    r.append(digit_str(m % 10));
    assert(r@ =~= thousandths_spec(v as int));
    r
}

/// The rendering of a nonnegative value held in hundredths with two decimal
/// places.
pub open spec fn cent_spec(c: int) -> Seq<char> {
    dec_spec(c / 100) + seq!['.'] + seq![digit_char((c / 10) % 10), digit_char(c % 10)]
}

/// Renders a value in hundredths as a decimal fraction with two places.
pub fn cent_to_string(c: u64) -> (r: String)
    ensures
        r@ == cent_spec(c as int),
{
    let mut r = u64_to_string(c / 100);
    r.append(".");
    proof {
        reveal_strlit(".");
    }
    r.append(digit_str((c / 10) % 10));
    r.append(digit_str(c % 10));
    assert(r@ =~= cent_spec(c as int));
    r
}

/// The rendering of a proportion held in thousandths rounded to two decimal
/// places, as `{:.2}` formats it, rounding half away from zero.
pub open spec fn hundredths_spec(v: int) -> Seq<char> {
    let sign: Seq<char> = if v < 0 { seq!['-'] } else { Seq::empty() };
    let m = if v < 0 { -v } else { v };
    let h = (m + 5) / 10;
    sign + dec_spec(h / 100) + seq!['.'] + seq![digit_char((h / 10) % 10), digit_char(h % 10)]
}

/// Renders a value in thousandths as a decimal fraction with two places.
pub fn hundredths_to_string(v: i64) -> (r: String)
    ensures
        r@ == hundredths_spec(v as int),
{
    let mut r = String::new();
    let m: u64 = if v < 0 {
        r.append("-");
        proof {
            reveal_strlit("-");
        }
        if v == i64::MIN {
            9223372036854775808u64
        } else {
            (-v) as u64
        }
    } else {
        v as u64
    };
    assert(r@ =~= (if v < 0 { seq!['-'] } else { Seq::<char>::empty() }));
    let h = (m + 5) / 10;
    let whole = u64_to_string(h / 100);
    r.append(whole.as_str());
    r.append(".");
    proof {
        reveal_strlit(".");
    }
    r.append(digit_str((h / 10) % 10));
    r.append(digit_str(h % 10));
    assert(r@ =~= hundredths_spec(v as int));
    r
}

} // verus!
