use vstd::prelude::*;

verus! {

// ---------------------------------------------------------------------------
// Specifications over character sequences
// ---------------------------------------------------------------------------

/// The Unicode `White_Space` property, which `char::is_whitespace` tests.
pub open spec fn is_ws(c: char) -> bool {
    let u = c as u32;
    ||| 0x09 <= u <= 0x0d
    ||| u == 0x20
    ||| u == 0x85
    ||| u == 0xa0
    ||| u == 0x1680
    ||| 0x2000 <= u <= 0x200a
    ||| u == 0x2028
    ||| u == 0x2029
    ||| u == 0x202f
    ||| u == 0x205f
    ||| u == 0x3000
}

/// `s` with its leading whitespace removed.
pub open spec fn trim_start_seq(s: Seq<char>) -> Seq<char>
    decreases s.len(),
{
    if s.len() > 0 && is_ws(s[0]) {
        trim_start_seq(s.drop_first())
    } else {
        s
    }
}

/// `s` with its trailing whitespace removed.
pub open spec fn trim_end_seq(s: Seq<char>) -> Seq<char>
    decreases s.len(),
{
    if s.len() > 0 && is_ws(s.last()) {
        trim_end_seq(s.drop_last())
    } else {
        s
    }
}

/// `s` with leading and trailing whitespace removed.
pub open spec fn trim_seq(s: Seq<char>) -> Seq<char> {
    trim_end_seq(trim_start_seq(s))
}

/// `p` is a prefix of `s`.
pub open spec fn has_prefix(s: Seq<char>, p: Seq<char>) -> bool {
    p.len() <= s.len() && s.subrange(0, p.len() as int) == p
}

/// `p` is a suffix of `s`.
pub open spec fn has_suffix(s: Seq<char>, p: Seq<char>) -> bool {
    p.len() <= s.len() && s.subrange(s.len() - p.len(), s.len() as int) == p
}

/// `p` occurs in `s` starting at position `i`.
pub open spec fn occurs_at(s: Seq<char>, p: Seq<char>, i: int) -> bool {
    0 <= i && i + p.len() <= s.len() && s.subrange(i, i + p.len()) == p
}

/// `p` occurs somewhere in `s`.
pub open spec fn contains_seq(s: Seq<char>, p: Seq<char>) -> bool {
    exists|i: int| occurs_at(s, p, i)
}

/// `s` with every leading copy of the non-empty pattern `p` removed.
pub open spec fn strip_all_prefix(s: Seq<char>, p: Seq<char>) -> Seq<char>
    decreases s.len(),
{
    if p.len() > 0 && has_prefix(s, p) {
        strip_all_prefix(s.subrange(p.len() as int, s.len() as int), p)
    } else {
        s
    }
}

/// `s` with every trailing copy of the non-empty pattern `p` removed.
pub open spec fn strip_all_suffix(s: Seq<char>, p: Seq<char>) -> Seq<char>
    decreases s.len(),
{
    if p.len() > 0 && has_suffix(s, p) {
        strip_all_suffix(s.subrange(0, s.len() - p.len()), p)
    } else {
        s
    }
}

// ---------------------------------------------------------------------------
// Conversions
// ---------------------------------------------------------------------------

/// The characters of `s`, in order.
pub fn chars_of(s: &str) -> (r: Vec<char>)
    ensures
        r@ == s@,
{
    let mut r: Vec<char> = Vec::new();
    for c in it: s.chars()
        invariant
            r@ == it.seq().take(it.index() as int),
            it.seq() == s@,
    {
        r.push(c);
    }
    r
}

/// Collects characters into a `String` (std's `FromIterator<&char> for String`,
/// which appends each character in order).
#[verifier::external_body]
pub(crate) fn string_from_chars(v: &[char]) -> (r: String)
    ensures
        r@ == v@,
{
    v.iter().collect()
}

/// The characters `v[from..to]` as a `String`.
pub fn string_from_range(v: &Vec<char>, from: usize, to: usize) -> (r: String)
    requires
        from <= to <= v.len(),
    ensures
        r@ == v@.subrange(from as int, to as int),
{
    let mut w: Vec<char> = Vec::new();
    let mut k = from;
    while k < to
        invariant
            from <= k <= to <= v.len(),
            w@ == v@.subrange(from as int, k as int),
        decreases to - k,
    {
        w.push(v[k]);
        k = k + 1;
        assert(w@ =~= v@.subrange(from as int, k as int));
    }
    string_from_chars(w.as_slice())
}

// ---------------------------------------------------------------------------
// Whitespace and trimming
// ---------------------------------------------------------------------------

/// Whether `c` is Unicode whitespace (`char::is_whitespace`).
pub fn is_whitespace(c: char) -> (b: bool)
    ensures
        b == is_ws(c),
{
    let u = c as u32;
    (0x09 <= u && u <= 0x0d) || u == 0x20 || u == 0x85 || u == 0xa0 || u == 0x1680 || (0x2000
        <= u && u <= 0x200a) || u == 0x2028 || u == 0x2029 || u == 0x202f || u == 0x205f || u
        == 0x3000
}

proof fn lemma_trim_start_skip(s: Seq<char>, k: int)
    requires
        0 <= k < s.len(),
        is_ws(s[k]),
    ensures
        trim_start_seq(s.subrange(k, s.len() as int)) == trim_start_seq(
            s.subrange(k + 1, s.len() as int),
        ),
{
    assert(s.subrange(k, s.len() as int).drop_first() =~= s.subrange(k + 1, s.len() as int));
}

proof fn lemma_trim_end_skip(s: Seq<char>, k: int)
    requires
        0 < k <= s.len(),
        is_ws(s[k - 1]),
    ensures
        trim_end_seq(s.subrange(0, k)) == trim_end_seq(s.subrange(0, k - 1)),
{
    assert(s.subrange(0, k).drop_last() =~= s.subrange(0, k - 1));
}

/// Start and end positions of `trim_seq(v@)` inside `v@`.
pub fn trim_bounds(v: &Vec<char>) -> (r: (usize, usize))
    ensures
        r.0 <= r.1 <= v.len(),
        v@.subrange(r.0 as int, r.1 as int) == trim_seq(v@),
        v@.subrange(r.0 as int, v.len() as int) == trim_start_seq(v@),
{
    let n = v.len();
    let mut i: usize = 0;
    assert(v@.subrange(0, n as int) =~= v@);
    while i < n && is_whitespace(v[i])
        invariant
            i <= n == v.len(),
            trim_start_seq(v@) == trim_start_seq(v@.subrange(i as int, n as int)),
        decreases n - i,
    {
        proof {
            lemma_trim_start_skip(v@, i as int);
        }
        i = i + 1;
    }
    let ghost t = v@.subrange(i as int, n as int);
    assert(trim_start_seq(t) == t);
    let mut j: usize = n;
    assert(t.subrange(0, (j - i) as int) =~= t);
    while j > i && is_whitespace(v[j - 1])
        invariant
            i <= j <= n == v.len(),
            t == v@.subrange(i as int, n as int),
            trim_end_seq(t) == trim_end_seq(t.subrange(0, (j - i) as int)),
        decreases j,
    {
        proof {
            lemma_trim_end_skip(t, (j - i) as int);
        }
        j = j - 1;
    }
    assert(t.subrange(0, (j - i) as int) =~= v@.subrange(i as int, j as int));
    (i, j)
}

/// `s` with leading and trailing whitespace removed (`str::trim`).
pub fn trim(s: &str) -> (r: String)
    ensures
        r@ == trim_seq(s@),
{
    let v = chars_of(s);
    let (a, b) = trim_bounds(&v);
    string_from_range(&v, a, b)
}

// ---------------------------------------------------------------------------
// Prefixes, suffixes and search
// ---------------------------------------------------------------------------

/// Whether `p` occurs in `v` at position `i`.
pub fn matches_at(v: &Vec<char>, p: &Vec<char>, i: usize) -> (b: bool)
    ensures
        b == occurs_at(v@, p@, i as int),
{
    if i > v.len() || p.len() > v.len() - i {
        return false;
    }
    let mut k: usize = 0;
    while k < p.len()
        invariant
            i + p.len() <= v.len(),
            k <= p.len(),
            forall|m: int| 0 <= m < k ==> v@[i + m] == p@[m],
        decreases p.len() - k,
    {
        if v[i + k] != p[k] {
            assert(v@.subrange(i as int, i + p.len())[k as int] != p@[k as int]);
            return false;
        }
        k = k + 1;
    }
    assert(v@.subrange(i as int, i + p.len()) =~= p@);
    true
}

/// Whether `s` starts with `p` (`str::starts_with`).
pub fn starts_with(s: &str, p: &str) -> (b: bool)
    ensures
        b == has_prefix(s@, p@),
{
    let v = chars_of(s);
    let q = chars_of(p);
    matches_at(&v, &q, 0)
}

/// Whether `s` ends with `p` (`str::ends_with`).
pub fn ends_with(s: &str, p: &str) -> (b: bool)
    ensures
        b == has_suffix(s@, p@),
{
    let v = chars_of(s);
    let q = chars_of(p);
    if q.len() > v.len() {
        return false;
    }
    matches_at(&v, &q, v.len() - q.len())
}

/// `s` without the prefix `p`, if it has it (`str::strip_prefix`).
pub fn strip_prefix(s: &str, p: &str) -> (r: Option<String>)
    ensures
        has_prefix(s@, p@) <==> r is Some,
        r is Some ==> r->0@ == s@.subrange(p@.len() as int, s@.len() as int),
{
    let v = chars_of(s);
    let q = chars_of(p);
    if matches_at(&v, &q, 0) {
        Some(string_from_range(&v, q.len(), v.len()))
    } else {
        None
    }
}

/// The first position at which `p` occurs in `v`, if any.
pub fn find_seq(v: &Vec<char>, p: &Vec<char>) -> (r: Option<usize>)
    ensures
        match r {
            Some(i) => occurs_at(v@, p@, i as int) && forall|j: int|
                0 <= j < i ==> !occurs_at(v@, p@, j),
            None => !contains_seq(v@, p@),
        },
{
    if p.len() > v.len() {
        return None;
    }
    let last = v.len() - p.len();
    let mut i: usize = 0;
    loop
        invariant
            last == v.len() - p.len(),
            p.len() <= v.len(),
            i <= last,
            forall|j: int| 0 <= j < i ==> !occurs_at(v@, p@, j),
        decreases last - i,
    {
        if matches_at(v, p, i) {
            return Some(i);
        }
        if i == last {
            return None;
        }
        i = i + 1;
    }
}

/// Whether `p` occurs in `s` (`str::contains`).
pub fn contains(s: &str, p: &str) -> (b: bool)
    ensures
        b == contains_seq(s@, p@),
{
    let v = chars_of(s);
    let q = chars_of(p);
    find_seq(&v, &q).is_some()
}

} // verus!

verus! {

// ---------------------------------------------------------------------------
// Building strings
// ---------------------------------------------------------------------------

/// A new `String` holding `s`.
pub fn string_of(s: &str) -> (r: String)
    ensures
        r@ == s@,
{
    s.to_owned()
}

/// `a` followed by `b`.
pub fn concat2(a: &str, b: &str) -> (r: String)
    ensures
        r@ == a@ + b@,
{
    let mut r = a.to_owned();
    r.append(b);
    r
}

/// `a` followed by `b` and `c`.
pub fn concat3(a: &str, b: &str, c: &str) -> (r: String)
    ensures
        r@ == a@ + b@ + c@,
{
    let mut r = a.to_owned();
    r.append(b);
    r.append(c);
    r
}

// ---------------------------------------------------------------------------
// Segments
// ---------------------------------------------------------------------------

/// The part of `s` after the last occurrence of `c` (all of `s` when `c` does not occur).
pub open spec fn after_last(s: Seq<char>, c: char) -> Seq<char>
    decreases s.len(),
{
    if s.len() == 0 {
        s
    } else if s.last() == c {
        Seq::empty()
    } else {
        after_last(s.drop_last(), c).push(s.last())
    }
}

/// Position just after the last `c` in `v` (0 when there is none).
pub fn after_last_start(v: &Vec<char>, c: char) -> (j: usize)
    ensures
        j <= v.len(),
        v@.subrange(j as int, v.len() as int) == after_last(v@, c),
        j == 0 || v@[j - 1] == c,
        forall|k: int| j <= k < v.len() ==> v@[k] != c,
{
    let n = v.len();
    let mut j: usize = n;
    assert(v@.subrange(0, n as int) =~= v@);
    while j > 0 && v[j - 1] != c
        invariant
            j <= n == v.len(),
            after_last(v@, c) == after_last(v@.subrange(0, j as int), c) + v@.subrange(
                j as int,
                n as int,
            ),
            forall|k: int| j <= k < n ==> v@[k] != c,
        decreases j,
    {
        let ghost pre = v@.subrange(0, j as int);
        assert(pre.drop_last() =~= v@.subrange(0, j - 1));
        assert(after_last(pre, c) == after_last(v@.subrange(0, j - 1), c).push(v@[j - 1]));
        assert(after_last(v@.subrange(0, j - 1), c).push(v@[j - 1]) + v@.subrange(j as int, n as int)
            =~= after_last(v@.subrange(0, j - 1), c) + v@.subrange(j - 1, n as int));
        j = j - 1;
    }
    proof {
        let pre = v@.subrange(0, j as int);
        if j == 0 {
            assert(pre.len() == 0);
        }
        assert(after_last(pre, c) =~= Seq::<char>::empty());
        assert(after_last(v@, c) =~= v@.subrange(j as int, n as int));
    }
    j
}

} // verus!

verus! {

// ---------------------------------------------------------------------------
// Equality and case
// ---------------------------------------------------------------------------

/// Whether `v` and `w` hold the same characters.
pub fn chars_eq(v: &Vec<char>, w: &Vec<char>) -> (b: bool)
    ensures
        b == (v@ == w@),
{
    if v.len() != w.len() {
        return false;
    }
    let r = matches_at(v, w, 0);
    proof {
        if r {
            assert(v@.subrange(0, v@.len() as int) =~= v@);
        } else {
            assert(v@.subrange(0, w@.len() as int) =~= v@);
        }
    }
    r
}

/// Whether `a` and `b` are the same text.
pub fn str_eq(a: &str, b: &str) -> (r: bool)
    ensures
        r == (a@ == b@),
{
    let v = chars_of(a);
    let w = chars_of(b);
    chars_eq(&v, &w)
}

/// What `str::to_lowercase` returns for the given characters.
pub uninterp spec fn lowercase(s: Seq<char>) -> Seq<char>;

/// Calls `str::to_lowercase`, which maps every character to its Unicode lowercase
/// form; the result is named by `lowercase`.
#[verifier::external_body]
pub(crate) fn to_lowercase(s: &str) -> (r: String)
    ensures
        r@ == lowercase(s@),
{
    s.to_lowercase()
}

} // verus!

verus! {

// ---------------------------------------------------------------------------
// Numbers
// ---------------------------------------------------------------------------

/// The decimal digit for `d < 10`.
pub open spec fn digit_char(d: nat) -> char {
    ((d + 48) as u8) as char
}

/// The decimal representation of `n`, without leading zeros.
pub open spec fn decimal(n: nat) -> Seq<char>
    decreases n,
{
    if n < 10 {
        seq![digit_char(n)]
    } else {
        decimal(n / 10).push(digit_char(n % 10))
    }
}

/// The decimal representation of `n` (`usize`'s `Display`).
pub fn decimal_string(n: usize) -> (r: String)
    ensures
        r@ == decimal(n as nat),
    decreases n,
{
    let d = ((n % 10) as u8 + 48) as char;
    let v: Vec<char> = vec![d];
    assert(v@ =~= seq![digit_char((n % 10) as nat)]);
    let last = string_from_chars(v.as_slice());
    if n < 10 {
        last
    } else {
        let head = decimal_string(n / 10);
        concat2(head.as_str(), last.as_str())
    }
}

/// The decimal representation of `n` (`u64`'s `Display`).
pub fn decimal_string_u64(n: u64) -> (r: String)
    ensures
        r@ == decimal(n as nat),
    decreases n,
{
    let d = ((n % 10) as u8 + 48) as char;
    let v: Vec<char> = vec![d];
    assert(v@ =~= seq![digit_char((n % 10) as nat)]);
    let last = string_from_chars(v.as_slice());
    if n < 10 {
        last
    } else {
        let head = decimal_string_u64(n / 10);
        concat2(head.as_str(), last.as_str())
    }
}

} // verus!

verus! {

// ---------------------------------------------------------------------------
// Splitting
// ---------------------------------------------------------------------------

/// The pieces of `s` between the characters that satisfy `sep` (as `str::split` gives
/// them: one more piece than separators, empty pieces included).
pub open spec fn split_on(s: Seq<char>, sep: spec_fn(char) -> bool) -> Seq<Seq<char>>
    decreases s.len(),
{
    if s.len() == 0 {
        seq![Seq::empty()]
    } else {
        let prev = split_on(s.drop_last(), sep);
        if sep(s.last()) {
            prev.push(Seq::empty())
        } else {
            prev.update(prev.len() - 1, prev.last().push(s.last()))
        }
    }
}

/// Whitespace characters.
pub open spec fn ws_sep() -> spec_fn(char) -> bool {
    |c: char| is_ws(c)
}

/// Newlines.
pub open spec fn newline_sep() -> spec_fn(char) -> bool {
    |c: char| c == '\n'
}

/// Non-empty pieces.
pub open spec fn non_empty() -> spec_fn(Seq<char>) -> bool {
    |p: Seq<char>| p.len() > 0
}

/// The words of `s`: its non-empty pieces between whitespace (`str::split_whitespace`).
pub open spec fn words(s: Seq<char>) -> Seq<Seq<char>> {
    split_on(s, ws_sep()).filter(non_empty())
}

/// A line without its `\r` before the newline.
pub open spec fn strip_cr(p: Seq<char>) -> Seq<char> {
    if p.len() > 0 && p.last() == '\r' {
        p.drop_last()
    } else {
        p
    }
}

/// The lines of `s` (`str::lines`): the pieces between newlines, each without a `\r`
/// that ends it before the newline; a final empty piece is no line.
pub open spec fn lines_of(s: Seq<char>) -> Seq<Seq<char>> {
    let p = split_on(s, newline_sep());
    let done = p.drop_last().map_values(|x: Seq<char>| strip_cr(x));
    if p.last().len() > 0 {
        done.push(p.last())
    } else {
        done
    }
}

/// The views of a list of strings.
pub open spec fn string_views(v: Seq<String>) -> Seq<Seq<char>> {
    v.map_values(|s: String| s@)
}

pub proof fn lemma_split_on_nonempty(s: Seq<char>, sep: spec_fn(char) -> bool)
    ensures
        split_on(s, sep).len() >= 1,
{
    lemma_split_on_len(s, sep);
}

proof fn lemma_split_on_len(s: Seq<char>, sep: spec_fn(char) -> bool)
    ensures
        split_on(s, sep).len() >= 1,
    decreases s.len(),
{
    if s.len() > 0 {
        lemma_split_on_len(s.drop_last(), sep);
    }
}

proof fn lemma_split_on_step(s: Seq<char>, sep: spec_fn(char) -> bool, i: int)
    requires
        0 <= i < s.len(),
    ensures
        split_on(s.take(i + 1), sep) == (if sep(s[i]) {
            split_on(s.take(i), sep).push(Seq::empty())
        } else {
            split_on(s.take(i), sep).update(
                split_on(s.take(i), sep).len() - 1,
                split_on(s.take(i), sep).last().push(s[i]),
            )
        }),
{
    assert(s.take(i + 1).drop_last() =~= s.take(i));
}

/// The words of `s` (`str::split_whitespace`).
pub fn split_whitespace(s: &str) -> (r: Vec<String>)
    ensures
        string_views(r@) == words(s@),
{
    let v = chars_of(s);
    let mut r: Vec<String> = Vec::new();
    let mut cur: Vec<char> = Vec::new();
    let mut i: usize = 0;
    assert(v@.take(0) =~= Seq::<char>::empty());
    assert(split_on(Seq::<char>::empty(), ws_sep()).drop_last() =~= Seq::<Seq<char>>::empty());
    reveal(Seq::filter);
    while i < v.len()
        invariant
            i <= v.len(),
            split_on(v@.take(i as int), ws_sep()).len() >= 1,
            split_on(v@.take(i as int), ws_sep()).drop_last().filter(non_empty()) == string_views(r@),
            split_on(v@.take(i as int), ws_sep()).last() == cur@,
        decreases v.len() - i,
    {
        proof {
            lemma_split_on_step(v@, ws_sep(), i as int);
        }
        let ghost old_p = split_on(v@.take(i as int), ws_sep());
        if is_whitespace(v[i]) {
            if cur.len() > 0 {
                let w = string_from_chars(cur.as_slice());
                let ghost before = r@;
                r.push(w);
                assert(string_views(r@) =~= string_views(before).push(cur@));
            }
            proof {
                let new_p = old_p.push(Seq::empty());
                assert(new_p.drop_last() =~= old_p);
                assert(old_p =~= old_p.drop_last().push(old_p.last()));
                crate::seqs::lemma_filter_push(old_p.drop_last(), non_empty(), old_p.last());
            }
            cur = Vec::new();
            assert(cur@ =~= Seq::<char>::empty());
        } else {
            cur.push(v[i]);
            proof {
                let new_p = old_p.update(old_p.len() - 1, old_p.last().push(v@[i as int]));
                assert(new_p.drop_last() =~= old_p.drop_last());
            }
        }
        i = i + 1;
    }
    assert(v@.take(i as int) =~= v@);
    let ghost p = split_on(v@, ws_sep());
    if cur.len() > 0 {
        let w = string_from_chars(cur.as_slice());
        let ghost before = r@;
        r.push(w);
        assert(string_views(r@) =~= string_views(before).push(cur@));
    }
    proof {
        assert(p =~= p.drop_last().push(p.last()));
        crate::seqs::lemma_filter_push(p.drop_last(), non_empty(), p.last());
    }
    r
}

/// Line ending positions aside, the chars `v[from..to]` without a final `\r`.
pub fn string_strip_cr(v: &Vec<char>, from: usize, to: usize) -> (r: String)
    requires
        from <= to <= v.len(),
    ensures
        r@ == strip_cr(v@.subrange(from as int, to as int)),
{
    if to > from && v[to - 1] == '\r' {
        let r = string_from_range(v, from, to - 1);
        assert(v@.subrange(from as int, to as int).drop_last() =~= v@.subrange(from as int, to - 1));
        r
    } else {
        string_from_range(v, from, to)
    }
}

/// The lines of `s` (`str::lines`).
pub fn lines(s: &str) -> (r: Vec<String>)
    ensures
        string_views(r@) == lines_of(s@),
{
    let v = chars_of(s);
    let mut r: Vec<String> = Vec::new();
    let mut start: usize = 0;
    let mut i: usize = 0;
    assert(v@.take(0) =~= Seq::<char>::empty());
    assert(split_on(Seq::<char>::empty(), newline_sep()).drop_last() =~= Seq::<Seq<char>>::empty());
    assert(v@.subrange(0, 0) =~= Seq::<char>::empty());
    while i < v.len()
        invariant
            start <= i <= v.len(),
            split_on(v@.take(i as int), newline_sep()).len() >= 1,
            split_on(v@.take(i as int), newline_sep()).drop_last().map_values(|x: Seq<char>| strip_cr(x))
                == string_views(r@),
            split_on(v@.take(i as int), newline_sep()).last() == v@.subrange(start as int, i as int),
        decreases v.len() - i,
    {
        proof {
            lemma_split_on_step(v@, newline_sep(), i as int);
        }
        let ghost old_p = split_on(v@.take(i as int), newline_sep());
        if v[i] == '\n' {
            let line = string_strip_cr(&v, start, i);
            let ghost before = r@;
            r.push(line);
            proof {
                let new_p = old_p.push(Seq::empty());
                assert(new_p.drop_last() =~= old_p);
                assert(old_p.map_values(|x: Seq<char>| strip_cr(x)) =~= old_p.drop_last().map_values(
                    |x: Seq<char>| strip_cr(x),
                ).push(strip_cr(old_p.last())));
                assert(string_views(r@) =~= string_views(before).push(strip_cr(old_p.last())));
                assert(v@.subrange(i + 1, i + 1) =~= Seq::<char>::empty());
            }
            start = i + 1;
        } else {
            proof {
                let new_p = old_p.update(old_p.len() - 1, old_p.last().push(v@[i as int]));
                assert(new_p.drop_last() =~= old_p.drop_last());
                assert(v@.subrange(start as int, i + 1) =~= v@.subrange(start as int, i as int).push(v@[i as int]));
            }
        }
        i = i + 1;
    }
    assert(v@.take(i as int) =~= v@);
    if start < v.len() {
        let last = string_from_range(&v, start, v.len());
        let ghost before = r@;
        r.push(last);
        assert(string_views(r@) =~= string_views(before).push(v@.subrange(start as int, v.len() as int)));
    }
    r
}

/// The first line of `s`, if it has one.
pub fn first_line(s: &str) -> (r: Option<String>)
    ensures
        match r {
            Some(l) => lines_of(s@).len() > 0 && l@ == lines_of(s@)[0],
            None => lines_of(s@).len() == 0,
        },
{
    let ls = lines(s);
    if ls.len() > 0 {
        Some(string_of(ls[0].as_str()))
    } else {
        None
    }
}

/// Position of the first `c` in `v`, if any.
pub fn find_char(v: &Vec<char>, c: char) -> (r: Option<usize>)
    ensures
        match r {
            Some(k) => k < v.len() && v@[k as int] == c && forall|j: int| 0 <= j < k ==> v@[j] != c,
            None => forall|j: int| 0 <= j < v.len() ==> v@[j] != c,
        },
{
    let mut i: usize = 0;
    while i < v.len()
        invariant
            i <= v.len(),
            forall|j: int| 0 <= j < i ==> v@[j] != c,
        decreases v.len() - i,
    {
        if v[i] == c {
            return Some(i);
        }
        i = i + 1;
    }
    None
}

/// Position of the last `c` in `v`, if any.
pub fn rfind_char(v: &Vec<char>, c: char) -> (r: Option<usize>)
    ensures
        match r {
            Some(k) => k < v.len() && v@[k as int] == c && forall|j: int| k < j < v.len() ==> v@[j] != c,
            None => forall|j: int| 0 <= j < v.len() ==> v@[j] != c,
        },
{
    let mut i: usize = v.len();
    while i > 0
        invariant
            i <= v.len(),
            forall|j: int| i <= j < v.len() ==> v@[j] != c,
        decreases i,
    {
        if v[i - 1] == c {
            return Some(i - 1);
        }
        i = i - 1;
    }
    None
}

/// `s` split at the first `c` (`str::split_once`).
pub fn split_once(s: &str, c: char) -> (r: Option<(String, String)>)
    ensures
        match r {
            Some((a, b)) => exists|k: int|
                0 <= k < s@.len() && s@[k] == c && (forall|j: int| 0 <= j < k ==> s@[j] != c) && a@
                    == s@.subrange(0, k) && b@ == s@.subrange(k + 1, s@.len() as int),
            None => forall|j: int| 0 <= j < s@.len() ==> s@[j] != c,
        },
{
    let v = chars_of(s);
    match find_char(&v, c) {
        Some(k) => {
            let a = string_from_range(&v, 0, k);
            let b = string_from_range(&v, k + 1, v.len());
            Some((a, b))
        },
        None => None,
    }
}

/// `s` with every `from` replaced by `to`.
pub fn replace_char(s: &str, from: char, to: char) -> (r: String)
    ensures
        r@ == s@.map_values(|x: char| if x == from {
            to
        } else {
            x
        }),
{
    let v = chars_of(s);
    let mut w: Vec<char> = Vec::new();
    let mut i: usize = 0;
    while i < v.len()
        invariant
            i <= v.len(),
            w@ == v@.take(i as int).map_values(|x: char| if x == from {
                to
            } else {
                x
            }),
        decreases v.len() - i,
    {
        if v[i] == from {
            w.push(to);
        } else {
            w.push(v[i]);
        }
        assert(w@ =~= v@.take(i + 1).map_values(|x: char| if x == from {
            to
        } else {
            x
        }));
        i = i + 1;
    }
    assert(v@.take(i as int) =~= v@);
    string_from_chars(w.as_slice())
}

} // verus!

verus! {

/// Characters equal to `c`.
pub open spec fn is_char(c: char) -> spec_fn(char) -> bool {
    |x: char| x == c
}

/// `s` split at its first `c`: the parts before and after it.
pub open spec fn split_once_seq(s: Seq<char>, c: char) -> Option<(Seq<char>, Seq<char>)> {
    match crate::seqs::first_match(s, is_char(c)) {
        Some(k) => Some((s.subrange(0, k), s.subrange(k + 1, s.len() as int))),
        None => None,
    }
}

/// `s` split at its first `c` (`str::split_once`).
pub fn split_once_at(s: &str, c: char) -> (r: Option<(String, String)>)
    ensures
        match r {
            Some((a, b)) => split_once_seq(s@, c) == Some((a@, b@)),
            None => split_once_seq(s@, c) is None,
        },
{
    let v = chars_of(s);
    match find_char(&v, c) {
        Some(k) => {
            proof {
                crate::seqs::lemma_first_match_is(v@, is_char(c), k as int);
            }
            let a = string_from_range(&v, 0, k);
            let b = string_from_range(&v, k + 1, v.len());
            Some((a, b))
        },
        None => {
            proof {
                crate::seqs::lemma_first_match_none(v@, is_char(c));
            }
            None
        },
    }
}

/// `s` with every leading copy of `p` removed (`str::trim_start_matches`).
pub fn trim_start_matches(s: &str, p: &str) -> (r: String)
    ensures
        r@ == strip_all_prefix(s@, p@),
{
    let v = chars_of(s);
    let q = chars_of(p);
    let mut i: usize = 0;
    assert(v@.subrange(0, v@.len() as int) =~= v@);
    while q.len() > 0 && matches_at(&v, &q, i)
        invariant
            i <= v.len(),
            strip_all_prefix(v@, q@) == strip_all_prefix(v@.subrange(i as int, v@.len() as int), q@),
        decreases v.len() - i,
    {
        proof {
            let t = v@.subrange(i as int, v@.len() as int);
            assert(t.subrange(0, q@.len() as int) =~= v@.subrange(i as int, i + q@.len()));
            assert(t.subrange(q@.len() as int, t.len() as int) =~= v@.subrange(i + q@.len(), v@.len() as int));
        }
        i = i + q.len();
    }
    proof {
        let t = v@.subrange(i as int, v@.len() as int);
        if q@.len() > 0 && i + q@.len() <= v@.len() {
            assert(t.subrange(0, q@.len() as int) =~= v@.subrange(i as int, i + q@.len()));
        }
    }
    string_from_range(&v, i, v.len())
}

/// `s` with every trailing copy of `p` removed (`str::trim_end_matches`).
pub fn trim_end_matches(s: &str, p: &str) -> (r: String)
    ensures
        r@ == strip_all_suffix(s@, p@),
{
    let v = chars_of(s);
    let q = chars_of(p);
    let mut j: usize = v.len();
    assert(v@.subrange(0, v@.len() as int) =~= v@);
    while q.len() > 0 && j >= q.len() && matches_at(&v, &q, j - q.len())
        invariant
            j <= v.len(),
            strip_all_suffix(v@, q@) == strip_all_suffix(v@.subrange(0, j as int), q@),
        decreases j,
    {
        proof {
            let t = v@.subrange(0, j as int);
            assert(t.subrange(t.len() - q@.len(), t.len() as int) =~= v@.subrange(j - q@.len(), j as int));
            assert(t.subrange(0, t.len() - q@.len()) =~= v@.subrange(0, j - q@.len()));
        }
        j = j - q.len();
    }
    proof {
        let t = v@.subrange(0, j as int);
        if q@.len() > 0 && q@.len() <= j {
            assert(t.subrange(t.len() - q@.len(), t.len() as int) =~= v@.subrange(j - q@.len(), j as int));
        }
    }
    string_from_range(&v, 0, j)
}

/// `s` with every leading and trailing copy of `p` removed.
pub open spec fn strip_all_both(s: Seq<char>, p: Seq<char>) -> Seq<char> {
    strip_all_suffix(strip_all_prefix(s, p), p)
}

/// `s` with every copy of the non-empty `p` removed, scanning left to right
/// (`str::replace` with an empty replacement).
pub open spec fn remove_all(s: Seq<char>, p: Seq<char>) -> Seq<char>
    decreases s.len(),
{
    if s.len() == 0 {
        s
    } else if p.len() > 0 && has_prefix(s, p) {
        remove_all(s.subrange(p.len() as int, s.len() as int), p)
    } else {
        seq![s[0]] + remove_all(s.drop_first(), p)
    }
}

/// `s` with every copy of `p` removed (`str::replace(p, "")`).
pub fn remove_all_exec(s: &str, p: &str) -> (r: String)
    ensures
        r@ == remove_all(s@, p@),
{
    let v = chars_of(s);
    let q = chars_of(p);
    let mut w: Vec<char> = Vec::new();
    let mut i: usize = 0;
    assert(v@.subrange(0, v@.len() as int) =~= v@);
    while i < v.len()
        invariant
            i <= v.len(),
            remove_all(v@, q@) == w@ + remove_all(v@.subrange(i as int, v@.len() as int), q@),
        decreases v.len() - i,
    {
        let ghost t = v@.subrange(i as int, v@.len() as int);
        if q.len() > 0 && matches_at(&v, &q, i) {
            proof {
                assert(t.subrange(0, q@.len() as int) =~= v@.subrange(i as int, i + q@.len()));
                assert(t.subrange(q@.len() as int, t.len() as int) =~= v@.subrange(i + q@.len(), v@.len() as int));
            }
            i = i + q.len();
        } else {
            proof {
                if q@.len() > 0 && i + q@.len() <= v@.len() {
                    assert(t.subrange(0, q@.len() as int) =~= v@.subrange(i as int, i + q@.len()));
                }
                assert(t.drop_first() =~= v@.subrange(i + 1, v@.len() as int));
                assert(w@.push(v@[i as int]) + remove_all(t.drop_first(), q@) =~= w@ + (seq![t[0]] + remove_all(t.drop_first(), q@)));
            }
            w.push(v[i]);
            i = i + 1;
        }
    }
    assert(w@ + Seq::<char>::empty() =~= w@);
    string_from_chars(w.as_slice())
}

} // verus!

verus! {

/// The pieces of `s` between copies of `c` (`str::split` with a character).
pub fn split_char(s: &str, c: char) -> (r: Vec<String>)
    ensures
        string_views(r@) == split_on(s@, is_char(c)),
{
    let v = chars_of(s);
    let mut r: Vec<String> = Vec::new();
    let mut cur: Vec<char> = Vec::new();
    let mut i: usize = 0;
    assert(v@.take(0) =~= Seq::<char>::empty());
    assert(split_on(Seq::<char>::empty(), is_char(c)).drop_last() =~= Seq::<Seq<char>>::empty());
    assert(string_views(r@) =~= Seq::<Seq<char>>::empty());
    while i < v.len()
        invariant
            i <= v.len(),
            split_on(v@.take(i as int), is_char(c)).len() >= 1,
            split_on(v@.take(i as int), is_char(c)).drop_last() == string_views(r@),
            split_on(v@.take(i as int), is_char(c)).last() == cur@,
        decreases v.len() - i,
    {
        proof {
            lemma_split_on_step(v@, is_char(c), i as int);
        }
        let ghost old_p = split_on(v@.take(i as int), is_char(c));
        if v[i] == c {
            let w = string_from_chars(cur.as_slice());
            let ghost before = r@;
            r.push(w);
            assert(string_views(r@) =~= string_views(before).push(cur@));
            proof {
                let new_p = old_p.push(Seq::empty());
                assert(new_p.drop_last() =~= old_p);
                assert(old_p =~= old_p.drop_last().push(old_p.last()));
            }
            cur = Vec::new();
            assert(cur@ =~= Seq::<char>::empty());
        } else {
            cur.push(v[i]);
            proof {
                let new_p = old_p.update(old_p.len() - 1, old_p.last().push(v@[i as int]));
                assert(new_p.drop_last() =~= old_p.drop_last());
            }
        }
        i = i + 1;
    }
    assert(v@.take(i as int) =~= v@);
    let ghost p = split_on(v@, is_char(c));
    let w = string_from_chars(cur.as_slice());
    let ghost before = r@;
    r.push(w);
    assert(string_views(r@) =~= string_views(before).push(cur@));
    assert(p =~= p.drop_last().push(p.last()));
    r
}

} // verus!
