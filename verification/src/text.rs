//! Character sequences: the few string operations the transformation rules are
//! built from, each with its meaning as a function on `Seq<char>`.
//!
//! Whitespace is spelled out here: the characters of Unicode's `White_Space`
//! property. Alphanumeric classification and case folding follow Unicode as
//! the standard library implements it; they are named and not spelled out.

use vstd::prelude::*;

verus! {

/// Whether `c` is whitespace: a character with the `White_Space` property
/// of Unicode. These are the tab, the line feed, the vertical tab, the form
/// feed, the carriage return, the space, the next line, the no-break space,
/// the ogham space mark, the spaces from en quad to hair space, the line and
/// the paragraph separator, the narrow no-break space, the medium
/// mathematical space and the ideographic space.
pub open spec fn char_is_whitespace(c: char) -> bool {
    let u = c as u32;
    ||| 0x0009 <= u <= 0x000D
    ||| u == 0x0020
    ||| u == 0x0085
    ||| u == 0x00A0
    ||| u == 0x1680
    ||| 0x2000 <= u <= 0x200A
    ||| u == 0x2028
    ||| u == 0x2029
    ||| u == 0x202F
    ||| u == 0x205F
    ||| u == 0x3000
}

/// Whether `c` is alphabetic or numeric in Unicode's terms, as `char::is_alphanumeric` decides it.
pub uninterp spec fn char_is_alphanumeric(c: char) -> bool;

/// The lowercase form of a string, as `str::to_lowercase` computes it.
pub uninterp spec fn str_to_lowercase(s: Seq<char>) -> Seq<char>;

/// The uppercase form of a string, as `str::to_uppercase` computes it.
pub uninterp spec fn str_to_uppercase(s: Seq<char>) -> Seq<char>;

/// `char::is_alphanumeric`: the result is the named Unicode property of the character.
pub assume_specification[ char::is_alphanumeric ](c: char) -> (r: bool)
    ensures
        r == char_is_alphanumeric(c),
;

/// `str::to_lowercase`: the result is the named lowercase form of the whole string.
pub assume_specification[ str::to_lowercase ](s: &str) -> (r: std::string::String)
    ensures
        r@ == str_to_lowercase(s@),
;

/// `str::to_uppercase`: the result is the named uppercase form of the whole string.
pub assume_specification[ str::to_uppercase ](s: &str) -> (r: std::string::String)
    ensures
        r@ == str_to_uppercase(s@),
;

/// `String::push` appends one character at the end.
pub assume_specification[ std::string::String::push ](s: &mut std::string::String, c: char)
    ensures
        final(s)@ == old(s)@.push(c),
;

/// An ASCII decimal digit.
pub open spec fn is_digit(c: char) -> bool {
    '0' <= c && c <= '9'
}

/// The views of a sequence of strings.
pub open spec fn str_views(v: Seq<String>) -> Seq<Seq<char>> {
    Seq::new(v.len(), |i: int| v[i]@)
}

/// The views of a list with one more string are the views with one more view.
pub proof fn lemma_str_views_push(v: Seq<String>, s: String)
    ensures
        str_views(v.push(s)) == str_views(v).push(s@),
{
    assert(str_views(v.push(s)) =~= str_views(v).push(s@));
}

/// First index at or after `i` that holds no whitespace, or the length.
pub open spec fn skip_whitespace(s: Seq<char>, i: int) -> int
    decreases s.len() - i,
{
    if 0 <= i < s.len() && char_is_whitespace(s[i]) {
        skip_whitespace(s, i + 1)
    } else {
        i
    }
}

/// Least end `e` in `lo..=j` such that everything in `e..j` is whitespace.
pub open spec fn back_whitespace(s: Seq<char>, lo: int, j: int) -> int
    decreases j,
{
    if 0 <= lo < j <= s.len() && char_is_whitespace(s[j - 1]) {
        back_whitespace(s, lo, j - 1)
    } else {
        j
    }
}

/// `s` without its leading and trailing whitespace.
pub open spec fn trim(s: Seq<char>) -> Seq<char> {
    let a = skip_whitespace(s, 0);
    s.subrange(a, back_whitespace(s, a, s.len() as int))
}

/// Nothing but whitespace, or nothing at all.
pub open spec fn is_blank(s: Seq<char>) -> bool {
    skip_whitespace(s, 0) == s.len()
}

/// `pat` occurs in `s` at index `i`.
pub open spec fn matches_at(s: Seq<char>, pat: Seq<char>, i: int) -> bool {
    0 <= i && i + pat.len() <= s.len() && s.subrange(i, i + pat.len()) == pat
}

/// `pat` stands at the start of `s`.
pub open spec fn starts_with(s: Seq<char>, pat: Seq<char>) -> bool {
    matches_at(s, pat, 0)
}

/// `pat` stands at the end of `s`.
pub open spec fn ends_with(s: Seq<char>, pat: Seq<char>) -> bool {
    matches_at(s, pat, s.len() - pat.len())
}

/// Index of the first occurrence of `pat` in `s` at or after `i`.
pub open spec fn find_from(s: Seq<char>, pat: Seq<char>, i: int) -> Option<int>
    decreases s.len() - i,
{
    if i < 0 || i + pat.len() > s.len() {
        None
    } else if matches_at(s, pat, i) {
        Some(i)
    } else if i >= s.len() {
        None
    } else {
        find_from(s, pat, i + 1)
    }
}

/// The pieces of `s` between the occurrences of a non-empty separator, scanning
/// from `i` with the current piece starting at `start`.
pub open spec fn split_from(s: Seq<char>, sep: Seq<char>, start: int, i: int) -> Seq<Seq<char>>
    decreases s.len() - i,
{
    if sep.len() == 0 || i < 0 || i + sep.len() > s.len() {
        seq![s.subrange(start, s.len() as int)]
    } else if matches_at(s, sep, i) {
        seq![s.subrange(start, i)] + split_from(s, sep, i + sep.len(), i + sep.len())
    } else {
        split_from(s, sep, start, i + 1)
    }
}

/// The pieces of `s` between the occurrences of `sep`, leftmost first and not
/// overlapping. An empty separator matches between any two characters and at both
/// ends, so the pieces are then an empty one, each character, and an empty one.
pub open spec fn split(s: Seq<char>, sep: Seq<char>) -> Seq<Seq<char>> {
    if sep.len() == 0 {
        Seq::new(s.len() + 2, |k: int| if 1 <= k <= s.len() { seq![s[k - 1]] } else { Seq::empty() })
    } else {
        split_from(s, sep, 0, 0)
    }
}

/// The parts put together with `sep` between each two.
pub open spec fn join(parts: Seq<Seq<char>>, sep: Seq<char>) -> Seq<char>
    decreases parts.len(),
{
    if parts.len() == 0 {
        Seq::empty()
    } else if parts.len() == 1 {
        parts[0]
    } else {
        join(parts.drop_last(), sep) + sep + parts.last()
    }
}

/// Whether `c` is whitespace.
pub fn is_whitespace(c: char) -> (r: bool)
    ensures
        r == char_is_whitespace(c),
{
    let u = c as u32;
    (0x0009 <= u && u <= 0x000D) || u == 0x0020 || u == 0x0085 || u == 0x00A0 || u == 0x1680 || (
    0x2000 <= u && u <= 0x200A) || u == 0x2028 || u == 0x2029 || u == 0x202F || u == 0x205F || u
        == 0x3000
}

/// Whether `c` is an ASCII decimal digit.
pub fn is_ascii_digit(c: char) -> (r: bool)
    ensures
        r == is_digit(c),
{
    '0' <= c && c <= '9'
}

/// The characters of a string.
pub fn chars_of(s: &str) -> (r: Vec<char>)
    ensures
        r@ == s@,
{
    let mut out: Vec<char> = Vec::new();
    for c in it: s.chars()
        invariant
            out@ == it.seq().subrange(0, it.index() as int),
            it.seq() == s@,
    {
        out.push(c);
        assert(it.seq().subrange(0, it.index() + 1) =~= it.seq().subrange(
            0,
            it.index() as int,
        ).push(c));
    }
    assert(s@.subrange(0, s@.len() as int) =~= s@);
    out
}

/// The string made of the given characters.
pub fn string_of(v: &Vec<char>) -> (r: String)
    ensures
        r@ == v@,
{
    let mut out = String::new();
    let mut i: usize = 0;
    while i < v.len()
        invariant
            i <= v.len(),
            out@ == v@.subrange(0, i as int),
        decreases v.len() - i,
    {
        out.push(v[i]);
        i += 1;
        assert(v@.subrange(0, i as int) =~= v@.subrange(0, i - 1).push(v@[i - 1]));
    }
    assert(v@.subrange(0, v.len() as int) =~= v@);
    out
}

/// The characters of `v` from `from` up to `to`.
pub fn slice_chars(v: &Vec<char>, from: usize, to: usize) -> (r: Vec<char>)
    requires
        from <= to <= v.len(),
    ensures
        r@ == v@.subrange(from as int, to as int),
{
    let mut out: Vec<char> = Vec::new();
    let mut i: usize = from;
    while i < to
        invariant
            from <= i <= to <= v.len(),
            out@ == v@.subrange(from as int, i as int),
        decreases to - i,
    {
        out.push(v[i]);
        i += 1;
        assert(v@.subrange(from as int, i as int) =~= v@.subrange(from as int, i - 1).push(
            v@[i - 1],
        ));
    }
    out
}

/// Appends the characters of `tail` to `out`.
pub fn append_chars(out: &mut Vec<char>, tail: &Vec<char>)
    ensures
        final(out)@ == old(out)@ + tail@,
{
    let mut i: usize = 0;
    while i < tail.len()
        invariant
            i <= tail.len(),
            out@ == old(out)@ + tail@.subrange(0, i as int),
        decreases tail.len() - i,
    {
        out.push(tail[i]);
        i += 1;
        assert(tail@.subrange(0, i as int) =~= tail@.subrange(0, i - 1).push(tail@[i - 1]));
    }
    assert(tail@.subrange(0, tail.len() as int) =~= tail@);
}

/// The characters without the whitespace at their start and at their end.
pub fn trim_chars(v: &Vec<char>) -> (r: Vec<char>)
    ensures
        r@ == trim(v@),
{
    let n = v.len();
    let mut a: usize = 0;
    while a < n && is_whitespace(v[a])
        invariant
            a <= n,
            n == v.len(),
            skip_whitespace(v@, 0) == skip_whitespace(v@, a as int),
        decreases n - a,
    {
        a += 1;
    }
    let mut b: usize = n;
    while b > a && is_whitespace(v[b - 1])
        invariant
            a <= b <= n,
            n == v.len(),
            back_whitespace(v@, a as int, n as int) == back_whitespace(v@, a as int, b as int),
        decreases b,
    {
        b -= 1;
    }
    slice_chars(v, a, b)
}

/// `s` without its leading and trailing whitespace.
pub fn trim_str(s: &str) -> (r: String)
    ensures
        r@ == trim(s@),
{
    let v = chars_of(s);
    let t = trim_chars(&v);
    string_of(&t)
}

/// Whether `s` is empty once trimmed.
pub fn is_blank_str(s: &str) -> (r: bool)
    ensures
        r == is_blank(s@),
        r == (trim(s@).len() == 0),
{
    let v = chars_of(s);
    let n = v.len();
    let mut a: usize = 0;
    while a < n && is_whitespace(v[a])
        invariant
            a <= n,
            n == v.len(),
            skip_whitespace(v@, 0) == skip_whitespace(v@, a as int),
        decreases n - a,
    {
        a += 1;
    }
    proof {
        lemma_trim_bounds(v@);
    }
    a == n
}

/// The trimmed text is a slice of the text between two valid bounds, and
/// it is empty exactly when the text is blank.
pub proof fn lemma_trim_bounds(s: Seq<char>)
    ensures
        0 <= skip_whitespace(s, 0) <= back_whitespace(s, skip_whitespace(s, 0), s.len() as int)
            <= s.len(),
        is_blank(s) <==> trim(s).len() == 0,
{
    lemma_skip_bounds(s, 0);
    let a = skip_whitespace(s, 0);
    lemma_back_bounds(s, a, s.len() as int);
    let b = back_whitespace(s, a, s.len() as int);
    if a < s.len() && b == a {
        lemma_back_stops(s, a, s.len() as int);
    }
}

proof fn lemma_skip_bounds(s: Seq<char>, i: int)
    requires
        0 <= i <= s.len(),
    ensures
        i <= skip_whitespace(s, i) <= s.len(),
        skip_whitespace(s, i) < s.len() ==> !char_is_whitespace(s[skip_whitespace(s, i)]),
    decreases s.len() - i,
{
    if i < s.len() && char_is_whitespace(s[i]) {
        lemma_skip_bounds(s, i + 1);
    }
}

proof fn lemma_back_bounds(s: Seq<char>, lo: int, j: int)
    requires
        0 <= lo <= j <= s.len(),
    ensures
        lo <= back_whitespace(s, lo, j) <= j,
    decreases j,
{
    if lo < j && char_is_whitespace(s[j - 1]) {
        lemma_back_bounds(s, lo, j - 1);
    }
}

proof fn lemma_back_stops(s: Seq<char>, lo: int, j: int)
    requires
        0 <= lo <= j <= s.len(),
        back_whitespace(s, lo, j) == lo,
    ensures
        forall|k: int| lo <= k < j ==> char_is_whitespace(s[k]),
    decreases j,
{
    if lo < j {
        lemma_back_bounds(s, lo, j - 1);
        if char_is_whitespace(s[j - 1]) {
            lemma_back_stops(s, lo, j - 1);
        }
    }
}

/// Whether `pat` occurs in `v` at index `i`.
pub fn matches_at_chars(v: &Vec<char>, pat: &Vec<char>, i: usize) -> (r: bool)
    ensures
        r == matches_at(v@, pat@, i as int),
{
    if pat.len() > v.len() || i > v.len() - pat.len() {
        return false;
    }
    let mut k: usize = 0;
    while k < pat.len()
        invariant
            k <= pat.len(),
            i + pat.len() <= v.len(),
            forall|j: int| 0 <= j < k ==> v@[i + j] == pat@[j],
        decreases pat.len() - k,
    {
        if v[i + k] != pat[k] {
            assert(v@.subrange(i as int, i + pat.len())[k as int] == v@[i + k]);
            return false;
        }
        k += 1;
    }
    assert(v@.subrange(i as int, i + pat.len()) =~= pat@);
    true
}

/// Whether `pat` stands at the start of `s`.
pub fn starts_with_str(s: &str, pat: &str) -> (r: bool)
    ensures
        r == starts_with(s@, pat@),
{
    let v = chars_of(s);
    let p = chars_of(pat);
    matches_at_chars(&v, &p, 0)
}

/// Whether `pat` stands at the end of `s`.
pub fn ends_with_str(s: &str, pat: &str) -> (r: bool)
    ensures
        r == ends_with(s@, pat@),
{
    let v = chars_of(s);
    let p = chars_of(pat);
    if p.len() > v.len() {
        return false;
    }
    matches_at_chars(&v, &p, v.len() - p.len())
}

/// Index of the first occurrence of `pat` in `v` at or after `from`.
pub fn find_chars(v: &Vec<char>, pat: &Vec<char>, from: usize) -> (r: Option<usize>)
    ensures
        match r {
            Some(i) => find_from(v@, pat@, from as int) == Some(i as int) && from <= i && i
                + pat.len() <= v.len(),
            None => find_from(v@, pat@, from as int).is_none(),
        },
{
    if from > v.len() {
        return None;
    }
    let mut i: usize = from;
    while pat.len() <= v.len() - i
        invariant
            from <= i <= v.len(),
            find_from(v@, pat@, from as int) == find_from(v@, pat@, i as int),
        decreases v.len() - i,
    {
        if matches_at_chars(v, pat, i) {
            return Some(i);
        }
        if i == v.len() {
            return None;
        }
        i += 1;
    }
    None
}

/// The pieces of `s` between the occurrences of `sep`.
pub fn split_str(s: &str, sep: &str) -> (r: Vec<String>)
    ensures
        str_views(r@) == split(s@, sep@),
{
    let v = chars_of(s);
    let p = chars_of(sep);
    let n = v.len();
    let mut out: Vec<String> = Vec::new();
    if p.len() == 0 {
        out.push(String::new());
        let mut k: usize = 0;
        while k < n
            invariant
                k <= n,
                n == v.len(),
                v@ == s@,
                out@.len() == k + 1,
                forall|j: int| 0 <= j < out@.len() ==> out@[j]@ == split(s@, Seq::empty())[j],
            decreases n - k,
        {
            let mut one: Vec<char> = Vec::new();
            one.push(v[k]);
            assert(one@ =~= seq![v@[k as int]]);
            out.push(string_of(&one));
            k += 1;
        }
        out.push(String::new());
        assert(p@ =~= Seq::empty());
        assert(str_views(out@) =~= split(s@, sep@));
        return out;
    }
    let mut start: usize = 0;
    let mut i: usize = 0;
    while p.len() <= n - i
        invariant
            start <= i <= n,
            n == v.len(),
            v@ == s@,
            p@ == sep@,
            p@.len() > 0,
            split(s@, sep@) == str_views(out@) + split_from(s@, sep@, start as int, i as int),
        decreases n - i,
    {
        if matches_at_chars(&v, &p, i) {
            let piece = slice_chars(&v, start, i);
            let ghost before = str_views(out@);
            out.push(string_of(&piece));
            assert(str_views(out@) =~= before + seq![s@.subrange(start as int, i as int)]);
            i += p.len();
            start = i;
        } else {
            i += 1;
        }
    }
    let piece = slice_chars(&v, start, n);
    let ghost before = str_views(out@);
    out.push(string_of(&piece));
    assert(str_views(out@) =~= before + seq![s@.subrange(start as int, n as int)]);
    out
}

/// The parts put together with `sep` between each two.
pub fn join_strs(parts: &Vec<String>, sep: &str) -> (r: String)
    ensures
        r@ == join(str_views(parts@), sep@),
{
    let mut out: Vec<char> = Vec::new();
    let p = chars_of(sep);
    let mut i: usize = 0;
    while i < parts.len()
        invariant
            i <= parts.len(),
            p@ == sep@,
            out@ == join(str_views(parts@).subrange(0, i as int), sep@),
        decreases parts.len() - i,
    {
        let part = chars_of(parts[i].as_str());
        let ghost prefix = str_views(parts@).subrange(0, i as int);
        let ghost next = str_views(parts@).subrange(0, i + 1);
        assert(next.drop_last() =~= prefix);
        assert(next.last() == parts@[i as int]@);
        if i > 0 {
            append_chars(&mut out, &p);
        }
        append_chars(&mut out, &part);
        assert(out@ =~= join(next, sep@));
        i += 1;
    }
    assert(str_views(parts@).subrange(0, parts.len() as int) =~= str_views(parts@));
    string_of(&out)
}

/// `a` followed by `b`.
pub fn concat_strs(a: &str, b: &str) -> (r: String)
    ensures
        r@ == a@ + b@,
{
    let mut out = chars_of(a);
    let tail = chars_of(b);
    append_chars(&mut out, &tail);
    string_of(&out)
}

/// Whether two strings hold the same characters.
pub fn str_eq(a: &str, b: &str) -> (r: bool)
    ensures
        r == (a@ == b@),
{
    let x = chars_of(a);
    let y = chars_of(b);
    if x.len() != y.len() {
        return false;
    }
    let mut i: usize = 0;
    while i < x.len()
        invariant
            i <= x.len(),
            x.len() == y.len(),
            x@ == a@,
            y@ == b@,
            forall|j: int| 0 <= j < i ==> x@[j] == y@[j],
        decreases x.len() - i,
    {
        if x[i] != y[i] {
            assert(x@[i as int] != y@[i as int]);
            return false;
        }
        i += 1;
    }
    assert(x@ =~= y@);
    true
}

/// The ASCII digits of `v`, in order.
pub fn digits_of(v: &Vec<char>) -> (r: Vec<char>)
    ensures
        r@ == v@.filter(|c: char| is_digit(c)),
{
    let mut out: Vec<char> = Vec::new();
    let mut i: usize = 0;
    while i < v.len()
        invariant
            i <= v.len(),
            out@ == v@.subrange(0, i as int).filter(|c: char| is_digit(c)),
        decreases v.len() - i,
    {
        proof {
            lemma_filter_step(v@, i as int, |c: char| is_digit(c));
        }
        if is_ascii_digit(v[i]) {
            out.push(v[i]);
        }
        i += 1;
    }
    assert(v@.subrange(0, v.len() as int) =~= v@);
    out
}

/// The alphanumeric characters of `v`, in order.
pub fn alphanumerics_of(v: &Vec<char>) -> (r: Vec<char>)
    ensures
        r@ == v@.filter(|c: char| char_is_alphanumeric(c)),
{
    let mut out: Vec<char> = Vec::new();
    let mut i: usize = 0;
    while i < v.len()
        invariant
            i <= v.len(),
            out@ == v@.subrange(0, i as int).filter(|c: char| char_is_alphanumeric(c)),
        decreases v.len() - i,
    {
        proof {
            lemma_filter_step(v@, i as int, |c: char| char_is_alphanumeric(c));
        }
        if v[i].is_alphanumeric() {
            out.push(v[i]);
        }
        i += 1;
    }
    assert(v@.subrange(0, v.len() as int) =~= v@);
    out
}

/// A copy of a list of strings.
pub fn clone_strings(v: &Vec<String>) -> (r: Vec<String>)
    ensures
        str_views(r@) == str_views(v@),
{
    let mut out: Vec<String> = Vec::new();
    let mut i: usize = 0;
    while i < v.len()
        invariant
            i <= v.len(),
            out@.len() == i,
            forall|j: int| 0 <= j < i ==> out@[j]@ == v@[j]@,
        decreases v.len() - i,
    {
        out.push(v[i].clone());
        i += 1;
    }
    assert(str_views(out@) =~= str_views(v@));
    out
}

/// `n` times the character `c`.
pub fn repeat_char(c: char, n: usize) -> (r: Vec<char>)
    ensures
        r@ == Seq::new(n as nat, |i: int| c),
{
    let mut out: Vec<char> = Vec::new();
    let mut i: usize = 0;
    while i < n
        invariant
            i <= n,
            out@ == Seq::new(i as nat, |k: int| c),
        decreases n - i,
    {
        out.push(c);
        i += 1;
        assert(out@ =~= Seq::new(i as nat, |k: int| c));
    }
    out
}

/// `a` comes before `b` in the order of the dictionary, characters by their code
/// points, looking from index `i` on.
pub open spec fn less_from(a: Seq<char>, b: Seq<char>, i: int) -> bool
    decreases a.len() - i,
{
    if i < 0 || i >= b.len() {
        false
    } else if i >= a.len() {
        true
    } else if a[i] != b[i] {
        a[i] < b[i]
    } else {
        less_from(a, b, i + 1)
    }
}

/// `a` comes strictly before `b` in the order of the dictionary.
pub open spec fn text_less(a: Seq<char>, b: Seq<char>) -> bool {
    less_from(a, b, 0)
}

/// Each text comes strictly before the next ones.
pub open spec fn strictly_sorted(v: Seq<Seq<char>>) -> bool {
    forall|i: int, j: int| 0 <= i < j < v.len() ==> text_less(#[trigger] v[i], #[trigger] v[j])
}

proof fn lemma_less_total(a: Seq<char>, b: Seq<char>, i: int)
    requires
        0 <= i <= a.len(),
        i <= b.len(),
        forall|k: int| 0 <= k < i ==> a[k] == b[k],
    ensures
        less_from(a, b, i) || less_from(b, a, i) || a == b,
        !(less_from(a, b, i) && less_from(b, a, i)),
        a == b ==> !less_from(a, b, i),
    decreases a.len() - i,
{
    if i >= a.len() || i >= b.len() {
        if i >= a.len() && i >= b.len() {
            assert(a =~= b);
        }
    } else if a[i] == b[i] {
        lemma_less_total(a, b, i + 1);
    }
}

proof fn lemma_less_transitive(a: Seq<char>, b: Seq<char>, c: Seq<char>, i: int)
    requires
        0 <= i,
        less_from(a, b, i),
        less_from(b, c, i),
    ensures
        less_from(a, c, i),
    decreases a.len() - i,
{
    if i < a.len() && a[i] == b[i] && b[i] == c[i] {
        lemma_less_transitive(a, b, c, i + 1);
    }
}

/// The order of the dictionary is a strict total order.
pub proof fn lemma_text_order(a: Seq<char>, b: Seq<char>, c: Seq<char>)
    ensures
        text_less(a, b) || text_less(b, a) || a == b,
        !(text_less(a, b) && text_less(b, a)),
        !text_less(a, a),
        text_less(a, b) && text_less(b, c) ==> text_less(a, c),
{
    lemma_less_total(a, b, 0);
    lemma_less_total(a, a, 0);
    if text_less(a, b) && text_less(b, c) {
        lemma_less_transitive(a, b, c, 0);
    }
}

/// Whether `a` comes strictly before `b` in the order of the dictionary.
pub fn str_less(a: &str, b: &str) -> (r: bool)
    ensures
        r == text_less(a@, b@),
{
    let x = chars_of(a);
    let y = chars_of(b);
    let mut i: usize = 0;
    while i < x.len() && i < y.len()
        invariant
            i <= x.len(),
            i <= y.len(),
            x@ == a@,
            y@ == b@,
            text_less(a@, b@) == less_from(a@, b@, i as int),
        decreases x.len() - i,
    {
        if x[i] != y[i] {
            return x[i] < y[i];
        }
        i += 1;
    }
    i < y.len()
}

/// Whether some string of `v` holds the characters of `s`.
pub fn contains_str(v: &Vec<String>, s: &str) -> (r: bool)
    ensures
        r == str_views(v@).contains(s@),
{
    let mut i: usize = 0;
    while i < v.len()
        invariant
            i <= v.len(),
            forall|j: int| 0 <= j < i ==> str_views(v@)[j] != s@,
        decreases v.len() - i,
    {
        assert(str_views(v@)[i as int] == v@[i as int]@);
        if str_eq(v[i].as_str(), s) {
            return true;
        }
        i += 1;
    }
    false
}

/// Appends to `out` a copy of every string of `more`.
pub fn push_all(out: &mut Vec<String>, more: &Vec<String>)
    ensures
        str_views(final(out)@) == str_views(old(out)@) + str_views(more@),
{
    let ghost head = str_views(out@);
    let mut i: usize = 0;
    assert(str_views(out@) =~= head + str_views(more@).subrange(0, 0));
    while i < more.len()
        invariant
            i <= more.len(),
            str_views(out@) == head + str_views(more@).subrange(0, i as int),
        decreases more.len() - i,
    {
        let ghost before = out@;
        let item = more[i].clone();
        out.push(item);
        proof {
            lemma_str_views_push(before, item);
            assert(str_views(more@)[i as int] == item@);
            assert(str_views(out@) =~= head + str_views(more@).subrange(0, i + 1));
        }
        i += 1;
    }
    assert(str_views(more@).subrange(0, more.len() as int) =~= str_views(more@));
}

/// Index of the last occurrence of `pat` in `s` that starts at or before `i`.
pub open spec fn rfind_from(s: Seq<char>, pat: Seq<char>, i: int) -> Option<int>
    decreases i + 1,
{
    if i < 0 {
        None
    } else if matches_at(s, pat, i) {
        Some(i)
    } else {
        rfind_from(s, pat, i - 1)
    }
}

/// Index of the last occurrence of `pat` in `s`.
pub open spec fn rfind(s: Seq<char>, pat: Seq<char>) -> Option<int> {
    rfind_from(s, pat, s.len() - pat.len())
}

/// Index of the first occurrence of `pat` in `s`.
pub open spec fn find(s: Seq<char>, pat: Seq<char>) -> Option<int> {
    find_from(s, pat, 0)
}

/// Index of the last occurrence of `pat` in `v`.
pub fn rfind_chars(v: &Vec<char>, pat: &Vec<char>) -> (r: Option<usize>)
    ensures
        match r {
            Some(i) => rfind(v@, pat@) == Some(i as int) && i + pat.len() <= v.len(),
            None => rfind(v@, pat@).is_none(),
        },
{
    if pat.len() > v.len() {
        return None;
    }
    let mut i: usize = v.len() - pat.len();
    loop
        invariant
            i + pat.len() <= v.len(),
            rfind(v@, pat@) == rfind_from(v@, pat@, i as int),
        decreases i,
    {
        if matches_at_chars(v, pat, i) {
            return Some(i);
        }
        if i == 0 {
            assert(rfind_from(v@, pat@, -1).is_none());
            return None;
        }
        i -= 1;
    }
}

/// How often `c` occurs among the first `n` characters of `s`.
pub open spec fn count_upto(s: Seq<char>, c: char, n: int) -> nat
    decreases n,
{
    if n <= 0 || n > s.len() {
        0
    } else {
        count_upto(s, c, n - 1) + if s[n - 1] == c {
            1nat
        } else {
            0nat
        }
    }
}

/// How often `c` occurs in `s`.
pub open spec fn count_char(s: Seq<char>, c: char) -> nat {
    count_upto(s, c, s.len() as int)
}

/// How often `c` occurs in `v`.
pub fn count_in(v: &Vec<char>, c: char) -> (r: usize)
    ensures
        r == count_char(v@, c),
{
    let mut n: usize = 0;
    let mut i: usize = 0;
    while i < v.len()
        invariant
            i <= v.len(),
            n <= i,
            n == count_upto(v@, c, i as int),
        decreases v.len() - i,
    {
        if v[i] == c {
            n += 1;
        }
        i += 1;
    }
    n
}

/// A split always gives at least one piece.
pub proof fn lemma_split_from_nonempty(s: Seq<char>, sep: Seq<char>, start: int, i: int)
    ensures
        split_from(s, sep, start, i).len() >= 1,
    decreases s.len() - i,
{
    if sep.len() == 0 || i < 0 || i + sep.len() > s.len() {
    } else if matches_at(s, sep, i) {
    } else {
        lemma_split_from_nonempty(s, sep, start, i + 1);
    }
}

/// A split always gives at least one piece.
pub proof fn lemma_split_nonempty(s: Seq<char>, sep: Seq<char>)
    ensures
        split(s, sep).len() >= 1,
{
    if sep.len() > 0 {
        lemma_split_from_nonempty(s, sep, 0, 0);
    }
}

/// Filtering one more element either appends it or changes nothing.
pub proof fn lemma_filter_step(s: Seq<char>, i: int, keep: spec_fn(char) -> bool)
    requires
        0 <= i < s.len(),
    ensures
        s.subrange(0, i + 1).filter(keep) == if keep(s[i]) {
            s.subrange(0, i).filter(keep).push(s[i])
        } else {
            s.subrange(0, i).filter(keep)
        },
{
    let a = s.subrange(0, i + 1);
    assert(a.drop_last() =~= s.subrange(0, i));
    assert(a.last() == s[i]);
    reveal(Seq::filter);
}

} // verus!
