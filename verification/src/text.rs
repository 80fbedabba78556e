//! Text helpers: the standard library's string operations that the engine
//! relies on, each with what its documentation promises.

use vstd::prelude::*;

verus! {

/// Unicode's `White_Space` property: the characters that
/// `char::is_whitespace` accepts and `str::trim` removes.
pub open spec fn is_white_space(c: char) -> bool {
    let u = c as u32;
    ||| 0x9 <= u <= 0xd
    ||| u == 0x20
    ||| u == 0x85
    ||| u == 0xa0
    ||| u == 0x1680
    ||| 0x2000 <= u <= 0x200a
    ||| u == 0x2028
    ||| u == 0x2029
    ||| u == 0x202f
    ||| u == 0x205f
    ||| u == 0x3000
}

/// `s` without its leading whitespace.
pub open spec fn trim_start_spec(s: Seq<char>) -> Seq<char>
    decreases s.len(),
{
    if s.len() > 0 && is_white_space(s[0]) {
        trim_start_spec(s.drop_first())
    } else {
        s
    }
}

/// `s` without its trailing whitespace.
pub open spec fn trim_end_spec(s: Seq<char>) -> Seq<char>
    decreases s.len(),
{
    if s.len() > 0 && is_white_space(s.last()) {
        trim_end_spec(s.drop_last())
    } else {
        s
    }
}

/// `s` without leading and trailing whitespace.
pub open spec fn trim_spec(s: Seq<char>) -> Seq<char> {
    trim_end_spec(trim_start_spec(s))
}

/// `str::trim`: the string with leading and trailing Unicode `White_Space`
/// removed.
#[verifier::external_body]
pub(crate) fn trim(s: &str) -> (r: &str)
    ensures
        r@ == trim_spec(s@),
{
    s.trim()
}

/// The characters of `s`, in order.
pub fn to_chars(s: &str) -> (v: Vec<char>)
    ensures
        v@ == s@,
{
    let mut v: Vec<char> = Vec::new();
    for c in it: s.chars()
        invariant
            v@ == it.seq().take(it.index() as int),
            it.seq() == s@,
    {
        v.push(c);
    }
    v
}

/// Whether `p` occurs in `s` as a contiguous run of characters.
pub open spec fn is_substring(p: Seq<char>, s: Seq<char>) -> bool {
    exists|i: int| 0 <= i <= s.len() - p.len() && #[trigger] s.subrange(i, i + p.len()) == p
}

/// Whether `p` occurs in `s` at position `at`.
fn matches_at(s: &Vec<char>, p: &Vec<char>, at: usize) -> (r: bool)
    ensures
        r == (at + p.len() <= s.len() && s@.subrange(at as int, at + p.len()) == p@),
{
    if p.len() > s.len() || at > s.len() - p.len() {
        return false;
    }
    let n = p.len();
    for k in 0..n
        invariant
            n == p.len(),
            at + n <= s.len(),
            forall|j: int| 0 <= j < k ==> s@[at + j] == p@[j],
    {
        if s[at + k] != p[k] {
            assert(s@.subrange(at as int, at + n)[k as int] != p@[k as int]);
            return false;
        }
    }
    assert(s@.subrange(at as int, at + n) =~= p@);
    true
}

/// `str` equality: the same characters.
pub(crate) fn str_eq(a: &str, b: &str) -> (r: bool)
    ensures
        r == (a@ == b@),
{
    let x = to_chars(a);
    let y = to_chars(b);
    let r = x.len() == y.len() && matches_at(&x, &y, 0);
    proof {
        assert(x@.subrange(0, x@.len() as int) =~= x@);
    }
    r
}

/// Whether `s` begins with `p`, as `str::starts_with` with a string pattern.
pub(crate) fn starts_with(s: &str, p: &str) -> (r: bool)
    ensures
        r == p@.is_prefix_of(s@),
{
    let x = to_chars(s);
    let y = to_chars(p);
    matches_at(&x, &y, 0)
}

/// Whether `s` ends with `p`, as `str::ends_with` with a string pattern.
pub(crate) fn ends_with(s: &str, p: &str) -> (r: bool)
    ensures
        r == p@.is_suffix_of(s@),
{
    let x = to_chars(s);
    let y = to_chars(p);
    if y.len() > x.len() {
        return false;
    }
    matches_at(&x, &y, x.len() - y.len())
}

/// Whether `p` occurs in `s`, as `str::contains` with a string pattern.
pub(crate) fn contains_str(s: &str, p: &str) -> (r: bool)
    ensures
        r == is_substring(p@, s@),
{
    let x = to_chars(s);
    let y = to_chars(p);
    if y.len() > x.len() {
        return false;
    }
    let last = x.len() - y.len();
    for i in 0..last
        invariant
            last == x.len() - y.len(),
            x@ == s@,
            y@ == p@,
            forall|j: int| 0 <= j < i ==> #[trigger] x@.subrange(j, j + y@.len()) != y@,
    {
        if matches_at(&x, &y, i) {
            return true;
        }
    }
    matches_at(&x, &y, last)
}

/// `String::push`: appends one character.
#[verifier::external_body]
pub(crate) fn push_char(s: &mut String, c: char)
    ensures
        final(s)@ == old(s)@.push(c),
{
    s.push(c)
}

/// What `char::is_alphanumeric` answers: whether the character has the
/// Unicode `Alphabetic` or `Numeric` property.
pub uninterp spec fn char_is_alphanumeric(c: char) -> bool;

/// `char::is_alphanumeric`. Beyond naming its answer, the contract states the
/// ASCII case that the documentation spells out: ASCII letters and digits
/// and nothing else.
#[verifier::external_body]
pub(crate) fn is_alphanumeric(c: char) -> (r: bool)
    ensures
        r == char_is_alphanumeric(c),
        (c as u32) < 128 ==> (r <==> (('a' <= c && c <= 'z') || ('A' <= c && c <= 'Z') || ('0' <= c
            && c <= '9'))),
{
    c.is_alphanumeric()
}

/// What `char::is_uppercase` answers: whether the character has the Unicode
/// `Uppercase` property.
pub uninterp spec fn char_is_uppercase(c: char) -> bool;

/// `char::is_uppercase`. Beyond naming its answer, the contract states the
/// ASCII case: exactly `A` to `Z`.
#[verifier::external_body]
pub(crate) fn is_uppercase(c: char) -> (r: bool)
    ensures
        r == char_is_uppercase(c),
        (c as u32) < 128 ==> (r <==> ('A' <= c && c <= 'Z')),
{
    c.is_uppercase()
}

/// Whether `v` holds a string equal to `t`.
pub fn contains_string(v: &Vec<String>, t: &str) -> (r: bool)
    ensures
        r == v.deep_view().contains(t@),
{
    let n = v.len();
    for i in 0..n
        invariant
            n == v.len(),
            forall|j: int| 0 <= j < i ==> v.deep_view()[j] != t@,
    {
        if str_eq(v[i].as_str(), t) {
            assert(v.deep_view()[i as int] == t@);
            return true;
        }
    }
    proof {
        if v.deep_view().contains(t@) {
            let j = choose|j: int| 0 <= j < v.deep_view().len() && v.deep_view()[j] == t@;
            assert(v.deep_view()[j] != t@);
        }
    }
    false
}

/// The characters `v[from..to]` as a string.
pub fn string_of_range(v: &Vec<char>, from: usize, to: usize) -> (r: String)
    requires
        from <= to <= v.len(),
    ensures
        r@ == v@.subrange(from as int, to as int),
{
    let mut r = String::new();
    let mut i = from;
    while i < to
        invariant
            from <= i <= to <= v.len(),
            r@ == v@.subrange(from as int, i as int),
        decreases to - i,
    {
        push_char(&mut r, v[i]);
        assert(r@ =~= v@.subrange(from as int, i + 1));
        i = i + 1;
    }
    r
}

/// `s` without its leading `c`s.
pub open spec fn strip_leading(s: Seq<char>, c: char) -> Seq<char>
    decreases s.len(),
{
    if s.len() > 0 && s[0] == c {
        strip_leading(s.drop_first(), c)
    } else {
        s
    }
}

/// `s` without its leading `c`s: [`strip_leading`], as
/// `str::trim_start_matches` with a character pattern gives it.
pub fn trim_start_char(s: &str, c: char) -> (r: String)
    ensures
        r@ == strip_leading(s@, c),
{
    let v = to_chars(s);
    let n = v.len();
    let mut k: usize = 0;
    assert(v@.skip(0) =~= v@);
    while k < n && v[k] == c
        invariant
            k <= n == v.len(),
            v@ == s@,
            strip_leading(s@, c) == strip_leading(v@.skip(k as int), c),
        decreases n - k,
    {
        assert(v@.skip(k as int).drop_first() =~= v@.skip(k + 1));
        k = k + 1;
    }
    assert(v@.subrange(k as int, n as int) =~= v@.skip(k as int));
    string_of_range(&v, k, n)
}

/// Reading `s` from left to right: the pieces completed so far, each ended
/// by a `sep`, and the piece in progress.
pub open spec fn scan_split(s: Seq<char>, sep: char) -> (Seq<Seq<char>>, Seq<char>)
    decreases s.len(),
{
    if s.len() == 0 {
        (seq![], seq![])
    } else {
        let (done, cur) = scan_split(s.drop_last(), sep);
        if s.last() == sep {
            (done.push(cur), seq![])
        } else {
            (done, cur.push(s.last()))
        }
    }
}

/// The pieces of `s` between occurrences of `sep`, empty ones included, as
/// `str::split` with a character gives them.
pub open spec fn split_spec(s: Seq<char>, sep: char) -> Seq<Seq<char>> {
    scan_split(s, sep).0.push(scan_split(s, sep).1)
}

/// `s` split at each `sep`: [`split_spec`].
pub fn split_on(s: &str, sep: char) -> (r: Vec<String>)
    ensures
        r.deep_view() == split_spec(s@, sep),
{
    let v = to_chars(s);
    let ghost t = s@;
    let mut done: Vec<String> = Vec::new();
    let mut cur = String::new();
    let n = v.len();
    assert(t.take(0) =~= seq![]);
    for i in 0..n
        invariant
            n == v.len(),
            v@ == t,
            done.deep_view() == scan_split(t.take(i as int), sep).0,
            cur@ == scan_split(t.take(i as int), sep).1,
    {
        assert(t.take(i + 1).drop_last() =~= t.take(i as int));
        let c = v[i];
        if c == sep {
            let ghost before = done.deep_view();
            let piece = cur;
            cur = String::new();
            let ghost pv = piece@;
            done.push(piece);
            assert(done.deep_view() =~= before.push(pv));
        } else {
            push_char(&mut cur, c);
        }
    }
    assert(t.take(n as int) =~= t);
    let ghost before = done.deep_view();
    let ghost cv = cur@;
    done.push(cur);
    assert(done.deep_view() =~= before.push(cv));
    done
}

} // verus!
