//! The library's own model of a concrete syntax tree: what the extraction of
//! classes reads from a parse, held as plain values.

use vstd::prelude::*;
use vstd::utf8::{decode_utf8, encode_utf8, encode_utf8_decode_utf8, is_char_boundary};
use crate::text::{str_eq, trim, trim_spec};

verus! {

/// A node of a syntax tree: its grammar kind, the field under which it
/// hangs from its parent (if any), the byte range of its source text, the
/// one-based line on which it starts, and all its children (named and
/// anonymous) in order.
pub struct SyntaxNode {
    pub kind: String,
    pub field: Option<String>,
    pub start: usize,
    pub end: usize,
    pub line: u32,
    pub children: Vec<SyntaxNode>,
}

/// The characters of `src` between byte offsets `start` and `end`; empty
/// when the range is not a range of whole characters of `src`.
pub open spec fn slice_chars(src: Seq<char>, start: int, end: int) -> Seq<char> {
    let b = encode_utf8(src);
    if start <= end && end <= b.len() && is_char_boundary(b, start) && is_char_boundary(b, end) {
        decode_utf8(b.subrange(start, end))
    } else {
        seq![]
    }
}

/// The source text of a node, without surrounding whitespace.
pub open spec fn text_of(src: Seq<char>, n: SyntaxNode) -> Seq<char> {
    trim_spec(slice_chars(src, n.start as int, n.end as int))
}

/// Whether the node is of grammar kind `k`.
pub open spec fn kind_is(n: SyntaxNode, k: Seq<char>) -> bool {
    n.kind@ == k
}

/// Whether the node hangs from its parent under field `f`.
pub open spec fn field_is(n: SyntaxNode, f: Seq<char>) -> bool {
    match n.field {
        Some(g) => g@ == f,
        None => false,
    }
}

/// The first node of kind `k` in `s`.
pub open spec fn first_of_kind(s: Seq<SyntaxNode>, k: Seq<char>) -> Option<SyntaxNode>
    decreases s.len(),
{
    if s.len() == 0 {
        None
    } else if kind_is(s[0], k) {
        Some(s[0])
    } else {
        first_of_kind(s.drop_first(), k)
    }
}

/// The first node under field `f` in `s`.
pub open spec fn first_with_field(s: Seq<SyntaxNode>, f: Seq<char>) -> Option<SyntaxNode>
    decreases s.len(),
{
    if s.len() == 0 {
        None
    } else if field_is(s[0], f) {
        Some(s[0])
    } else {
        first_with_field(s.drop_first(), f)
    }
}

/// The first child of `n` of kind `k`.
pub open spec fn child_of_kind(n: SyntaxNode, k: Seq<char>) -> Option<SyntaxNode> {
    first_of_kind(n.children@, k)
}

/// The first child of `n` under field `f`.
pub open spec fn child_with_field(n: SyntaxNode, f: Seq<char>) -> Option<SyntaxNode> {
    first_with_field(n.children@, f)
}

/// The nodes of `s` that are of kind `k`, in order.
pub open spec fn filter_kind(s: Seq<SyntaxNode>, k: Seq<char>) -> Seq<SyntaxNode>
    decreases s.len(),
{
    if s.len() == 0 {
        seq![]
    } else if kind_is(s.last(), k) {
        filter_kind(s.drop_last(), k).push(s.last())
    } else {
        filter_kind(s.drop_last(), k)
    }
}

/// Whether the node is of kind `k`.
pub fn has_kind(n: &SyntaxNode, k: &str) -> (r: bool)
    ensures
        r == kind_is(*n, k@),
{
    str_eq(n.kind.as_str(), k)
}

/// Whether the node hangs under field `f`.
pub fn has_field(n: &SyntaxNode, f: &str) -> (r: bool)
    ensures
        r == field_is(*n, f@),
{
    match &n.field {
        Some(g) => str_eq(g.as_str(), f),
        None => false,
    }
}

/// The source text of `n` in `src`, trimmed: [`text_of`].
pub fn node_text<'a>(src: &'a str, n: &SyntaxNode) -> (r: &'a str)
    ensures
        r@ == text_of(src@, *n),
{
    match str_get(src, n.start, n.end) {
        Some(t) => {
            proof {
                encode_utf8_decode_utf8(t@);
            }
            trim(t)
        },
        None => {
            let e = "";
            proof {
                reveal_strlit("");
            }
            assert(trim_spec(seq![]) == Seq::<char>::empty());
            trim(e)
        },
    }
}

/// The first child of `n` of kind `k`: [`child_of_kind`].
pub fn child_by_kind<'a>(n: &'a SyntaxNode, k: &str) -> (r: Option<&'a SyntaxNode>)
    ensures
        match r {
            Some(c) => child_of_kind(*n, k@) == Some(*c),
            None => child_of_kind(*n, k@) is None,
        },
{
    let len = n.children.len();
    let ghost s = n.children@;
    assert(s.skip(0) =~= s);
    for i in 0..len
        invariant
            len == n.children.len(),
            s == n.children@,
            first_of_kind(s, k@) == first_of_kind(s.skip(i as int), k@),
    {
        assert(s.skip(i as int)[0] == s[i as int]);
        assert(s.skip(i as int).drop_first() =~= s.skip(i + 1));
        if has_kind(&n.children[i], k) {
            return Some(&n.children[i]);
        }
    }
    None
}

/// The first child of `n` under field `f`: [`child_with_field`], the model
/// of tree-sitter's `child_by_field_name`.
pub fn child_by_field<'a>(n: &'a SyntaxNode, f: &str) -> (r: Option<&'a SyntaxNode>)
    ensures
        match r {
            Some(c) => child_with_field(*n, f@) == Some(*c),
            None => child_with_field(*n, f@) is None,
        },
{
    let len = n.children.len();
    let ghost s = n.children@;
    assert(s.skip(0) =~= s);
    for i in 0..len
        invariant
            len == n.children.len(),
            s == n.children@,
            first_with_field(s, f@) == first_with_field(s.skip(i as int), f@),
    {
        assert(s.skip(i as int)[0] == s[i as int]);
        assert(s.skip(i as int).drop_first() =~= s.skip(i + 1));
        if has_field(&n.children[i], f) {
            return Some(&n.children[i]);
        }
    }
    None
}

/// `str::get` with a byte range: the text between `start` and `end` when
/// both are character boundaries of `s` with `start <= end <= s.len()`,
/// otherwise nothing.
#[verifier::external_body]
pub(crate) fn str_get(s: &str, start: usize, end: usize) -> (r: Option<&str>)
    ensures
        r is Some <==> (start <= end && end <= encode_utf8(s@).len() && is_char_boundary(
            encode_utf8(s@),
            start as int,
        ) && is_char_boundary(encode_utf8(s@), end as int)),
        r matches Some(t) ==> encode_utf8(t@) == encode_utf8(s@).subrange(start as int, end as int),
{
    s.get(start..end)
}


/// The text of an optional node, or `default` when there is none.
pub open spec fn text_or(src: Seq<char>, n: Option<SyntaxNode>, default: Seq<char>) -> Seq<char> {
    match n {
        Some(x) => text_of(src, x),
        None => default,
    }
}

/// The texts of the nodes of `s` that are of kind `k`, in order.
pub open spec fn texts_of_kind(src: Seq<char>, s: Seq<SyntaxNode>, k: Seq<char>) -> Seq<Seq<char>>
    decreases s.len(),
{
    if s.len() == 0 {
        seq![]
    } else if kind_is(s.last(), k) {
        texts_of_kind(src, s.drop_last(), k).push(text_of(src, s.last()))
    } else {
        texts_of_kind(src, s.drop_last(), k)
    }
}

/// The text of the child of `n` under field `f`, or `default`:
/// [`text_or`] of [`child_with_field`].
pub fn field_text_or(src: &str, n: &SyntaxNode, f: &str, default: &str) -> (r: String)
    ensures
        r@ == text_or(src@, child_with_field(*n, f@), default@),
{
    match child_by_field(n, f) {
        Some(c) => node_text(src, c).to_owned(),
        None => default.to_owned(),
    }
}

/// The texts of the children of `n` of kind `k`: [`texts_of_kind`].
pub fn child_texts_of_kind(src: &str, n: &SyntaxNode, k: &str) -> (r: Vec<String>)
    ensures
        r.deep_view() == texts_of_kind(src@, n.children@, k@),
{
    let mut r: Vec<String> = Vec::new();
    let ghost s = n.children@;
    let len = n.children.len();
    assert(s.take(0) =~= seq![]);
    for i in 0..len
        invariant
            len == n.children.len(),
            s == n.children@,
            r.deep_view() == texts_of_kind(src@, s.take(i as int), k@),
    {
        assert(s.take(i + 1).drop_last() =~= s.take(i as int));
        let c = &n.children[i];
        if has_kind(c, k) {
            let ghost before = r.deep_view();
            r.push(node_text(src, c).to_owned());
            assert(r.deep_view() =~= before.push(text_of(src@, *c)));
        }
    }
    assert(s.take(len as int) =~= s);
    r
}

} // verus!
