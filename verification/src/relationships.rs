//! Relationship inference: which edges a diagram draws between its classes.
//!
//! Inheritance and implementation come from the declared supertypes;
//! composition and aggregation from the types of fields; dependency from the
//! parameter and return types of methods that are not already held by a
//! field. Only type names that name a class of the diagram give an edge, a
//! class never points at itself, and each edge appears once.

use vstd::prelude::*;
use crate::model::{
    ClassDiagram, ClassNode, ClassView, FieldView, MethodView, ParamView, Relationship,
    RelationshipKind, RelationshipView,
};
use crate::text::{
    char_is_alphanumeric, contains_string, ends_with, is_alphanumeric,
    push_char, starts_with, str_eq, to_chars,
};

verus! {

/// Characters that can be part of a type name token.
pub open spec fn is_word_char(c: char) -> bool {
    char_is_alphanumeric(c) || c == '_'
}

/// Appends the token in progress, if there is one.
pub open spec fn flush_word(done: Seq<Seq<char>>, cur: Seq<char>) -> Seq<Seq<char>> {
    if cur.len() > 0 {
        done.push(cur)
    } else {
        done
    }
}

/// Reading `s` from left to right: the tokens completed so far and the token
/// in progress.
pub open spec fn scan_words(s: Seq<char>) -> (Seq<Seq<char>>, Seq<char>)
    decreases s.len(),
{
    if s.len() == 0 {
        (seq![], seq![])
    } else {
        let (done, cur) = scan_words(s.drop_last());
        if is_word_char(s.last()) {
            (done, cur.push(s.last()))
        } else {
            (flush_word(done, cur), seq![])
        }
    }
}

/// The maximal runs of word characters in `s`, in order: `Map<K, V[]>`
/// gives `Map`, `K`, `V`.
pub open spec fn word_tokens(s: Seq<char>) -> Seq<Seq<char>> {
    flush_word(scan_words(s).0, scan_words(s).1)
}

/// The tokens that name a known class other than `self_name`, each once, in
/// the order of their first occurrence.
pub open spec fn select_known(
    tokens: Seq<Seq<char>>,
    known: Seq<Seq<char>>,
    self_name: Seq<char>,
) -> Seq<Seq<char>>
    decreases tokens.len(),
{
    if tokens.len() == 0 {
        seq![]
    } else {
        let r = select_known(tokens.drop_last(), known, self_name);
        let t = tokens.last();
        if known.contains(t) && t != self_name && !r.contains(t) {
            r.push(t)
        } else {
            r
        }
    }
}

/// The known classes, other than `self_name`, that a type expression
/// mentions.
pub open spec fn referenced_types(
    type_text: Seq<char>,
    known: Seq<Seq<char>>,
    self_name: Seq<char>,
) -> Seq<Seq<char>> {
    select_known(word_tokens(type_text), known, self_name)
}

/// A type that holds many values: an array, or one of the standard
/// collection types of the supported languages (`List<T>`, `Set<T>`,
/// `Map<K, V>`, `IEnumerable<T>`, Python's `list[T]`, ...).
pub open spec fn holds_collection(t: Seq<char>) -> bool {
    ||| "[]"@.is_suffix_of(t)
    ||| "Array<"@.is_prefix_of(t)
    ||| "ReadonlyArray<"@.is_prefix_of(t)
    ||| "Set<"@.is_prefix_of(t)
    ||| "Map<"@.is_prefix_of(t)
    ||| "List<"@.is_prefix_of(t)
    ||| "IList<"@.is_prefix_of(t)
    ||| "ICollection<"@.is_prefix_of(t)
    ||| "IEnumerable<"@.is_prefix_of(t)
    ||| "Collection<"@.is_prefix_of(t)
    ||| "list["@.is_prefix_of(t)
    ||| "List["@.is_prefix_of(t)
}

/// The edge that a field of a class type gives: aggregation for a
/// collection, composition for a single value.
pub open spec fn field_kind(type_text: Seq<char>) -> RelationshipKind {
    if holds_collection(type_text) {
        RelationshipKind::Aggregation
    } else {
        RelationshipKind::Composition
    }
}

pub open spec fn rel(from: Seq<char>, to: Seq<char>, kind: RelationshipKind) -> RelationshipView {
    RelationshipView { from, to, kind }
}

/// Adds `r` to `list` unless it points at its own source, at a name that is
/// not a known class, or is already there.
pub open spec fn add_rel(
    list: Seq<RelationshipView>,
    known: Seq<Seq<char>>,
    r: RelationshipView,
) -> Seq<RelationshipView> {
    if r.to == r.from || !known.contains(r.to) || list.contains(r) {
        list
    } else {
        list.push(r)
    }
}

/// Adds each of `rs` in turn.
pub open spec fn add_rels(
    list: Seq<RelationshipView>,
    known: Seq<Seq<char>>,
    rs: Seq<RelationshipView>,
) -> Seq<RelationshipView>
    decreases rs.len(),
{
    if rs.len() == 0 {
        list
    } else {
        add_rel(add_rels(list, known, rs.drop_last()), known, rs.last())
    }
}

/// Edges of one kind from `from` to each of `targets`.
pub open spec fn edges_to(
    from: Seq<char>,
    targets: Seq<Seq<char>>,
    kind: RelationshipKind,
) -> Seq<RelationshipView> {
    targets.map_values(|t: Seq<char>| rel(from, t, kind))
}

/// The candidate edges from the fields of a class.
pub open spec fn field_edges(
    name: Seq<char>,
    known: Seq<Seq<char>>,
    fields: Seq<FieldView>,
) -> Seq<RelationshipView>
    decreases fields.len(),
{
    if fields.len() == 0 {
        seq![]
    } else {
        let f = fields.last();
        field_edges(name, known, fields.drop_last()) + edges_to(
            name,
            referenced_types(f.type_text, known, name),
            field_kind(f.type_text),
        )
    }
}

/// The known classes mentioned by the parameter types of a method.
pub open spec fn param_refs(
    params: Seq<ParamView>,
    known: Seq<Seq<char>>,
    self_name: Seq<char>,
) -> Seq<Seq<char>>
    decreases params.len(),
{
    if params.len() == 0 {
        seq![]
    } else {
        param_refs(params.drop_last(), known, self_name) + referenced_types(
            params.last().type_text,
            known,
            self_name,
        )
    }
}

/// The known classes mentioned by a method's parameter types, then by its
/// return type.
pub open spec fn method_refs(
    m: MethodView,
    known: Seq<Seq<char>>,
    self_name: Seq<char>,
) -> Seq<Seq<char>> {
    param_refs(m.params, known, self_name) + referenced_types(m.return_type, known, self_name)
}

/// Whether some field type of the class names `t`: `t` is one of the word
/// tokens of the field's type (`UserRepository` names `UserRepository`, not
/// `User`).
pub open spec fn held_by_field(fields: Seq<FieldView>, t: Seq<char>) -> bool {
    exists|i: int| 0 <= i < fields.len() && word_tokens(#[trigger] fields[i].type_text).contains(t)
}

/// The names not held by a field.
pub open spec fn not_held(fields: Seq<FieldView>, refs: Seq<Seq<char>>) -> Seq<Seq<char>>
    decreases refs.len(),
{
    if refs.len() == 0 {
        seq![]
    } else {
        let r = not_held(fields, refs.drop_last());
        if held_by_field(fields, refs.last()) {
            r
        } else {
            r.push(refs.last())
        }
    }
}

/// The candidate dependency edges from the methods of a class.
pub open spec fn method_edges(
    c: ClassView,
    known: Seq<Seq<char>>,
    methods: Seq<MethodView>,
) -> Seq<RelationshipView>
    decreases methods.len(),
{
    if methods.len() == 0 {
        seq![]
    } else {
        method_edges(c, known, methods.drop_last()) + edges_to(
            c.name,
            not_held(c.fields, method_refs(methods.last(), known, c.name)),
            RelationshipKind::Dependency,
        )
    }
}

/// The candidate edges of one class, in the order they are considered.
pub open spec fn class_edges(c: ClassView, known: Seq<Seq<char>>) -> Seq<RelationshipView> {
    edges_to(c.name, c.extends, RelationshipKind::Inheritance) + edges_to(
        c.name,
        c.implements,
        RelationshipKind::Implementation,
    ) + field_edges(c.name, known, c.fields) + method_edges(c, known, c.methods)
}

/// The candidate edges of all classes, in order.
pub open spec fn all_edges(classes: Seq<ClassView>, known: Seq<Seq<char>>) -> Seq<
    RelationshipView,
>
    decreases classes.len(),
{
    if classes.len() == 0 {
        seq![]
    } else {
        all_edges(classes.drop_last(), known) + class_edges(classes.last(), known)
    }
}

/// The names of the classes.
pub open spec fn class_names(classes: Seq<ClassView>) -> Seq<Seq<char>> {
    classes.map_values(|c: ClassView| c.name)
}

/// The edges of the diagram of `classes`: every candidate edge that points
/// at another known class, each once, in the order first met.
pub open spec fn spec_relationships(classes: Seq<ClassView>) -> Seq<RelationshipView> {
    add_rels(seq![], class_names(classes), all_edges(classes, class_names(classes)))
}

/// Adding a concatenation is adding its parts in turn.
pub proof fn lemma_add_rels_concat(
    list: Seq<RelationshipView>,
    known: Seq<Seq<char>>,
    a: Seq<RelationshipView>,
    b: Seq<RelationshipView>,
)
    ensures
        add_rels(list, known, a + b) == add_rels(add_rels(list, known, a), known, b),
    decreases b.len(),
{
    if b.len() == 0 {
        assert(a + b =~= a);
    } else {
        lemma_add_rels_concat(list, known, a, b.drop_last());
        assert((a + b).drop_last() =~= a + b.drop_last());
        assert((a + b).last() == b.last());
    }
}

/// Adding one more candidate at the end.
pub proof fn lemma_add_rels_push(
    list: Seq<RelationshipView>,
    known: Seq<Seq<char>>,
    a: Seq<RelationshipView>,
    r: RelationshipView,
)
    ensures
        add_rels(list, known, a.push(r)) == add_rel(add_rels(list, known, a), known, r),
{
    assert(a.push(r).drop_last() =~= a);
}

/// Extending a list of edge targets by one.
proof fn lemma_edges_to_push(from: Seq<char>, ts: Seq<Seq<char>>, i: int, kind: RelationshipKind)
    requires
        0 <= i < ts.len(),
    ensures
        edges_to(from, ts.take(i + 1), kind) == edges_to(from, ts.take(i), kind).push(
            rel(from, ts[i], kind),
        ),
{
    assert(edges_to(from, ts.take(i + 1), kind) =~= edges_to(from, ts.take(i), kind).push(
        rel(from, ts[i], kind),
    ));
}

/// Adds `rel(from, to, kind)` as [`add_rel`] says.
pub fn add_relationship(
    list: &mut Vec<Relationship>,
    known: &Vec<String>,
    from: &str,
    to: &str,
    kind: RelationshipKind,
)
    ensures
        final(list).deep_view() == add_rel(old(list).deep_view(), known.deep_view(), rel(from@, to@, kind)),
{
    let ghost r = rel(from@, to@, kind);
    if str_eq(to, from) || !contains_string(known, to) {
        return;
    }
    let n = list.len();
    for i in 0..n
        invariant
            n == list.len(),
            r == rel(from@, to@, kind),
            forall|j: int| 0 <= j < i ==> list.deep_view()[j] != r,
    {
        assert(list.deep_view()[i as int] == list[i as int]@);
        if str_eq(list[i].from.as_str(), from) && str_eq(list[i].to.as_str(), to) && list[i].kind
            == kind {
            assert(list.deep_view().contains(r));
            return;
        }
    }
    let ghost before = list.deep_view();
    assert(!before.contains(r)) by {
        if before.contains(r) {
            let j = choose|j: int| 0 <= j < before.len() && before[j] == r;
            assert(before[j] != r);
        }
    }
    list.push(Relationship { from: from.to_owned(), to: to.to_owned(), kind });
    assert(list.deep_view() =~= before.push(r));
}

/// Adds an edge of one kind from `from` to each of `targets`.
fn add_edges_to(
    list: &mut Vec<Relationship>,
    known: &Vec<String>,
    from: &str,
    targets: &Vec<String>,
    kind: RelationshipKind,
)
    ensures
        final(list).deep_view() == add_rels(
            old(list).deep_view(),
            known.deep_view(),
            edges_to(from@, targets.deep_view(), kind),
        ),
{
    let ghost start = list.deep_view();
    let ghost ts = targets.deep_view();
    let n = targets.len();
    assert(edges_to(from@, ts.take(0), kind) =~= seq![]);
    for i in 0..n
        invariant
            n == targets.len(),
            ts == targets.deep_view(),
            list.deep_view() == add_rels(start, known.deep_view(), edges_to(from@, ts.take(i as int), kind)),
    {
        proof {
            lemma_edges_to_push(from@, ts, i as int, kind);
            lemma_add_rels_push(start, known.deep_view(), edges_to(from@, ts.take(i as int), kind), rel(from@, ts[i as int], kind));
        }
        add_relationship(list, known, from, targets[i].as_str(), kind);
    }
    assert(ts.take(n as int) =~= ts);
}

/// The known classes, other than `self_name`, that `type_text` mentions:
/// [`referenced_types`].
fn extract_referenced_types(type_text: &str, known: &Vec<String>, self_name: &str) -> (r: Vec<
    String,
>)
    ensures
        r.deep_view() == referenced_types(type_text@, known.deep_view(), self_name@),
{
    let chars = to_chars(type_text);
    let ghost s = type_text@;
    let ghost kn = known.deep_view();
    let mut found: Vec<String> = Vec::new();
    let mut current = String::new();
    let n = chars.len();
    assert(s.take(0) =~= seq![]);
    for i in 0..n
        invariant
            n == chars.len(),
            chars@ == s,
            kn == known.deep_view(),
            current@ == scan_words(s.take(i as int)).1,
            found.deep_view() == select_known(scan_words(s.take(i as int)).0, kn, self_name@),
    {
        let ch = chars[i];
        assert(s.take(i + 1).drop_last() =~= s.take(i as int));
        if is_alphanumeric(ch) || ch == '_' {
            push_char(&mut current, ch);
        } else {
            flush_token(&mut found, &mut current, known, self_name, Ghost(scan_words(s.take(i as int)).0));
        }
    }
    assert(s.take(n as int) =~= s);
    flush_token(&mut found, &mut current, known, self_name, Ghost(scan_words(s).0));
    found
}

/// Ends the token in progress, keeping it if it names a known class other
/// than `self_name` that is not kept yet.
fn flush_token(
    found: &mut Vec<String>,
    current: &mut String,
    known: &Vec<String>,
    self_name: &str,
    Ghost(done): Ghost<Seq<Seq<char>>>,
)
    requires
        old(found).deep_view() == select_known(done, known.deep_view(), self_name@),
    ensures
        final(current)@ == Seq::<char>::empty(),
        final(found).deep_view() == select_known(
            flush_word(done, old(current)@),
            known.deep_view(),
            self_name@,
        ),
{
    if !current.as_str().is_empty() {
        assert(done.push(current@).drop_last() =~= done);
        let t = current.as_str();
        if contains_string(known, t) && !str_eq(t, self_name) && !contains_string(found, t) {
            let ghost before = found.deep_view();
            found.push(current.clone());
            assert(found.deep_view() =~= before.push(t@));
        }
    }
    *current = String::new();
}

/// Whether `type_text` is a collection type: [`holds_collection`].
fn is_collection_type(type_text: &str) -> (r: bool)
    ensures
        r == holds_collection(type_text@),
{
    ends_with(type_text, "[]") || starts_with(type_text, "Array<") || starts_with(
        type_text,
        "ReadonlyArray<",
    ) || starts_with(type_text, "Set<") || starts_with(type_text, "Map<") || starts_with(
        type_text,
        "List<",
    ) || starts_with(type_text, "IList<") || starts_with(type_text, "ICollection<")
        || starts_with(type_text, "IEnumerable<") || starts_with(type_text, "Collection<")
        || starts_with(type_text, "list[") || starts_with(type_text, "List[")
}

/// The word tokens of `s`: [`word_tokens`].
fn word_tokens_of(s: &str) -> (r: Vec<String>)
    ensures
        r.deep_view() == word_tokens(s@),
{
    let chars = to_chars(s);
    let ghost t = s@;
    let mut done: Vec<String> = Vec::new();
    let mut cur = String::new();
    let n = chars.len();
    assert(t.take(0) =~= seq![]);
    for i in 0..n
        invariant
            n == chars.len(),
            chars@ == t,
            cur@ == scan_words(t.take(i as int)).1,
            done.deep_view() == scan_words(t.take(i as int)).0,
    {
        assert(t.take(i + 1).drop_last() =~= t.take(i as int));
        let ch = chars[i];
        if is_alphanumeric(ch) || ch == '_' {
            push_char(&mut cur, ch);
        } else {
            if !cur.as_str().is_empty() {
                let ghost before = done.deep_view();
                let ghost cv = cur@;
                done.push(cur);
                assert(done.deep_view() =~= before.push(cv));
            }
            cur = String::new();
        }
    }
    assert(t.take(n as int) =~= t);
    if !cur.as_str().is_empty() {
        let ghost before = done.deep_view();
        let ghost cv = cur@;
        done.push(cur);
        assert(done.deep_view() =~= before.push(cv));
    }
    done
}

/// Whether some field type names `t`: [`held_by_field`].
fn is_held_by_field(fields: &Vec<crate::model::FieldNode>, t: &str) -> (r: bool)
    ensures
        r == held_by_field(fields.deep_view(), t@),
{
    let n = fields.len();
    for i in 0..n
        invariant
            n == fields.len(),
            forall|j: int|
                0 <= j < i ==> !word_tokens(#[trigger] fields.deep_view()[j].type_text).contains(t@),
    {
        assert(fields.deep_view()[i as int] == fields[i as int]@);
        let tokens = word_tokens_of(fields[i].type_text.as_str());
        if contains_string(&tokens, t) {
            assert(word_tokens(fields.deep_view()[i as int].type_text).contains(t@));
            return true;
        }
    }
    false
}

/// Appends `b` to `a`.
fn append_strings(a: &mut Vec<String>, b: Vec<String>)
    ensures
        final(a).deep_view() == old(a).deep_view() + b.deep_view(),
{
    let mut b = b;
    let ghost a0 = a.deep_view();
    let ghost b0 = b.deep_view();
    a.append(&mut b);
    assert(a.deep_view() =~= a0 + b0);
}

/// The known classes mentioned by a method's parameter and return types:
/// [`method_refs`].
fn method_references(m: &crate::model::MethodNode, known: &Vec<String>, self_name: &str) -> (r: Vec<
    String,
>)
    ensures
        r.deep_view() == method_refs(m@, known.deep_view(), self_name@),
{
    let mut refs: Vec<String> = Vec::new();
    let ghost ps = m@.params;
    let n = m.params.len();
    assert(ps.take(0) =~= seq![]);
    for k in 0..n
        invariant
            n == m.params.len(),
            ps == m@.params,
            refs.deep_view() == param_refs(ps.take(k as int), known.deep_view(), self_name@),
    {
        assert(ps.take(k + 1).drop_last() =~= ps.take(k as int));
        assert(ps[k as int] == m.params[k as int]@);
        let more = extract_referenced_types(m.params[k].type_text.as_str(), known, self_name);
        append_strings(&mut refs, more);
    }
    assert(ps.take(n as int) =~= ps);
    let ret = extract_referenced_types(m.return_type.as_str(), known, self_name);
    append_strings(&mut refs, ret);
    refs
}

/// Adds the candidate edges of one class: [`class_edges`].
fn add_class_edges(list: &mut Vec<Relationship>, known: &Vec<String>, class: &ClassNode)
    ensures
        final(list).deep_view() == add_rels(
            old(list).deep_view(),
            known.deep_view(),
            class_edges(class@, known.deep_view()),
        ),
{
    let ghost l0 = list.deep_view();
    let ghost kn = known.deep_view();
    let ghost c = class@;
    let ghost ext = edges_to(c.name, c.extends, RelationshipKind::Inheritance);
    let ghost imp = edges_to(c.name, c.implements, RelationshipKind::Implementation);
    let name = class.name.as_str();
    add_edges_to(list, known, name, &class.extends, RelationshipKind::Inheritance);
    add_edges_to(list, known, name, &class.implements, RelationshipKind::Implementation);
    proof {
        lemma_add_rels_concat(l0, kn, ext, imp);
    }
    let nf = class.fields.len();
    assert(c.fields.take(0) =~= seq![]);
    assert(ext + imp + field_edges(c.name, kn, c.fields.take(0)) =~= ext + imp);
    for i in 0..nf
        invariant
            nf == class.fields.len(),
            c == class@,
            kn == known.deep_view(),
            name@ == c.name,
            ext == edges_to(c.name, c.extends, RelationshipKind::Inheritance),
            imp == edges_to(c.name, c.implements, RelationshipKind::Implementation),
            list.deep_view() == add_rels(l0, kn, ext + imp + field_edges(c.name, kn, c.fields.take(i as int))),
    {
        let f = &class.fields[i];
        assert(c.fields[i as int] == f@);
        assert(c.fields.take(i + 1).drop_last() =~= c.fields.take(i as int));
        let refs = extract_referenced_types(f.type_text.as_str(), known, name);
        let kind = if is_collection_type(f.type_text.as_str()) {
            RelationshipKind::Aggregation
        } else {
            RelationshipKind::Composition
        };
        let ghost prev = ext + imp + field_edges(c.name, kn, c.fields.take(i as int));
        let ghost more = edges_to(c.name, refs.deep_view(), kind);
        add_edges_to(list, known, name, &refs, kind);
        proof {
            lemma_add_rels_concat(l0, kn, prev, more);
            assert(prev + more =~= ext + imp + field_edges(c.name, kn, c.fields.take(i + 1)));
        }
    }
    assert(c.fields.take(nf as int) =~= c.fields);
    let ghost base = ext + imp + field_edges(c.name, kn, c.fields);
    let nm = class.methods.len();
    assert(c.methods.take(0) =~= seq![]);
    assert(base + method_edges(c, kn, c.methods.take(0)) =~= base);
    for j in 0..nm
        invariant
            nm == class.methods.len(),
            c == class@,
            kn == known.deep_view(),
            name@ == c.name,
            list.deep_view() == add_rels(l0, kn, base + method_edges(c, kn, c.methods.take(j as int))),
    {
        let m = &class.methods[j];
        assert(c.methods[j as int] == m@);
        assert(c.methods.take(j + 1).drop_last() =~= c.methods.take(j as int));
        let refs = method_references(m, known, name);
        let ghost rs = refs.deep_view();
        let ghost prev = base + method_edges(c, kn, c.methods.take(j as int));
        let ghost l1 = list.deep_view();
        let nr = refs.len();
        assert(rs.take(0) =~= seq![]);
        assert(edges_to(c.name, not_held(c.fields, rs.take(0)), RelationshipKind::Dependency) =~= seq![]);
        for t in 0..nr
            invariant
                nr == refs.len(),
                rs == refs.deep_view(),
                c == class@,
                kn == known.deep_view(),
                name@ == c.name,
                list.deep_view() == add_rels(
                    l1,
                    kn,
                    edges_to(c.name, not_held(c.fields, rs.take(t as int)), RelationshipKind::Dependency),
                ),
        {
            assert(rs.take(t + 1).drop_last() =~= rs.take(t as int));
            assert(rs[t as int] == refs[t as int]@);
            let ghost nh = not_held(c.fields, rs.take(t as int));
            if !is_held_by_field(&class.fields, refs[t].as_str()) {
                proof {
                    assert(edges_to(c.name, nh.push(rs[t as int]), RelationshipKind::Dependency) =~= edges_to(
                        c.name,
                        nh,
                        RelationshipKind::Dependency,
                    ).push(rel(c.name, rs[t as int], RelationshipKind::Dependency)));
                    lemma_add_rels_push(
                        l1,
                        kn,
                        edges_to(c.name, nh, RelationshipKind::Dependency),
                        rel(c.name, rs[t as int], RelationshipKind::Dependency),
                    );
                }
                add_relationship(list, known, name, refs[t].as_str(), RelationshipKind::Dependency);
            }
        }
        assert(rs.take(nr as int) =~= rs);
        proof {
            lemma_add_rels_concat(
                l0,
                kn,
                prev,
                edges_to(c.name, not_held(c.fields, rs), RelationshipKind::Dependency),
            );
            assert(prev + edges_to(c.name, not_held(c.fields, rs), RelationshipKind::Dependency)
                =~= base + method_edges(c, kn, c.methods.take(j + 1)));
        }
    }
    assert(c.methods.take(nm as int) =~= c.methods);
    assert(class_edges(c, kn) =~= base + method_edges(c, kn, c.methods));
}

/// The names of the classes, in order.
fn names_of(classes: &Vec<ClassNode>) -> (r: Vec<String>)
    ensures
        r.deep_view() == class_names(classes.deep_view()),
{
    let mut r: Vec<String> = Vec::new();
    let n = classes.len();
    for i in 0..n
        invariant
            n == classes.len(),
            r.deep_view() =~= class_names(classes.deep_view().take(i as int)),
    {
        let ghost before = r.deep_view();
        r.push(classes[i].name.clone());
        assert(classes.deep_view()[i as int] == classes[i as int]@);
        assert(r.deep_view() =~= before.push(classes[i as int].name@));
        assert(class_names(classes.deep_view().take(i + 1)) =~= class_names(
            classes.deep_view().take(i as int),
        ).push(classes[i as int].name@));
    }
    assert(classes.deep_view().take(n as int) =~= classes.deep_view());
    r
}

/// The edges between `classes`: [`spec_relationships`].
pub fn infer_relationships(classes: &Vec<ClassNode>) -> (r: Vec<Relationship>)
    ensures
        r.deep_view() == spec_relationships(classes.deep_view()),
{
    let known = names_of(classes);
    let ghost cs = classes.deep_view();
    let ghost kn = known.deep_view();
    let mut list: Vec<Relationship> = Vec::new();
    let n = classes.len();
    assert(cs.take(0) =~= seq![]);
    assert(list.deep_view() =~= seq![]);
    for i in 0..n
        invariant
            n == classes.len(),
            cs == classes.deep_view(),
            kn == known.deep_view(),
            list.deep_view() == add_rels(seq![], kn, all_edges(cs.take(i as int), kn)),
    {
        assert(cs.take(i + 1).drop_last() =~= cs.take(i as int));
        assert(cs[i as int] == classes[i as int]@);
        proof {
            lemma_add_rels_concat(seq![], kn, all_edges(cs.take(i as int), kn), class_edges(cs[i as int], kn));
        }
        add_class_edges(&mut list, &known, &classes[i]);
    }
    assert(cs.take(n as int) =~= cs);
    list
}

#[verifier::external_type_specification]
#[verifier::external_body]
pub struct ExSystemTime(std::time::SystemTime);

/// `SystemTime::now`: what the system clock reads. Nothing is stated of it.
#[verifier::external_body]
fn system_now() -> std::time::SystemTime {
    std::time::SystemTime::now()
}

/// `SystemTime::duration_since(UNIX_EPOCH)`: how long after the Unix epoch
/// `t` lies, as whole seconds (`Duration::as_secs`) and the nanoseconds
/// beyond them (`Duration::subsec_nanos`, always below one billion), or none
/// when `t` lies before the epoch.
#[verifier::external_body]
fn since_unix_epoch(t: &std::time::SystemTime) -> (r: Option<(u64, u32)>)
    ensures
        r matches Some((secs, nanos)) ==> nanos < 1_000_000_000,
{
    t.duration_since(std::time::UNIX_EPOCH).ok().map(|d| (d.as_secs(), d.subsec_nanos()))
}

/// The milliseconds that an elapsed time of `secs` seconds and `nanos`
/// nanoseconds holds, whole (as `Duration::as_millis` counts them) and cut
/// to 64 bits; zero for no elapsed time (a clock before the epoch).
pub fn millis_since_epoch(elapsed: Option<(u64, u32)>) -> (r: u64)
    ensures
        r == match elapsed {
            Some((secs, nanos)) => (secs * 1000 + nanos / 1_000_000) as u64,
            None => 0,
        },
{
    match elapsed {
        Some((secs, nanos)) => {
            let ms: u128 = secs as u128 * 1000 + (nanos / 1_000_000) as u128;
            #[verifier::truncate]
            (ms as u64)
        },
        None => 0,
    }
}

/// The current time as milliseconds since the Unix epoch, zero when the
/// clock reads earlier than that, cut to 64 bits: [`millis_since_epoch`] of
/// what the clock reads. Nothing is stated of the reading.
fn now_ms() -> u64 {
    millis_since_epoch(since_unix_epoch(&system_now()))
}

/// The diagram of `classes` stamped with `generated_at_ms`: the classes
/// unchanged and the edges of [`spec_relationships`].
pub fn build_diagram_at(classes: Vec<ClassNode>, generated_at_ms: u64) -> (d: ClassDiagram)
    ensures
        d.classes == classes,
        d.relationships.deep_view() == spec_relationships(classes.deep_view()),
        d.generated_at_ms == generated_at_ms,
{
    let relationships = infer_relationships(&classes);
    ClassDiagram { classes, relationships, generated_at_ms }
}

/// The diagram of `classes`, stamped with the current time: the classes
/// unchanged and the edges of [`spec_relationships`].
pub fn build_diagram(classes: Vec<ClassNode>) -> (d: ClassDiagram)
    ensures
        d.classes == classes,
        d.relationships.deep_view() == spec_relationships(classes.deep_view()),
{
    let now = now_ms();
    build_diagram_at(classes, now)
}

/// No edge occurs twice.
pub open spec fn distinct_edges(list: Seq<RelationshipView>) -> bool {
    forall|a: int, b: int| 0 <= a < b < list.len() ==> list[a] != list[b]
}

/// Every edge points at another class, and at a known one.
pub open spec fn edges_point_at_known(list: Seq<RelationshipView>, known: Seq<Seq<char>>) -> bool {
    forall|k: int| 0 <= k < list.len() ==> #[trigger] list[k].to != list[k].from && known.contains(list[k].to)
}

proof fn lemma_add_rels_facts(list: Seq<RelationshipView>, known: Seq<Seq<char>>, rs: Seq<RelationshipView>)
    requires
        distinct_edges(list),
        edges_point_at_known(list, known),
    ensures
        distinct_edges(add_rels(list, known, rs)),
        edges_point_at_known(add_rels(list, known, rs), known),
        forall|e: RelationshipView| list.contains(e) ==> add_rels(list, known, rs).contains(e),
        forall|e: RelationshipView|
            rs.contains(e) && e.to != e.from && known.contains(e.to) ==> add_rels(list, known, rs).contains(e),
        forall|e: RelationshipView| add_rels(list, known, rs).contains(e) ==> list.contains(e) || rs.contains(e),
    decreases rs.len(),
{
    if rs.len() > 0 {
        let mid = add_rels(list, known, rs.drop_last());
        lemma_add_rels_facts(list, known, rs.drop_last());
        let r = rs.last();
        let res = add_rel(mid, known, r);
        assert(res == add_rels(list, known, rs));
        assert forall|e: RelationshipView| list.contains(e) implies res.contains(e) by {
            assert(mid.contains(e));
            let k = choose|k: int| 0 <= k < mid.len() && mid[k] == e;
            assert(res[k] == e);
        }
        assert forall|e: RelationshipView| rs.contains(e) && e.to != e.from && known.contains(e.to) implies res.contains(e) by {
            let k = choose|k: int| 0 <= k < rs.len() && rs[k] == e;
            if k < rs.len() - 1 {
                assert(rs.drop_last()[k] == e);
                assert(rs.drop_last().contains(e));
                assert(mid.contains(e));
                let m = choose|m: int| 0 <= m < mid.len() && mid[m] == e;
                assert(res[m] == e);
            } else if !mid.contains(e) {
                assert(res[res.len() - 1] == e);
            } else {
                let m = choose|m: int| 0 <= m < mid.len() && mid[m] == e;
                assert(res[m] == e);
            }
        }
        assert forall|e: RelationshipView| res.contains(e) implies list.contains(e) || rs.contains(e) by {
            let k = choose|k: int| 0 <= k < res.len() && res[k] == e;
            if k < mid.len() {
                assert(mid[k] == e);
                if !list.contains(e) {
                    let m = choose|m: int| 0 <= m < rs.drop_last().len() && rs.drop_last()[m] == e;
                    assert(rs[m] == e);
                }
            } else {
                assert(rs[rs.len() - 1] == e);
            }
        }
        if res != mid {
            assert(!mid.contains(r));
            assert forall|a: int, b: int| 0 <= a < b < res.len() implies res[a] != res[b] by {
                if b == res.len() - 1 {
                    assert(res[b] == r);
                    assert(mid[a] == res[a]);
                }
            }
        }
    }
}

/// The candidate edges of class `i` are among the candidate edges of all
/// classes.
proof fn lemma_all_edges_contains(cs: Seq<ClassView>, kn: Seq<Seq<char>>, i: int, e: RelationshipView)
    requires
        0 <= i < cs.len(),
        class_edges(cs[i], kn).contains(e),
    ensures
        all_edges(cs, kn).contains(e),
    decreases cs.len(),
{
    let a = all_edges(cs.drop_last(), kn);
    let b = class_edges(cs.last(), kn);
    if i == cs.len() - 1 {
        let k = choose|k: int| 0 <= k < b.len() && b[k] == e;
        assert((a + b)[a.len() + k] == e);
    } else {
        assert(cs.drop_last()[i] == cs[i]);
        lemma_all_edges_contains(cs.drop_last(), kn, i, e);
        let k = choose|k: int| 0 <= k < a.len() && a[k] == e;
        assert((a + b)[k] == e);
    }
}

/// Every candidate edge is a candidate edge of some class.
proof fn lemma_all_edges_source(cs: Seq<ClassView>, kn: Seq<Seq<char>>, e: RelationshipView)
    requires
        all_edges(cs, kn).contains(e),
    ensures
        exists|i: int| 0 <= i < cs.len() && #[trigger] class_edges(cs[i], kn).contains(e),
    decreases cs.len(),
{
    let a = all_edges(cs.drop_last(), kn);
    let b = class_edges(cs.last(), kn);
    let k = choose|k: int| 0 <= k < (a + b).len() && (a + b)[k] == e;
    if k < a.len() {
        assert(a[k] == e);
        lemma_all_edges_source(cs.drop_last(), kn, e);
        let i = choose|i: int| 0 <= i < cs.drop_last().len() && #[trigger] class_edges(cs.drop_last()[i], kn).contains(e);
        assert(cs[i] == cs.drop_last()[i]);
    } else {
        assert(b[k - a.len()] == e);
        assert(class_edges(cs[cs.len() - 1], kn).contains(e));
    }
}

/// A name that survives the filter is not held by a field.
proof fn lemma_not_held(fields: Seq<FieldView>, refs: Seq<Seq<char>>, t: Seq<char>)
    requires
        not_held(fields, refs).contains(t),
    ensures
        !held_by_field(fields, t),
    decreases refs.len(),
{
    if refs.len() > 0 {
        let r = not_held(fields, refs.drop_last());
        if r.contains(t) {
            lemma_not_held(fields, refs.drop_last(), t);
        } else {
            let k = choose|k: int| 0 <= k < not_held(fields, refs).len() && not_held(fields, refs)[k] == t;
            assert(k == r.len());
        }
    }
}

/// What the dependency candidates of a class are made of.
proof fn lemma_method_edges(c: ClassView, kn: Seq<Seq<char>>, ms: Seq<MethodView>, e: RelationshipView)
    requires
        method_edges(c, kn, ms).contains(e),
    ensures
        e.from == c.name,
        e.kind == RelationshipKind::Dependency,
        !held_by_field(c.fields, e.to),
    decreases ms.len(),
{
    let a = method_edges(c, kn, ms.drop_last());
    let nh = not_held(c.fields, method_refs(ms.last(), kn, c.name));
    let b = edges_to(c.name, nh, RelationshipKind::Dependency);
    let k = choose|k: int| 0 <= k < (a + b).len() && (a + b)[k] == e;
    if k < a.len() {
        assert(a[k] == e);
        lemma_method_edges(c, kn, ms.drop_last(), e);
    } else {
        assert(b[k - a.len()] == e);
        assert(nh[k - a.len()] == e.to);
        lemma_not_held(c.fields, method_refs(ms.last(), kn, c.name), e.to);
    }
}

/// What the field candidates of a class are made of.
proof fn lemma_field_edges(name: Seq<char>, kn: Seq<Seq<char>>, fs: Seq<FieldView>, e: RelationshipView)
    requires
        field_edges(name, kn, fs).contains(e),
    ensures
        e.from == name,
        e.kind == RelationshipKind::Aggregation || e.kind == RelationshipKind::Composition,
    decreases fs.len(),
{
    let a = field_edges(name, kn, fs.drop_last());
    let f = fs.last();
    let b = edges_to(name, referenced_types(f.type_text, kn, name), field_kind(f.type_text));
    let k = choose|k: int| 0 <= k < (a + b).len() && (a + b)[k] == e;
    if k < a.len() {
        assert(a[k] == e);
        lemma_field_edges(name, kn, fs.drop_last(), e);
    } else {
        assert(b[k - a.len()] == e);
    }
}

/// Every type that a field mentions gives a candidate edge.
proof fn lemma_field_edges_complete(name: Seq<char>, kn: Seq<Seq<char>>, fs: Seq<FieldView>, i: int, t: Seq<char>)
    requires
        0 <= i < fs.len(),
        referenced_types(fs[i].type_text, kn, name).contains(t),
    ensures
        field_edges(name, kn, fs).contains(rel(name, t, field_kind(fs[i].type_text))),
    decreases fs.len(),
{
    let e = rel(name, t, field_kind(fs[i].type_text));
    let a = field_edges(name, kn, fs.drop_last());
    let f = fs.last();
    let ts = referenced_types(f.type_text, kn, name);
    let b = edges_to(name, ts, field_kind(f.type_text));
    if i == fs.len() - 1 {
        let k = choose|k: int| 0 <= k < ts.len() && ts[k] == t;
        assert(b[k] == e);
        assert((a + b)[a.len() + k] == e);
    } else {
        assert(fs.drop_last()[i] == fs[i]);
        lemma_field_edges_complete(name, kn, fs.drop_last(), i, t);
        let k = choose|k: int| 0 <= k < a.len() && a[k] == e;
        assert((a + b)[k] == e);
    }
}

/// Which parts of a class's candidate edges an edge can come from.
proof fn lemma_class_edges_parts(c: ClassView, kn: Seq<Seq<char>>, e: RelationshipView)
    requires
        class_edges(c, kn).contains(e),
    ensures
        e.from == c.name,
        e.kind == RelationshipKind::Inheritance ==> c.extends.contains(e.to),
        e.kind == RelationshipKind::Implementation ==> c.implements.contains(e.to),
        e.kind == RelationshipKind::Dependency ==> !held_by_field(c.fields, e.to),
        e.kind != RelationshipKind::Association,
{
    let ext = edges_to(c.name, c.extends, RelationshipKind::Inheritance);
    let imp = edges_to(c.name, c.implements, RelationshipKind::Implementation);
    let fe = field_edges(c.name, kn, c.fields);
    let me = method_edges(c, kn, c.methods);
    let all = ext + imp + fe + me;
    let k = choose|k: int| 0 <= k < all.len() && all[k] == e;
    if k < ext.len() {
        assert(ext[k] == e);
        assert(c.extends[k] == e.to);
    } else if k < ext.len() + imp.len() {
        assert(imp[k - ext.len()] == e);
        assert(c.implements[k - ext.len()] == e.to);
    } else if k < ext.len() + imp.len() + fe.len() {
        assert(fe[k - ext.len() - imp.len()] == e);
        lemma_field_edges(c.name, kn, c.fields, e);
    } else {
        assert(me[k - ext.len() - imp.len() - fe.len()] == e);
        lemma_method_edges(c, kn, c.methods, e);
    }
}

/// The edges of a diagram are distinct: the same relationship between the
/// same two classes is drawn once, however many declarations give it.
pub proof fn law_edges_are_distinct(classes: Seq<ClassView>)
    ensures
        distinct_edges(spec_relationships(classes)),
{
    lemma_add_rels_facts(seq![], class_names(classes), all_edges(classes, class_names(classes)));
}

/// Every edge joins two classes of the diagram, and no class points at
/// itself: a name that no class of the diagram bears gives no edge.
pub proof fn law_edges_join_distinct_known_classes(classes: Seq<ClassView>)
    ensures
        forall|k: int|
            0 <= k < spec_relationships(classes).len() ==> {
                let e = #[trigger] spec_relationships(classes)[k];
                &&& e.from != e.to
                &&& class_names(classes).contains(e.from)
                &&& class_names(classes).contains(e.to)
            },
{
    let kn = class_names(classes);
    let all = all_edges(classes, kn);
    lemma_add_rels_facts(seq![], kn, all);
    assert forall|k: int| 0 <= k < spec_relationships(classes).len() implies class_names(classes).contains(
        #[trigger] spec_relationships(classes)[k].from,
    ) by {
        let e = spec_relationships(classes)[k];
        assert(spec_relationships(classes).contains(e));
        assert(all.contains(e));
        lemma_all_edges_source(classes, kn, e);
        let i = choose|i: int| 0 <= i < classes.len() && #[trigger] class_edges(classes[i], kn).contains(e);
        lemma_class_edges_parts(classes[i], kn, e);
        assert(kn[i] == e.from);
    }
}

/// Every edge is one of the five kinds that declarations give
/// (inheritance, implementation, composition, aggregation, dependency):
/// no edge is an association.
pub proof fn law_no_edge_is_an_association(classes: Seq<ClassView>)
    ensures
        forall|k: int|
            0 <= k < spec_relationships(classes).len() ==> (#[trigger] spec_relationships(
                classes,
            )[k]).kind != RelationshipKind::Association,
{
    let kn = class_names(classes);
    let all = all_edges(classes, kn);
    lemma_add_rels_facts(seq![], kn, all);
    assert forall|k: int| 0 <= k < spec_relationships(classes).len() implies (
    #[trigger] spec_relationships(classes)[k]).kind != RelationshipKind::Association by {
        let e = spec_relationships(classes)[k];
        assert(spec_relationships(classes).contains(e));
        assert(all.contains(e));
        lemma_all_edges_source(classes, kn, e);
        let i = choose|i: int| 0 <= i < classes.len() && #[trigger] class_edges(classes[i], kn).contains(e);
        lemma_class_edges_parts(classes[i], kn, e);
    }
}

/// Every declared supertype that is another class of the diagram is drawn:
/// an inheritance edge for each `extends`, an implementation edge for each
/// `implements`.
pub proof fn law_declared_supertypes_are_drawn(classes: Seq<ClassView>, i: int, t: Seq<char>)
    requires
        0 <= i < classes.len(),
        class_names(classes).contains(t),
        t != classes[i].name,
    ensures
        classes[i].extends.contains(t) ==> spec_relationships(classes).contains(
            rel(classes[i].name, t, RelationshipKind::Inheritance),
        ),
        classes[i].implements.contains(t) ==> spec_relationships(classes).contains(
            rel(classes[i].name, t, RelationshipKind::Implementation),
        ),
{
    let kn = class_names(classes);
    let c = classes[i];
    lemma_add_rels_facts(seq![], kn, all_edges(classes, kn));
    let ext = edges_to(c.name, c.extends, RelationshipKind::Inheritance);
    let imp = edges_to(c.name, c.implements, RelationshipKind::Implementation);
    let rest = field_edges(c.name, kn, c.fields) + method_edges(c, kn, c.methods);
    assert(class_edges(c, kn) =~= ext + imp + rest);
    if c.extends.contains(t) {
        let k = choose|k: int| 0 <= k < c.extends.len() && c.extends[k] == t;
        assert(ext[k] == rel(c.name, t, RelationshipKind::Inheritance));
        assert((ext + imp + rest)[k] == ext[k]);
        lemma_all_edges_contains(classes, kn, i, rel(c.name, t, RelationshipKind::Inheritance));
    }
    if c.implements.contains(t) {
        let k = choose|k: int| 0 <= k < c.implements.len() && c.implements[k] == t;
        assert(imp[k] == rel(c.name, t, RelationshipKind::Implementation));
        assert((ext + imp + rest)[ext.len() + k] == imp[k]);
        lemma_all_edges_contains(classes, kn, i, rel(c.name, t, RelationshipKind::Implementation));
    }
}

/// Every class that a field's type mentions is drawn as composition, or as
/// aggregation when the field is a collection.
pub proof fn law_field_types_are_drawn(classes: Seq<ClassView>, i: int, f: int, t: Seq<char>)
    requires
        0 <= i < classes.len(),
        0 <= f < classes[i].fields.len(),
        referenced_types(classes[i].fields[f].type_text, class_names(classes), classes[i].name).contains(t),
    ensures
        spec_relationships(classes).contains(
            rel(classes[i].name, t, field_kind(classes[i].fields[f].type_text)),
        ),
{
    let kn = class_names(classes);
    let c = classes[i];
    let e = rel(c.name, t, field_kind(c.fields[f].type_text));
    lemma_add_rels_facts(seq![], kn, all_edges(classes, kn));
    lemma_field_edges_complete(c.name, kn, c.fields, f, t);
    let ext = edges_to(c.name, c.extends, RelationshipKind::Inheritance);
    let imp = edges_to(c.name, c.implements, RelationshipKind::Implementation);
    let fe = field_edges(c.name, kn, c.fields);
    let me = method_edges(c, kn, c.methods);
    let k = choose|k: int| 0 <= k < fe.len() && fe[k] == e;
    assert((ext + imp + fe + me)[ext.len() + imp.len() + k] == e);
    lemma_all_edges_contains(classes, kn, i, e);
    lemma_select_known_props(word_tokens(c.fields[f].type_text), kn, c.name, t);
}

/// Every class that a method's parameter or return type mentions, and that
/// no field of the class holds, is drawn as a dependency.
pub proof fn law_method_types_are_dependencies(classes: Seq<ClassView>, i: int, j: int, t: Seq<char>)
    requires
        0 <= i < classes.len(),
        0 <= j < classes[i].methods.len(),
        method_refs(classes[i].methods[j], class_names(classes), classes[i].name).contains(t),
        !held_by_field(classes[i].fields, t),
    ensures
        spec_relationships(classes).contains(rel(classes[i].name, t, RelationshipKind::Dependency)),
{
    let kn = class_names(classes);
    let c = classes[i];
    let e = rel(c.name, t, RelationshipKind::Dependency);
    lemma_add_rels_facts(seq![], kn, all_edges(classes, kn));
    lemma_method_refs_props(c.methods[j], kn, c.name, t);
    lemma_not_held_complete(c.fields, method_refs(c.methods[j], kn, c.name), t);
    lemma_method_edges_complete(c, kn, c.methods, j, t);
    let ext = edges_to(c.name, c.extends, RelationshipKind::Inheritance);
    let imp = edges_to(c.name, c.implements, RelationshipKind::Implementation);
    let fe = field_edges(c.name, kn, c.fields);
    let me = method_edges(c, kn, c.methods);
    let k = choose|k: int| 0 <= k < me.len() && me[k] == e;
    assert((ext + imp + fe + me)[ext.len() + imp.len() + fe.len() + k] == e);
    lemma_all_edges_contains(classes, kn, i, e);
}

/// Adding one edge keeps a list of distinct edges distinct, leaves it as it
/// was or appends the edge at its end, and adding the same edge again
/// changes nothing.
pub proof fn law_adding_an_edge_is_idempotent(
    list: Seq<RelationshipView>,
    known: Seq<Seq<char>>,
    r: RelationshipView,
)
    requires
        distinct_edges(list),
    ensures
        distinct_edges(add_rel(list, known, r)),
        add_rel(list, known, r) == list || add_rel(list, known, r) == list.push(r),
        add_rel(add_rel(list, known, r), known, r) == add_rel(list, known, r),
{
    let once = add_rel(list, known, r);
    if once != list {
        assert(!list.contains(r));
        assert forall|a: int, b: int| 0 <= a < b < once.len() implies once[a] != once[b] by {
            if b == once.len() - 1 {
                assert(once[b] == r);
                assert(once[a] == list[a]);
            } else {
                assert(once[a] == list[a] && once[b] == list[b]);
            }
        }
        assert(once[once.len() - 1] == r);
        assert(once.contains(r));
    }
}

/// A dependency edge is drawn only for a type that no field of the class
/// holds: some class with the edge's source name has no field whose type
/// contains the target's name.
pub proof fn law_dependencies_are_not_held_by_fields(classes: Seq<ClassView>, k: int)
    requires
        0 <= k < spec_relationships(classes).len(),
        spec_relationships(classes)[k].kind == RelationshipKind::Dependency,
    ensures
        exists|i: int|
            0 <= i < classes.len() && #[trigger] classes[i].name == spec_relationships(classes)[k].from
                && !held_by_field(classes[i].fields, spec_relationships(classes)[k].to),
{
    let kn = class_names(classes);
    let e = spec_relationships(classes)[k];
    lemma_add_rels_facts(seq![], kn, all_edges(classes, kn));
    assert(spec_relationships(classes).contains(e));
    lemma_all_edges_source(classes, kn, e);
    let i = choose|i: int| 0 <= i < classes.len() && #[trigger] class_edges(classes[i], kn).contains(e);
    lemma_class_edges_parts(classes[i], kn, e);
}

/// A referenced type names a known class other than the class itself.
proof fn lemma_select_known_props(tokens: Seq<Seq<char>>, known: Seq<Seq<char>>, self_name: Seq<char>, t: Seq<char>)
    requires
        select_known(tokens, known, self_name).contains(t),
    ensures
        known.contains(t),
        t != self_name,
    decreases tokens.len(),
{
    if tokens.len() > 0 {
        let r = select_known(tokens.drop_last(), known, self_name);
        if r.contains(t) {
            lemma_select_known_props(tokens.drop_last(), known, self_name, t);
        } else {
            let s = select_known(tokens, known, self_name);
            let k = choose|k: int| 0 <= k < s.len() && s[k] == t;
            assert(k == r.len());
        }
    }
}

/// A name mentioned by a method's types is a known class other than the
/// class itself.
proof fn lemma_method_refs_props(m: MethodView, known: Seq<Seq<char>>, self_name: Seq<char>, t: Seq<char>)
    requires
        method_refs(m, known, self_name).contains(t),
    ensures
        known.contains(t),
        t != self_name,
{
    let a = param_refs(m.params, known, self_name);
    let b = referenced_types(m.return_type, known, self_name);
    let k = choose|k: int| 0 <= k < (a + b).len() && (a + b)[k] == t;
    if k < a.len() {
        assert(a[k] == t);
        lemma_param_refs_props(m.params, known, self_name, t);
    } else {
        assert(b[k - a.len()] == t);
        lemma_select_known_props(word_tokens(m.return_type), known, self_name, t);
    }
}

/// A name mentioned by parameter types is a known class other than the
/// class itself.
proof fn lemma_param_refs_props(ps: Seq<ParamView>, known: Seq<Seq<char>>, self_name: Seq<char>, t: Seq<char>)
    requires
        param_refs(ps, known, self_name).contains(t),
    ensures
        known.contains(t),
        t != self_name,
    decreases ps.len(),
{
    let a = param_refs(ps.drop_last(), known, self_name);
    let b = referenced_types(ps.last().type_text, known, self_name);
    let k = choose|k: int| 0 <= k < (a + b).len() && (a + b)[k] == t;
    if k < a.len() {
        assert(a[k] == t);
        lemma_param_refs_props(ps.drop_last(), known, self_name, t);
    } else {
        assert(b[k - a.len()] == t);
        lemma_select_known_props(word_tokens(ps.last().type_text), known, self_name, t);
    }
}

/// A mentioned name that no field holds survives the filter.
proof fn lemma_not_held_complete(fields: Seq<FieldView>, refs: Seq<Seq<char>>, t: Seq<char>)
    requires
        refs.contains(t),
        !held_by_field(fields, t),
    ensures
        not_held(fields, refs).contains(t),
    decreases refs.len(),
{
    let r = not_held(fields, refs.drop_last());
    if refs.last() == t {
        assert(not_held(fields, refs) == r.push(t));
        assert(not_held(fields, refs)[r.len() as int] == t);
    } else {
        let k = choose|k: int| 0 <= k < refs.len() && refs[k] == t;
        assert(refs.drop_last()[k] == t);
        lemma_not_held_complete(fields, refs.drop_last(), t);
        let m = choose|m: int| 0 <= m < r.len() && r[m] == t;
        assert(not_held(fields, refs)[m] == t);
    }
}

/// Every name that method `j` mentions and no field holds gives a candidate
/// dependency edge.
proof fn lemma_method_edges_complete(c: ClassView, kn: Seq<Seq<char>>, ms: Seq<MethodView>, j: int, t: Seq<char>)
    requires
        0 <= j < ms.len(),
        not_held(c.fields, method_refs(ms[j], kn, c.name)).contains(t),
    ensures
        method_edges(c, kn, ms).contains(rel(c.name, t, RelationshipKind::Dependency)),
    decreases ms.len(),
{
    let e = rel(c.name, t, RelationshipKind::Dependency);
    let a = method_edges(c, kn, ms.drop_last());
    let nh = not_held(c.fields, method_refs(ms.last(), kn, c.name));
    let b = edges_to(c.name, nh, RelationshipKind::Dependency);
    if j == ms.len() - 1 {
        let k = choose|k: int| 0 <= k < nh.len() && nh[k] == t;
        assert(b[k] == e);
        assert((a + b)[a.len() + k] == e);
    } else {
        assert(ms.drop_last()[j] == ms[j]);
        lemma_method_edges_complete(c, kn, ms.drop_last(), j, t);
        let k = choose|k: int| 0 <= k < a.len() && a[k] == e;
        assert((a + b)[k] == e);
    }
}

} // verus!
