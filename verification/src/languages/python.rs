//! Python: classes with their bases, class-level attributes, `self.x`
//! assignments as instance fields, methods and decorators; `ABC` bases make
//! a class abstract and `Enum`-family bases make it an enum.

use vstd::prelude::*;
use crate::model::{
    fields_carry,
    ClassKind, ClassNode, ClassView, FieldNode, FieldView, MethodNode, MethodView, Param,
    ParamView, Visibility,
};
use crate::parsing::{copies, line_bound, lines_within, parsed_tree, syntax_tree, Grammar};
use crate::syntax::{
    child_by_field, child_with_field, field_text_or, has_kind, kind_is, node_text, text_of,
    text_or, SyntaxNode,
};
use crate::text::{contains_string, ends_with, starts_with, str_eq, string_of_range, to_chars};

verus! {

/// Bases that make a class an enum.
pub open spec fn is_enum_base(b: Seq<char>) -> bool {
    b == "Enum"@ || b == "IntEnum"@ || b == "Flag"@ || b == "IntFlag"@ || b == "StrEnum"@
}

/// Bases that make a class abstract.
pub open spec fn is_abstract_base(b: Seq<char>) -> bool {
    b == "ABC"@ || b == "ABCMeta"@
}

/// Bases that are not drawn as supertypes.
pub open spec fn is_hidden_base(b: Seq<char>) -> bool {
    is_abstract_base(b) || b == "object"@ || b == "Generic"@ || is_enum_base(b)
}

/// Visibility by naming convention: `__name` (not a dunder) is private,
/// `_name` protected, anything else public.
pub open spec fn py_visibility(name: Seq<char>) -> Visibility {
    if "__"@.is_prefix_of(name) && !"__"@.is_suffix_of(name) {
        Visibility::Private
    } else if "_"@.is_prefix_of(name) {
        Visibility::Protected
    } else {
        Visibility::Public
    }
}

/// The texts of the identifier and attribute nodes among `s`.
pub open spec fn base_name_list(src: Seq<char>, s: Seq<SyntaxNode>) -> Seq<Seq<char>>
    decreases s.len(),
{
    if s.len() == 0 {
        seq![]
    } else if kind_is(s.last(), "identifier"@) || kind_is(s.last(), "attribute"@) {
        base_name_list(src, s.drop_last()).push(text_of(src, s.last()))
    } else {
        base_name_list(src, s.drop_last())
    }
}

/// The bases listed in a class's `superclasses`.
pub open spec fn py_base_names(src: Seq<char>, n: SyntaxNode) -> Seq<Seq<char>> {
    match child_with_field(n, "superclasses"@) {
        Some(s) => base_name_list(src, s.children@),
        None => seq![],
    }
}

/// The bases drawn as supertypes.
pub open spec fn drawn_bases(bases: Seq<Seq<char>>) -> Seq<Seq<char>>
    decreases bases.len(),
{
    if bases.len() == 0 {
        seq![]
    } else if is_hidden_base(bases.last()) {
        drawn_bases(bases.drop_last())
    } else {
        drawn_bases(bases.drop_last()).push(bases.last())
    }
}

/// Whether some field in `fs` has the name `name`.
pub open spec fn has_field_named(fs: Seq<FieldView>, name: Seq<char>) -> bool {
    exists|i: int| 0 <= i < fs.len() && #[trigger] fs[i].name == name
}

/// Adds `f` unless a field of that name is already there.
pub open spec fn add_field(fs: Seq<FieldView>, f: FieldView) -> Seq<FieldView> {
    if has_field_named(fs, f.name) {
        fs
    } else {
        fs.push(f)
    }
}

/// The class-level attribute an expression statement declares: `name = v`,
/// `name: T = v` (static) or a bare annotation `name: T` (not static).
pub open spec fn class_level_field_spec(src: Seq<char>, e: SyntaxNode) -> Option<FieldView> {
    if e.children@.len() > 0 && kind_is(e.children@[0], "assignment"@) {
        let a = e.children@[0];
        match child_with_field(a, "left"@) {
            Some(l) => if kind_is(l, "identifier"@) {
                Some(
                    FieldView {
                        name: text_of(src, l),
                        type_text: text_or(src, child_with_field(a, "type"@), "any"@),
                        visibility: py_visibility(text_of(src, l)),
                        is_static: child_with_field(a, "right"@) is Some,
                        line: a.line,
                    },
                )
            } else {
                None
            },
            None => None,
        }
    } else {
        None
    }
}

/// The instance field that an assignment `self.name = ...` declares.
pub open spec fn self_assignment(src: Seq<char>, n: SyntaxNode) -> Option<FieldView> {
    if kind_is(n, "assignment"@) && (child_with_field(n, "left"@) matches Some(l) && kind_is(
        l,
        "attribute"@,
    ) && (child_with_field(l, "object"@) matches Some(o) && kind_is(o, "identifier"@) && text_of(
        src,
        o,
    ) == "self"@) && child_with_field(l, "attribute"@) is Some) {
        let name = text_of(src, child_with_field(child_with_field(n, "left"@)->0, "attribute"@)->0);
        Some(
            FieldView {
                name,
                type_text: text_or(src, child_with_field(n, "type"@), "any"@),
                visibility: py_visibility(name),
                is_static: false,
                line: n.line,
            },
        )
    } else {
        None
    }
}

/// `fs` extended by the `self.x` assignments in the tree below `n`, in
/// document order, not descending into nested function definitions.
pub open spec fn self_fields(src: Seq<char>, n: SyntaxNode, fs: Seq<FieldView>) -> Seq<FieldView>
    decreases n,
{
    let fs1 = match self_assignment(src, n) {
        Some(f) => add_field(fs, f),
        None => fs,
    };
    if kind_is(n, "function_definition"@) {
        fs1
    } else {
        self_fields_in(src, n.children@, fs1)
    }
}

/// [`self_fields`] over the trees `s` in turn.
pub open spec fn self_fields_in(src: Seq<char>, s: Seq<SyntaxNode>, fs: Seq<FieldView>) -> Seq<FieldView>
    decreases s,
{
    if s.len() == 0 {
        fs
    } else {
        self_fields_in(src, s.drop_first(), self_fields(src, s[0], fs))
    }
}

/// `fs` extended by the instance fields a function's body assigns.
pub open spec fn collect_self(src: Seq<char>, func: SyntaxNode, fs: Seq<FieldView>) -> Seq<FieldView> {
    match child_with_field(func, "body"@) {
        Some(b) => self_fields(src, b, fs),
        None => fs,
    }
}

/// The part of `s` after its last `(` or `.`.
pub open spec fn after_last_separator(s: Seq<char>) -> Seq<char>
    decreases s.len(),
{
    if s.len() == 0 || s.last() == '(' || s.last() == '.' {
        seq![]
    } else {
        after_last_separator(s.drop_last()).push(s.last())
    }
}

/// The first identifier, attribute or call among `s`.
pub open spec fn first_decorator_target(s: Seq<SyntaxNode>) -> Option<SyntaxNode>
    decreases s.len(),
{
    if s.len() == 0 {
        None
    } else if kind_is(s[0], "identifier"@) || kind_is(s[0], "attribute"@) || kind_is(s[0], "call"@) {
        Some(s[0])
    } else {
        first_decorator_target(s.drop_first())
    }
}

/// The names of the decorators among `s`: `@abc.abstractmethod` gives
/// `abstractmethod`.
pub open spec fn decorator_list(src: Seq<char>, s: Seq<SyntaxNode>) -> Seq<Seq<char>>
    decreases s.len(),
{
    if s.len() == 0 {
        seq![]
    } else {
        let r = decorator_list(src, s.drop_last());
        let d = s.last();
        if kind_is(d, "decorator"@) {
            match first_decorator_target(d.children@) {
                Some(t) => r.push(after_last_separator(text_of(src, t))),
                None => r,
            }
        } else {
            r
        }
    }
}

/// The parameters of a parameter list, without `self` and `cls`.
pub open spec fn py_params(src: Seq<char>, s: Seq<SyntaxNode>) -> Seq<ParamView>
    decreases s.len(),
{
    if s.len() == 0 {
        seq![]
    } else {
        let r = py_params(src, s.drop_last());
        let p = s.last();
        if kind_is(p, "identifier"@) {
            if text_of(src, p) == "self"@ || text_of(src, p) == "cls"@ {
                r
            } else {
                r.push(ParamView { name: text_of(src, p), type_text: "any"@ })
            }
        } else if kind_is(p, "typed_parameter"@) {
            r.push(
                ParamView {
                    name: if p.children@.len() > 0 {
                        text_of(src, p.children@[0])
                    } else {
                        ""@
                    },
                    type_text: text_or(src, child_with_field(p, "type"@), "any"@),
                },
            )
        } else if kind_is(p, "default_parameter"@) || kind_is(p, "typed_default_parameter"@) {
            r.push(
                ParamView {
                    name: text_or(src, child_with_field(p, "name"@), ""@),
                    type_text: text_or(src, child_with_field(p, "type"@), "any"@),
                },
            )
        } else {
            r
        }
    }
}

/// A function definition inside a class body.
pub open spec fn py_method(src: Seq<char>, func: SyntaxNode, is_static: bool, is_abstract: bool) -> MethodView {
    let name = text_or(src, child_with_field(func, "name"@), ""@);
    MethodView {
        name,
        params: match child_with_field(func, "parameters"@) {
            Some(ps) => py_params(src, ps.children@),
            None => seq![],
        },
        return_type: text_or(src, child_with_field(func, "return_type"@), "any"@),
        visibility: py_visibility(name),
        is_static,
        is_abstract,
        line: func.line,
    }
}

/// The fields and methods declared by the statements `s` of a class body.
pub open spec fn py_member_list(src: Seq<char>, s: Seq<SyntaxNode>) -> (Seq<FieldView>, Seq<MethodView>)
    decreases s.len(),
{
    if s.len() == 0 {
        (seq![], seq![])
    } else {
        let (fs, ms) = py_member_list(src, s.drop_last());
        let m = s.last();
        if kind_is(m, "expression_statement"@) {
            match class_level_field_spec(src, m) {
                Some(f) => (add_field(fs, f), ms),
                None => (fs, ms),
            }
        } else if kind_is(m, "function_definition"@) {
            (collect_self(src, m, fs), ms.push(py_method(src, m, false, false)))
        } else if kind_is(m, "decorated_definition"@) && (child_with_field(m, "definition"@) matches Some(
            f,
        ) && kind_is(f, "function_definition"@)) {
            let func = child_with_field(m, "definition"@)->0;
            let decorators = decorator_list(src, m.children@);
            (
                collect_self(src, func, fs),
                ms.push(
                    py_method(
                        src,
                        func,
                        decorators.contains("staticmethod"@) || decorators.contains("classmethod"@),
                        decorators.contains("abstractmethod"@),
                    ),
                ),
            )
        } else {
            (fs, ms)
        }
    }
}

/// The fields and methods of a class body.
pub open spec fn py_members(src: Seq<char>, n: SyntaxNode) -> (Seq<FieldView>, Seq<MethodView>) {
    match child_with_field(n, "body"@) {
        Some(b) => py_member_list(src, b.children@),
        None => (seq![], seq![]),
    }
}

/// Whether one of the bases makes the class an enum.
pub open spec fn has_enum_base(bases: Seq<Seq<char>>) -> bool {
    exists|i: int| 0 <= i < bases.len() && is_enum_base(#[trigger] bases[i])
}

/// Whether one of the bases makes the class abstract.
pub open spec fn has_abstract_base(bases: Seq<Seq<char>>) -> bool {
    exists|i: int| 0 <= i < bases.len() && is_abstract_base(#[trigger] bases[i])
}

/// A `class_definition`. An enum has no methods in the diagram.
pub open spec fn py_class(src: Seq<char>, file: Seq<char>, n: SyntaxNode) -> ClassView {
    let name = text_or(src, child_with_field(n, "name"@), "Anonymous"@);
    let bases = py_base_names(src, n);
    let is_enum = has_enum_base(bases);
    ClassView {
        id: name,
        name,
        kind: if is_enum {
            ClassKind::Enum
        } else if has_abstract_base(bases) {
            ClassKind::AbstractClass
        } else {
            ClassKind::Class
        },
        file,
        line: n.line,
        fields: py_members(src, n).0,
        methods: if is_enum {
            seq![]
        } else {
            py_members(src, n).1
        },
        extends: drawn_bases(bases),
        implements: seq![],
    }
}

/// The classes defined in the tree below `n`, `n` included, in document
/// order.
pub open spec fn py_classes(src: Seq<char>, file: Seq<char>, n: SyntaxNode) -> Seq<ClassView>
    decreases n,
{
    (if kind_is(n, "class_definition"@) {
        seq![py_class(src, file, n)]
    } else {
        seq![]
    }) + py_classes_in(src, file, n.children@)
}

/// The classes defined in the trees `s`, in order.
pub open spec fn py_classes_in(src: Seq<char>, file: Seq<char>, s: Seq<SyntaxNode>) -> Seq<ClassView>
    decreases s,
{
    if s.len() == 0 {
        seq![]
    } else {
        py_classes_in(src, file, s.drop_last()) + py_classes(src, file, s.last())
    }
}

/// Visibility by naming convention: [`py_visibility`].
pub fn visibility_of(name: &str) -> (r: Visibility)
    ensures
        r == py_visibility(name@),
{
    if starts_with(name, "__") && !ends_with(name, "__") {
        Visibility::Private
    } else if starts_with(name, "_") {
        Visibility::Protected
    } else {
        Visibility::Public
    }
}

/// [`py_base_names`].
fn base_names(src: &str, n: &SyntaxNode) -> (r: Vec<String>)
    ensures
        r.deep_view() == py_base_names(src@, *n),
{
    let mut r: Vec<String> = Vec::new();
    let sc = match child_by_field(n, "superclasses") {
        Some(x) => x,
        None => {
            return r;
        },
    };
    let ghost s = sc.children@;
    let len = sc.children.len();
    assert(s.take(0) =~= seq![]);
    for i in 0..len
        invariant
            len == sc.children.len(),
            s == sc.children@,
            r.deep_view() == base_name_list(src@, s.take(i as int)),
    {
        assert(s.take(i + 1).drop_last() =~= s.take(i as int));
        let c = &sc.children[i];
        if has_kind(c, "identifier") || has_kind(c, "attribute") {
            let ghost before = r.deep_view();
            r.push(node_text(src, c).to_owned());
            assert(r.deep_view() =~= before.push(text_of(src@, *c)));
        }
    }
    assert(s.take(len as int) =~= s);
    r
}

/// [`is_enum_base`].
fn enum_base(b: &str) -> (r: bool)
    ensures
        r == is_enum_base(b@),
{
    str_eq(b, "Enum") || str_eq(b, "IntEnum") || str_eq(b, "Flag") || str_eq(b, "IntFlag") || str_eq(
        b,
        "StrEnum",
    )
}

/// [`is_abstract_base`].
fn abstract_base(b: &str) -> (r: bool)
    ensures
        r == is_abstract_base(b@),
{
    str_eq(b, "ABC") || str_eq(b, "ABCMeta")
}

/// ([`has_enum_base`], [`has_abstract_base`]).
fn base_flags(bases: &Vec<String>) -> (r: (bool, bool))
    ensures
        r.0 == has_enum_base(bases.deep_view()),
        r.1 == has_abstract_base(bases.deep_view()),
{
    let ghost b = bases.deep_view();
    let mut is_enum = false;
    let mut is_abstract = false;
    let len = bases.len();
    for i in 0..len
        invariant
            len == bases.len(),
            b == bases.deep_view(),
            is_enum == (exists|j: int| 0 <= j < i && is_enum_base(#[trigger] b[j])),
            is_abstract == (exists|j: int| 0 <= j < i && is_abstract_base(#[trigger] b[j])),
    {
        assert(b[i as int] == bases[i as int]@);
        if enum_base(bases[i].as_str()) {
            is_enum = true;
        }
        if abstract_base(bases[i].as_str()) {
            is_abstract = true;
        }
        assert(is_enum == (exists|j: int| 0 <= j < i + 1 && is_enum_base(#[trigger] b[j]))) by {
            if is_enum_base(b[i as int]) {
                assert(0 <= i < i + 1 && is_enum_base(b[i as int]));
            }
        }
        assert(is_abstract == (exists|j: int| 0 <= j < i + 1 && is_abstract_base(#[trigger] b[j]))) by {
            if is_abstract_base(b[i as int]) {
                assert(0 <= i < i + 1 && is_abstract_base(b[i as int]));
            }
        }
    }
    (is_enum, is_abstract)
}

/// [`drawn_bases`].
fn drawn_bases_of(bases: &Vec<String>) -> (r: Vec<String>)
    ensures
        r.deep_view() == drawn_bases(bases.deep_view()),
{
    let ghost b = bases.deep_view();
    let mut r: Vec<String> = Vec::new();
    let len = bases.len();
    assert(b.take(0) =~= seq![]);
    for i in 0..len
        invariant
            len == bases.len(),
            b == bases.deep_view(),
            r.deep_view() == drawn_bases(b.take(i as int)),
    {
        assert(b.take(i + 1).drop_last() =~= b.take(i as int));
        assert(b[i as int] == bases[i as int]@);
        let t = bases[i].as_str();
        if !(abstract_base(t) || str_eq(t, "object") || str_eq(t, "Generic") || enum_base(t)) {
            let ghost before = r.deep_view();
            r.push(bases[i].clone());
            assert(r.deep_view() =~= before.push(b[i as int]));
        }
    }
    assert(b.take(len as int) =~= b);
    r
}

/// Whether a field named `name` is already in `fields`: [`has_field_named`].
fn field_named(fields: &Vec<FieldNode>, name: &str) -> (r: bool)
    ensures
        r == has_field_named(fields.deep_view(), name@),
{
    let len = fields.len();
    for i in 0..len
        invariant
            len == fields.len(),
            forall|j: int| 0 <= j < i ==> #[trigger] fields.deep_view()[j].name != name@,
    {
        assert(fields.deep_view()[i as int] == fields[i as int]@);
        if str_eq(fields[i].name.as_str(), name) {
            assert(fields.deep_view()[i as int].name == name@);
            return true;
        }
    }
    false
}

/// Adds `f` unless a field of that name is there: [`add_field`].
fn add_field_node(fields: &mut Vec<FieldNode>, f: FieldNode)
    ensures
        final(fields).deep_view() == add_field(old(fields).deep_view(), f@),
{
    if !field_named(fields, f.name.as_str()) {
        let ghost before = fields.deep_view();
        let ghost fv = f@;
        fields.push(f);
        assert(fields.deep_view() =~= before.push(fv));
    }
}

/// [`class_level_field_spec`].
fn class_level_field(src: &str, e: &SyntaxNode) -> (r: Option<FieldNode>)
    ensures
        match r {
            Some(f) => class_level_field_spec(src@, *e) == Some(f@),
            None => class_level_field_spec(src@, *e) is None,
        },
{
    if e.children.len() == 0 || !has_kind(&e.children[0], "assignment") {
        return None;
    }
    let a = &e.children[0];
    let l = match child_by_field(a, "left") {
        Some(l) => l,
        None => {
            return None;
        },
    };
    if !has_kind(l, "identifier") {
        return None;
    }
    let name = node_text(src, l);
    Some(
        FieldNode {
            name: name.to_owned(),
            type_text: field_text_or(src, a, "type", "any"),
            visibility: visibility_of(name),
            is_static: child_by_field(a, "right").is_some(),
            line: a.line,
        },
    )
}

/// [`self_assignment`].
fn self_assignment_field(src: &str, n: &SyntaxNode) -> (r: Option<FieldNode>)
    ensures
        match r {
            Some(f) => self_assignment(src@, *n) == Some(f@),
            None => self_assignment(src@, *n) is None,
        },
{
    if !has_kind(n, "assignment") {
        return None;
    }
    let l = match child_by_field(n, "left") {
        Some(l) => l,
        None => {
            return None;
        },
    };
    if !has_kind(l, "attribute") {
        return None;
    }
    let o = match child_by_field(l, "object") {
        Some(o) => o,
        None => {
            return None;
        },
    };
    if !has_kind(o, "identifier") || !str_eq(node_text(src, o), "self") {
        return None;
    }
    let attr = match child_by_field(l, "attribute") {
        Some(a) => a,
        None => {
            return None;
        },
    };
    let name = node_text(src, attr);
    Some(
        FieldNode {
            name: name.to_owned(),
            type_text: field_text_or(src, n, "type", "any"),
            visibility: visibility_of(name),
            is_static: false,
            line: n.line,
        },
    )
}

/// Adds the `self.x` assignments below `n`: [`self_fields`].
fn find_self_assignments(src: &str, n: &SyntaxNode, fields: &mut Vec<FieldNode>)
    ensures
        final(fields).deep_view() == self_fields(src@, *n, old(fields).deep_view()),
    decreases n,
{
    let ghost f0 = fields.deep_view();
    if let Some(f) = self_assignment_field(src, n) {
        add_field_node(fields, f);
    }
    if has_kind(n, "function_definition") {
        return;
    }
    let ghost f1 = fields.deep_view();
    let ghost s = n.children@;
    let len = n.children.len();
    assert(s.skip(0) =~= s);
    for i in 0..len
        invariant
            len == n.children.len(),
            s == n.children@,
            self_fields_in(src@, s, f1) == self_fields_in(src@, s.skip(i as int), fields.deep_view()),
    {
        assert(s.skip(i as int)[0] == s[i as int]);
        assert(s.skip(i as int).drop_first() =~= s.skip(i + 1));
        find_self_assignments(src, &n.children[i], fields);
    }
    assert(s.skip(len as int) =~= seq![]);
}

/// Adds the instance fields a function's body assigns: [`collect_self`].
fn collect_self_fields(src: &str, func: &SyntaxNode, fields: &mut Vec<FieldNode>)
    ensures
        final(fields).deep_view() == collect_self(src@, *func, old(fields).deep_view()),
{
    if let Some(b) = child_by_field(func, "body") {
        find_self_assignments(src, b, fields);
    }
}

/// The part of `s` after its last `(` or `.`: [`after_last_separator`].
pub fn last_segment(s: &str) -> (r: String)
    ensures
        r@ == after_last_separator(s@),
{
    let v = to_chars(s);
    let n = v.len();
    let mut j = n;
    assert(v@.take(n as int) =~= v@);
    assert(v@.subrange(n as int, n as int) =~= seq![]);
    while j > 0 && v[j - 1] != '(' && v[j - 1] != '.'
        invariant
            j <= n == v.len(),
            v@ == s@,
            after_last_separator(s@) == after_last_separator(v@.take(j as int)) + v@.subrange(j as int, n as int),
        decreases j,
    {
        assert(v@.take(j as int).drop_last() =~= v@.take(j - 1));
        assert(v@.take(j as int).last() == v@[j - 1]);
        assert(v@.subrange(j - 1, n as int) =~= seq![v@[j - 1]] + v@.subrange(j as int, n as int));
        assert(after_last_separator(v@.take(j - 1)).push(v@[j - 1]) + v@.subrange(j as int, n as int)
            =~= after_last_separator(v@.take(j - 1)) + v@.subrange(j - 1, n as int));
        j = j - 1;
    }
    assert(after_last_separator(v@.take(j as int)) =~= seq![]);
    assert(seq![] + v@.subrange(j as int, n as int) =~= v@.subrange(j as int, n as int));
    string_of_range(&v, j, n)
}

/// [`first_decorator_target`] among the children of `d`.
fn decorator_target(d: &SyntaxNode) -> (r: Option<&SyntaxNode>)
    ensures
        match r {
            Some(t) => first_decorator_target(d.children@) == Some(*t),
            None => first_decorator_target(d.children@) is None,
        },
{
    let ghost s = d.children@;
    let len = d.children.len();
    assert(s.skip(0) =~= s);
    for i in 0..len
        invariant
            len == d.children.len(),
            s == d.children@,
            first_decorator_target(s) == first_decorator_target(s.skip(i as int)),
    {
        assert(s.skip(i as int)[0] == s[i as int]);
        assert(s.skip(i as int).drop_first() =~= s.skip(i + 1));
        let c = &d.children[i];
        if has_kind(c, "identifier") || has_kind(c, "attribute") || has_kind(c, "call") {
            return Some(c);
        }
    }
    None
}

/// [`decorator_list`] of the children of a decorated definition.
fn decorator_names(src: &str, m: &SyntaxNode) -> (r: Vec<String>)
    ensures
        r.deep_view() == decorator_list(src@, m.children@),
{
    let mut r: Vec<String> = Vec::new();
    let ghost s = m.children@;
    let len = m.children.len();
    assert(s.take(0) =~= seq![]);
    for i in 0..len
        invariant
            len == m.children.len(),
            s == m.children@,
            r.deep_view() == decorator_list(src@, s.take(i as int)),
    {
        assert(s.take(i + 1).drop_last() =~= s.take(i as int));
        let d = &m.children[i];
        if has_kind(d, "decorator") {
            if let Some(t) = decorator_target(d) {
                let ghost before = r.deep_view();
                r.push(last_segment(node_text(src, t)));
                assert(r.deep_view() =~= before.push(after_last_separator(text_of(src@, *t))));
            }
        }
    }
    assert(s.take(len as int) =~= s);
    r
}

/// [`py_params`] of the children of a parameter list.
fn params_of(src: &str, ps: &SyntaxNode) -> (r: Vec<Param>)
    ensures
        r.deep_view() == py_params(src@, ps.children@),
{
    let mut r: Vec<Param> = Vec::new();
    let ghost s = ps.children@;
    let len = ps.children.len();
    assert(s.take(0) =~= seq![]);
    for i in 0..len
        invariant
            len == ps.children.len(),
            s == ps.children@,
            r.deep_view() == py_params(src@, s.take(i as int)),
    {
        assert(s.take(i + 1).drop_last() =~= s.take(i as int));
        let p = &ps.children[i];
        let ghost before = r.deep_view();
        if has_kind(p, "identifier") {
            let t = node_text(src, p);
            if !(str_eq(t, "self") || str_eq(t, "cls")) {
                r.push(Param { name: t.to_owned(), type_text: "any".to_owned() });
                assert(r.deep_view() =~= before.push(r[r.len() - 1]@));
            }
        } else if has_kind(p, "typed_parameter") {
            let name = if p.children.len() > 0 {
                node_text(src, &p.children[0]).to_owned()
            } else {
                "".to_owned()
            };
            r.push(Param { name, type_text: field_text_or(src, p, "type", "any") });
            assert(r.deep_view() =~= before.push(r[r.len() - 1]@));
        } else if has_kind(p, "default_parameter") || has_kind(p, "typed_default_parameter") {
            r.push(
                Param {
                    name: field_text_or(src, p, "name", ""),
                    type_text: field_text_or(src, p, "type", "any"),
                },
            );
            assert(r.deep_view() =~= before.push(r[r.len() - 1]@));
        }
    }
    assert(s.take(len as int) =~= s);
    r
}

/// [`py_method`].
fn extract_method(src: &str, func: &SyntaxNode, is_static: bool, is_abstract: bool) -> (r: MethodNode)
    ensures
        r@ == py_method(src@, *func, is_static, is_abstract),
{
    let name = field_text_or(src, func, "name", "");
    let params = match child_by_field(func, "parameters") {
        Some(ps) => params_of(src, ps),
        None => Vec::new(),
    };
    let visibility = visibility_of(name.as_str());
    let r = MethodNode {
        name,
        params,
        return_type: field_text_or(src, func, "return_type", "any"),
        visibility,
        is_static,
        is_abstract,
        line: func.line,
    };
    assert(r@.params =~= py_method(src@, *func, is_static, is_abstract).params);
    r
}

/// [`py_members`].
fn extract_members(src: &str, n: &SyntaxNode) -> (r: (Vec<FieldNode>, Vec<MethodNode>))
    ensures
        r.0.deep_view() == py_members(src@, *n).0,
        r.1.deep_view() == py_members(src@, *n).1,
{
    let mut fields: Vec<FieldNode> = Vec::new();
    let mut methods: Vec<MethodNode> = Vec::new();
    let body = match child_by_field(n, "body") {
        Some(b) => b,
        None => {
            return (fields, methods);
        },
    };
    let ghost s = body.children@;
    let len = body.children.len();
    assert(s.take(0) =~= seq![]);
    for i in 0..len
        invariant
            len == body.children.len(),
            s == body.children@,
            fields.deep_view() == py_member_list(src@, s.take(i as int)).0,
            methods.deep_view() == py_member_list(src@, s.take(i as int)).1,
    {
        assert(s.take(i + 1).drop_last() =~= s.take(i as int));
        let m = &body.children[i];
        let ghost mb = methods.deep_view();
        if has_kind(m, "expression_statement") {
            if let Some(f) = class_level_field(src, m) {
                add_field_node(&mut fields, f);
            }
        } else if has_kind(m, "function_definition") {
            collect_self_fields(src, m, &mut fields);
            methods.push(extract_method(src, m, false, false));
            assert(methods.deep_view() =~= mb.push(py_method(src@, *m, false, false)));
        } else if has_kind(m, "decorated_definition") {
            if let Some(func) = child_by_field(m, "definition") {
                if has_kind(func, "function_definition") {
                    let decorators = decorator_names(src, m);
                    let is_static = contains_string(&decorators, "staticmethod") || contains_string(
                        &decorators,
                        "classmethod",
                    );
                    let is_abstract = contains_string(&decorators, "abstractmethod");
                    collect_self_fields(src, func, &mut fields);
                    methods.push(extract_method(src, func, is_static, is_abstract));
                    assert(methods.deep_view() =~= mb.push(
                        py_method(src@, *func, is_static, is_abstract),
                    ));
                }
            }
        }
    }
    assert(s.take(len as int) =~= s);
    (fields, methods)
}

/// [`py_class`].
fn extract_class(src: &str, file: &str, n: &SyntaxNode) -> (r: ClassNode)
    ensures
        r@ == py_class(src@, file@, *n),
{
    let name = field_text_or(src, n, "name", "Anonymous");
    let bases = base_names(src, n);
    let (is_enum, is_abstract) = base_flags(&bases);
    let extends = drawn_bases_of(&bases);
    let (fields, mut methods) = extract_members(src, n);
    if is_enum {
        methods.clear();
    }
    let r = ClassNode {
        id: name.clone(),
        name,
        kind: if is_enum {
            ClassKind::Enum
        } else if is_abstract {
            ClassKind::AbstractClass
        } else {
            ClassKind::Class
        },
        file: file.to_owned(),
        line: n.line,
        fields,
        methods,
        extends,
        implements: Vec::new(),
    };
    assert(r@.methods =~= py_class(src@, file@, *n).methods);
    assert(r@.implements =~= seq![]);
    r
}

/// Appends the classes defined below `n`: [`py_classes`].
fn walk(src: &str, file: &str, n: &SyntaxNode, out: &mut Vec<ClassNode>)
    ensures
        final(out).deep_view() == old(out).deep_view() + py_classes(src@, file@, *n),
    decreases n,
{
    let ghost o0 = out.deep_view();
    if has_kind(n, "class_definition") {
        out.push(extract_class(src, file, n));
    }
    let ghost o1 = out.deep_view();
    assert(o1 =~= o0 + (if kind_is(*n, "class_definition"@) {
        seq![py_class(src@, file@, *n)]
    } else {
        seq![]
    }));
    let ghost s = n.children@;
    let len = n.children.len();
    assert(s.take(0) =~= seq![]);
    assert(o1 + py_classes_in(src@, file@, s.take(0)) =~= o1);
    for i in 0..len
        invariant
            len == n.children.len(),
            s == n.children@,
            out.deep_view() == o1 + py_classes_in(src@, file@, s.take(i as int)),
    {
        assert(s.take(i + 1).drop_last() =~= s.take(i as int));
        walk(src, file, &n.children[i], out);
        assert(out.deep_view() =~= o1 + py_classes_in(src@, file@, s.take(i + 1)));
    }
    assert(s.take(len as int) =~= s);
}

/// The classes defined in a Python syntax tree, as [`py_classes`] says.
pub fn extract_classes(src: &str, file: &str, tree: &SyntaxNode) -> (r: Vec<ClassNode>)
    ensures
        r.deep_view() == py_classes(src@, file@, *tree),
{
    let mut out: Vec<ClassNode> = Vec::new();
    walk(src, file, tree, &mut out);
    assert(out.deep_view() =~= py_classes(src@, file@, *tree));
    out
}

/// Parses Python `source` from the file `path` and returns the classes it
/// defines: the extraction of [`extract_classes`] applied to the tree that
/// tree-sitter's Python grammar gives, or nothing when there is no tree (see [`parsed_tree`]).
pub fn parse(path: &str, source: &str) -> (r: Vec<ClassNode>)
    ensures
        match parsed_tree(Grammar::Python, source@) {
            Some(m) => exists|t: SyntaxNode|
                copies(t, m) && lines_within(t, line_bound(source@)) && r.deep_view() == py_classes(source@, path@, t),
            None => r.len() == 0,
        },
{
    match syntax_tree(source, Grammar::Python) {
        Some(tree) => {
            let r = extract_classes(source, path, &tree);
            assert(copies(tree, parsed_tree(Grammar::Python, source@)->0));
            r
        },
        None => Vec::new(),
    }
}

/// A Python parameter list keeps every typed parameter, in order, with the
/// text of its `type` node as its type (an unannotated one is `any`), and
/// every plain parameter other than `self` and `cls` with type `any`.
pub proof fn law_py_parameters_keep_their_types(src: Seq<char>, s: Seq<SyntaxNode>, p: SyntaxNode)
    ensures
        kind_is(p, "typed_parameter"@) ==> {
            &&& py_params(src, s.push(p)).drop_last() == py_params(src, s)
            &&& py_params(src, s.push(p)).len() == py_params(src, s).len() + 1
            &&& py_params(src, s.push(p)).last().type_text == match child_with_field(p, "type"@) {
                Some(t) => text_of(src, t),
                None => "any"@,
            }
        },
        (kind_is(p, "identifier"@) && text_of(src, p) != "self"@ && text_of(src, p) != "cls"@) ==> {
            &&& py_params(src, s.push(p)).drop_last() == py_params(src, s)
            &&& py_params(src, s.push(p)).len() == py_params(src, s).len() + 1
            &&& py_params(src, s.push(p)).last() == ParamView { name: text_of(src, p), type_text: "any"@ }
        },
{
    reveal_strlit("typed_parameter");
    reveal_strlit("identifier");
    assert(s.push(p).drop_last() =~= s);
    if kind_is(p, "typed_parameter"@) {
        assert("typed_parameter"@.len() != "identifier"@.len());
        assert(p.kind@ != "identifier"@);
    }
}

/// A Python method: its return type is the text of its `return_type` node
/// (`any` without one); its visibility comes from its name, private for a
/// `__name` that does not end in `__`, protected for another name starting
/// with `_`, public otherwise; it starts on the definition's line.
pub proof fn law_py_method_follows_its_definition(src: Seq<char>, func: SyntaxNode, is_static: bool, is_abstract: bool)
    ensures
        py_method(src, func, is_static, is_abstract).return_type == match child_with_field(
            func,
            "return_type"@,
        ) {
            Some(t) => text_of(src, t),
            None => "any"@,
        },
        ({
            let name = py_method(src, func, is_static, is_abstract).name;
            &&& ("__"@.is_prefix_of(name) && !"__"@.is_suffix_of(name)) ==> py_method(
                src,
                func,
                is_static,
                is_abstract,
            ).visibility == Visibility::Private
            &&& ("_"@.is_prefix_of(name) && !("__"@.is_prefix_of(name) && !"__"@.is_suffix_of(name)))
                ==> py_method(src, func, is_static, is_abstract).visibility == Visibility::Protected
            &&& !"_"@.is_prefix_of(name) ==> py_method(src, func, is_static, is_abstract).visibility
                == Visibility::Public
        }),
        py_method(src, func, is_static, is_abstract).name == match child_with_field(func, "name"@) {
            Some(x) => text_of(src, x),
            None => ""@,
        },
        py_method(src, func, is_static, is_abstract).is_static == is_static,
        py_method(src, func, is_static, is_abstract).is_abstract == is_abstract,
        py_method(src, func, is_static, is_abstract).line == func.line,
{
    let name = py_method(src, func, is_static, is_abstract).name;
    reveal_strlit("_");
    reveal_strlit("__");
    if "__"@.is_prefix_of(name) {
        assert(name.subrange(0, 2)[0] == '_');
        assert("_"@ =~= name.subrange(0, 1));
    }
}

/// A plain function definition in a class body adds one method that is
/// neither static nor abstract, after the methods before it.
pub proof fn law_py_plain_function_is_an_instance_method(src: Seq<char>, s: Seq<SyntaxNode>, m: SyntaxNode)
    requires
        kind_is(m, "function_definition"@),
    ensures
        py_member_list(src, s.push(m)).1 == py_member_list(src, s).1.push(py_method(src, m, false, false)),
        !py_member_list(src, s.push(m)).1.last().is_static,
        !py_member_list(src, s.push(m)).1.last().is_abstract,
{
    reveal_strlit("function_definition");
    reveal_strlit("expression_statement");
    assert("function_definition"@.len() != "expression_statement"@.len());
    assert(s.push(m).drop_last() =~= s);
}

/// The bases that are never drawn as supertypes: the abstract markers,
/// `object`, `Generic`, and the enum bases.
pub open spec fn undrawn_base(b: Seq<char>) -> bool {
    b == "ABC"@ || b == "ABCMeta"@ || b == "object"@ || b == "Generic"@ || b == "Enum"@ || b
        == "IntEnum"@ || b == "Flag"@ || b == "IntFlag"@ || b == "StrEnum"@
}

proof fn lemma_drawn_bases(bases: Seq<Seq<char>>)
    ensures
        forall|i: int|
            0 <= i < drawn_bases(bases).len() ==> !undrawn_base(#[trigger] drawn_bases(bases)[i])
                && bases.contains(drawn_bases(bases)[i]),
        forall|i: int|
            0 <= i < bases.len() && !undrawn_base(#[trigger] bases[i]) ==> drawn_bases(bases).contains(
                bases[i],
            ),
    decreases bases.len(),
{
    if bases.len() > 0 {
        let front = bases.drop_last();
        lemma_drawn_bases(front);
        let d = drawn_bases(bases);
        let df = drawn_bases(front);
        assert forall|i: int| 0 <= i < d.len() implies !undrawn_base(#[trigger] d[i]) && bases.contains(
            d[i],
        ) by {
            if i < df.len() {
                assert(d[i] == df[i]);
                let k = choose|k: int| 0 <= k < front.len() && front[k] == df[i];
                assert(bases[k] == front[k]);
            } else {
                assert(bases[bases.len() - 1] == d[i]);
            }
        }
        assert forall|i: int| 0 <= i < bases.len() && !undrawn_base(#[trigger] bases[i]) implies d.contains(
            bases[i],
        ) by {
            if i < front.len() {
                assert(front[i] == bases[i]);
                let k = choose|k: int| 0 <= k < df.len() && df[k] == bases[i];
                assert(d[k] == df[k]);
            } else {
                assert(d[d.len() - 1] == bases[i]);
            }
        }
    }
}

/// A Python class extends exactly its bases other than the abstract
/// markers, `object`, `Generic` and the enum bases (each drawn base is one
/// of the class's bases, and every other base is drawn); with an enum base
/// it is an enum without methods, with `ABC` or `ABCMeta` and no enum base
/// it is abstract; it implements nothing and is named by its `name` node.
pub proof fn law_py_class_follows_its_bases(src: Seq<char>, file: Seq<char>, n: SyntaxNode)
    ensures
        ({
            let c = py_class(src, file, n);
            let bases = py_base_names(src, n);
            &&& forall|i: int|
                0 <= i < c.extends.len() ==> !undrawn_base(#[trigger] c.extends[i]) && bases.contains(
                    c.extends[i],
                )
            &&& forall|i: int|
                0 <= i < bases.len() && !undrawn_base(#[trigger] bases[i]) ==> c.extends.contains(
                    bases[i],
                )
            &&& (exists|i: int|
                0 <= i < bases.len() && (bases[i] == "Enum"@ || bases[i] == "IntEnum"@ || bases[i]
                    == "Flag"@ || bases[i] == "IntFlag"@ || bases[i] == "StrEnum"@)) ==> c.kind
                == ClassKind::Enum && c.methods.len() == 0
            &&& ((forall|i: int|
                0 <= i < bases.len() ==> !(bases[i] == "Enum"@ || bases[i] == "IntEnum"@ || bases[i]
                    == "Flag"@ || bases[i] == "IntFlag"@ || bases[i] == "StrEnum"@)) && exists|i: int|
                0 <= i < bases.len() && (bases[i] == "ABC"@ || bases[i] == "ABCMeta"@)) ==> c.kind
                == ClassKind::AbstractClass
            &&& c.implements.len() == 0
            &&& c.id == c.name
            &&& c.name == match child_with_field(n, "name"@) {
                Some(x) => text_of(src, x),
                None => "Anonymous"@,
            }
        }),
{
    let bases = py_base_names(src, n);
    lemma_drawn_bases(bases);
    if exists|i: int|
        0 <= i < bases.len() && (bases[i] == "Enum"@ || bases[i] == "IntEnum"@ || bases[i] == "Flag"@
            || bases[i] == "IntFlag"@ || bases[i] == "StrEnum"@) {
        let i = choose|i: int|
            0 <= i < bases.len() && (bases[i] == "Enum"@ || bases[i] == "IntEnum"@ || bases[i]
                == "Flag"@ || bases[i] == "IntFlag"@ || bases[i] == "StrEnum"@);
        assert(is_enum_base(bases[i]));
    } else {
        assert forall|i: int| 0 <= i < bases.len() implies !is_enum_base(#[trigger] bases[i]) by {}
        if exists|i: int| 0 <= i < bases.len() && (bases[i] == "ABC"@ || bases[i] == "ABCMeta"@) {
            let i = choose|i: int| 0 <= i < bases.len() && (bases[i] == "ABC"@ || bases[i] == "ABCMeta"@);
            assert(is_abstract_base(bases[i]));
        }
    }
}

} // verus!
