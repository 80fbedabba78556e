//! C#: classes, interfaces and enums with their fields, auto-properties,
//! methods, constructors and modifiers. A base list is split into a base
//! class and implemented interfaces by the `I`-prefix naming convention.

use vstd::prelude::*;
use crate::model::{
    fields_carry,
    ClassKind, ClassNode, ClassView, FieldNode, FieldView, MethodNode, MethodView, Param,
    ParamView, Visibility,
};
use crate::parsing::{copies, line_bound, lines_within, parsed_tree, syntax_tree, Grammar};
use crate::syntax::{
    child_by_field, child_by_kind, child_of_kind, child_with_field, field_text_or, has_kind,
    kind_is, node_text, text_of, text_or, SyntaxNode,
};
use crate::text::{char_is_uppercase, is_uppercase, to_chars};

verus! {

/// Whether one of the `modifier` nodes of `s` is the keyword `kw`.
pub open spec fn cs_any_modifier(s: Seq<SyntaxNode>, kw: Seq<char>) -> bool
    decreases s.len(),
{
    s.len() > 0 && (cs_any_modifier(s.drop_last(), kw) || (kind_is(s.last(), "modifier"@)
        && child_of_kind(s.last(), kw) is Some))
}

/// Whether the declaration carries the modifier keyword `kw`.
pub open spec fn cs_has_modifier(n: SyntaxNode, kw: Seq<char>) -> bool {
    cs_any_modifier(n.children@, kw)
}

/// Declared visibility: private, protected, or else public.
pub open spec fn cs_visibility(n: SyntaxNode) -> Visibility {
    if cs_has_modifier(n, "private"@) {
        Visibility::Private
    } else if cs_has_modifier(n, "protected"@) {
        Visibility::Protected
    } else {
        Visibility::Public
    }
}

/// The C# convention for interface names: `I` followed by an uppercase
/// letter.
pub open spec fn looks_like_interface_name_spec(name: Seq<char>) -> bool {
    name.len() >= 2 && name[0] == 'I' && char_is_uppercase(name[1])
}

/// Whether a node of the base list names a type.
pub open spec fn cs_is_base_name(n: SyntaxNode) -> bool {
    kind_is(n, "identifier"@) || kind_is(n, "generic_name"@) || kind_is(n, "qualified_name"@)
}

/// The texts of the type names among `s`.
pub open spec fn cs_base_name_list(src: Seq<char>, s: Seq<SyntaxNode>) -> Seq<Seq<char>>
    decreases s.len(),
{
    if s.len() == 0 {
        seq![]
    } else if cs_is_base_name(s.last()) {
        cs_base_name_list(src, s.drop_last()).push(text_of(src, s.last()))
    } else {
        cs_base_name_list(src, s.drop_last())
    }
}

/// The type names of the declaration's `base_list`.
pub open spec fn cs_base_type_names(src: Seq<char>, n: SyntaxNode) -> Seq<Seq<char>> {
    match child_of_kind(n, "base_list"@) {
        Some(l) => cs_base_name_list(src, l.children@),
        None => seq![],
    }
}

/// A class's bases split into (extends, implements): all interfaces when
/// the first looks like an interface name, else the first is the base class.
pub open spec fn split_bases_spec(bases: Seq<Seq<char>>) -> (Seq<Seq<char>>, Seq<Seq<char>>) {
    if bases.len() == 0 {
        (seq![], seq![])
    } else if looks_like_interface_name_spec(bases[0]) {
        (seq![], bases)
    } else {
        (seq![bases[0]], bases.drop_first())
    }
}

/// The base list of a C# type is split, never reordered or thinned: the
/// base class (at most one, and only when the list does not open with an
/// interface-like name) followed by the interfaces gives back the list.
pub proof fn law_bases_are_partitioned(bases: Seq<Seq<char>>)
    ensures
        split_bases_spec(bases).0 + split_bases_spec(bases).1 == bases,
        split_bases_spec(bases).0.len() <= 1,
        split_bases_spec(bases).0.len() == 1 <==> (bases.len() > 0
            && !looks_like_interface_name_spec(bases[0])),
{
    if bases.len() > 0 && !looks_like_interface_name_spec(bases[0]) {
        assert(seq![bases[0]] + bases.drop_first() =~= bases);
    } else if bases.len() > 0 {
        assert(seq![] + bases =~= bases);
    } else {
        assert(bases =~= seq![]);
    }
}

/// The fields that a variable declaration's declarators declare.
pub open spec fn cs_declarators(
    src: Seq<char>,
    s: Seq<SyntaxNode>,
    type_text: Seq<char>,
    visibility: Visibility,
    is_static: bool,
) -> Seq<FieldView>
    decreases s.len(),
{
    if s.len() == 0 {
        seq![]
    } else {
        let r = cs_declarators(src, s.drop_last(), type_text, visibility, is_static);
        let d = s.last();
        if kind_is(d, "variable_declarator"@) {
            match child_with_field(d, "name"@) {
                Some(nm) => r.push(
                    FieldView { name: text_of(src, nm), type_text, visibility, is_static, line: d.line },
                ),
                None => r,
            }
        } else {
            r
        }
    }
}

/// The fields of a `field_declaration`.
pub open spec fn cs_field_declaration(src: Seq<char>, m: SyntaxNode) -> Seq<FieldView> {
    match child_of_kind(m, "variable_declaration"@) {
        Some(v) => cs_declarators(
            src,
            v.children@,
            text_or(src, child_with_field(v, "type"@), "any"@),
            cs_visibility(m),
            cs_has_modifier(m, "static"@),
        ),
        None => seq![],
    }
}

/// A `property_declaration`: an (auto-)property, drawn as a field.
pub open spec fn cs_property(src: Seq<char>, m: SyntaxNode) -> Seq<FieldView> {
    match child_with_field(m, "name"@) {
        Some(nm) => seq![
            FieldView {
                name: text_of(src, nm),
                type_text: text_or(src, child_with_field(m, "type"@), "any"@),
                visibility: cs_visibility(m),
                is_static: cs_has_modifier(m, "static"@),
                line: m.line,
            },
        ],
        None => seq![],
    }
}

/// The `parameter`s of a parameter list.
pub open spec fn cs_params(src: Seq<char>, s: Seq<SyntaxNode>) -> Seq<ParamView>
    decreases s.len(),
{
    if s.len() == 0 {
        seq![]
    } else {
        let r = cs_params(src, s.drop_last());
        let p = s.last();
        if kind_is(p, "parameter"@) {
            r.push(
                ParamView {
                    name: text_or(src, child_with_field(p, "name"@), ""@),
                    type_text: text_or(src, child_with_field(p, "type"@), "any"@),
                },
            )
        } else {
            r
        }
    }
}

/// A method or constructor declaration. A method without a body is abstract.
pub open spec fn cs_method(src: Seq<char>, m: SyntaxNode) -> MethodView {
    MethodView {
        name: text_or(src, child_with_field(m, "name"@), ""@),
        params: match child_with_field(m, "parameters"@) {
            Some(ps) => cs_params(src, ps.children@),
            None => seq![],
        },
        return_type: text_or(src, child_with_field(m, "returns"@), ""@),
        visibility: cs_visibility(m),
        is_static: cs_has_modifier(m, "static"@),
        is_abstract: cs_has_modifier(m, "abstract"@) || child_with_field(m, "body"@) is None,
        line: m.line,
    }
}

/// The fields and methods declared by the members `s` of a body.
pub open spec fn cs_member_list(src: Seq<char>, s: Seq<SyntaxNode>) -> (Seq<FieldView>, Seq<MethodView>)
    decreases s.len(),
{
    if s.len() == 0 {
        (seq![], seq![])
    } else {
        let (fs, ms) = cs_member_list(src, s.drop_last());
        let m = s.last();
        if kind_is(m, "field_declaration"@) {
            (fs + cs_field_declaration(src, m), ms)
        } else if kind_is(m, "property_declaration"@) {
            (fs + cs_property(src, m), ms)
        } else if kind_is(m, "method_declaration"@) || kind_is(m, "constructor_declaration"@) {
            (fs, ms.push(cs_method(src, m)))
        } else {
            (fs, ms)
        }
    }
}

/// The fields and methods of a type declaration's body.
pub open spec fn cs_members(src: Seq<char>, n: SyntaxNode) -> (Seq<FieldView>, Seq<MethodView>) {
    match child_with_field(n, "body"@) {
        Some(body) => cs_member_list(src, body.children@),
        None => (seq![], seq![]),
    }
}

/// The declared name, or `Anonymous`.
pub open spec fn cs_name(src: Seq<char>, n: SyntaxNode) -> Seq<char> {
    text_or(src, child_with_field(n, "name"@), "Anonymous"@)
}

/// A class or interface declaration. An interface's bases are all
/// supertypes it extends; a class's are split by [`split_bases_spec`].
pub open spec fn cs_type(src: Seq<char>, file: Seq<char>, n: SyntaxNode, is_interface: bool) -> ClassView {
    let name = cs_name(src, n);
    let bases = cs_base_type_names(src, n);
    let split = if is_interface {
        (bases, seq![])
    } else {
        split_bases_spec(bases)
    };
    ClassView {
        id: name,
        name,
        kind: if is_interface {
            ClassKind::Interface
        } else if cs_has_modifier(n, "abstract"@) {
            ClassKind::AbstractClass
        } else {
            ClassKind::Class
        },
        file,
        line: n.line,
        fields: cs_members(src, n).0,
        methods: cs_members(src, n).1,
        extends: split.0,
        implements: split.1,
    }
}

/// The members of an enum body, as fields.
pub open spec fn cs_enum_members(src: Seq<char>, s: Seq<SyntaxNode>) -> Seq<FieldView>
    decreases s.len(),
{
    if s.len() == 0 {
        seq![]
    } else {
        let r = cs_enum_members(src, s.drop_last());
        let c = s.last();
        if kind_is(c, "enum_member_declaration"@) {
            match child_with_field(c, "name"@) {
                Some(nm) => r.push(
                    FieldView {
                        name: text_of(src, nm),
                        type_text: ""@,
                        visibility: Visibility::Public,
                        is_static: false,
                        line: c.line,
                    },
                ),
                None => r,
            }
        } else {
            r
        }
    }
}

/// An `enum_declaration`: its members are its fields.
pub open spec fn cs_enum(src: Seq<char>, file: Seq<char>, n: SyntaxNode) -> ClassView {
    let name = cs_name(src, n);
    ClassView {
        id: name,
        name,
        kind: ClassKind::Enum,
        file,
        line: n.line,
        fields: match child_with_field(n, "body"@) {
            Some(b) => cs_enum_members(src, b.children@),
            None => seq![],
        },
        methods: seq![],
        extends: seq![],
        implements: seq![],
    }
}

/// The type that a node declares itself, if any.
pub open spec fn cs_own(src: Seq<char>, file: Seq<char>, n: SyntaxNode) -> Seq<ClassView> {
    if kind_is(n, "class_declaration"@) {
        seq![cs_type(src, file, n, false)]
    } else if kind_is(n, "interface_declaration"@) {
        seq![cs_type(src, file, n, true)]
    } else if kind_is(n, "enum_declaration"@) {
        seq![cs_enum(src, file, n)]
    } else {
        seq![]
    }
}

/// The types declared in the tree below `n`, `n` included, in document
/// order.
pub open spec fn cs_classes(src: Seq<char>, file: Seq<char>, n: SyntaxNode) -> Seq<ClassView>
    decreases n,
{
    cs_own(src, file, n) + cs_classes_in(src, file, n.children@)
}

/// The types declared in the trees `s`, in order.
pub open spec fn cs_classes_in(src: Seq<char>, file: Seq<char>, s: Seq<SyntaxNode>) -> Seq<ClassView>
    decreases s,
{
    if s.len() == 0 {
        seq![]
    } else {
        cs_classes_in(src, file, s.drop_last()) + cs_classes(src, file, s.last())
    }
}

/// [`cs_has_modifier`].
fn has_modifier(n: &SyntaxNode, kw: &str) -> (r: bool)
    ensures
        r == cs_has_modifier(*n, kw@),
{
    let ghost s = n.children@;
    let len = n.children.len();
    assert(s.take(0) =~= seq![]);
    for i in 0..len
        invariant
            len == n.children.len(),
            s == n.children@,
            !cs_any_modifier(s.take(i as int), kw@),
    {
        assert(s.take(i + 1).drop_last() =~= s.take(i as int));
        let m = &n.children[i];
        if has_kind(m, "modifier") && child_by_kind(m, kw).is_some() {
            proof {
                lemma_any_modifier_prefix(s, kw@, i + 1);
            }
            return true;
        }
    }
    assert(s.take(len as int) =~= s);
    false
}

/// A modifier found in a prefix is found in the whole list.
proof fn lemma_any_modifier_prefix(s: Seq<SyntaxNode>, kw: Seq<char>, k: int)
    requires
        0 <= k <= s.len(),
        cs_any_modifier(s.take(k), kw),
    ensures
        cs_any_modifier(s, kw),
    decreases s.len() - k,
{
    if k < s.len() {
        assert(s.take(k + 1).drop_last() =~= s.take(k));
        lemma_any_modifier_prefix(s, kw, k + 1);
    } else {
        assert(s.take(k) =~= s);
    }
}

/// [`cs_visibility`].
fn visibility_of(n: &SyntaxNode) -> (r: Visibility)
    ensures
        r == cs_visibility(*n),
{
    if has_modifier(n, "private") {
        Visibility::Private
    } else if has_modifier(n, "protected") {
        Visibility::Protected
    } else {
        Visibility::Public
    }
}

/// Whether `name` looks like an interface name: `I` then an uppercase
/// letter, as [`looks_like_interface_name_spec`] says.
pub fn looks_like_interface_name(name: &str) -> (r: bool)
    ensures
        r == looks_like_interface_name_spec(name@),
{
    let chars = to_chars(name);
    chars.len() >= 2 && chars[0] == 'I' && is_uppercase(chars[1])
}

/// [`cs_base_type_names`].
fn base_type_names(src: &str, n: &SyntaxNode) -> (r: Vec<String>)
    ensures
        r.deep_view() == cs_base_type_names(src@, *n),
{
    let mut r: Vec<String> = Vec::new();
    let l = match child_by_kind(n, "base_list") {
        Some(l) => l,
        None => {
            return r;
        },
    };
    let ghost s = l.children@;
    let len = l.children.len();
    assert(s.take(0) =~= seq![]);
    for i in 0..len
        invariant
            len == l.children.len(),
            s == l.children@,
            r.deep_view() == cs_base_name_list(src@, s.take(i as int)),
    {
        assert(s.take(i + 1).drop_last() =~= s.take(i as int));
        let c = &l.children[i];
        if has_kind(c, "identifier") || has_kind(c, "generic_name") || has_kind(c, "qualified_name") {
            let ghost before = r.deep_view();
            r.push(node_text(src, c).to_owned());
            assert(r.deep_view() =~= before.push(text_of(src@, *c)));
        }
    }
    assert(s.take(len as int) =~= s);
    r
}

/// Splits a class's bases into (extends, implements): [`split_bases_spec`].
pub fn split_bases(bases: Vec<String>) -> (r: (Vec<String>, Vec<String>))
    ensures
        r.0.deep_view() == split_bases_spec(bases.deep_view()).0,
        r.1.deep_view() == split_bases_spec(bases.deep_view()).1,
{
    let ghost b = bases.deep_view();
    if bases.len() == 0 {
        assert(bases.deep_view() =~= seq![]);
        return (Vec::new(), bases);
    }
    if looks_like_interface_name(bases[0].as_str()) {
        (Vec::new(), bases)
    } else {
        let mut rest = bases;
        let base_class = rest.remove(0);
        let mut first: Vec<String> = Vec::new();
        first.push(base_class);
        assert(first.deep_view() =~= seq![b[0]]);
        assert(rest.deep_view() =~= b.drop_first());
        (first, rest)
    }
}

/// Appends the fields of a `field_declaration`: [`cs_field_declaration`].
fn push_field_declaration(src: &str, m: &SyntaxNode, fields: &mut Vec<FieldNode>)
    ensures
        final(fields).deep_view() == old(fields).deep_view() + cs_field_declaration(src@, *m),
{
    let ghost f0 = fields.deep_view();
    let v = match child_by_kind(m, "variable_declaration") {
        Some(v) => v,
        None => {
            assert(f0 + seq![] =~= f0);
            return;
        },
    };
    let type_text = field_text_or(src, v, "type", "any");
    let is_static = has_modifier(m, "static");
    let visibility = visibility_of(m);
    let ghost s = v.children@;
    let len = v.children.len();
    assert(s.take(0) =~= seq![]);
    assert(f0 + cs_declarators(src@, s.take(0), type_text@, visibility, is_static) =~= f0);
    for i in 0..len
        invariant
            len == v.children.len(),
            s == v.children@,
            fields.deep_view() == f0 + cs_declarators(src@, s.take(i as int), type_text@, visibility, is_static),
    {
        assert(s.take(i + 1).drop_last() =~= s.take(i as int));
        let d = &v.children[i];
        if has_kind(d, "variable_declarator") {
            if let Some(nm) = child_by_field(d, "name") {
                let ghost before = fields.deep_view();
                fields.push(
                    FieldNode {
                        name: node_text(src, nm).to_owned(),
                        type_text: type_text.clone(),
                        visibility,
                        is_static,
                        line: d.line,
                    },
                );
                assert(fields.deep_view() =~= before.push(fields[fields.len() - 1]@));
            }
        }
        assert(fields.deep_view() =~= f0 + cs_declarators(src@, s.take(i + 1), type_text@, visibility, is_static));
    }
    assert(s.take(len as int) =~= s);
}

/// Appends the field that a `property_declaration` stands for: [`cs_property`].
fn push_property(src: &str, m: &SyntaxNode, fields: &mut Vec<FieldNode>)
    ensures
        final(fields).deep_view() == old(fields).deep_view() + cs_property(src@, *m),
{
    let ghost f0 = fields.deep_view();
    let type_text = field_text_or(src, m, "type", "any");
    match child_by_field(m, "name") {
        Some(nm) => {
            fields.push(
                FieldNode {
                    name: node_text(src, nm).to_owned(),
                    type_text,
                    visibility: visibility_of(m),
                    is_static: has_modifier(m, "static"),
                    line: m.line,
                },
            );
            assert(fields.deep_view() =~= f0 + cs_property(src@, *m));
        },
        None => {
            assert(f0 + seq![] =~= f0);
        },
    }
}

/// [`cs_params`] of the children of a parameter list.
fn params_of(src: &str, ps: &SyntaxNode) -> (r: Vec<Param>)
    ensures
        r.deep_view() == cs_params(src@, ps.children@),
{
    let mut r: Vec<Param> = Vec::new();
    let ghost s = ps.children@;
    let len = ps.children.len();
    assert(s.take(0) =~= seq![]);
    for i in 0..len
        invariant
            len == ps.children.len(),
            s == ps.children@,
            r.deep_view() == cs_params(src@, s.take(i as int)),
    {
        assert(s.take(i + 1).drop_last() =~= s.take(i as int));
        let p = &ps.children[i];
        if has_kind(p, "parameter") {
            let ghost before = r.deep_view();
            r.push(
                Param {
                    name: field_text_or(src, p, "name", ""),
                    type_text: field_text_or(src, p, "type", "any"),
                },
            );
            assert(r.deep_view() =~= before.push(r[r.len() - 1]@));
        }
    }
    assert(s.take(len as int) =~= s);
    r
}

/// [`cs_method`].
fn extract_method(src: &str, m: &SyntaxNode) -> (r: MethodNode)
    ensures
        r@ == cs_method(src@, *m),
{
    let params = match child_by_field(m, "parameters") {
        Some(ps) => params_of(src, ps),
        None => Vec::new(),
    };
    let r = MethodNode {
        name: field_text_or(src, m, "name", ""),
        params,
        return_type: field_text_or(src, m, "returns", ""),
        visibility: visibility_of(m),
        is_static: has_modifier(m, "static"),
        is_abstract: has_modifier(m, "abstract") || child_by_field(m, "body").is_none(),
        line: m.line,
    };
    assert(r@.params =~= cs_method(src@, *m).params);
    r
}

/// [`cs_members`].
fn extract_members(src: &str, n: &SyntaxNode) -> (r: (Vec<FieldNode>, Vec<MethodNode>))
    ensures
        r.0.deep_view() == cs_members(src@, *n).0,
        r.1.deep_view() == cs_members(src@, *n).1,
{
    let mut fields: Vec<FieldNode> = Vec::new();
    let mut methods: Vec<MethodNode> = Vec::new();
    let body = match child_by_field(n, "body") {
        Some(b) => b,
        None => {
            return (fields, methods);
        },
    };
    let ghost s = body.children@;
    let len = body.children.len();
    assert(s.take(0) =~= seq![]);
    for i in 0..len
        invariant
            len == body.children.len(),
            s == body.children@,
            fields.deep_view() == cs_member_list(src@, s.take(i as int)).0,
            methods.deep_view() == cs_member_list(src@, s.take(i as int)).1,
    {
        assert(s.take(i + 1).drop_last() =~= s.take(i as int));
        let m = &body.children[i];
        if has_kind(m, "field_declaration") {
            push_field_declaration(src, m, &mut fields);
        } else if has_kind(m, "property_declaration") {
            push_property(src, m, &mut fields);
        } else if has_kind(m, "method_declaration") || has_kind(m, "constructor_declaration") {
            let ghost before = methods.deep_view();
            methods.push(extract_method(src, m));
            assert(methods.deep_view() =~= before.push(cs_method(src@, *m)));
        }
    }
    assert(s.take(len as int) =~= s);
    (fields, methods)
}

/// [`cs_type`].
fn extract_type(src: &str, file: &str, n: &SyntaxNode, is_interface: bool) -> (r: ClassNode)
    ensures
        r@ == cs_type(src@, file@, *n, is_interface),
{
    let name = field_text_or(src, n, "name", "Anonymous");
    let bases = base_type_names(src, n);
    let (extends, implements) = if is_interface {
        (bases, Vec::new())
    } else {
        split_bases(bases)
    };
    let (fields, methods) = extract_members(src, n);
    let r = ClassNode {
        id: name.clone(),
        name,
        kind: if is_interface {
            ClassKind::Interface
        } else if has_modifier(n, "abstract") {
            ClassKind::AbstractClass
        } else {
            ClassKind::Class
        },
        file: file.to_owned(),
        line: n.line,
        fields,
        methods,
        extends,
        implements,
    };
    assert(r@.implements =~= cs_type(src@, file@, *n, is_interface).implements);
    r
}

/// [`cs_enum`].
fn extract_enum(src: &str, file: &str, n: &SyntaxNode) -> (r: ClassNode)
    ensures
        r@ == cs_enum(src@, file@, *n),
{
    let name = field_text_or(src, n, "name", "Anonymous");
    let mut fields: Vec<FieldNode> = Vec::new();
    if let Some(body) = child_by_field(n, "body") {
        let ghost s = body.children@;
        let len = body.children.len();
        assert(s.take(0) =~= seq![]);
        for i in 0..len
            invariant
                len == body.children.len(),
                s == body.children@,
                fields.deep_view() == cs_enum_members(src@, s.take(i as int)),
        {
            assert(s.take(i + 1).drop_last() =~= s.take(i as int));
            let c = &body.children[i];
            if has_kind(c, "enum_member_declaration") {
                if let Some(nm) = child_by_field(c, "name") {
                    let ghost before = fields.deep_view();
                    fields.push(
                        FieldNode {
                            name: node_text(src, nm).to_owned(),
                            type_text: String::new(),
                            visibility: Visibility::Public,
                            is_static: false,
                            line: c.line,
                        },
                    );
                    proof {
                        reveal_strlit("");
                    }
                    assert(""@ =~= Seq::<char>::empty());
                    assert(fields.deep_view() =~= before.push(fields[fields.len() - 1]@));
                }
            }
        }
        assert(s.take(len as int) =~= s);
    }
    let r = ClassNode {
        id: name.clone(),
        name,
        kind: ClassKind::Enum,
        file: file.to_owned(),
        line: n.line,
        fields,
        methods: Vec::new(),
        extends: Vec::new(),
        implements: Vec::new(),
    };
    assert(r@.methods =~= seq![]);
    assert(r@.fields =~= cs_enum(src@, file@, *n).fields);
    assert(r@.extends =~= seq![]);
    assert(r@.implements =~= seq![]);
    r
}

/// Appends the types declared below `n`: [`cs_classes`].
fn walk(src: &str, file: &str, n: &SyntaxNode, out: &mut Vec<ClassNode>)
    ensures
        final(out).deep_view() == old(out).deep_view() + cs_classes(src@, file@, *n),
    decreases n,
{
    let ghost o0 = out.deep_view();
    if has_kind(n, "class_declaration") {
        out.push(extract_type(src, file, n, false));
    } else if has_kind(n, "interface_declaration") {
        out.push(extract_type(src, file, n, true));
    } else if has_kind(n, "enum_declaration") {
        out.push(extract_enum(src, file, n));
    }
    let ghost o1 = out.deep_view();
    assert(o1 =~= o0 + cs_own(src@, file@, *n));
    let ghost s = n.children@;
    let len = n.children.len();
    assert(s.take(0) =~= seq![]);
    assert(o1 + cs_classes_in(src@, file@, s.take(0)) =~= o1);
    for i in 0..len
        invariant
            len == n.children.len(),
            s == n.children@,
            out.deep_view() == o1 + cs_classes_in(src@, file@, s.take(i as int)),
    {
        assert(s.take(i + 1).drop_last() =~= s.take(i as int));
        walk(src, file, &n.children[i], out);
        assert(out.deep_view() =~= o1 + cs_classes_in(src@, file@, s.take(i + 1)));
    }
    assert(s.take(len as int) =~= s);
}

/// The types declared in a C# syntax tree, as [`cs_classes`] says.
pub fn extract_classes(src: &str, file: &str, tree: &SyntaxNode) -> (r: Vec<ClassNode>)
    ensures
        r.deep_view() == cs_classes(src@, file@, *tree),
{
    let mut out: Vec<ClassNode> = Vec::new();
    walk(src, file, tree, &mut out);
    assert(out.deep_view() =~= cs_classes(src@, file@, *tree));
    out
}

/// Parses C# `source` from the file `path` and returns the types it
/// declares: the extraction of [`extract_classes`] applied to the tree that
/// tree-sitter's C# grammar gives, or nothing when there is no tree (see [`parsed_tree`]).
pub fn parse(path: &str, source: &str) -> (r: Vec<ClassNode>)
    ensures
        match parsed_tree(Grammar::CSharp, source@) {
            Some(m) => exists|t: SyntaxNode|
                copies(t, m) && lines_within(t, line_bound(source@)) && r.deep_view() == cs_classes(source@, path@, t),
            None => r.len() == 0,
        },
{
    match syntax_tree(source, Grammar::CSharp) {
        Some(tree) => {
            let r = extract_classes(source, path, &tree);
            assert(copies(tree, parsed_tree(Grammar::CSharp, source@)->0));
            r
        },
        None => Vec::new(),
    }
}

/// Whether one of `s` is a `modifier` node holding the keyword `kw`.
pub open spec fn has_modifier_node(s: Seq<SyntaxNode>, kw: Seq<char>) -> bool {
    exists|i: int| 0 <= i < s.len() && kind_is(#[trigger] s[i], "modifier"@) && child_of_kind(s[i], kw) is Some
}

proof fn lemma_any_modifier(s: Seq<SyntaxNode>, kw: Seq<char>)
    ensures
        cs_any_modifier(s, kw) <==> has_modifier_node(s, kw),
    decreases s.len(),
{
    if s.len() > 0 {
        lemma_any_modifier(s.drop_last(), kw);
        if has_modifier_node(s.drop_last(), kw) {
            let i = choose|i: int|
                0 <= i < s.drop_last().len() && kind_is(#[trigger] s.drop_last()[i], "modifier"@)
                    && child_of_kind(s.drop_last()[i], kw) is Some;
            assert(s[i] == s.drop_last()[i]);
        }
        if has_modifier_node(s, kw) {
            let i = choose|i: int|
                0 <= i < s.len() && kind_is(#[trigger] s[i], "modifier"@) && child_of_kind(s[i], kw) is Some;
            if i < s.len() - 1 {
                assert(s.drop_last()[i] == s[i]);
            }
        }
    }
}

/// A C# property becomes one field whose visibility its `modifier` nodes
/// give: private with a `private` modifier, protected with a `protected`
/// modifier and no `private` one, public otherwise.
pub proof fn law_cs_property_visibility_follows_modifiers(src: Seq<char>, m: SyntaxNode)
    requires
        child_with_field(m, "name"@) is Some,
    ensures
        cs_property(src, m).len() == 1,
        has_modifier_node(m.children@, "private"@) ==> cs_property(src, m)[0].visibility
            == Visibility::Private,
        !has_modifier_node(m.children@, "private"@) && has_modifier_node(m.children@, "protected"@)
            ==> cs_property(src, m)[0].visibility == Visibility::Protected,
        !has_modifier_node(m.children@, "private"@) && !has_modifier_node(m.children@, "protected"@)
            ==> cs_property(src, m)[0].visibility == Visibility::Public,
{
    lemma_any_modifier(m.children@, "private"@);
    lemma_any_modifier(m.children@, "protected"@);
}

/// The visibility that a declaration's `modifier` nodes give: private,
/// then protected, else public.
pub open spec fn modifier_visibility(n: SyntaxNode) -> Visibility {
    if has_modifier_node(n.children@, "private"@) {
        Visibility::Private
    } else if has_modifier_node(n.children@, "protected"@) {
        Visibility::Protected
    } else {
        Visibility::Public
    }
}

/// A C# method or constructor: its return type is the text of its `returns`
/// node (empty without one), it is static with a `static` modifier,
/// abstract with an `abstract` modifier or without a body, and its
/// visibility is the one its modifiers give, the same that a field or a
/// property with the same modifiers gets.
pub proof fn law_cs_method_follows_its_declaration(src: Seq<char>, m: SyntaxNode)
    ensures
        cs_method(src, m).return_type == match child_with_field(m, "returns"@) {
            Some(t) => text_of(src, t),
            None => ""@,
        },
        cs_method(src, m).is_static == has_modifier_node(m.children@, "static"@),
        cs_method(src, m).is_abstract == (has_modifier_node(m.children@, "abstract"@) || child_with_field(
            m,
            "body"@,
        ) is None),
        cs_method(src, m).visibility == modifier_visibility(m),
        cs_method(src, m).line == m.line,
        child_with_field(m, "name"@) is Some ==> cs_property(src, m)[0].visibility == cs_method(
            src,
            m,
        ).visibility,
        child_of_kind(m, "variable_declaration"@) matches Some(v) ==> fields_carry(
            cs_field_declaration(src, m),
            match child_with_field(v, "type"@) {
                Some(t) => text_of(src, t),
                None => "any"@,
            },
            modifier_visibility(m),
            has_modifier_node(m.children@, "static"@),
        ),
{
    lemma_any_modifier(m.children@, "private"@);
    lemma_any_modifier(m.children@, "protected"@);
    lemma_any_modifier(m.children@, "static"@);
    lemma_any_modifier(m.children@, "abstract"@);
    if let Some(v) = child_of_kind(m, "variable_declaration"@) {
        lemma_cs_declarators_carry(
            src,
            v.children@,
            text_or(src, child_with_field(v, "type"@), "any"@),
            cs_visibility(m),
            cs_has_modifier(m, "static"@),
        );
    }
}

/// Every field a C# field declaration gives carries the declaration's
/// type, visibility and static flag.
proof fn lemma_cs_declarators_carry(
    src: Seq<char>,
    s: Seq<SyntaxNode>,
    type_text: Seq<char>,
    visibility: Visibility,
    is_static: bool,
)
    ensures
        fields_carry(cs_declarators(src, s, type_text, visibility, is_static), type_text, visibility, is_static),
    decreases s.len(),
{
    if s.len() > 0 {
        lemma_cs_declarators_carry(src, s.drop_last(), type_text, visibility, is_static);
    }
}

/// A C# parameter list keeps every `parameter`, in order, with the text of
/// its `name` and `type` nodes (`any` when untyped); other nodes add no
/// parameter.
pub proof fn law_cs_parameters_keep_their_types(src: Seq<char>, s: Seq<SyntaxNode>, p: SyntaxNode)
    ensures
        kind_is(p, "parameter"@) ==> cs_params(src, s.push(p)) == cs_params(src, s).push(
            ParamView {
                name: match child_with_field(p, "name"@) {
                    Some(x) => text_of(src, x),
                    None => ""@,
                },
                type_text: match child_with_field(p, "type"@) {
                    Some(t) => text_of(src, t),
                    None => "any"@,
                },
            },
        ),
        !kind_is(p, "parameter"@) ==> cs_params(src, s.push(p)) == cs_params(src, s),
{
    assert(s.push(p).drop_last() =~= s);
}

/// The members of a C# body in order: a field declaration adds its fields,
/// a property its field, a method or constructor declaration its method,
/// anything else nothing.
pub proof fn law_cs_members_in_order(src: Seq<char>, s: Seq<SyntaxNode>, m: SyntaxNode)
    ensures
        kind_is(m, "field_declaration"@) ==> cs_member_list(src, s.push(m)) == (
            cs_member_list(src, s).0 + cs_field_declaration(src, m),
            cs_member_list(src, s).1,
        ),
        kind_is(m, "property_declaration"@) ==> cs_member_list(src, s.push(m)) == (
            cs_member_list(src, s).0 + cs_property(src, m),
            cs_member_list(src, s).1,
        ),
        (kind_is(m, "method_declaration"@) || kind_is(m, "constructor_declaration"@))
            ==> cs_member_list(src, s.push(m)) == (
            cs_member_list(src, s).0,
            cs_member_list(src, s).1.push(cs_method(src, m)),
        ),
        !(kind_is(m, "field_declaration"@) || kind_is(m, "property_declaration"@) || kind_is(
            m,
            "method_declaration"@,
        ) || kind_is(m, "constructor_declaration"@)) ==> cs_member_list(src, s.push(m))
            == cs_member_list(src, s),
{
    reveal_strlit("field_declaration");
    reveal_strlit("property_declaration");
    reveal_strlit("method_declaration");
    reveal_strlit("constructor_declaration");
    assert("field_declaration"@.len() != "method_declaration"@.len());
    assert("field_declaration"@.len() != "constructor_declaration"@.len());
    assert("field_declaration"@.len() != "property_declaration"@.len());
    assert("property_declaration"@.len() != "constructor_declaration"@.len());
    assert("property_declaration"@[0] != "method_declaration"@[0]);
    assert(s.push(m).drop_last() =~= s);
}

/// A C# type keeps its whole base list: an interface extends every base
/// and implements nothing; a class extends at most one base, the first,
/// and only when that base does not look like an interface name, and
/// implements the rest, in order. A class is abstract with an `abstract`
/// modifier; an enum has no methods and no supertypes.
pub proof fn law_cs_type_follows_its_declaration(src: Seq<char>, file: Seq<char>, n: SyntaxNode)
    ensures
        cs_type(src, file, n, true).kind == ClassKind::Interface,
        cs_type(src, file, n, true).extends == cs_base_type_names(src, n),
        cs_type(src, file, n, true).implements.len() == 0,
        cs_type(src, file, n, false).extends + cs_type(src, file, n, false).implements
            == cs_base_type_names(src, n),
        cs_type(src, file, n, false).extends.len() <= 1,
        cs_type(src, file, n, false).extends.len() == 1 <==> (cs_base_type_names(src, n).len() > 0
            && !looks_like_interface_name_spec(cs_base_type_names(src, n)[0])),
        cs_type(src, file, n, false).kind == if has_modifier_node(n.children@, "abstract"@) {
            ClassKind::AbstractClass
        } else {
            ClassKind::Class
        },
        cs_type(src, file, n, false).id == cs_type(src, file, n, false).name,
        cs_enum(src, file, n).kind == ClassKind::Enum,
        cs_enum(src, file, n).methods.len() == 0,
        cs_enum(src, file, n).extends.len() == 0 && cs_enum(src, file, n).implements.len() == 0,
{
    law_bases_are_partitioned(cs_base_type_names(src, n));
    lemma_any_modifier(n.children@, "abstract"@);
}

} // verus!
