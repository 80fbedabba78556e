//! Java: classes, interfaces and enums with their fields, methods,
//! constructors, supertypes and modifiers.

use vstd::prelude::*;
use crate::model::{
    fields_carry,
    ClassKind, ClassNode, ClassView, FieldNode, FieldView, MethodNode, MethodView, Param,
    ParamView, Visibility,
};
use crate::parsing::{copies, line_bound, lines_within, parsed_tree, syntax_tree, Grammar};
use crate::syntax::{
    child_by_field, child_by_kind, child_of_kind, child_texts_of_kind, child_with_field,
    field_text_or, has_kind, kind_is, node_text, text_of, text_or, texts_of_kind, SyntaxNode,
};

verus! {

/// Whether the declaration's `modifiers` list holds the keyword `kw`.
pub open spec fn java_has_modifier(n: SyntaxNode, kw: Seq<char>) -> bool {
    match child_of_kind(n, "modifiers"@) {
        Some(m) => child_of_kind(m, kw) is Some,
        None => false,
    }
}

/// Declared visibility: private, protected, or else public.
pub open spec fn java_visibility(n: SyntaxNode) -> Visibility {
    match child_of_kind(n, "modifiers"@) {
        None => Visibility::Public,
        Some(m) => if child_of_kind(m, "private"@) is Some {
            Visibility::Private
        } else if child_of_kind(m, "protected"@) is Some {
            Visibility::Protected
        } else {
            Visibility::Public
        },
    }
}

/// The type names of the `type_list` of a supertype clause.
pub open spec fn java_type_identifiers(src: Seq<char>, n: SyntaxNode) -> Seq<Seq<char>> {
    match child_of_kind(n, "type_list"@) {
        Some(l) => texts_of_kind(src, l.children@, "type_identifier"@),
        None => seq![],
    }
}

/// The fields that a `field_declaration`'s declarators declare.
pub open spec fn java_declarators(
    src: Seq<char>,
    s: Seq<SyntaxNode>,
    type_text: Seq<char>,
    visibility: Visibility,
    is_static: bool,
) -> Seq<FieldView>
    decreases s.len(),
{
    if s.len() == 0 {
        seq![]
    } else {
        let r = java_declarators(src, s.drop_last(), type_text, visibility, is_static);
        let d = s.last();
        if kind_is(d, "variable_declarator"@) {
            match child_with_field(d, "name"@) {
                Some(nm) => r.push(
                    FieldView { name: text_of(src, nm), type_text, visibility, is_static, line: d.line },
                ),
                None => r,
            }
        } else {
            r
        }
    }
}

/// The fields of a `field_declaration`.
pub open spec fn java_field_declaration(src: Seq<char>, m: SyntaxNode) -> Seq<FieldView> {
    java_declarators(
        src,
        m.children@,
        text_or(src, child_with_field(m, "type"@), "any"@),
        java_visibility(m),
        java_has_modifier(m, "static"@),
    )
}

/// The `formal_parameter`s of a parameter list.
pub open spec fn java_params(src: Seq<char>, s: Seq<SyntaxNode>) -> Seq<ParamView>
    decreases s.len(),
{
    if s.len() == 0 {
        seq![]
    } else {
        let r = java_params(src, s.drop_last());
        let p = s.last();
        if kind_is(p, "formal_parameter"@) {
            r.push(
                ParamView {
                    name: text_or(src, child_with_field(p, "name"@), ""@),
                    type_text: text_or(src, child_with_field(p, "type"@), "any"@),
                },
            )
        } else {
            r
        }
    }
}

/// A method or constructor declaration. A method without a body is abstract.
pub open spec fn java_method(src: Seq<char>, m: SyntaxNode) -> MethodView {
    MethodView {
        name: text_or(src, child_with_field(m, "name"@), ""@),
        params: match child_with_field(m, "parameters"@) {
            Some(ps) => java_params(src, ps.children@),
            None => seq![],
        },
        return_type: text_or(src, child_with_field(m, "type"@), ""@),
        visibility: java_visibility(m),
        is_static: java_has_modifier(m, "static"@),
        is_abstract: java_has_modifier(m, "abstract"@) || child_with_field(m, "body"@) is None,
        line: m.line,
    }
}

/// The fields and methods declared by the members `s` of a body.
pub open spec fn java_member_list(src: Seq<char>, s: Seq<SyntaxNode>) -> (Seq<FieldView>, Seq<MethodView>)
    decreases s.len(),
{
    if s.len() == 0 {
        (seq![], seq![])
    } else {
        let (fs, ms) = java_member_list(src, s.drop_last());
        let m = s.last();
        if kind_is(m, "field_declaration"@) {
            (fs + java_field_declaration(src, m), ms)
        } else if kind_is(m, "method_declaration"@) || kind_is(m, "constructor_declaration"@) {
            (fs, ms.push(java_method(src, m)))
        } else {
            (fs, ms)
        }
    }
}

/// The fields and methods of a type declaration's body.
pub open spec fn java_members(src: Seq<char>, n: SyntaxNode) -> (Seq<FieldView>, Seq<MethodView>) {
    match child_with_field(n, "body"@) {
        Some(body) => java_member_list(src, body.children@),
        None => (seq![], seq![]),
    }
}

/// The declared name, or `Anonymous`.
pub open spec fn java_name(src: Seq<char>, n: SyntaxNode) -> Seq<char> {
    text_or(src, child_with_field(n, "name"@), "Anonymous"@)
}

/// A `class_declaration`.
pub open spec fn java_class(src: Seq<char>, file: Seq<char>, n: SyntaxNode) -> ClassView {
    let name = java_name(src, n);
    ClassView {
        id: name,
        name,
        kind: if java_has_modifier(n, "abstract"@) {
            ClassKind::AbstractClass
        } else {
            ClassKind::Class
        },
        file,
        line: n.line,
        fields: java_members(src, n).0,
        methods: java_members(src, n).1,
        extends: match child_with_field(n, "superclass"@) {
            Some(s) => match child_of_kind(s, "type_identifier"@) {
                Some(t) => seq![text_of(src, t)],
                None => seq![],
            },
            None => seq![],
        },
        implements: match child_with_field(n, "interfaces"@) {
            Some(s) => java_type_identifiers(src, s),
            None => seq![],
        },
    }
}

/// An `interface_declaration`; the interfaces it extends are its supertypes.
pub open spec fn java_interface(src: Seq<char>, file: Seq<char>, n: SyntaxNode) -> ClassView {
    let name = java_name(src, n);
    ClassView {
        id: name,
        name,
        kind: ClassKind::Interface,
        file,
        line: n.line,
        fields: java_members(src, n).0,
        methods: java_members(src, n).1,
        extends: match child_of_kind(n, "extends_interfaces"@) {
            Some(s) => java_type_identifiers(src, s),
            None => seq![],
        },
        implements: seq![],
    }
}

/// The constants of an enum body, as fields.
pub open spec fn java_enum_constants(src: Seq<char>, s: Seq<SyntaxNode>) -> Seq<FieldView>
    decreases s.len(),
{
    if s.len() == 0 {
        seq![]
    } else {
        let r = java_enum_constants(src, s.drop_last());
        let c = s.last();
        if kind_is(c, "enum_constant"@) {
            match child_with_field(c, "name"@) {
                Some(nm) => r.push(
                    FieldView {
                        name: text_of(src, nm),
                        type_text: ""@,
                        visibility: Visibility::Public,
                        is_static: false,
                        line: c.line,
                    },
                ),
                None => r,
            }
        } else {
            r
        }
    }
}

/// An `enum_declaration`: its constants are its fields.
pub open spec fn java_enum(src: Seq<char>, file: Seq<char>, n: SyntaxNode) -> ClassView {
    let name = java_name(src, n);
    ClassView {
        id: name,
        name,
        kind: ClassKind::Enum,
        file,
        line: n.line,
        fields: match child_with_field(n, "body"@) {
            Some(b) => java_enum_constants(src, b.children@),
            None => seq![],
        },
        methods: seq![],
        extends: seq![],
        implements: seq![],
    }
}

/// The type that a node declares itself, if any.
pub open spec fn java_own(src: Seq<char>, file: Seq<char>, n: SyntaxNode) -> Seq<ClassView> {
    if kind_is(n, "class_declaration"@) {
        seq![java_class(src, file, n)]
    } else if kind_is(n, "interface_declaration"@) {
        seq![java_interface(src, file, n)]
    } else if kind_is(n, "enum_declaration"@) {
        seq![java_enum(src, file, n)]
    } else {
        seq![]
    }
}

/// The types declared in the tree below `n`, `n` included, in document
/// order (a type before the types nested in it).
pub open spec fn java_classes(src: Seq<char>, file: Seq<char>, n: SyntaxNode) -> Seq<ClassView>
    decreases n,
{
    java_own(src, file, n) + java_classes_in(src, file, n.children@)
}

/// The types declared in the trees `s`, in order.
pub open spec fn java_classes_in(src: Seq<char>, file: Seq<char>, s: Seq<SyntaxNode>) -> Seq<ClassView>
    decreases s,
{
    if s.len() == 0 {
        seq![]
    } else {
        java_classes_in(src, file, s.drop_last()) + java_classes(src, file, s.last())
    }
}

/// Whether the declaration's modifiers hold `kw`: [`java_has_modifier`].
fn has_modifier(n: &SyntaxNode, kw: &str) -> (r: bool)
    ensures
        r == java_has_modifier(*n, kw@),
{
    match child_by_kind(n, "modifiers") {
        Some(m) => child_by_kind(m, kw).is_some(),
        None => false,
    }
}

/// [`java_visibility`].
fn visibility_of(n: &SyntaxNode) -> (r: Visibility)
    ensures
        r == java_visibility(*n),
{
    match child_by_kind(n, "modifiers") {
        None => Visibility::Public,
        Some(m) => if child_by_kind(m, "private").is_some() {
            Visibility::Private
        } else if child_by_kind(m, "protected").is_some() {
            Visibility::Protected
        } else {
            Visibility::Public
        },
    }
}

/// [`java_type_identifiers`].
fn type_identifiers(src: &str, n: &SyntaxNode) -> (r: Vec<String>)
    ensures
        r.deep_view() == java_type_identifiers(src@, *n),
{
    match child_by_kind(n, "type_list") {
        Some(l) => child_texts_of_kind(src, l, "type_identifier"),
        None => Vec::new(),
    }
}

/// Appends the fields of a `field_declaration`: [`java_field_declaration`].
fn push_field_declaration(src: &str, m: &SyntaxNode, fields: &mut Vec<FieldNode>)
    ensures
        final(fields).deep_view() == old(fields).deep_view() + java_field_declaration(src@, *m),
{
    let type_text = field_text_or(src, m, "type", "any");
    let is_static = has_modifier(m, "static");
    let visibility = visibility_of(m);
    let ghost f0 = fields.deep_view();
    let ghost s = m.children@;
    let len = m.children.len();
    assert(s.take(0) =~= seq![]);
    assert(f0 + java_declarators(src@, s.take(0), type_text@, visibility, is_static) =~= f0);
    for i in 0..len
        invariant
            len == m.children.len(),
            s == m.children@,
            fields.deep_view() == f0 + java_declarators(src@, s.take(i as int), type_text@, visibility, is_static),
    {
        assert(s.take(i + 1).drop_last() =~= s.take(i as int));
        let d = &m.children[i];
        if has_kind(d, "variable_declarator") {
            if let Some(nm) = child_by_field(d, "name") {
                let ghost before = fields.deep_view();
                fields.push(
                    FieldNode {
                        name: node_text(src, nm).to_owned(),
                        type_text: type_text.clone(),
                        visibility,
                        is_static,
                        line: d.line,
                    },
                );
                assert(fields.deep_view() =~= before.push(fields[fields.len() - 1]@));
            }
        }
        assert(fields.deep_view() =~= f0 + java_declarators(src@, s.take(i + 1), type_text@, visibility, is_static));
    }
    assert(s.take(len as int) =~= s);
}

/// [`java_params`] of the children of a parameter list.
fn params_of(src: &str, ps: &SyntaxNode) -> (r: Vec<Param>)
    ensures
        r.deep_view() == java_params(src@, ps.children@),
{
    let mut r: Vec<Param> = Vec::new();
    let ghost s = ps.children@;
    let len = ps.children.len();
    assert(s.take(0) =~= seq![]);
    for i in 0..len
        invariant
            len == ps.children.len(),
            s == ps.children@,
            r.deep_view() == java_params(src@, s.take(i as int)),
    {
        assert(s.take(i + 1).drop_last() =~= s.take(i as int));
        let p = &ps.children[i];
        if has_kind(p, "formal_parameter") {
            let ghost before = r.deep_view();
            r.push(
                Param {
                    name: field_text_or(src, p, "name", ""),
                    type_text: field_text_or(src, p, "type", "any"),
                },
            );
            assert(r.deep_view() =~= before.push(r[r.len() - 1]@));
        }
    }
    assert(s.take(len as int) =~= s);
    r
}

/// [`java_method`].
fn extract_method(src: &str, m: &SyntaxNode) -> (r: MethodNode)
    ensures
        r@ == java_method(src@, *m),
{
    let params = match child_by_field(m, "parameters") {
        Some(ps) => params_of(src, ps),
        None => Vec::new(),
    };
    let r = MethodNode {
        name: field_text_or(src, m, "name", ""),
        params,
        return_type: field_text_or(src, m, "type", ""),
        visibility: visibility_of(m),
        is_static: has_modifier(m, "static"),
        is_abstract: has_modifier(m, "abstract") || child_by_field(m, "body").is_none(),
        line: m.line,
    };
    assert(r@.params =~= java_method(src@, *m).params);
    r
}

/// [`java_members`].
fn extract_members(src: &str, n: &SyntaxNode) -> (r: (Vec<FieldNode>, Vec<MethodNode>))
    ensures
        r.0.deep_view() == java_members(src@, *n).0,
        r.1.deep_view() == java_members(src@, *n).1,
{
    let mut fields: Vec<FieldNode> = Vec::new();
    let mut methods: Vec<MethodNode> = Vec::new();
    let body = match child_by_field(n, "body") {
        Some(b) => b,
        None => {
            return (fields, methods);
        },
    };
    let ghost s = body.children@;
    let len = body.children.len();
    assert(s.take(0) =~= seq![]);
    for i in 0..len
        invariant
            len == body.children.len(),
            s == body.children@,
            fields.deep_view() == java_member_list(src@, s.take(i as int)).0,
            methods.deep_view() == java_member_list(src@, s.take(i as int)).1,
    {
        assert(s.take(i + 1).drop_last() =~= s.take(i as int));
        let m = &body.children[i];
        if has_kind(m, "field_declaration") {
            push_field_declaration(src, m, &mut fields);
        } else if has_kind(m, "method_declaration") || has_kind(m, "constructor_declaration") {
            let ghost before = methods.deep_view();
            methods.push(extract_method(src, m));
            assert(methods.deep_view() =~= before.push(java_method(src@, *m)));
        }
    }
    assert(s.take(len as int) =~= s);
    (fields, methods)
}

/// [`java_name`].
fn name_of(src: &str, n: &SyntaxNode) -> (r: String)
    ensures
        r@ == java_name(src@, *n),
{
    field_text_or(src, n, "name", "Anonymous")
}

/// [`java_class`].
fn extract_class(src: &str, file: &str, n: &SyntaxNode) -> (r: ClassNode)
    ensures
        r@ == java_class(src@, file@, *n),
{
    let name = name_of(src, n);
    let extends = match child_by_field(n, "superclass") {
        Some(s) => match child_by_kind(s, "type_identifier") {
            Some(t) => {
                let mut v: Vec<String> = Vec::new();
                v.push(node_text(src, t).to_owned());
                assert(v.deep_view() =~= seq![text_of(src@, *t)]);
                v
            },
            None => Vec::new(),
        },
        None => Vec::new(),
    };
    let implements = match child_by_field(n, "interfaces") {
        Some(s) => type_identifiers(src, s),
        None => Vec::new(),
    };
    let (fields, methods) = extract_members(src, n);
    let r = ClassNode {
        id: name.clone(),
        name,
        kind: if has_modifier(n, "abstract") {
            ClassKind::AbstractClass
        } else {
            ClassKind::Class
        },
        file: file.to_owned(),
        line: n.line,
        fields,
        methods,
        extends,
        implements,
    };
    assert(r@.extends =~= java_class(src@, file@, *n).extends);
    assert(r@.implements =~= java_class(src@, file@, *n).implements);
    r
}

/// [`java_interface`].
fn extract_interface(src: &str, file: &str, n: &SyntaxNode) -> (r: ClassNode)
    ensures
        r@ == java_interface(src@, file@, *n),
{
    let name = name_of(src, n);
    let extends = match child_by_kind(n, "extends_interfaces") {
        Some(s) => type_identifiers(src, s),
        None => Vec::new(),
    };
    let (fields, methods) = extract_members(src, n);
    let r = ClassNode {
        id: name.clone(),
        name,
        kind: ClassKind::Interface,
        file: file.to_owned(),
        line: n.line,
        fields,
        methods,
        extends,
        implements: Vec::new(),
    };
    assert(r@.implements =~= seq![]);
    r
}

/// [`java_enum`].
fn extract_enum(src: &str, file: &str, n: &SyntaxNode) -> (r: ClassNode)
    ensures
        r@ == java_enum(src@, file@, *n),
{
    let name = name_of(src, n);
    let mut fields: Vec<FieldNode> = Vec::new();
    if let Some(body) = child_by_field(n, "body") {
        let ghost s = body.children@;
        let len = body.children.len();
        assert(s.take(0) =~= seq![]);
        for i in 0..len
            invariant
                len == body.children.len(),
                s == body.children@,
                fields.deep_view() == java_enum_constants(src@, s.take(i as int)),
        {
            assert(s.take(i + 1).drop_last() =~= s.take(i as int));
            let c = &body.children[i];
            if has_kind(c, "enum_constant") {
                if let Some(nm) = child_by_field(c, "name") {
                    let ghost before = fields.deep_view();
                    fields.push(
                        FieldNode {
                            name: node_text(src, nm).to_owned(),
                            type_text: String::new(),
                            visibility: Visibility::Public,
                            is_static: false,
                            line: c.line,
                        },
                    );
                    proof {
                        reveal_strlit("");
                    }
                    assert(""@ =~= Seq::<char>::empty());
                    assert(fields.deep_view() =~= before.push(fields[fields.len() - 1]@));
                }
            }
        }
        assert(s.take(len as int) =~= s);
    }
    let r = ClassNode {
        id: name.clone(),
        name,
        kind: ClassKind::Enum,
        file: file.to_owned(),
        line: n.line,
        fields,
        methods: Vec::new(),
        extends: Vec::new(),
        implements: Vec::new(),
    };
    assert(r@.methods =~= seq![]);
    assert(r@.fields =~= java_enum(src@, file@, *n).fields);
    assert(r@.extends =~= seq![]);
    assert(r@.implements =~= seq![]);
    r
}

/// Appends the types declared below `n`: [`java_classes`].
fn walk(src: &str, file: &str, n: &SyntaxNode, out: &mut Vec<ClassNode>)
    ensures
        final(out).deep_view() == old(out).deep_view() + java_classes(src@, file@, *n),
    decreases n,
{
    let ghost o0 = out.deep_view();
    if has_kind(n, "class_declaration") {
        out.push(extract_class(src, file, n));
    } else if has_kind(n, "interface_declaration") {
        out.push(extract_interface(src, file, n));
    } else if has_kind(n, "enum_declaration") {
        out.push(extract_enum(src, file, n));
    }
    let ghost o1 = out.deep_view();
    assert(o1 =~= o0 + java_own(src@, file@, *n));
    let ghost s = n.children@;
    let len = n.children.len();
    assert(s.take(0) =~= seq![]);
    assert(o1 + java_classes_in(src@, file@, s.take(0)) =~= o1);
    for i in 0..len
        invariant
            len == n.children.len(),
            s == n.children@,
            out.deep_view() == o1 + java_classes_in(src@, file@, s.take(i as int)),
    {
        assert(s.take(i + 1).drop_last() =~= s.take(i as int));
        walk(src, file, &n.children[i], out);
        assert(out.deep_view() =~= o1 + java_classes_in(src@, file@, s.take(i + 1)));
    }
    assert(s.take(len as int) =~= s);
}

/// The types declared in a Java syntax tree, as [`java_classes`] says.
pub fn extract_classes(src: &str, file: &str, tree: &SyntaxNode) -> (r: Vec<ClassNode>)
    ensures
        r.deep_view() == java_classes(src@, file@, *tree),
{
    let mut out: Vec<ClassNode> = Vec::new();
    walk(src, file, tree, &mut out);
    assert(out.deep_view() =~= java_classes(src@, file@, *tree));
    out
}

/// Parses Java `source` from the file `path` and returns the types it
/// declares: the extraction of [`extract_classes`] applied to the tree that
/// tree-sitter's Java grammar gives, or nothing when there is no tree (see [`parsed_tree`]).
pub fn parse(path: &str, source: &str) -> (r: Vec<ClassNode>)
    ensures
        match parsed_tree(Grammar::Java, source@) {
            Some(m) => exists|t: SyntaxNode|
                copies(t, m) && lines_within(t, line_bound(source@)) && r.deep_view() == java_classes(source@, path@, t),
            None => r.len() == 0,
        },
{
    match syntax_tree(source, Grammar::Java) {
        Some(tree) => {
            let r = extract_classes(source, path, &tree);
            assert(copies(tree, parsed_tree(Grammar::Java, source@)->0));
            r
        },
        None => Vec::new(),
    }
}

/// A Java method or constructor takes its visibility from its `modifiers`:
/// private when they hold `private`, protected when they hold `protected`
/// and not `private`, public when they hold neither or when there are none.
pub proof fn law_java_method_visibility_follows_modifiers(src: Seq<char>, m: SyntaxNode)
    ensures
        (child_of_kind(m, "modifiers"@) matches Some(mods) && child_of_kind(mods, "private"@) is Some)
            ==> java_method(src, m).visibility == Visibility::Private,
        (child_of_kind(m, "modifiers"@) matches Some(mods) && child_of_kind(mods, "private"@) is None
            && child_of_kind(mods, "protected"@) is Some) ==> java_method(src, m).visibility
            == Visibility::Protected,
        (child_of_kind(m, "modifiers"@) matches Some(mods) ==> child_of_kind(mods, "private"@) is None
            && child_of_kind(mods, "protected"@) is None) ==> java_method(src, m).visibility
            == Visibility::Public,
{
}

/// Whether the declaration's `modifiers` hold the keyword `kw`.
pub open spec fn modifiers_hold(n: SyntaxNode, kw: Seq<char>) -> bool {
    child_of_kind(n, "modifiers"@) matches Some(mods) && child_of_kind(mods, kw) is Some
}

/// The visibility that a declaration's `modifiers` give: private, then
/// protected, else public.
pub open spec fn declared_visibility(n: SyntaxNode) -> Visibility {
    if modifiers_hold(n, "private"@) {
        Visibility::Private
    } else if modifiers_hold(n, "protected"@) {
        Visibility::Protected
    } else {
        Visibility::Public
    }
}

/// A Java method or constructor: its return type is the text of its `type`
/// node (empty for a constructor, which has none), it is static when its
/// modifiers hold `static`, abstract when they hold `abstract` or it has no
/// body, it starts on the declaration's line, and its visibility is the one
/// that a field declaration with the same modifiers gets.
pub proof fn law_java_method_follows_its_declaration(src: Seq<char>, m: SyntaxNode)
    ensures
        java_method(src, m).return_type == match child_with_field(m, "type"@) {
            Some(t) => text_of(src, t),
            None => ""@,
        },
        java_method(src, m).is_static == modifiers_hold(m, "static"@),
        java_method(src, m).is_abstract == (modifiers_hold(m, "abstract"@) || child_with_field(
            m,
            "body"@,
        ) is None),
        java_method(src, m).visibility == declared_visibility(m),
        java_method(src, m).line == m.line,
        fields_carry(
            java_field_declaration(src, m),
            match child_with_field(m, "type"@) {
                Some(t) => text_of(src, t),
                None => "any"@,
            },
            java_method(src, m).visibility,
            modifiers_hold(m, "static"@),
        ),
{
    lemma_java_declarators_carry(
        src,
        m.children@,
        text_or(src, child_with_field(m, "type"@), "any"@),
        java_visibility(m),
        java_has_modifier(m, "static"@),
    );
}

/// Every field a Java field declaration gives carries the declaration's
/// type, visibility and static flag.
proof fn lemma_java_declarators_carry(
    src: Seq<char>,
    s: Seq<SyntaxNode>,
    type_text: Seq<char>,
    visibility: Visibility,
    is_static: bool,
)
    ensures
        fields_carry(java_declarators(src, s, type_text, visibility, is_static), type_text, visibility, is_static),
    decreases s.len(),
{
    if s.len() > 0 {
        lemma_java_declarators_carry(src, s.drop_last(), type_text, visibility, is_static);
    }
}

/// A Java parameter list keeps every `formal_parameter`, in order, with the
/// text of its `name` and `type` nodes (`any` when untyped); other nodes
/// add no parameter.
pub proof fn law_java_parameters_keep_their_types(src: Seq<char>, s: Seq<SyntaxNode>, p: SyntaxNode)
    ensures
        kind_is(p, "formal_parameter"@) ==> java_params(src, s.push(p)) == java_params(src, s).push(
            ParamView {
                name: match child_with_field(p, "name"@) {
                    Some(x) => text_of(src, x),
                    None => ""@,
                },
                type_text: match child_with_field(p, "type"@) {
                    Some(t) => text_of(src, t),
                    None => "any"@,
                },
            },
        ),
        !kind_is(p, "formal_parameter"@) ==> java_params(src, s.push(p)) == java_params(src, s),
{
    assert(s.push(p).drop_last() =~= s);
}

/// The members of a Java body in order: a field declaration adds its
/// fields, a method or constructor declaration adds its method, anything
/// else adds nothing.
pub proof fn law_java_members_in_order(src: Seq<char>, s: Seq<SyntaxNode>, m: SyntaxNode)
    ensures
        kind_is(m, "field_declaration"@) ==> java_member_list(src, s.push(m)) == (
            java_member_list(src, s).0 + java_field_declaration(src, m),
            java_member_list(src, s).1,
        ),
        (kind_is(m, "method_declaration"@) || kind_is(m, "constructor_declaration"@))
            ==> java_member_list(src, s.push(m)) == (
            java_member_list(src, s).0,
            java_member_list(src, s).1.push(java_method(src, m)),
        ),
        !(kind_is(m, "field_declaration"@) || kind_is(m, "method_declaration"@) || kind_is(
            m,
            "constructor_declaration"@,
        )) ==> java_member_list(src, s.push(m)) == java_member_list(src, s),
{
    reveal_strlit("field_declaration");
    reveal_strlit("method_declaration");
    reveal_strlit("constructor_declaration");
    assert("field_declaration"@.len() != "method_declaration"@.len());
    assert("field_declaration"@.len() != "constructor_declaration"@.len());
    assert(s.push(m).drop_last() =~= s);
}

/// A Java class: named by its `name` node (`Anonymous` without one), with
/// that name as its id; abstract when its modifiers hold `abstract`; it
/// extends the type named in its `superclass` and implements the types
/// listed in its `interfaces`.
pub proof fn law_java_class_follows_its_declaration(src: Seq<char>, file: Seq<char>, n: SyntaxNode)
    ensures
        java_class(src, file, n).name == match child_with_field(n, "name"@) {
            Some(x) => text_of(src, x),
            None => "Anonymous"@,
        },
        java_class(src, file, n).id == java_class(src, file, n).name,
        java_class(src, file, n).kind == if modifiers_hold(n, "abstract"@) {
            ClassKind::AbstractClass
        } else {
            ClassKind::Class
        },
        java_class(src, file, n).extends == match child_with_field(n, "superclass"@) {
            Some(sc) => match child_of_kind(sc, "type_identifier"@) {
                Some(t) => seq![text_of(src, t)],
                None => seq![],
            },
            None => seq![],
        },
        java_class(src, file, n).implements == match child_with_field(n, "interfaces"@) {
            Some(i) => match child_of_kind(i, "type_list"@) {
                Some(l) => texts_of_kind(src, l.children@, "type_identifier"@),
                None => seq![],
            },
            None => seq![],
        },
        java_interface(src, file, n).kind == ClassKind::Interface,
        java_interface(src, file, n).implements.len() == 0,
        java_enum(src, file, n).kind == ClassKind::Enum,
        java_enum(src, file, n).methods.len() == 0,
{
}

} // verus!
