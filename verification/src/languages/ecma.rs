//! TypeScript and JavaScript (including JSX/TSX): classes, abstract
//! classes, interfaces and enums, with fields, constructor parameter
//! properties, methods, heritage clauses and modifiers.

use vstd::prelude::*;
use crate::model::{
    fields_carry,
    ClassKind, ClassNode, ClassView, FieldNode, FieldView, MethodNode, MethodView, Param,
    ParamView, Visibility,
};
use crate::parsing::{copies, line_bound, lines_within, parsed_tree, syntax_tree, Grammar};
use crate::syntax::{
    child_by_field, child_by_kind, child_of_kind, child_with_field, field_text_or, has_kind,
    kind_is, node_text, text_of, text_or, SyntaxNode,
};
use crate::text::{str_eq, string_of_range, strip_leading, to_chars, trim, trim_spec, trim_start_char};

verus! {

/// Which grammar a file is parsed with.
#[derive(Debug, Clone, Copy, PartialEq, Eq, Structural)]
pub enum Dialect {
    TypeScript,
    JavaScript,
}

/// The grammar that parses a dialect.
pub open spec fn dialect_grammar(dialect: Dialect) -> Grammar {
    match dialect {
        Dialect::TypeScript => Grammar::TypeScript,
        Dialect::JavaScript => Grammar::JavaScript,
    }
}

/// Whether the node has a child of kind `kw` (a modifier keyword).
pub open spec fn ecma_has_modifier(n: SyntaxNode, kw: Seq<char>) -> bool {
    child_of_kind(n, kw) is Some
}

/// The first node of `s` that is not the `:` token.
pub open spec fn first_not_colon(s: Seq<SyntaxNode>) -> Option<SyntaxNode>
    decreases s.len(),
{
    if s.len() == 0 {
        None
    } else if !kind_is(s[0], ":"@) {
        Some(s[0])
    } else {
        first_not_colon(s.drop_first())
    }
}

/// The text of a type annotation without its leading `:`.
pub open spec fn type_annotation_spec(src: Seq<char>, n: SyntaxNode) -> Seq<char> {
    text_or(src, first_not_colon(n.children@), ""@)
}

/// The annotated type of a field or parameter, or `any`.
pub open spec fn field_type_spec(src: Seq<char>, n: SyntaxNode) -> Seq<char> {
    match child_with_field(n, "type"@) {
        Some(t) => type_annotation_spec(src, t),
        None => "any"@,
    }
}

/// Visibility from an `accessibility_modifier`; public without one.
pub open spec fn ecma_visibility(src: Seq<char>, n: SyntaxNode) -> Visibility {
    match child_of_kind(n, "accessibility_modifier"@) {
        Some(m) => if text_of(src, m) == "private"@ {
            Visibility::Private
        } else if text_of(src, m) == "protected"@ {
            Visibility::Protected
        } else {
            Visibility::Public
        },
        None => Visibility::Public,
    }
}

/// The characters of `s` before the first `<` or `(`.
pub open spec fn before_generic(s: Seq<char>) -> Seq<char>
    decreases s.len(),
{
    if s.len() == 0 || s[0] == '<' || s[0] == '(' {
        seq![]
    } else {
        seq![s[0]] + before_generic(s.drop_first())
    }
}

/// A type reference without type arguments or call: `Base<T>` gives `Base`.
pub open spec fn base_type_name_spec(raw: Seq<char>) -> Seq<char> {
    trim_spec(before_generic(raw))
}

/// The implemented types among the children of an `implements_clause`.
pub open spec fn implemented_types(src: Seq<char>, s: Seq<SyntaxNode>) -> Seq<Seq<char>>
    decreases s.len(),
{
    if s.len() == 0 {
        seq![]
    } else if kind_is(s.last(), "type_identifier"@) || kind_is(s.last(), "generic_type"@) {
        implemented_types(src, s.drop_last()).push(base_type_name_spec(text_of(src, s.last())))
    } else {
        implemented_types(src, s.drop_last())
    }
}

/// The class a `class_heritage` extends.
pub open spec fn heritage_extends(src: Seq<char>, n: SyntaxNode) -> Seq<Seq<char>> {
    match child_of_kind(n, "class_heritage"@) {
        Some(h) => match child_of_kind(h, "extends_clause"@) {
            Some(e) => match child_with_field(e, "value"@) {
                Some(v) => seq![base_type_name_spec(text_of(src, v))],
                None => seq![],
            },
            None => seq![],
        },
        None => seq![],
    }
}

/// The interfaces a `class_heritage` implements.
pub open spec fn heritage_implements(src: Seq<char>, n: SyntaxNode) -> Seq<Seq<char>> {
    match child_of_kind(n, "class_heritage"@) {
        Some(h) => match child_of_kind(h, "implements_clause"@) {
            Some(i) => implemented_types(src, i.children@),
            None => seq![],
        },
        None => seq![],
    }
}

/// The node naming a field: its `name`, or for JavaScript `#private` fields
/// its `property`.
pub open spec fn field_name_node(n: SyntaxNode) -> Option<SyntaxNode> {
    match child_with_field(n, "name"@) {
        Some(x) => Some(x),
        None => child_with_field(n, "property"@),
    }
}

/// A field definition. A `#name` field is private and named without `#`.
pub open spec fn ecma_field(src: Seq<char>, n: SyntaxNode) -> FieldView {
    let nn = field_name_node(n);
    FieldView {
        name: match nn {
            Some(x) => strip_leading(text_of(src, x), '#'),
            None => ""@,
        },
        type_text: field_type_spec(src, n),
        visibility: if (nn matches Some(x) && kind_is(x, "private_property_identifier"@)) {
            Visibility::Private
        } else {
            ecma_visibility(src, n)
        },
        is_static: ecma_has_modifier(n, "static"@),
        line: n.line,
    }
}

/// Whether a parameter node is a required or optional parameter.
pub open spec fn is_plain_parameter(p: SyntaxNode) -> bool {
    kind_is(p, "required_parameter"@) || kind_is(p, "optional_parameter"@)
}

/// Constructor parameters with an accessibility modifier or `readonly`:
/// TypeScript parameter properties, which are fields.
pub open spec fn ctor_properties(src: Seq<char>, s: Seq<SyntaxNode>) -> Seq<FieldView>
    decreases s.len(),
{
    if s.len() == 0 {
        seq![]
    } else {
        let r = ctor_properties(src, s.drop_last());
        let p = s.last();
        if is_plain_parameter(p) && (ecma_has_modifier(p, "accessibility_modifier"@)
            || ecma_has_modifier(p, "readonly"@)) {
            r.push(
                FieldView {
                    name: text_or(src, child_with_field(p, "pattern"@), ""@),
                    type_text: field_type_spec(src, p),
                    visibility: ecma_visibility(src, p),
                    is_static: false,
                    line: p.line,
                },
            )
        } else {
            r
        }
    }
}

/// The parameter properties of a constructor.
pub open spec fn ecma_constructor_properties(src: Seq<char>, n: SyntaxNode) -> Seq<FieldView> {
    match child_with_field(n, "parameters"@) {
        Some(ps) => ctor_properties(src, ps.children@),
        None => seq![],
    }
}

/// The required, optional and rest parameters of a parameter list.
pub open spec fn ecma_params(src: Seq<char>, s: Seq<SyntaxNode>) -> Seq<ParamView>
    decreases s.len(),
{
    if s.len() == 0 {
        seq![]
    } else {
        let r = ecma_params(src, s.drop_last());
        let p = s.last();
        if is_plain_parameter(p) || kind_is(p, "rest_parameter"@) {
            r.push(
                ParamView {
                    name: text_or(src, child_with_field(p, "pattern"@), "arg"@),
                    type_text: field_type_spec(src, p),
                },
            )
        } else {
            r
        }
    }
}

/// A method definition or signature. Without a return annotation a
/// constructor returns nothing and any other method `any`.
pub open spec fn ecma_method(src: Seq<char>, n: SyntaxNode, is_abstract: bool) -> MethodView {
    let name = text_or(src, child_with_field(n, "name"@), ""@);
    MethodView {
        name,
        params: match child_with_field(n, "parameters"@) {
            Some(ps) => ecma_params(src, ps.children@),
            None => seq![],
        },
        return_type: match child_with_field(n, "return_type"@) {
            Some(t) => type_annotation_spec(src, t),
            None => if name == "constructor"@ {
                ""@
            } else {
                "any"@
            },
        },
        visibility: ecma_visibility(src, n),
        is_static: ecma_has_modifier(n, "static"@),
        is_abstract,
        line: n.line,
    }
}

/// The fields and methods declared by the members `s` of a class body.
pub open spec fn class_member_list(src: Seq<char>, s: Seq<SyntaxNode>) -> (Seq<FieldView>, Seq<MethodView>)
    decreases s.len(),
{
    if s.len() == 0 {
        (seq![], seq![])
    } else {
        let (fs, ms) = class_member_list(src, s.drop_last());
        let m = s.last();
        if kind_is(m, "public_field_definition"@) || kind_is(m, "field_definition"@) {
            (fs.push(ecma_field(src, m)), ms)
        } else if kind_is(m, "method_definition"@) {
            let method = ecma_method(src, m, ecma_has_modifier(m, "abstract"@));
            (
                if method.name == "constructor"@ {
                    fs + ecma_constructor_properties(src, m)
                } else {
                    fs
                },
                ms.push(method),
            )
        } else if kind_is(m, "abstract_method_signature"@) || kind_is(m, "method_signature"@) {
            (fs, ms.push(ecma_method(src, m, true)))
        } else {
            (fs, ms)
        }
    }
}

/// The fields and methods of a class declaration's body.
pub open spec fn class_members(src: Seq<char>, n: SyntaxNode) -> (Seq<FieldView>, Seq<MethodView>) {
    match child_with_field(n, "body"@) {
        Some(b) => class_member_list(src, b.children@),
        None => (seq![], seq![]),
    }
}

/// The declared name, or `Anonymous`.
pub open spec fn ecma_name(src: Seq<char>, n: SyntaxNode) -> Seq<char> {
    text_or(src, child_with_field(n, "name"@), "Anonymous"@)
}

/// A class or abstract class declaration.
pub open spec fn ecma_class(src: Seq<char>, file: Seq<char>, n: SyntaxNode) -> ClassView {
    let name = ecma_name(src, n);
    ClassView {
        id: name,
        name,
        kind: if kind_is(n, "abstract_class_declaration"@) {
            ClassKind::AbstractClass
        } else {
            ClassKind::Class
        },
        file,
        line: n.line,
        fields: class_members(src, n).0,
        methods: class_members(src, n).1,
        extends: heritage_extends(src, n),
        implements: heritage_implements(src, n),
    }
}

/// The type names of an interface's `extends` clause.
pub open spec fn extended_types(src: Seq<char>, s: Seq<SyntaxNode>) -> Seq<Seq<char>>
    decreases s.len(),
{
    if s.len() == 0 {
        seq![]
    } else if kind_is(s.last(), "type_identifier"@) {
        extended_types(src, s.drop_last()).push(base_type_name_spec(text_of(src, s.last())))
    } else {
        extended_types(src, s.drop_last())
    }
}

/// The property and method signatures `s` of an interface body.
pub open spec fn interface_member_list(src: Seq<char>, s: Seq<SyntaxNode>) -> (Seq<FieldView>, Seq<MethodView>)
    decreases s.len(),
{
    if s.len() == 0 {
        (seq![], seq![])
    } else {
        let (fs, ms) = interface_member_list(src, s.drop_last());
        let m = s.last();
        if kind_is(m, "property_signature"@) {
            (
                fs.push(
                    FieldView {
                        name: text_or(src, child_with_field(m, "name"@), ""@),
                        type_text: field_type_spec(src, m),
                        visibility: Visibility::Public,
                        is_static: false,
                        line: m.line,
                    },
                ),
                ms,
            )
        } else if kind_is(m, "method_signature"@) {
            (fs, ms.push(ecma_method(src, m, true)))
        } else {
            (fs, ms)
        }
    }
}

/// The fields and methods of an interface body.
pub open spec fn interface_members(src: Seq<char>, n: SyntaxNode) -> (Seq<FieldView>, Seq<MethodView>) {
    match child_with_field(n, "body"@) {
        Some(b) => interface_member_list(src, b.children@),
        None => (seq![], seq![]),
    }
}

/// An `interface_declaration`; the interfaces it extends are its supertypes.
pub open spec fn ecma_interface(src: Seq<char>, file: Seq<char>, n: SyntaxNode) -> ClassView {
    let name = ecma_name(src, n);
    ClassView {
        id: name,
        name,
        kind: ClassKind::Interface,
        file,
        line: n.line,
        fields: interface_members(src, n).0,
        methods: interface_members(src, n).1,
        extends: match child_of_kind(n, "extends_type_clause"@) {
            Some(c) => extended_types(src, c.children@),
            None => seq![],
        },
        implements: seq![],
    }
}

/// The variant name a member of an enum body declares, if any.
pub open spec fn enum_variant_name(src: Seq<char>, m: SyntaxNode) -> Option<Seq<char>> {
    if kind_is(m, "property_identifier"@) {
        Some(text_of(src, m))
    } else if kind_is(m, "enum_assignment"@) {
        match child_with_field(m, "name"@) {
            Some(x) => Some(text_of(src, x)),
            None => None,
        }
    } else {
        None
    }
}

/// The variants of an enum body, as fields.
pub open spec fn enum_variants(src: Seq<char>, s: Seq<SyntaxNode>) -> Seq<FieldView>
    decreases s.len(),
{
    if s.len() == 0 {
        seq![]
    } else {
        let r = enum_variants(src, s.drop_last());
        match enum_variant_name(src, s.last()) {
            Some(v) => r.push(
                FieldView {
                    name: v,
                    type_text: ""@,
                    visibility: Visibility::Public,
                    is_static: false,
                    line: s.last().line,
                },
            ),
            None => r,
        }
    }
}

/// An `enum_declaration`: its variants are its fields.
pub open spec fn ecma_enum(src: Seq<char>, file: Seq<char>, n: SyntaxNode) -> ClassView {
    let name = ecma_name(src, n);
    ClassView {
        id: name,
        name,
        kind: ClassKind::Enum,
        file,
        line: n.line,
        fields: match child_with_field(n, "body"@) {
            Some(b) => enum_variants(src, b.children@),
            None => seq![],
        },
        methods: seq![],
        extends: seq![],
        implements: seq![],
    }
}

/// The type that a node declares itself, if any.
pub open spec fn ecma_own(src: Seq<char>, file: Seq<char>, n: SyntaxNode) -> Seq<ClassView> {
    if kind_is(n, "class_declaration"@) || kind_is(n, "abstract_class_declaration"@) {
        seq![ecma_class(src, file, n)]
    } else if kind_is(n, "interface_declaration"@) {
        seq![ecma_interface(src, file, n)]
    } else if kind_is(n, "enum_declaration"@) {
        seq![ecma_enum(src, file, n)]
    } else {
        seq![]
    }
}

/// The types declared in the tree below `n`, `n` included, in document
/// order.
pub open spec fn ecma_classes(src: Seq<char>, file: Seq<char>, n: SyntaxNode) -> Seq<ClassView>
    decreases n,
{
    ecma_own(src, file, n) + ecma_classes_in(src, file, n.children@)
}

/// The types declared in the trees `s`, in order.
pub open spec fn ecma_classes_in(src: Seq<char>, file: Seq<char>, s: Seq<SyntaxNode>) -> Seq<ClassView>
    decreases s,
{
    if s.len() == 0 {
        seq![]
    } else {
        ecma_classes_in(src, file, s.drop_last()) + ecma_classes(src, file, s.last())
    }
}

/// [`ecma_has_modifier`].
fn has_modifier(n: &SyntaxNode, kw: &str) -> (r: bool)
    ensures
        r == ecma_has_modifier(*n, kw@),
{
    child_by_kind(n, kw).is_some()
}

/// [`type_annotation_spec`].
fn type_annotation_text(src: &str, n: &SyntaxNode) -> (r: String)
    ensures
        r@ == type_annotation_spec(src@, *n),
{
    let ghost s = n.children@;
    let len = n.children.len();
    assert(s.skip(0) =~= s);
    for i in 0..len
        invariant
            len == n.children.len(),
            s == n.children@,
            first_not_colon(s) == first_not_colon(s.skip(i as int)),
    {
        assert(s.skip(i as int)[0] == s[i as int]);
        assert(s.skip(i as int).drop_first() =~= s.skip(i + 1));
        if !has_kind(&n.children[i], ":") {
            return node_text(src, &n.children[i]).to_owned();
        }
    }
    proof {
        reveal_strlit("");
    }
    "".to_owned()
}

/// [`field_type_spec`].
fn field_type_text(src: &str, n: &SyntaxNode) -> (r: String)
    ensures
        r@ == field_type_spec(src@, *n),
{
    match child_by_field(n, "type") {
        Some(t) => type_annotation_text(src, t),
        None => "any".to_owned(),
    }
}

/// [`ecma_visibility`].
fn visibility_of(src: &str, n: &SyntaxNode) -> (r: Visibility)
    ensures
        r == ecma_visibility(src@, *n),
{
    match child_by_kind(n, "accessibility_modifier") {
        Some(m) => {
            let t = node_text(src, m);
            if str_eq(t, "private") {
                Visibility::Private
            } else if str_eq(t, "protected") {
                Visibility::Protected
            } else {
                Visibility::Public
            }
        },
        None => Visibility::Public,
    }
}

/// A type reference without type arguments or call: [`base_type_name_spec`].
pub fn base_type_name(raw: &str) -> (r: String)
    ensures
        r@ == base_type_name_spec(raw@),
{
    let v = to_chars(raw);
    let n = v.len();
    let mut k: usize = 0;
    assert(v@.skip(0) =~= v@);
    assert(v@.take(0) =~= seq![]);
    while k < n && v[k] != '<' && v[k] != '('
        invariant
            k <= n == v.len(),
            v@ == raw@,
            before_generic(raw@) == v@.take(k as int) + before_generic(v@.skip(k as int)),
        decreases n - k,
    {
        assert(v@.skip(k as int).drop_first() =~= v@.skip(k + 1));
        assert(v@.take(k + 1) =~= v@.take(k as int) + seq![v@[k as int]]);
        assert(v@.take(k as int) + (seq![v@[k as int]] + before_generic(v@.skip(k + 1))) =~= v@.take(k + 1) + before_generic(v@.skip(k + 1)));
        k = k + 1;
    }
    assert(before_generic(v@.skip(k as int)) =~= seq![]);
    assert(v@.take(k as int) + seq![] =~= v@.subrange(0, k as int));
    let prefix = string_of_range(&v, 0, k);
    trim(prefix.as_str()).to_owned()
}

/// [`implemented_types`] of the children of `n`.
fn implemented_types_of(src: &str, n: &SyntaxNode) -> (r: Vec<String>)
    ensures
        r.deep_view() == implemented_types(src@, n.children@),
{
    let mut r: Vec<String> = Vec::new();
    let ghost s = n.children@;
    let len = n.children.len();
    assert(s.take(0) =~= seq![]);
    for i in 0..len
        invariant
            len == n.children.len(),
            s == n.children@,
            r.deep_view() == implemented_types(src@, s.take(i as int)),
    {
        assert(s.take(i + 1).drop_last() =~= s.take(i as int));
        let c = &n.children[i];
        if has_kind(c, "type_identifier") || has_kind(c, "generic_type") {
            let ghost before = r.deep_view();
            r.push(base_type_name(node_text(src, c)));
            assert(r.deep_view() =~= before.push(base_type_name_spec(text_of(src@, *c))));
        }
    }
    assert(s.take(len as int) =~= s);
    r
}

/// [`extended_types`] of the children of `n`.
fn extended_types_of(src: &str, n: &SyntaxNode) -> (r: Vec<String>)
    ensures
        r.deep_view() == extended_types(src@, n.children@),
{
    let mut r: Vec<String> = Vec::new();
    let ghost s = n.children@;
    let len = n.children.len();
    assert(s.take(0) =~= seq![]);
    for i in 0..len
        invariant
            len == n.children.len(),
            s == n.children@,
            r.deep_view() == extended_types(src@, s.take(i as int)),
    {
        assert(s.take(i + 1).drop_last() =~= s.take(i as int));
        let c = &n.children[i];
        if has_kind(c, "type_identifier") {
            let ghost before = r.deep_view();
            r.push(base_type_name(node_text(src, c)));
            assert(r.deep_view() =~= before.push(base_type_name_spec(text_of(src@, *c))));
        }
    }
    assert(s.take(len as int) =~= s);
    r
}

/// ([`heritage_extends`], [`heritage_implements`]).
fn extract_heritage(src: &str, n: &SyntaxNode) -> (r: (Vec<String>, Vec<String>))
    ensures
        r.0.deep_view() == heritage_extends(src@, *n),
        r.1.deep_view() == heritage_implements(src@, *n),
{
    let mut extends: Vec<String> = Vec::new();
    let mut implements: Vec<String> = Vec::new();
    if let Some(h) = child_by_kind(n, "class_heritage") {
        if let Some(e) = child_by_kind(h, "extends_clause") {
            if let Some(v) = child_by_field(e, "value") {
                extends.push(base_type_name(node_text(src, v)));
                assert(extends.deep_view() =~= seq![base_type_name_spec(text_of(src@, *v))]);
            }
        }
        if let Some(i) = child_by_kind(h, "implements_clause") {
            implements = implemented_types_of(src, i);
        }
    }
    assert(extends.deep_view() =~= heritage_extends(src@, *n));
    assert(implements.deep_view() =~= heritage_implements(src@, *n));
    (extends, implements)
}

/// [`ecma_field`].
fn extract_field(src: &str, n: &SyntaxNode) -> (r: FieldNode)
    ensures
        r@ == ecma_field(src@, *n),
{
    let name_node = match child_by_field(n, "name") {
        Some(x) => Some(x),
        None => child_by_field(n, "property"),
    };
    let name = match name_node {
        Some(x) => trim_start_char(node_text(src, x), '#'),
        None => {
            proof {
                reveal_strlit("");
            }
            "".to_owned()
        },
    };
    let is_private_field = match name_node {
        Some(x) => has_kind(x, "private_property_identifier"),
        None => false,
    };
    FieldNode {
        name,
        type_text: field_type_text(src, n),
        visibility: if is_private_field {
            Visibility::Private
        } else {
            visibility_of(src, n)
        },
        is_static: has_modifier(n, "static"),
        line: n.line,
    }
}

/// Appends the parameter properties of a constructor:
/// [`ecma_constructor_properties`].
fn push_constructor_properties(src: &str, n: &SyntaxNode, fields: &mut Vec<FieldNode>)
    ensures
        final(fields).deep_view() == old(fields).deep_view() + ecma_constructor_properties(src@, *n),
{
    let ghost f0 = fields.deep_view();
    let ps = match child_by_field(n, "parameters") {
        Some(ps) => ps,
        None => {
            assert(f0 + seq![] =~= f0);
            return;
        },
    };
    let ghost s = ps.children@;
    let len = ps.children.len();
    assert(s.take(0) =~= seq![]);
    assert(f0 + ctor_properties(src@, s.take(0)) =~= f0);
    for i in 0..len
        invariant
            len == ps.children.len(),
            s == ps.children@,
            fields.deep_view() == f0 + ctor_properties(src@, s.take(i as int)),
    {
        assert(s.take(i + 1).drop_last() =~= s.take(i as int));
        let p = &ps.children[i];
        if (has_kind(p, "required_parameter") || has_kind(p, "optional_parameter")) && (has_modifier(
            p,
            "accessibility_modifier",
        ) || has_modifier(p, "readonly")) {
            let ghost before = fields.deep_view();
            fields.push(
                FieldNode {
                    name: field_text_or(src, p, "pattern", ""),
                    type_text: field_type_text(src, p),
                    visibility: visibility_of(src, p),
                    is_static: false,
                    line: p.line,
                },
            );
            assert(fields.deep_view() =~= before.push(fields[fields.len() - 1]@));
        }
        assert(fields.deep_view() =~= f0 + ctor_properties(src@, s.take(i + 1)));
    }
    assert(s.take(len as int) =~= s);
}

/// [`ecma_params`] of the children of a parameter list.
fn params_of(src: &str, ps: &SyntaxNode) -> (r: Vec<Param>)
    ensures
        r.deep_view() == ecma_params(src@, ps.children@),
{
    let mut r: Vec<Param> = Vec::new();
    let ghost s = ps.children@;
    let len = ps.children.len();
    assert(s.take(0) =~= seq![]);
    for i in 0..len
        invariant
            len == ps.children.len(),
            s == ps.children@,
            r.deep_view() == ecma_params(src@, s.take(i as int)),
    {
        assert(s.take(i + 1).drop_last() =~= s.take(i as int));
        let p = &ps.children[i];
        if has_kind(p, "required_parameter") || has_kind(p, "optional_parameter") || has_kind(
            p,
            "rest_parameter",
        ) {
            let ghost before = r.deep_view();
            r.push(
                Param { name: field_text_or(src, p, "pattern", "arg"), type_text: field_type_text(src, p) },
            );
            assert(r.deep_view() =~= before.push(r[r.len() - 1]@));
        }
    }
    assert(s.take(len as int) =~= s);
    r
}

/// [`ecma_method`].
fn extract_method(src: &str, n: &SyntaxNode, is_abstract: bool) -> (r: MethodNode)
    ensures
        r@ == ecma_method(src@, *n, is_abstract),
{
    let name = field_text_or(src, n, "name", "");
    let params = match child_by_field(n, "parameters") {
        Some(ps) => params_of(src, ps),
        None => Vec::new(),
    };
    let return_type = match child_by_field(n, "return_type") {
        Some(t) => type_annotation_text(src, t),
        None => if str_eq(name.as_str(), "constructor") {
            proof {
                reveal_strlit("");
            }
            "".to_owned()
        } else {
            "any".to_owned()
        },
    };
    let r = MethodNode {
        name,
        params,
        return_type,
        visibility: visibility_of(src, n),
        is_static: has_modifier(n, "static"),
        is_abstract,
        line: n.line,
    };
    assert(r@.params =~= ecma_method(src@, *n, is_abstract).params);
    r
}

/// [`class_members`].
fn extract_class_members(src: &str, n: &SyntaxNode) -> (r: (Vec<FieldNode>, Vec<MethodNode>))
    ensures
        r.0.deep_view() == class_members(src@, *n).0,
        r.1.deep_view() == class_members(src@, *n).1,
{
    let mut fields: Vec<FieldNode> = Vec::new();
    let mut methods: Vec<MethodNode> = Vec::new();
    let body = match child_by_field(n, "body") {
        Some(b) => b,
        None => {
            return (fields, methods);
        },
    };
    let ghost s = body.children@;
    let len = body.children.len();
    assert(s.take(0) =~= seq![]);
    for i in 0..len
        invariant
            len == body.children.len(),
            s == body.children@,
            fields.deep_view() == class_member_list(src@, s.take(i as int)).0,
            methods.deep_view() == class_member_list(src@, s.take(i as int)).1,
    {
        assert(s.take(i + 1).drop_last() =~= s.take(i as int));
        let m = &body.children[i];
        let ghost fb = fields.deep_view();
        let ghost mb = methods.deep_view();
        if has_kind(m, "public_field_definition") || has_kind(m, "field_definition") {
            fields.push(extract_field(src, m));
            assert(fields.deep_view() =~= fb.push(ecma_field(src@, *m)));
        } else if has_kind(m, "method_definition") {
            let method = extract_method(src, m, has_modifier(m, "abstract"));
            if str_eq(method.name.as_str(), "constructor") {
                push_constructor_properties(src, m, &mut fields);
            }
            methods.push(method);
            assert(methods.deep_view() =~= mb.push(
                ecma_method(src@, *m, ecma_has_modifier(*m, "abstract"@)),
            ));
        } else if has_kind(m, "abstract_method_signature") || has_kind(m, "method_signature") {
            methods.push(extract_method(src, m, true));
            assert(methods.deep_view() =~= mb.push(ecma_method(src@, *m, true)));
        }
    }
    assert(s.take(len as int) =~= s);
    (fields, methods)
}

/// [`ecma_class`].
fn extract_class(src: &str, file: &str, n: &SyntaxNode) -> (r: ClassNode)
    ensures
        r@ == ecma_class(src@, file@, *n),
{
    let name = field_text_or(src, n, "name", "Anonymous");
    let (extends, implements) = extract_heritage(src, n);
    let (fields, methods) = extract_class_members(src, n);
    ClassNode {
        id: name.clone(),
        name,
        kind: if has_kind(n, "abstract_class_declaration") {
            ClassKind::AbstractClass
        } else {
            ClassKind::Class
        },
        file: file.to_owned(),
        line: n.line,
        fields,
        methods,
        extends,
        implements,
    }
}

/// [`interface_members`].
fn extract_interface_members(src: &str, n: &SyntaxNode) -> (r: (Vec<FieldNode>, Vec<MethodNode>))
    ensures
        r.0.deep_view() == interface_members(src@, *n).0,
        r.1.deep_view() == interface_members(src@, *n).1,
{
    let mut fields: Vec<FieldNode> = Vec::new();
    let mut methods: Vec<MethodNode> = Vec::new();
    let body = match child_by_field(n, "body") {
        Some(b) => b,
        None => {
            return (fields, methods);
        },
    };
    let ghost s = body.children@;
    let len = body.children.len();
    assert(s.take(0) =~= seq![]);
    for i in 0..len
        invariant
            len == body.children.len(),
            s == body.children@,
            fields.deep_view() == interface_member_list(src@, s.take(i as int)).0,
            methods.deep_view() == interface_member_list(src@, s.take(i as int)).1,
    {
        assert(s.take(i + 1).drop_last() =~= s.take(i as int));
        let m = &body.children[i];
        let ghost fb = fields.deep_view();
        let ghost mb = methods.deep_view();
        if has_kind(m, "property_signature") {
            fields.push(
                FieldNode {
                    name: field_text_or(src, m, "name", ""),
                    type_text: field_type_text(src, m),
                    visibility: Visibility::Public,
                    is_static: false,
                    line: m.line,
                },
            );
            assert(fields.deep_view() =~= fb.push(fields[fields.len() - 1]@));
        } else if has_kind(m, "method_signature") {
            methods.push(extract_method(src, m, true));
            assert(methods.deep_view() =~= mb.push(ecma_method(src@, *m, true)));
        }
    }
    assert(s.take(len as int) =~= s);
    (fields, methods)
}

/// [`ecma_interface`].
fn extract_interface(src: &str, file: &str, n: &SyntaxNode) -> (r: ClassNode)
    ensures
        r@ == ecma_interface(src@, file@, *n),
{
    let name = field_text_or(src, n, "name", "Anonymous");
    let extends = match child_by_kind(n, "extends_type_clause") {
        Some(c) => extended_types_of(src, c),
        None => Vec::new(),
    };
    let (fields, methods) = extract_interface_members(src, n);
    let r = ClassNode {
        id: name.clone(),
        name,
        kind: ClassKind::Interface,
        file: file.to_owned(),
        line: n.line,
        fields,
        methods,
        extends,
        implements: Vec::new(),
    };
    assert(r@.extends =~= ecma_interface(src@, file@, *n).extends);
    assert(r@.implements =~= seq![]);
    r
}

/// [`enum_variant_name`].
fn variant_name(src: &str, m: &SyntaxNode) -> (r: Option<String>)
    ensures
        match r {
            Some(v) => enum_variant_name(src@, *m) == Some(v@),
            None => enum_variant_name(src@, *m) is None,
        },
{
    if has_kind(m, "property_identifier") {
        Some(node_text(src, m).to_owned())
    } else if has_kind(m, "enum_assignment") {
        match child_by_field(m, "name") {
            Some(x) => Some(node_text(src, x).to_owned()),
            None => None,
        }
    } else {
        None
    }
}

/// [`ecma_enum`].
fn extract_enum(src: &str, file: &str, n: &SyntaxNode) -> (r: ClassNode)
    ensures
        r@ == ecma_enum(src@, file@, *n),
{
    let name = field_text_or(src, n, "name", "Anonymous");
    let mut fields: Vec<FieldNode> = Vec::new();
    if let Some(body) = child_by_field(n, "body") {
        let ghost s = body.children@;
        let len = body.children.len();
        assert(s.take(0) =~= seq![]);
        for i in 0..len
            invariant
                len == body.children.len(),
                s == body.children@,
                fields.deep_view() == enum_variants(src@, s.take(i as int)),
        {
            assert(s.take(i + 1).drop_last() =~= s.take(i as int));
            let m = &body.children[i];
            if let Some(v) = variant_name(src, m) {
                let ghost before = fields.deep_view();
                fields.push(
                    FieldNode {
                        name: v,
                        type_text: String::new(),
                        visibility: Visibility::Public,
                        is_static: false,
                        line: m.line,
                    },
                );
                proof {
                    reveal_strlit("");
                }
                assert(""@ =~= Seq::<char>::empty());
                assert(fields.deep_view() =~= before.push(fields[fields.len() - 1]@));
            }
        }
        assert(s.take(len as int) =~= s);
    }
    let r = ClassNode {
        id: name.clone(),
        name,
        kind: ClassKind::Enum,
        file: file.to_owned(),
        line: n.line,
        fields,
        methods: Vec::new(),
        extends: Vec::new(),
        implements: Vec::new(),
    };
    assert(r@.methods =~= seq![]);
    assert(r@.fields =~= ecma_enum(src@, file@, *n).fields);
    assert(r@.extends =~= seq![]);
    assert(r@.implements =~= seq![]);
    r
}

/// Appends the types declared below `n`: [`ecma_classes`].
fn walk(src: &str, file: &str, n: &SyntaxNode, out: &mut Vec<ClassNode>)
    ensures
        final(out).deep_view() == old(out).deep_view() + ecma_classes(src@, file@, *n),
    decreases n,
{
    let ghost o0 = out.deep_view();
    if has_kind(n, "class_declaration") || has_kind(n, "abstract_class_declaration") {
        out.push(extract_class(src, file, n));
    } else if has_kind(n, "interface_declaration") {
        out.push(extract_interface(src, file, n));
    } else if has_kind(n, "enum_declaration") {
        out.push(extract_enum(src, file, n));
    }
    let ghost o1 = out.deep_view();
    assert(o1 =~= o0 + ecma_own(src@, file@, *n));
    let ghost s = n.children@;
    let len = n.children.len();
    assert(s.take(0) =~= seq![]);
    assert(o1 + ecma_classes_in(src@, file@, s.take(0)) =~= o1);
    for i in 0..len
        invariant
            len == n.children.len(),
            s == n.children@,
            out.deep_view() == o1 + ecma_classes_in(src@, file@, s.take(i as int)),
    {
        assert(s.take(i + 1).drop_last() =~= s.take(i as int));
        walk(src, file, &n.children[i], out);
        assert(out.deep_view() =~= o1 + ecma_classes_in(src@, file@, s.take(i + 1)));
    }
    assert(s.take(len as int) =~= s);
}

/// The types declared in a TypeScript or JavaScript syntax tree, as
/// [`ecma_classes`] says.
pub fn extract_classes(src: &str, file: &str, tree: &SyntaxNode) -> (r: Vec<ClassNode>)
    ensures
        r.deep_view() == ecma_classes(src@, file@, *tree),
{
    let mut out: Vec<ClassNode> = Vec::new();
    walk(src, file, tree, &mut out);
    assert(out.deep_view() =~= ecma_classes(src@, file@, *tree));
    out
}

/// Parses TypeScript or JavaScript `source` from the file `path` and
/// returns the types it declares: the extraction of [`extract_classes`]
/// applied to the tree that tree-sitter's grammar for the dialect gives, or
/// nothing when there is no tree.
pub fn parse(path: &str, source: &str, dialect: Dialect) -> (r: Vec<ClassNode>)
    ensures
        match parsed_tree(dialect_grammar(dialect), source@) {
            Some(m) => exists|t: SyntaxNode|
                copies(t, m) && lines_within(t, line_bound(source@)) && r.deep_view() == ecma_classes(source@, path@, t),
            None => r.len() == 0,
        },
{
    let grammar = match dialect {
        Dialect::TypeScript => Grammar::TypeScript,
        Dialect::JavaScript => Grammar::JavaScript,
    };
    match syntax_tree(source, grammar) {
        Some(tree) => {
            let r = extract_classes(source, path, &tree);
            assert(copies(tree, parsed_tree(grammar, source@)->0));
            r
        },
        None => Vec::new(),
    }
}

/// A TypeScript/JavaScript required, optional or rest parameter is kept, in
/// order, with the type that its annotation gives: the text of the
/// annotation's first node that is not the `:`, the same type that a field
/// with that annotation gets; `any` when it has no annotation.
pub proof fn law_ecma_parameters_keep_their_types(src: Seq<char>, s: Seq<SyntaxNode>, p: SyntaxNode)
    requires
        kind_is(p, "required_parameter"@) || kind_is(p, "optional_parameter"@) || kind_is(
            p,
            "rest_parameter"@,
        ),
    ensures
        ecma_params(src, s.push(p)).drop_last() == ecma_params(src, s),
        ecma_params(src, s.push(p)).len() == ecma_params(src, s).len() + 1,
        ecma_params(src, s.push(p)).last().type_text == ecma_field(src, p).type_text,
        ecma_params(src, s.push(p)).last().name == match child_with_field(p, "pattern"@) {
            Some(x) => text_of(src, x),
            None => "arg"@,
        },
        child_with_field(p, "type"@) is None ==> ecma_params(src, s.push(p)).last().type_text == "any"@,
        forall|t: SyntaxNode, j: int|
            child_with_field(p, "type"@) == Some(t) && 0 <= j < t.children@.len() && !kind_is(
                #[trigger] t.children@[j],
                ":"@,
            ) && (forall|k: int| 0 <= k < j ==> kind_is(t.children@[k], ":"@)) ==> ecma_params(
                src,
                s.push(p),
            ).last().type_text == text_of(src, t.children@[j]),
{
    assert(s.push(p).drop_last() =~= s);
    assert forall|t: SyntaxNode, j: int|
        child_with_field(p, "type"@) == Some(t) && 0 <= j < t.children@.len() && !kind_is(
            #[trigger] t.children@[j],
            ":"@,
        ) && (forall|k: int| 0 <= k < j ==> kind_is(t.children@[k], ":"@)) implies ecma_params(
        src,
        s.push(p),
    ).last().type_text == text_of(src, t.children@[j]) by {
        lemma_first_not_colon(t.children@, j);
    }
}

/// The first node that is not a `:` is the one before which every node is a
/// `:`.
proof fn lemma_first_not_colon(s: Seq<SyntaxNode>, j: int)
    requires
        0 <= j < s.len(),
        !kind_is(s[j], ":"@),
        forall|k: int| 0 <= k < j ==> kind_is(s[k], ":"@),
    ensures
        first_not_colon(s) == Some(s[j]),
    decreases j,
{
    if j > 0 {
        assert(kind_is(s[0], ":"@));
        lemma_first_not_colon(s.drop_first(), j - 1);
        assert(s.drop_first()[j - 1] == s[j]);
    }
}

/// The visibility that a declaration's `accessibility_modifier` gives by its
/// text: `private`, `protected`, anything else or none is public.
pub open spec fn modifier_visibility(src: Seq<char>, n: SyntaxNode) -> Visibility {
    match child_of_kind(n, "accessibility_modifier"@) {
        Some(v) => if text_of(src, v) == "private"@ {
            Visibility::Private
        } else if text_of(src, v) == "protected"@ {
            Visibility::Protected
        } else {
            Visibility::Public
        },
        None => Visibility::Public,
    }
}

/// The text of a type annotation's first node that is not the `:`, when
/// the annotation's nodes up to `j` are `:` and the one at `j` is not.
pub open spec fn annotation_starts_at(t: SyntaxNode, j: int) -> bool {
    &&& 0 <= j < t.children@.len()
    &&& !kind_is(t.children@[j], ":"@)
    &&& forall|k: int| 0 <= k < j ==> kind_is(t.children@[k], ":"@)
}

/// A TypeScript/JavaScript method: its visibility is the one its
/// accessibility modifier gives, the same as a field with that modifier and
/// a plain name; it is static with a `static` child; its return type is its
/// annotation's type without the `:`, or, without an annotation, nothing for
/// the constructor and `any` for any other method.
pub proof fn law_ecma_method_follows_its_declaration(src: Seq<char>, n: SyntaxNode, is_abstract: bool)
    ensures
        ecma_method(src, n, is_abstract).visibility == modifier_visibility(src, n),
        ecma_method(src, n, is_abstract).is_static == (child_of_kind(n, "static"@) is Some),
        ecma_method(src, n, is_abstract).is_abstract == is_abstract,
        ecma_method(src, n, is_abstract).line == n.line,
        forall|t: SyntaxNode, j: int|
            child_with_field(n, "return_type"@) == Some(t) && #[trigger] annotation_starts_at(t, j)
                ==> ecma_method(src, n, is_abstract).return_type == text_of(src, t.children@[j]),
        child_with_field(n, "return_type"@) is None ==> ecma_method(src, n, is_abstract).return_type == (
        if text_or(src, child_with_field(n, "name"@), ""@) == "constructor"@ {
            ""@
        } else {
            "any"@
        }),
        !(child_with_field(n, "name"@) matches Some(x) && kind_is(x, "private_property_identifier"@))
            && child_with_field(n, "property"@) is None ==> ecma_field(src, n).visibility
            == ecma_method(src, n, is_abstract).visibility,
{
    assert forall|t: SyntaxNode, j: int|
        child_with_field(n, "return_type"@) == Some(t) && #[trigger] annotation_starts_at(t, j)
            implies ecma_method(src, n, is_abstract).return_type == text_of(src, t.children@[j]) by {
        lemma_first_not_colon(t.children@, j);
    }
}

/// A field's type is its annotation's type without the `:`, `any` without
/// an annotation; a field named `#name` is private.
pub proof fn law_ecma_field_follows_its_declaration(src: Seq<char>, n: SyntaxNode)
    ensures
        forall|t: SyntaxNode, j: int|
            child_with_field(n, "type"@) == Some(t) && #[trigger] annotation_starts_at(t, j)
                ==> ecma_field(src, n).type_text == text_of(src, t.children@[j]),
        child_with_field(n, "type"@) is None ==> ecma_field(src, n).type_text == "any"@,
        (child_with_field(n, "name"@) matches Some(x) && kind_is(x, "private_property_identifier"@))
            ==> ecma_field(src, n).visibility == Visibility::Private,
        (child_with_field(n, "name"@) is None && (child_with_field(n, "property"@) matches Some(x)
            && kind_is(x, "private_property_identifier"@))) ==> ecma_field(src, n).visibility
            == Visibility::Private,
        field_name_node(n) is None ==> ecma_field(src, n).visibility == modifier_visibility(src, n),
        ecma_field(src, n).is_static == (child_of_kind(n, "static"@) is Some),
{
    assert forall|t: SyntaxNode, j: int|
        child_with_field(n, "type"@) == Some(t) && #[trigger] annotation_starts_at(t, j)
            implies ecma_field(src, n).type_text == text_of(src, t.children@[j]) by {
        lemma_first_not_colon(t.children@, j);
    }
}

/// A TypeScript/JavaScript class is abstract exactly when declared with
/// `abstract class`; an interface implements nothing; an enum has no
/// methods and no supertypes; each is named by its `name` node
/// (`Anonymous` without one), with that name as its id.
pub proof fn law_ecma_types_follow_their_declarations(src: Seq<char>, file: Seq<char>, n: SyntaxNode)
    ensures
        ecma_class(src, file, n).kind == if kind_is(n, "abstract_class_declaration"@) {
            ClassKind::AbstractClass
        } else {
            ClassKind::Class
        },
        ecma_class(src, file, n).name == match child_with_field(n, "name"@) {
            Some(x) => text_of(src, x),
            None => "Anonymous"@,
        },
        ecma_class(src, file, n).id == ecma_class(src, file, n).name,
        ecma_interface(src, file, n).kind == ClassKind::Interface,
        ecma_interface(src, file, n).implements.len() == 0,
        ecma_enum(src, file, n).kind == ClassKind::Enum,
        ecma_enum(src, file, n).methods.len() == 0,
        ecma_enum(src, file, n).extends.len() == 0 && ecma_enum(src, file, n).implements.len() == 0,
{
}

} // verus!
