//! PHP: classes, interfaces, traits and enums, with properties, promoted
//! constructor properties, methods, supertypes, `use Trait;` mixins, and
//! Laravel Eloquent relation accessors drawn as fields.

use vstd::prelude::*;
use vstd::string::StringExecFns;
use crate::model::{
    fields_carry,
    ClassKind, ClassNode, ClassView, FieldNode, FieldView, MethodNode, MethodView, Param,
    ParamView, Visibility,
};
use crate::parsing::{copies, line_bound, lines_within, parsed_tree, syntax_tree, Grammar};
use crate::syntax::{
    child_by_field, child_by_kind, child_of_kind, child_texts_of_kind, child_with_field,
    field_text_or, has_kind, kind_is, node_text, text_of, text_or, texts_of_kind, SyntaxNode,
};
use crate::text::{str_eq, strip_leading, trim_start_char};

verus! {

/// A PHP variable name without its `$`.
pub open spec fn strip_sigil_spec(raw: Seq<char>) -> Seq<char> {
    strip_leading(raw, '$')
}

/// The `name` children of a clause: the type names it lists.
pub open spec fn names_in_spec(src: Seq<char>, n: SyntaxNode) -> Seq<Seq<char>> {
    texts_of_kind(src, n.children@, "name"@)
}

/// Visibility from the `visibility_modifier`; public without one.
pub open spec fn php_visibility(src: Seq<char>, n: SyntaxNode) -> Visibility {
    match child_of_kind(n, "visibility_modifier"@) {
        Some(m) => if text_of(src, m) == "private"@ {
            Visibility::Private
        } else if text_of(src, m) == "protected"@ {
            Visibility::Protected
        } else {
            Visibility::Public
        },
        None => Visibility::Public,
    }
}

/// Whether the parameter node is a simple, variadic or promoted parameter.
pub open spec fn is_method_parameter(p: SyntaxNode) -> bool {
    kind_is(p, "simple_parameter"@) || kind_is(p, "variadic_parameter"@) || kind_is(
        p,
        "property_promotion_parameter"@,
    )
}

/// The parameters of a parameter list.
pub open spec fn php_params(src: Seq<char>, s: Seq<SyntaxNode>) -> Seq<ParamView>
    decreases s.len(),
{
    if s.len() == 0 {
        seq![]
    } else {
        let r = php_params(src, s.drop_last());
        let p = s.last();
        if is_method_parameter(p) {
            r.push(
                ParamView {
                    name: match child_with_field(p, "name"@) {
                        Some(x) => strip_sigil_spec(text_of(src, x)),
                        None => ""@,
                    },
                    type_text: text_or(src, child_with_field(p, "type"@), "any"@),
                },
            )
        } else {
            r
        }
    }
}

/// A method declaration. Without a return type a method returns `void`;
/// without a body it is abstract.
pub open spec fn php_method(src: Seq<char>, n: SyntaxNode) -> MethodView {
    MethodView {
        name: text_or(src, child_with_field(n, "name"@), ""@),
        params: match child_with_field(n, "parameters"@) {
            Some(ps) => php_params(src, ps.children@),
            None => seq![],
        },
        return_type: text_or(src, child_with_field(n, "return_type"@), "void"@),
        visibility: php_visibility(src, n),
        is_static: child_of_kind(n, "static_modifier"@) is Some,
        is_abstract: child_of_kind(n, "abstract_modifier"@) is Some || child_with_field(n, "body"@) is None,
        line: n.line,
    }
}

/// The visibility of a promoted constructor parameter.
pub open spec fn promoted_visibility(src: Seq<char>, p: SyntaxNode) -> Visibility {
    match child_with_field(p, "visibility"@) {
        Some(v) => if text_of(src, v) == "private"@ {
            Visibility::Private
        } else if text_of(src, v) == "protected"@ {
            Visibility::Protected
        } else {
            Visibility::Public
        },
        None => Visibility::Public,
    }
}

/// The promoted properties among the parameters `s` of a constructor.
pub open spec fn promoted_list(src: Seq<char>, s: Seq<SyntaxNode>) -> Seq<FieldView>
    decreases s.len(),
{
    if s.len() == 0 {
        seq![]
    } else {
        let r = promoted_list(src, s.drop_last());
        let p = s.last();
        if kind_is(p, "property_promotion_parameter"@) {
            r.push(
                FieldView {
                    name: match child_with_field(p, "name"@) {
                        Some(x) => strip_sigil_spec(text_of(src, x)),
                        None => ""@,
                    },
                    type_text: text_or(src, child_with_field(p, "type"@), "any"@),
                    visibility: promoted_visibility(src, p),
                    is_static: false,
                    line: p.line,
                },
            )
        } else {
            r
        }
    }
}

/// The properties that PHP 8 constructor property promotion declares.
pub open spec fn promoted_properties(src: Seq<char>, n: SyntaxNode) -> Seq<FieldView> {
    match child_with_field(n, "parameters"@) {
        Some(ps) => promoted_list(src, ps.children@),
        None => seq![],
    }
}

/// Eloquent relations that hold many related models.
pub open spec fn is_collection_relation(name: Seq<char>) -> bool {
    name == "hasMany"@ || name == "belongsToMany"@ || name == "morphMany"@ || name == "morphToMany"@
}

/// Eloquent relations that hold one related model.
pub open spec fn is_single_relation(name: Seq<char>) -> bool {
    name == "belongsTo"@ || name == "hasOne"@ || name == "morphOne"@ || name == "morphTo"@
}

/// The class named by the first argument of the form `X::class`, looking
/// at the arguments `s` in order.
pub open spec fn related_in_args(src: Seq<char>, s: Seq<SyntaxNode>) -> Option<Seq<char>>
    decreases s.len(),
{
    if s.len() == 0 {
        None
    } else {
        let a = s[0];
        if kind_is(a, "argument"@) && (child_of_kind(a, "class_constant_access_expression"@) matches Some(cc)
            && cc.children@.len() > 0 && kind_is(cc.children@[0], "name"@)) {
            Some(text_of(src, child_of_kind(a, "class_constant_access_expression"@)->0.children@[0]))
        } else {
            related_in_args(src, s.drop_first())
        }
    }
}

/// The related class of a relation call: its first `X::class` argument.
pub open spec fn first_related_class(src: Seq<char>, call: SyntaxNode) -> Option<Seq<char>> {
    match child_with_field(call, "arguments"@) {
        Some(a) => related_in_args(src, a.children@),
        None => None,
    }
}

/// Whether `n` is a call `$this->relation(...)` of a known Eloquent
/// relation, and if so whether it is a collection relation and which class
/// it relates to.
pub open spec fn eloquent_here(src: Seq<char>, n: SyntaxNode) -> Option<(bool, Seq<char>)> {
    if kind_is(n, "member_call_expression"@) && (child_with_field(n, "object"@) matches Some(o)
        && text_of(src, o) == "$this"@) && (child_with_field(n, "name"@) matches Some(rn) && (
    is_collection_relation(text_of(src, rn)) || is_single_relation(text_of(src, rn)))) {
        match first_related_class(src, n) {
            Some(c) => Some((is_collection_relation(text_of(src, child_with_field(n, "name"@)->0)), c)),
            None => None,
        }
    } else {
        None
    }
}

/// The first Eloquent relation call in the tree below `n`, `n` included,
/// searching in document order.
pub open spec fn eloquent_call(src: Seq<char>, n: SyntaxNode) -> Option<(bool, Seq<char>)>
    decreases n,
{
    match eloquent_here(src, n) {
        Some(x) => Some(x),
        None => eloquent_call_in(src, n.children@),
    }
}

/// The first Eloquent relation call in the trees `s`.
pub open spec fn eloquent_call_in(src: Seq<char>, s: Seq<SyntaxNode>) -> Option<(bool, Seq<char>)>
    decreases s,
{
    if s.len() == 0 {
        None
    } else {
        match eloquent_call(src, s[0]) {
            Some(x) => Some(x),
            None => eloquent_call_in(src, s.drop_first()),
        }
    }
}

/// The field that an Eloquent relation accessor stands for: named after the
/// accessor, typed `Related[]` for a collection relation and `Related`
/// otherwise.
pub open spec fn eloquent_field(src: Seq<char>, m: SyntaxNode, method_name: Seq<char>) -> Option<FieldView> {
    match child_with_field(m, "body"@) {
        Some(body) => match eloquent_call(src, body) {
            Some((is_collection, related)) => Some(
                FieldView {
                    name: method_name,
                    type_text: if is_collection {
                        related + "[]"@
                    } else {
                        related
                    },
                    visibility: Visibility::Public,
                    is_static: false,
                    line: m.line,
                },
            ),
            None => None,
        },
        None => None,
    }
}

/// The properties of a `property_declaration`'s elements.
pub open spec fn property_elements(
    src: Seq<char>,
    s: Seq<SyntaxNode>,
    type_text: Seq<char>,
    visibility: Visibility,
    is_static: bool,
) -> Seq<FieldView>
    decreases s.len(),
{
    if s.len() == 0 {
        seq![]
    } else {
        let r = property_elements(src, s.drop_last(), type_text, visibility, is_static);
        let e = s.last();
        if kind_is(e, "property_element"@) {
            match child_with_field(e, "name"@) {
                Some(nm) => r.push(
                    FieldView {
                        name: strip_sigil_spec(text_of(src, nm)),
                        type_text,
                        visibility,
                        is_static,
                        line: e.line,
                    },
                ),
                None => r,
            }
        } else {
            r
        }
    }
}

/// The properties a `property_declaration` declares.
pub open spec fn php_property_declaration(src: Seq<char>, m: SyntaxNode) -> Seq<FieldView> {
    property_elements(
        src,
        m.children@,
        text_or(src, child_with_field(m, "type"@), "any"@),
        php_visibility(src, m),
        child_of_kind(m, "static_modifier"@) is Some,
    )
}

/// The fields a method declaration contributes: promoted properties of a
/// constructor, then the field of an Eloquent relation accessor.
pub open spec fn method_fields(src: Seq<char>, m: SyntaxNode) -> Seq<FieldView> {
    let method = php_method(src, m);
    let promoted = if method.name == "__construct"@ {
        promoted_properties(src, m)
    } else {
        seq![]
    };
    match eloquent_field(src, m, method.name) {
        Some(f) => promoted.push(f),
        None => promoted,
    }
}

/// The fields, methods and used traits declared by the members `s` of a body.
pub open spec fn php_member_list(src: Seq<char>, s: Seq<SyntaxNode>) -> (Seq<FieldView>, Seq<MethodView>, Seq<Seq<char>>)
    decreases s.len(),
{
    if s.len() == 0 {
        (seq![], seq![], seq![])
    } else {
        let (fs, ms, ts) = php_member_list(src, s.drop_last());
        let m = s.last();
        if kind_is(m, "use_declaration"@) {
            (fs, ms, ts + names_in_spec(src, m))
        } else if kind_is(m, "property_declaration"@) {
            (fs + php_property_declaration(src, m), ms, ts)
        } else if kind_is(m, "method_declaration"@) {
            (fs + method_fields(src, m), ms.push(php_method(src, m)), ts)
        } else {
            (fs, ms, ts)
        }
    }
}

/// The fields, methods and used traits of a declaration's body.
pub open spec fn php_members(src: Seq<char>, n: SyntaxNode) -> (Seq<FieldView>, Seq<MethodView>, Seq<Seq<char>>) {
    match child_with_field(n, "body"@) {
        Some(b) => php_member_list(src, b.children@),
        None => (seq![], seq![], seq![]),
    }
}

/// The declared name, or `Anonymous`.
pub open spec fn php_name(src: Seq<char>, n: SyntaxNode) -> Seq<char> {
    text_or(src, child_with_field(n, "name"@), "Anonymous"@)
}

/// The names listed by the first child of kind `k`, if any.
pub open spec fn clause_names(src: Seq<char>, n: SyntaxNode, k: Seq<char>) -> Seq<Seq<char>> {
    match child_of_kind(n, k) {
        Some(c) => names_in_spec(src, c),
        None => seq![],
    }
}

/// A `class_declaration`. Used traits follow the implemented interfaces.
pub open spec fn php_class(src: Seq<char>, file: Seq<char>, n: SyntaxNode) -> ClassView {
    let name = php_name(src, n);
    let members = php_members(src, n);
    ClassView {
        id: name,
        name,
        kind: if child_of_kind(n, "abstract_modifier"@) is Some {
            ClassKind::AbstractClass
        } else {
            ClassKind::Class
        },
        file,
        line: n.line,
        fields: members.0,
        methods: members.1,
        extends: clause_names(src, n, "base_clause"@),
        implements: clause_names(src, n, "class_interface_clause"@) + members.2,
    }
}

/// An `interface_declaration`; the interfaces it extends are its supertypes.
pub open spec fn php_interface(src: Seq<char>, file: Seq<char>, n: SyntaxNode) -> ClassView {
    let name = php_name(src, n);
    ClassView {
        id: name,
        name,
        kind: ClassKind::Interface,
        file,
        line: n.line,
        fields: php_members(src, n).0,
        methods: php_members(src, n).1,
        extends: clause_names(src, n, "base_clause"@),
        implements: seq![],
    }
}

/// A `trait_declaration`.
pub open spec fn php_trait(src: Seq<char>, file: Seq<char>, n: SyntaxNode) -> ClassView {
    let name = php_name(src, n);
    ClassView {
        id: name,
        name,
        kind: ClassKind::Trait,
        file,
        line: n.line,
        fields: php_members(src, n).0,
        methods: php_members(src, n).1,
        extends: seq![],
        implements: seq![],
    }
}

/// The cases of an enum body, as fields.
pub open spec fn php_enum_cases(src: Seq<char>, s: Seq<SyntaxNode>) -> Seq<FieldView>
    decreases s.len(),
{
    if s.len() == 0 {
        seq![]
    } else {
        let r = php_enum_cases(src, s.drop_last());
        let c = s.last();
        if kind_is(c, "enum_case"@) {
            match child_with_field(c, "name"@) {
                Some(nm) => r.push(
                    FieldView {
                        name: text_of(src, nm),
                        type_text: ""@,
                        visibility: Visibility::Public,
                        is_static: false,
                        line: c.line,
                    },
                ),
                None => r,
            }
        } else {
            r
        }
    }
}

/// An `enum_declaration`: its cases are its fields.
pub open spec fn php_enum(src: Seq<char>, file: Seq<char>, n: SyntaxNode) -> ClassView {
    let name = php_name(src, n);
    ClassView {
        id: name,
        name,
        kind: ClassKind::Enum,
        file,
        line: n.line,
        fields: match child_with_field(n, "body"@) {
            Some(b) => php_enum_cases(src, b.children@),
            None => seq![],
        },
        methods: seq![],
        extends: seq![],
        implements: seq![],
    }
}

/// The type that a node declares itself, if any.
pub open spec fn php_own(src: Seq<char>, file: Seq<char>, n: SyntaxNode) -> Seq<ClassView> {
    if kind_is(n, "class_declaration"@) {
        seq![php_class(src, file, n)]
    } else if kind_is(n, "interface_declaration"@) {
        seq![php_interface(src, file, n)]
    } else if kind_is(n, "trait_declaration"@) {
        seq![php_trait(src, file, n)]
    } else if kind_is(n, "enum_declaration"@) {
        seq![php_enum(src, file, n)]
    } else {
        seq![]
    }
}

/// The types declared in the tree below `n`, `n` included, in document
/// order.
pub open spec fn php_classes(src: Seq<char>, file: Seq<char>, n: SyntaxNode) -> Seq<ClassView>
    decreases n,
{
    php_own(src, file, n) + php_classes_in(src, file, n.children@)
}

/// The types declared in the trees `s`, in order.
pub open spec fn php_classes_in(src: Seq<char>, file: Seq<char>, s: Seq<SyntaxNode>) -> Seq<ClassView>
    decreases s,
{
    if s.len() == 0 {
        seq![]
    } else {
        php_classes_in(src, file, s.drop_last()) + php_classes(src, file, s.last())
    }
}

/// A PHP variable name without its `$`: [`strip_sigil_spec`].
pub fn strip_sigil(raw: &str) -> (r: String)
    ensures
        r@ == strip_sigil_spec(raw@),
{
    trim_start_char(raw, '$')
}

/// [`names_in_spec`].
fn names_in(src: &str, n: &SyntaxNode) -> (r: Vec<String>)
    ensures
        r.deep_view() == names_in_spec(src@, *n),
{
    child_texts_of_kind(src, n, "name")
}

/// [`clause_names`].
fn clause_names_of(src: &str, n: &SyntaxNode, k: &str) -> (r: Vec<String>)
    ensures
        r.deep_view() == clause_names(src@, *n, k@),
{
    match child_by_kind(n, k) {
        Some(c) => names_in(src, c),
        None => Vec::new(),
    }
}

/// [`php_visibility`].
fn visibility_of(src: &str, n: &SyntaxNode) -> (r: Visibility)
    ensures
        r == php_visibility(src@, *n),
{
    match child_by_kind(n, "visibility_modifier") {
        Some(m) => {
            let t = node_text(src, m);
            if str_eq(t, "private") {
                Visibility::Private
            } else if str_eq(t, "protected") {
                Visibility::Protected
            } else {
                Visibility::Public
            }
        },
        None => Visibility::Public,
    }
}

/// The name of a parameter without its `$`, or empty.
fn param_name(src: &str, p: &SyntaxNode) -> (r: String)
    ensures
        r@ == (match child_with_field(*p, "name"@) {
            Some(x) => strip_sigil_spec(text_of(src@, x)),
            None => ""@,
        }),
{
    match child_by_field(p, "name") {
        Some(x) => strip_sigil(node_text(src, x)),
        None => "".to_owned(),
    }
}

/// [`php_params`] of the children of a parameter list.
fn params_of(src: &str, ps: &SyntaxNode) -> (r: Vec<Param>)
    ensures
        r.deep_view() == php_params(src@, ps.children@),
{
    let mut r: Vec<Param> = Vec::new();
    let ghost s = ps.children@;
    let len = ps.children.len();
    assert(s.take(0) =~= seq![]);
    for i in 0..len
        invariant
            len == ps.children.len(),
            s == ps.children@,
            r.deep_view() == php_params(src@, s.take(i as int)),
    {
        assert(s.take(i + 1).drop_last() =~= s.take(i as int));
        let p = &ps.children[i];
        if has_kind(p, "simple_parameter") || has_kind(p, "variadic_parameter") || has_kind(
            p,
            "property_promotion_parameter",
        ) {
            let ghost before = r.deep_view();
            r.push(Param { name: param_name(src, p), type_text: field_text_or(src, p, "type", "any") });
            assert(r.deep_view() =~= before.push(r[r.len() - 1]@));
        }
    }
    assert(s.take(len as int) =~= s);
    r
}

/// [`php_method`].
fn extract_method(src: &str, n: &SyntaxNode) -> (r: MethodNode)
    ensures
        r@ == php_method(src@, *n),
{
    let params = match child_by_field(n, "parameters") {
        Some(ps) => params_of(src, ps),
        None => Vec::new(),
    };
    let r = MethodNode {
        name: field_text_or(src, n, "name", ""),
        params,
        return_type: field_text_or(src, n, "return_type", "void"),
        visibility: visibility_of(src, n),
        is_static: child_by_kind(n, "static_modifier").is_some(),
        is_abstract: child_by_kind(n, "abstract_modifier").is_some() || child_by_field(n, "body").is_none(),
        line: n.line,
    };
    assert(r@.params =~= php_method(src@, *n).params);
    r
}

/// [`promoted_visibility`].
fn promoted_visibility_of(src: &str, p: &SyntaxNode) -> (r: Visibility)
    ensures
        r == promoted_visibility(src@, *p),
{
    match child_by_field(p, "visibility") {
        Some(v) => {
            let t = node_text(src, v);
            if str_eq(t, "private") {
                Visibility::Private
            } else if str_eq(t, "protected") {
                Visibility::Protected
            } else {
                Visibility::Public
            }
        },
        None => Visibility::Public,
    }
}

/// Appends the promoted properties of a constructor: [`promoted_properties`].
fn push_promoted_properties(src: &str, n: &SyntaxNode, fields: &mut Vec<FieldNode>)
    ensures
        final(fields).deep_view() == old(fields).deep_view() + promoted_properties(src@, *n),
{
    let ghost f0 = fields.deep_view();
    let ps = match child_by_field(n, "parameters") {
        Some(ps) => ps,
        None => {
            assert(f0 + seq![] =~= f0);
            return;
        },
    };
    let ghost s = ps.children@;
    let len = ps.children.len();
    assert(s.take(0) =~= seq![]);
    assert(f0 + promoted_list(src@, s.take(0)) =~= f0);
    for i in 0..len
        invariant
            len == ps.children.len(),
            s == ps.children@,
            fields.deep_view() == f0 + promoted_list(src@, s.take(i as int)),
    {
        assert(s.take(i + 1).drop_last() =~= s.take(i as int));
        let p = &ps.children[i];
        if has_kind(p, "property_promotion_parameter") {
            let ghost before = fields.deep_view();
            fields.push(
                FieldNode {
                    name: param_name(src, p),
                    type_text: field_text_or(src, p, "type", "any"),
                    visibility: promoted_visibility_of(src, p),
                    is_static: false,
                    line: p.line,
                },
            );
            assert(fields.deep_view() =~= before.push(fields[fields.len() - 1]@));
        }
        assert(fields.deep_view() =~= f0 + promoted_list(src@, s.take(i + 1)));
    }
    assert(s.take(len as int) =~= s);
}

/// Whether `name` is an Eloquent collection relation: [`is_collection_relation`].
fn collection_relation(name: &str) -> (r: bool)
    ensures
        r == is_collection_relation(name@),
{
    str_eq(name, "hasMany") || str_eq(name, "belongsToMany") || str_eq(name, "morphMany") || str_eq(
        name,
        "morphToMany",
    )
}

/// Whether `name` is an Eloquent single relation: [`is_single_relation`].
fn single_relation(name: &str) -> (r: bool)
    ensures
        r == is_single_relation(name@),
{
    str_eq(name, "belongsTo") || str_eq(name, "hasOne") || str_eq(name, "morphOne") || str_eq(
        name,
        "morphTo",
    )
}

/// [`first_related_class`].
fn first_related_class_name(src: &str, call: &SyntaxNode) -> (r: Option<String>)
    ensures
        match r {
            Some(c) => first_related_class(src@, *call) == Some(c@),
            None => first_related_class(src@, *call) is None,
        },
{
    let a = match child_by_field(call, "arguments") {
        Some(a) => a,
        None => {
            return None;
        },
    };
    let ghost s = a.children@;
    let len = a.children.len();
    assert(s.skip(0) =~= s);
    for i in 0..len
        invariant
            len == a.children.len(),
            s == a.children@,
            child_with_field(*call, "arguments"@) == Some(*a),
            related_in_args(src@, s) == related_in_args(src@, s.skip(i as int)),
    {
        assert(s.skip(i as int)[0] == s[i as int]);
        assert(s.skip(i as int).drop_first() =~= s.skip(i + 1));
        let arg = &a.children[i];
        if has_kind(arg, "argument") {
            if let Some(cc) = child_by_kind(arg, "class_constant_access_expression") {
                if cc.children.len() > 0 && has_kind(&cc.children[0], "name") {
                    let ghost sk = s.skip(i as int);
                    assert(sk[0] == *arg);
                    assert(child_of_kind(sk[0], "class_constant_access_expression"@)->0 == *cc);
                    assert(related_in_args(src@, sk) == Some(text_of(src@, cc.children@[0])));
                    return Some(node_text(src, &cc.children[0]).to_owned());
                }
            }
        }
    }
    None
}

/// [`eloquent_here`].
fn relation_call_here(src: &str, n: &SyntaxNode) -> (r: Option<(bool, String)>)
    ensures
        match r {
            Some((b, c)) => eloquent_here(src@, *n) == Some((b, c@)),
            None => eloquent_here(src@, *n) is None,
        },
{
    if !has_kind(n, "member_call_expression") {
        return None;
    }
    let object = match child_by_field(n, "object") {
        Some(o) => o,
        None => {
            return None;
        },
    };
    if !str_eq(node_text(src, object), "$this") {
        return None;
    }
    let relation = match child_by_field(n, "name") {
        Some(rn) => node_text(src, rn),
        None => {
            return None;
        },
    };
    let is_collection = collection_relation(relation);
    let is_single = single_relation(relation);
    if !(is_collection || is_single) {
        return None;
    }
    match first_related_class_name(src, n) {
        Some(c) => Some((is_collection, c)),
        None => None,
    }
}

/// [`eloquent_call`]: the first relation call below `n` in document order.
fn find_relation_call(src: &str, n: &SyntaxNode) -> (r: Option<(bool, String)>)
    ensures
        match r {
            Some((b, c)) => eloquent_call(src@, *n) == Some((b, c@)),
            None => eloquent_call(src@, *n) is None,
        },
    decreases n,
{
    if let Some(found) = relation_call_here(src, n) {
        return Some(found);
    }
    let ghost s = n.children@;
    let len = n.children.len();
    assert(s.skip(0) =~= s);
    for i in 0..len
        invariant
            len == n.children.len(),
            s == n.children@,
            eloquent_here(src@, *n) is None,
            eloquent_call_in(src@, s) == eloquent_call_in(src@, s.skip(i as int)),
    {
        assert(s.skip(i as int)[0] == s[i as int]);
        assert(s.skip(i as int).drop_first() =~= s.skip(i + 1));
        if let Some(found) = find_relation_call(src, &n.children[i]) {
            return Some(found);
        }
    }
    None
}

/// [`eloquent_field`].
fn eloquent_relation_field(src: &str, m: &SyntaxNode, method_name: &str) -> (r: Option<FieldNode>)
    ensures
        match r {
            Some(f) => eloquent_field(src@, *m, method_name@) == Some(f@),
            None => eloquent_field(src@, *m, method_name@) is None,
        },
{
    let body = match child_by_field(m, "body") {
        Some(b) => b,
        None => {
            return None;
        },
    };
    match find_relation_call(src, body) {
        Some((is_collection, related)) => {
            let type_text = if is_collection {
                related.concat("[]")
            } else {
                related
            };
            Some(
                FieldNode {
                    name: method_name.to_owned(),
                    type_text,
                    visibility: Visibility::Public,
                    is_static: false,
                    line: m.line,
                },
            )
        },
        None => None,
    }
}

/// Appends the properties of a `property_declaration`:
/// [`php_property_declaration`].
fn push_property_declaration(src: &str, m: &SyntaxNode, fields: &mut Vec<FieldNode>)
    ensures
        final(fields).deep_view() == old(fields).deep_view() + php_property_declaration(src@, *m),
{
    let type_text = field_text_or(src, m, "type", "any");
    let is_static = child_by_kind(m, "static_modifier").is_some();
    let visibility = visibility_of(src, m);
    let ghost f0 = fields.deep_view();
    let ghost s = m.children@;
    let len = m.children.len();
    assert(s.take(0) =~= seq![]);
    assert(f0 + property_elements(src@, s.take(0), type_text@, visibility, is_static) =~= f0);
    for i in 0..len
        invariant
            len == m.children.len(),
            s == m.children@,
            fields.deep_view() == f0 + property_elements(src@, s.take(i as int), type_text@, visibility, is_static),
    {
        assert(s.take(i + 1).drop_last() =~= s.take(i as int));
        let e = &m.children[i];
        if has_kind(e, "property_element") {
            if let Some(nm) = child_by_field(e, "name") {
                let ghost before = fields.deep_view();
                fields.push(
                    FieldNode {
                        name: strip_sigil(node_text(src, nm)),
                        type_text: type_text.clone(),
                        visibility,
                        is_static,
                        line: e.line,
                    },
                );
                assert(fields.deep_view() =~= before.push(fields[fields.len() - 1]@));
            }
        }
        assert(fields.deep_view() =~= f0 + property_elements(src@, s.take(i + 1), type_text@, visibility, is_static));
    }
    assert(s.take(len as int) =~= s);
}

/// [`php_members`]: the fields, the methods and the used traits.
fn extract_members(src: &str, n: &SyntaxNode) -> (r: (Vec<FieldNode>, Vec<MethodNode>, Vec<String>))
    ensures
        r.0.deep_view() == php_members(src@, *n).0,
        r.1.deep_view() == php_members(src@, *n).1,
        r.2.deep_view() == php_members(src@, *n).2,
{
    let mut fields: Vec<FieldNode> = Vec::new();
    let mut methods: Vec<MethodNode> = Vec::new();
    let mut traits: Vec<String> = Vec::new();
    let body = match child_by_field(n, "body") {
        Some(b) => b,
        None => {
            return (fields, methods, traits);
        },
    };
    let ghost s = body.children@;
    let len = body.children.len();
    assert(s.take(0) =~= seq![]);
    for i in 0..len
        invariant
            len == body.children.len(),
            s == body.children@,
            fields.deep_view() == php_member_list(src@, s.take(i as int)).0,
            methods.deep_view() == php_member_list(src@, s.take(i as int)).1,
            traits.deep_view() == php_member_list(src@, s.take(i as int)).2,
    {
        assert(s.take(i + 1).drop_last() =~= s.take(i as int));
        let m = &body.children[i];
        let ghost fb = fields.deep_view();
        let ghost mb = methods.deep_view();
        let ghost tb = traits.deep_view();
        if has_kind(m, "use_declaration") {
            let mut more = names_in(src, m);
            traits.append(&mut more);
            assert(traits.deep_view() =~= tb + names_in_spec(src@, *m));
        } else if has_kind(m, "property_declaration") {
            push_property_declaration(src, m, &mut fields);
        } else if has_kind(m, "method_declaration") {
            let method = extract_method(src, m);
            if str_eq(method.name.as_str(), "__construct") {
                push_promoted_properties(src, m, &mut fields);
            } else {
                assert(fb + seq![] =~= fb);
            }
            let ghost fp = fields.deep_view();
            if let Some(field) = eloquent_relation_field(src, m, method.name.as_str()) {
                fields.push(field);
                assert(fields.deep_view() =~= fp.push(fields[fields.len() - 1]@));
            }
            assert(fields.deep_view() =~= fb + method_fields(src@, *m));
            methods.push(method);
            assert(methods.deep_view() =~= mb.push(php_method(src@, *m)));
        }
    }
    assert(s.take(len as int) =~= s);
    (fields, methods, traits)
}

/// [`php_class`].
fn extract_class(src: &str, file: &str, n: &SyntaxNode) -> (r: ClassNode)
    ensures
        r@ == php_class(src@, file@, *n),
{
    let name = field_text_or(src, n, "name", "Anonymous");
    let extends = clause_names_of(src, n, "base_clause");
    let mut implements = clause_names_of(src, n, "class_interface_clause");
    let (fields, methods, mut traits) = extract_members(src, n);
    let ghost ib = implements.deep_view();
    let ghost tb = traits.deep_view();
    implements.append(&mut traits);
    assert(implements.deep_view() =~= ib + tb);
    ClassNode {
        id: name.clone(),
        name,
        kind: if child_by_kind(n, "abstract_modifier").is_some() {
            ClassKind::AbstractClass
        } else {
            ClassKind::Class
        },
        file: file.to_owned(),
        line: n.line,
        fields,
        methods,
        extends,
        implements,
    }
}

/// [`php_interface`].
fn extract_interface(src: &str, file: &str, n: &SyntaxNode) -> (r: ClassNode)
    ensures
        r@ == php_interface(src@, file@, *n),
{
    let name = field_text_or(src, n, "name", "Anonymous");
    let extends = clause_names_of(src, n, "base_clause");
    let (fields, methods, _unused) = extract_members(src, n);
    let r = ClassNode {
        id: name.clone(),
        name,
        kind: ClassKind::Interface,
        file: file.to_owned(),
        line: n.line,
        fields,
        methods,
        extends,
        implements: Vec::new(),
    };
    assert(r@.implements =~= seq![]);
    r
}

/// [`php_trait`].
fn extract_trait(src: &str, file: &str, n: &SyntaxNode) -> (r: ClassNode)
    ensures
        r@ == php_trait(src@, file@, *n),
{
    let name = field_text_or(src, n, "name", "Anonymous");
    let (fields, methods, _unused) = extract_members(src, n);
    let r = ClassNode {
        id: name.clone(),
        name,
        kind: ClassKind::Trait,
        file: file.to_owned(),
        line: n.line,
        fields,
        methods,
        extends: Vec::new(),
        implements: Vec::new(),
    };
    assert(r@.extends =~= seq![]);
    assert(r@.implements =~= seq![]);
    r
}

/// [`php_enum`].
fn extract_enum(src: &str, file: &str, n: &SyntaxNode) -> (r: ClassNode)
    ensures
        r@ == php_enum(src@, file@, *n),
{
    let name = field_text_or(src, n, "name", "Anonymous");
    let mut fields: Vec<FieldNode> = Vec::new();
    if let Some(body) = child_by_field(n, "body") {
        let ghost s = body.children@;
        let len = body.children.len();
        assert(s.take(0) =~= seq![]);
        for i in 0..len
            invariant
                len == body.children.len(),
                s == body.children@,
                fields.deep_view() == php_enum_cases(src@, s.take(i as int)),
        {
            assert(s.take(i + 1).drop_last() =~= s.take(i as int));
            let c = &body.children[i];
            if has_kind(c, "enum_case") {
                if let Some(nm) = child_by_field(c, "name") {
                    let ghost before = fields.deep_view();
                    fields.push(
                        FieldNode {
                            name: node_text(src, nm).to_owned(),
                            type_text: String::new(),
                            visibility: Visibility::Public,
                            is_static: false,
                            line: c.line,
                        },
                    );
                    proof {
                        reveal_strlit("");
                    }
                    assert(""@ =~= Seq::<char>::empty());
                    assert(fields.deep_view() =~= before.push(fields[fields.len() - 1]@));
                }
            }
        }
        assert(s.take(len as int) =~= s);
    }
    let r = ClassNode {
        id: name.clone(),
        name,
        kind: ClassKind::Enum,
        file: file.to_owned(),
        line: n.line,
        fields,
        methods: Vec::new(),
        extends: Vec::new(),
        implements: Vec::new(),
    };
    assert(r@.methods =~= seq![]);
    assert(r@.fields =~= php_enum(src@, file@, *n).fields);
    assert(r@.extends =~= seq![]);
    assert(r@.implements =~= seq![]);
    r
}

/// Appends the types declared below `n`: [`php_classes`].
fn walk(src: &str, file: &str, n: &SyntaxNode, out: &mut Vec<ClassNode>)
    ensures
        final(out).deep_view() == old(out).deep_view() + php_classes(src@, file@, *n),
    decreases n,
{
    let ghost o0 = out.deep_view();
    if has_kind(n, "class_declaration") {
        out.push(extract_class(src, file, n));
    } else if has_kind(n, "interface_declaration") {
        out.push(extract_interface(src, file, n));
    } else if has_kind(n, "trait_declaration") {
        out.push(extract_trait(src, file, n));
    } else if has_kind(n, "enum_declaration") {
        out.push(extract_enum(src, file, n));
    }
    let ghost o1 = out.deep_view();
    assert(o1 =~= o0 + php_own(src@, file@, *n));
    let ghost s = n.children@;
    let len = n.children.len();
    assert(s.take(0) =~= seq![]);
    assert(o1 + php_classes_in(src@, file@, s.take(0)) =~= o1);
    for i in 0..len
        invariant
            len == n.children.len(),
            s == n.children@,
            out.deep_view() == o1 + php_classes_in(src@, file@, s.take(i as int)),
    {
        assert(s.take(i + 1).drop_last() =~= s.take(i as int));
        walk(src, file, &n.children[i], out);
        assert(out.deep_view() =~= o1 + php_classes_in(src@, file@, s.take(i + 1)));
    }
    assert(s.take(len as int) =~= s);
}

/// The types declared in a PHP syntax tree, as [`php_classes`] says.
pub fn extract_classes(src: &str, file: &str, tree: &SyntaxNode) -> (r: Vec<ClassNode>)
    ensures
        r.deep_view() == php_classes(src@, file@, *tree),
{
    let mut out: Vec<ClassNode> = Vec::new();
    walk(src, file, tree, &mut out);
    assert(out.deep_view() =~= php_classes(src@, file@, *tree));
    out
}

/// Parses PHP `source` from the file `path` and returns the types it
/// declares: the extraction of [`extract_classes`] applied to the tree that
/// tree-sitter's PHP grammar gives, or nothing when there is no tree (see [`parsed_tree`]).
pub fn parse(path: &str, source: &str) -> (r: Vec<ClassNode>)
    ensures
        match parsed_tree(Grammar::Php, source@) {
            Some(m) => exists|t: SyntaxNode|
                copies(t, m) && lines_within(t, line_bound(source@)) && r.deep_view() == php_classes(source@, path@, t),
            None => r.len() == 0,
        },
{
    match syntax_tree(source, Grammar::Php) {
        Some(tree) => {
            let r = extract_classes(source, path, &tree);
            assert(copies(tree, parsed_tree(Grammar::Php, source@)->0));
            r
        },
        None => Vec::new(),
    }
}

/// A PHP method's return type is the text of its `return_type` node; a
/// method declared without one returns `void`.
pub proof fn law_php_method_return_type_is_declared_type(src: Seq<char>, n: SyntaxNode)
    ensures
        child_with_field(n, "return_type"@) matches Some(t) ==> php_method(src, n).return_type
            == text_of(src, t),
        child_with_field(n, "return_type"@) is None ==> php_method(src, n).return_type == "void"@,
{
}

/// The visibility that a declaration's `visibility_modifier` gives by its
/// text: `private`, `protected`, anything else or none is public.
pub open spec fn modifier_visibility(src: Seq<char>, n: SyntaxNode) -> Visibility {
    match child_of_kind(n, "visibility_modifier"@) {
        Some(v) => if text_of(src, v) == "private"@ {
            Visibility::Private
        } else if text_of(src, v) == "protected"@ {
            Visibility::Protected
        } else {
            Visibility::Public
        },
        None => Visibility::Public,
    }
}

/// A PHP method: its visibility is the one its `visibility_modifier` gives,
/// the same that a property declaration with the same modifiers gets; it is
/// static with a `static_modifier`, abstract with an `abstract_modifier` or
/// without a body, and starts on the declaration's line.
pub proof fn law_php_method_follows_its_declaration(src: Seq<char>, n: SyntaxNode)
    ensures
        php_method(src, n).visibility == modifier_visibility(src, n),
        php_method(src, n).is_static == (child_of_kind(n, "static_modifier"@) is Some),
        php_method(src, n).is_abstract == (child_of_kind(n, "abstract_modifier"@) is Some || child_with_field(
            n,
            "body"@,
        ) is None),
        php_method(src, n).line == n.line,
        fields_carry(
            php_property_declaration(src, n),
            match child_with_field(n, "type"@) {
                Some(t) => text_of(src, t),
                None => "any"@,
            },
            php_method(src, n).visibility,
            child_of_kind(n, "static_modifier"@) is Some,
        ),
{
    lemma_property_elements_carry(
        src,
        n.children@,
        text_or(src, child_with_field(n, "type"@), "any"@),
        php_visibility(src, n),
        child_of_kind(n, "static_modifier"@) is Some,
    );
}

/// Every field a PHP property declaration gives carries the declaration's
/// type, visibility and static flag.
proof fn lemma_property_elements_carry(
    src: Seq<char>,
    s: Seq<SyntaxNode>,
    type_text: Seq<char>,
    visibility: Visibility,
    is_static: bool,
)
    ensures
        fields_carry(property_elements(src, s, type_text, visibility, is_static), type_text, visibility, is_static),
    decreases s.len(),
{
    if s.len() > 0 {
        lemma_property_elements_carry(src, s.drop_last(), type_text, visibility, is_static);
    }
}

/// A PHP parameter list keeps every simple, variadic or promoted parameter,
/// in order, with its `name` text without the `$` and the text of its
/// `type` node (`any` when untyped); other nodes add no parameter.
pub proof fn law_php_parameters_keep_their_types(src: Seq<char>, s: Seq<SyntaxNode>, p: SyntaxNode)
    ensures
        (kind_is(p, "simple_parameter"@) || kind_is(p, "variadic_parameter"@) || kind_is(
            p,
            "property_promotion_parameter"@,
        )) ==> php_params(src, s.push(p)) == php_params(src, s).push(
            ParamView {
                name: match child_with_field(p, "name"@) {
                    Some(x) => strip_leading(text_of(src, x), '$'),
                    None => ""@,
                },
                type_text: match child_with_field(p, "type"@) {
                    Some(t) => text_of(src, t),
                    None => "any"@,
                },
            },
        ),
        !(kind_is(p, "simple_parameter"@) || kind_is(p, "variadic_parameter"@) || kind_is(
            p,
            "property_promotion_parameter"@,
        )) ==> php_params(src, s.push(p)) == php_params(src, s),
{
    assert(s.push(p).drop_last() =~= s);
}

/// The members of a PHP body in order: a `use` of traits adds the trait
/// names, a property declaration its fields, a method declaration its
/// method (and the fields it stands for), anything else nothing.
pub proof fn law_php_members_in_order(src: Seq<char>, s: Seq<SyntaxNode>, m: SyntaxNode)
    ensures
        kind_is(m, "use_declaration"@) ==> php_member_list(src, s.push(m)) == (
            php_member_list(src, s).0,
            php_member_list(src, s).1,
            php_member_list(src, s).2 + names_in_spec(src, m),
        ),
        kind_is(m, "property_declaration"@) ==> php_member_list(src, s.push(m)) == (
            php_member_list(src, s).0 + php_property_declaration(src, m),
            php_member_list(src, s).1,
            php_member_list(src, s).2,
        ),
        kind_is(m, "method_declaration"@) ==> php_member_list(src, s.push(m)) == (
            php_member_list(src, s).0 + method_fields(src, m),
            php_member_list(src, s).1.push(php_method(src, m)),
            php_member_list(src, s).2,
        ),
        !(kind_is(m, "use_declaration"@) || kind_is(m, "property_declaration"@) || kind_is(
            m,
            "method_declaration"@,
        )) ==> php_member_list(src, s.push(m)) == php_member_list(src, s),
{
    reveal_strlit("use_declaration");
    reveal_strlit("property_declaration");
    reveal_strlit("method_declaration");
    assert("use_declaration"@.len() != "property_declaration"@.len());
    assert("use_declaration"@.len() != "method_declaration"@.len());
    assert("property_declaration"@.len() != "method_declaration"@.len());
    assert(s.push(m).drop_last() =~= s);
}

/// A PHP class is named by its `name` node (`Anonymous` without one), with
/// that name as its id; abstract with an `abstract_modifier`; it extends
/// the names of its `base_clause` and implements the names of its
/// `class_interface_clause` followed by the traits its body uses. An
/// interface implements nothing, a trait neither extends nor implements,
/// and an enum has no methods.
pub proof fn law_php_class_follows_its_declaration(src: Seq<char>, file: Seq<char>, n: SyntaxNode)
    ensures
        php_class(src, file, n).name == match child_with_field(n, "name"@) {
            Some(x) => text_of(src, x),
            None => "Anonymous"@,
        },
        php_class(src, file, n).id == php_class(src, file, n).name,
        php_class(src, file, n).kind == if child_of_kind(n, "abstract_modifier"@) is Some {
            ClassKind::AbstractClass
        } else {
            ClassKind::Class
        },
        php_class(src, file, n).extends == clause_names(src, n, "base_clause"@),
        php_class(src, file, n).implements == clause_names(src, n, "class_interface_clause"@)
            + php_members(src, n).2,
        php_class(src, file, n).methods == php_members(src, n).1,
        php_interface(src, file, n).kind == ClassKind::Interface,
        php_interface(src, file, n).implements.len() == 0,
        php_trait(src, file, n).kind == ClassKind::Trait,
        php_trait(src, file, n).extends.len() == 0 && php_trait(src, file, n).implements.len() == 0,
        php_enum(src, file, n).kind == ClassKind::Enum,
        php_enum(src, file, n).methods.len() == 0,
{
}

} // verus!
