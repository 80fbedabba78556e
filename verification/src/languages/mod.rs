//! Per-language extraction of classes from source files, and the choice of
//! language by a file's extension.

pub mod java;
pub mod csharp;
pub mod ecma;
pub mod php;
pub mod python;

use vstd::prelude::*;
use crate::model::{ClassNode, ClassView};
use crate::paths::{extension, extension_spec};
use crate::parsing::{copies, line_bound, lines_within, parsed_tree, Grammar};
use crate::syntax::SyntaxNode;
use crate::text::str_eq;
use self::ecma::Dialect;

verus! {

/// The languages whose files are analysed.
#[derive(Debug, Clone, Copy, PartialEq, Eq, Structural)]
pub enum SourceLanguage {
    TypeScript,
    JavaScript,
    Python,
    Java,
    CSharp,
    Php,
}

/// The language that a file extension (without its dot) stands for.
pub open spec fn language_of_extension(ext: Seq<char>) -> Option<SourceLanguage> {
    if ext == "ts"@ || ext == "tsx"@ {
        Some(SourceLanguage::TypeScript)
    } else if ext == "js"@ || ext == "jsx"@ || ext == "mjs"@ || ext == "cjs"@ {
        Some(SourceLanguage::JavaScript)
    } else if ext == "py"@ {
        Some(SourceLanguage::Python)
    } else if ext == "java"@ {
        Some(SourceLanguage::Java)
    } else if ext == "cs"@ {
        Some(SourceLanguage::CSharp)
    } else if ext == "php"@ {
        Some(SourceLanguage::Php)
    } else {
        None
    }
}

/// The language of the file at `path`, by its extension.
pub open spec fn language_of_path(path: Seq<char>) -> Option<SourceLanguage> {
    match extension_spec(path) {
        Some(ext) => language_of_extension(ext),
        None => None,
    }
}

/// The grammar that parses a language's files.
pub open spec fn language_grammar(lang: SourceLanguage) -> Grammar {
    match lang {
        SourceLanguage::TypeScript => Grammar::TypeScript,
        SourceLanguage::JavaScript => Grammar::JavaScript,
        SourceLanguage::Python => Grammar::Python,
        SourceLanguage::Java => Grammar::Java,
        SourceLanguage::CSharp => Grammar::CSharp,
        SourceLanguage::Php => Grammar::Php,
    }
}

/// The classes that the extractor of `lang` finds in the syntax tree `t` of
/// `source`, read from `path`.
pub open spec fn classes_in_tree(
    lang: SourceLanguage,
    source: Seq<char>,
    path: Seq<char>,
    t: SyntaxNode,
) -> Seq<ClassView> {
    match lang {
        SourceLanguage::TypeScript | SourceLanguage::JavaScript => ecma::ecma_classes(
            source,
            path,
            t,
        ),
        SourceLanguage::Python => python::py_classes(source, path, t),
        SourceLanguage::Java => java::java_classes(source, path, t),
        SourceLanguage::CSharp => csharp::cs_classes(source, path, t),
        SourceLanguage::Php => php::php_classes(source, path, t),
    }
}

/// What the extractor of `lang` gives for `source` read from `path`: the
/// classes it finds in the copy of the tree that tree-sitter's grammar for
/// the language builds, or nothing when there is no tree.
pub open spec fn extracted_by(
    lang: SourceLanguage,
    source: Seq<char>,
    path: Seq<char>,
    r: Seq<ClassView>,
) -> bool {
    match parsed_tree(language_grammar(lang), source) {
        Some(m) => exists|t: SyntaxNode|
            copies(t, m) && lines_within(t, line_bound(source)) && r == classes_in_tree(lang, source, path, t),
        None => r.len() == 0,
    }
}

/// What parsing `source`, read from the file at `path`, may give: what the
/// extractor of the file's language may give, or nothing for a file of no
/// supported language.
pub open spec fn parsed_as(path: Seq<char>, source: Seq<char>, r: Seq<ClassView>) -> bool {
    match language_of_path(path) {
        Some(lang) => extracted_by(lang, source, path, r),
        None => r.len() == 0,
    }
}

/// The language of `ext`: [`language_of_extension`].
pub fn language_of(ext: &str) -> (r: Option<SourceLanguage>)
    ensures
        r == language_of_extension(ext@),
{
    if str_eq(ext, "ts") || str_eq(ext, "tsx") {
        Some(SourceLanguage::TypeScript)
    } else if str_eq(ext, "js") || str_eq(ext, "jsx") || str_eq(ext, "mjs") || str_eq(ext, "cjs") {
        Some(SourceLanguage::JavaScript)
    } else if str_eq(ext, "py") {
        Some(SourceLanguage::Python)
    } else if str_eq(ext, "java") {
        Some(SourceLanguage::Java)
    } else if str_eq(ext, "cs") {
        Some(SourceLanguage::CSharp)
    } else if str_eq(ext, "php") {
        Some(SourceLanguage::Php)
    } else {
        None
    }
}

/// The language of the file at `path`: [`language_of_path`].
pub fn language_of_file(path: &str) -> (r: Option<SourceLanguage>)
    ensures
        r == language_of_path(path@),
{
    match extension(path) {
        Some(ext) => language_of(ext.as_str()),
        None => None,
    }
}

/// Parses `source`, read from the file at `path`, with the extractor that
/// the file's extension selects (`.ts`/`.tsx` as TypeScript; `.js`, `.jsx`,
/// `.mjs`, `.cjs` as JavaScript; `.py`, `.java`, `.cs`, `.php`); a file of
/// any other extension declares nothing. Every class records `path` as its
/// file and starts on a line of `source`.
pub fn parse_file(path: &str, source: &str) -> (r: Vec<ClassNode>)
    ensures
        parsed_as(path@, source@, r.deep_view()),
        all_in_file(r.deep_view(), path@),
        all_lines_within(r.deep_view(), line_bound(source@)),
{
    let r = match language_of_file(path) {
        Some(SourceLanguage::TypeScript) => ecma::parse(path, source, Dialect::TypeScript),
        Some(SourceLanguage::JavaScript) => ecma::parse(path, source, Dialect::JavaScript),
        Some(SourceLanguage::Python) => python::parse(path, source),
        Some(SourceLanguage::Java) => java::parse(path, source),
        Some(SourceLanguage::CSharp) => csharp::parse(path, source),
        Some(SourceLanguage::Php) => php::parse(path, source),
        None => Vec::new(),
    };
    proof {
        law_classes_record_their_file(path@, source@, r.deep_view());
        law_class_lines_lie_in_the_text(path@, source@, r.deep_view());
    }
    r
}

/// Whether every class of `cs` records the file `file`.
pub open spec fn all_in_file(cs: Seq<ClassView>, file: Seq<char>) -> bool {
    forall|k: int| 0 <= k < cs.len() ==> (#[trigger] cs[k]).file == file
}

proof fn lemma_concat_in_file(a: Seq<ClassView>, b: Seq<ClassView>, file: Seq<char>)
    requires
        all_in_file(a, file),
        all_in_file(b, file),
    ensures
        all_in_file(a + b, file),
{
    assert forall|k: int| 0 <= k < (a + b).len() implies (#[trigger] (a + b)[k]).file == file by {
        if k < a.len() {
            assert((a + b)[k] == a[k]);
        } else {
            assert((a + b)[k] == b[k - a.len()]);
        }
    }
}

proof fn lemma_java_files(src: Seq<char>, file: Seq<char>, n: SyntaxNode)
    ensures
        all_in_file(java::java_classes(src, file, n), file),
    decreases n,
{
    lemma_java_files_in(src, file, n.children@);
    let own = java::java_classes(src, file, n).take(java::java_classes(src, file, n).len() - java::java_classes_in(src, file, n.children@).len());
    assert(java::java_classes(src, file, n) =~= own + java::java_classes_in(src, file, n.children@));
    assert(all_in_file(own, file));
    lemma_concat_in_file(own, java::java_classes_in(src, file, n.children@), file);
}

proof fn lemma_java_files_in(src: Seq<char>, file: Seq<char>, s: Seq<SyntaxNode>)
    ensures
        all_in_file(java::java_classes_in(src, file, s), file),
    decreases s,
{
    if s.len() > 0 {
        lemma_java_files_in(src, file, s.drop_last());
        lemma_java_files(src, file, s.last());
        lemma_concat_in_file(
            java::java_classes_in(src, file, s.drop_last()),
            java::java_classes(src, file, s.last()),
            file,
        );
    }
}

proof fn lemma_cs_files(src: Seq<char>, file: Seq<char>, n: SyntaxNode)
    ensures
        all_in_file(csharp::cs_classes(src, file, n), file),
    decreases n,
{
    lemma_cs_files_in(src, file, n.children@);
    let own = csharp::cs_classes(src, file, n).take(csharp::cs_classes(src, file, n).len() - csharp::cs_classes_in(src, file, n.children@).len());
    assert(csharp::cs_classes(src, file, n) =~= own + csharp::cs_classes_in(src, file, n.children@));
    assert(all_in_file(own, file));
    lemma_concat_in_file(own, csharp::cs_classes_in(src, file, n.children@), file);
}

proof fn lemma_cs_files_in(src: Seq<char>, file: Seq<char>, s: Seq<SyntaxNode>)
    ensures
        all_in_file(csharp::cs_classes_in(src, file, s), file),
    decreases s,
{
    if s.len() > 0 {
        lemma_cs_files_in(src, file, s.drop_last());
        lemma_cs_files(src, file, s.last());
        lemma_concat_in_file(
            csharp::cs_classes_in(src, file, s.drop_last()),
            csharp::cs_classes(src, file, s.last()),
            file,
        );
    }
}

proof fn lemma_ecma_files(src: Seq<char>, file: Seq<char>, n: SyntaxNode)
    ensures
        all_in_file(ecma::ecma_classes(src, file, n), file),
    decreases n,
{
    lemma_ecma_files_in(src, file, n.children@);
    let own = ecma::ecma_classes(src, file, n).take(ecma::ecma_classes(src, file, n).len() - ecma::ecma_classes_in(src, file, n.children@).len());
    assert(ecma::ecma_classes(src, file, n) =~= own + ecma::ecma_classes_in(src, file, n.children@));
    assert(all_in_file(own, file));
    lemma_concat_in_file(own, ecma::ecma_classes_in(src, file, n.children@), file);
}

proof fn lemma_ecma_files_in(src: Seq<char>, file: Seq<char>, s: Seq<SyntaxNode>)
    ensures
        all_in_file(ecma::ecma_classes_in(src, file, s), file),
    decreases s,
{
    if s.len() > 0 {
        lemma_ecma_files_in(src, file, s.drop_last());
        lemma_ecma_files(src, file, s.last());
        lemma_concat_in_file(
            ecma::ecma_classes_in(src, file, s.drop_last()),
            ecma::ecma_classes(src, file, s.last()),
            file,
        );
    }
}

proof fn lemma_php_files(src: Seq<char>, file: Seq<char>, n: SyntaxNode)
    ensures
        all_in_file(php::php_classes(src, file, n), file),
    decreases n,
{
    lemma_php_files_in(src, file, n.children@);
    let own = php::php_classes(src, file, n).take(php::php_classes(src, file, n).len() - php::php_classes_in(src, file, n.children@).len());
    assert(php::php_classes(src, file, n) =~= own + php::php_classes_in(src, file, n.children@));
    assert(all_in_file(own, file));
    lemma_concat_in_file(own, php::php_classes_in(src, file, n.children@), file);
}

proof fn lemma_php_files_in(src: Seq<char>, file: Seq<char>, s: Seq<SyntaxNode>)
    ensures
        all_in_file(php::php_classes_in(src, file, s), file),
    decreases s,
{
    if s.len() > 0 {
        lemma_php_files_in(src, file, s.drop_last());
        lemma_php_files(src, file, s.last());
        lemma_concat_in_file(
            php::php_classes_in(src, file, s.drop_last()),
            php::php_classes(src, file, s.last()),
            file,
        );
    }
}

proof fn lemma_py_files(src: Seq<char>, file: Seq<char>, n: SyntaxNode)
    ensures
        all_in_file(python::py_classes(src, file, n), file),
    decreases n,
{
    lemma_py_files_in(src, file, n.children@);
    let own = python::py_classes(src, file, n).take(python::py_classes(src, file, n).len() - python::py_classes_in(src, file, n.children@).len());
    assert(python::py_classes(src, file, n) =~= own + python::py_classes_in(src, file, n.children@));
    assert(all_in_file(own, file));
    lemma_concat_in_file(own, python::py_classes_in(src, file, n.children@), file);
}

proof fn lemma_py_files_in(src: Seq<char>, file: Seq<char>, s: Seq<SyntaxNode>)
    ensures
        all_in_file(python::py_classes_in(src, file, s), file),
    decreases s,
{
    if s.len() > 0 {
        lemma_py_files_in(src, file, s.drop_last());
        lemma_py_files(src, file, s.last());
        lemma_concat_in_file(
            python::py_classes_in(src, file, s.drop_last()),
            python::py_classes(src, file, s.last()),
            file,
        );
    }
}

/// Every class that parsing a file gives records the path it was read from,
/// whatever the language and whatever the tree.
pub proof fn law_classes_record_their_file(path: Seq<char>, source: Seq<char>, r: Seq<ClassView>)
    requires
        parsed_as(path, source, r),
    ensures
        all_in_file(r, path),
{
    match language_of_path(path) {
        Some(lang) => {
            match parsed_tree(language_grammar(lang), source) {
                Some(m) => {
                    let t = choose|t: SyntaxNode|
                        copies(t, m) && lines_within(t, line_bound(source)) && r == classes_in_tree(
                            lang,
                            source,
                            path,
                            t,
                        );
                    match lang {
                        SourceLanguage::TypeScript | SourceLanguage::JavaScript => lemma_ecma_files(
                            source,
                            path,
                            t,
                        ),
                        SourceLanguage::Python => lemma_py_files(source, path, t),
                        SourceLanguage::Java => lemma_java_files(source, path, t),
                        SourceLanguage::CSharp => lemma_cs_files(source, path, t),
                        SourceLanguage::Php => lemma_php_files(source, path, t),
                    }
                },
                None => {},
            }
        },
        None => {},
    }
}

/// Whether every class of `cs` starts on a line from 1 to `b`.
pub open spec fn all_lines_within(cs: Seq<ClassView>, b: int) -> bool {
    forall|k: int| 0 <= k < cs.len() ==> 1 <= (#[trigger] cs[k]).line <= b
}

proof fn lemma_concat_lines(a: Seq<ClassView>, c: Seq<ClassView>, b: int)
    requires
        all_lines_within(a, b),
        all_lines_within(c, b),
    ensures
        all_lines_within(a + c, b),
{
    assert forall|k: int| 0 <= k < (a + c).len() implies 1 <= (#[trigger] (a + c)[k]).line <= b by {
        if k < a.len() {
            assert((a + c)[k] == a[k]);
        } else {
            assert((a + c)[k] == c[k - a.len()]);
        }
    }
}

proof fn lemma_java_lines(src: Seq<char>, file: Seq<char>, n: SyntaxNode, b: int)
    requires
        lines_within(n, b),
    ensures
        all_lines_within(java::java_classes(src, file, n), b),
    decreases n,
{
    lemma_java_lines_in(src, file, n.children@, b);
    let rest = java::java_classes_in(src, file, n.children@);
    let all = java::java_classes(src, file, n);
    let own = all.take(all.len() - rest.len());
    assert(all =~= own + rest);
    assert(all_lines_within(own, b));
    lemma_concat_lines(own, rest, b);
}

proof fn lemma_java_lines_in(src: Seq<char>, file: Seq<char>, s: Seq<SyntaxNode>, b: int)
    requires
        forall|i: int| 0 <= i < s.len() ==> lines_within(#[trigger] s[i], b),
    ensures
        all_lines_within(java::java_classes_in(src, file, s), b),
    decreases s,
{
    if s.len() > 0 {
        lemma_java_lines_in(src, file, s.drop_last(), b);
        lemma_java_lines(src, file, s.last(), b);
        lemma_concat_lines(
            java::java_classes_in(src, file, s.drop_last()),
            java::java_classes(src, file, s.last()),
            b,
        );
    }
}

proof fn lemma_cs_lines(src: Seq<char>, file: Seq<char>, n: SyntaxNode, b: int)
    requires
        lines_within(n, b),
    ensures
        all_lines_within(csharp::cs_classes(src, file, n), b),
    decreases n,
{
    lemma_cs_lines_in(src, file, n.children@, b);
    let rest = csharp::cs_classes_in(src, file, n.children@);
    let all = csharp::cs_classes(src, file, n);
    let own = all.take(all.len() - rest.len());
    assert(all =~= own + rest);
    assert(all_lines_within(own, b));
    lemma_concat_lines(own, rest, b);
}

proof fn lemma_cs_lines_in(src: Seq<char>, file: Seq<char>, s: Seq<SyntaxNode>, b: int)
    requires
        forall|i: int| 0 <= i < s.len() ==> lines_within(#[trigger] s[i], b),
    ensures
        all_lines_within(csharp::cs_classes_in(src, file, s), b),
    decreases s,
{
    if s.len() > 0 {
        lemma_cs_lines_in(src, file, s.drop_last(), b);
        lemma_cs_lines(src, file, s.last(), b);
        lemma_concat_lines(
            csharp::cs_classes_in(src, file, s.drop_last()),
            csharp::cs_classes(src, file, s.last()),
            b,
        );
    }
}

proof fn lemma_ecma_lines(src: Seq<char>, file: Seq<char>, n: SyntaxNode, b: int)
    requires
        lines_within(n, b),
    ensures
        all_lines_within(ecma::ecma_classes(src, file, n), b),
    decreases n,
{
    lemma_ecma_lines_in(src, file, n.children@, b);
    let rest = ecma::ecma_classes_in(src, file, n.children@);
    let all = ecma::ecma_classes(src, file, n);
    let own = all.take(all.len() - rest.len());
    assert(all =~= own + rest);
    assert(all_lines_within(own, b));
    lemma_concat_lines(own, rest, b);
}

proof fn lemma_ecma_lines_in(src: Seq<char>, file: Seq<char>, s: Seq<SyntaxNode>, b: int)
    requires
        forall|i: int| 0 <= i < s.len() ==> lines_within(#[trigger] s[i], b),
    ensures
        all_lines_within(ecma::ecma_classes_in(src, file, s), b),
    decreases s,
{
    if s.len() > 0 {
        lemma_ecma_lines_in(src, file, s.drop_last(), b);
        lemma_ecma_lines(src, file, s.last(), b);
        lemma_concat_lines(
            ecma::ecma_classes_in(src, file, s.drop_last()),
            ecma::ecma_classes(src, file, s.last()),
            b,
        );
    }
}

proof fn lemma_php_lines(src: Seq<char>, file: Seq<char>, n: SyntaxNode, b: int)
    requires
        lines_within(n, b),
    ensures
        all_lines_within(php::php_classes(src, file, n), b),
    decreases n,
{
    lemma_php_lines_in(src, file, n.children@, b);
    let rest = php::php_classes_in(src, file, n.children@);
    let all = php::php_classes(src, file, n);
    let own = all.take(all.len() - rest.len());
    assert(all =~= own + rest);
    assert(all_lines_within(own, b));
    lemma_concat_lines(own, rest, b);
}

proof fn lemma_php_lines_in(src: Seq<char>, file: Seq<char>, s: Seq<SyntaxNode>, b: int)
    requires
        forall|i: int| 0 <= i < s.len() ==> lines_within(#[trigger] s[i], b),
    ensures
        all_lines_within(php::php_classes_in(src, file, s), b),
    decreases s,
{
    if s.len() > 0 {
        lemma_php_lines_in(src, file, s.drop_last(), b);
        lemma_php_lines(src, file, s.last(), b);
        lemma_concat_lines(
            php::php_classes_in(src, file, s.drop_last()),
            php::php_classes(src, file, s.last()),
            b,
        );
    }
}

proof fn lemma_py_lines(src: Seq<char>, file: Seq<char>, n: SyntaxNode, b: int)
    requires
        lines_within(n, b),
    ensures
        all_lines_within(python::py_classes(src, file, n), b),
    decreases n,
{
    lemma_py_lines_in(src, file, n.children@, b);
    let rest = python::py_classes_in(src, file, n.children@);
    let all = python::py_classes(src, file, n);
    let own = all.take(all.len() - rest.len());
    assert(all =~= own + rest);
    assert(all_lines_within(own, b));
    lemma_concat_lines(own, rest, b);
}

proof fn lemma_py_lines_in(src: Seq<char>, file: Seq<char>, s: Seq<SyntaxNode>, b: int)
    requires
        forall|i: int| 0 <= i < s.len() ==> lines_within(#[trigger] s[i], b),
    ensures
        all_lines_within(python::py_classes_in(src, file, s), b),
    decreases s,
{
    if s.len() > 0 {
        lemma_py_lines_in(src, file, s.drop_last(), b);
        lemma_py_lines(src, file, s.last(), b);
        lemma_concat_lines(
            python::py_classes_in(src, file, s.drop_last()),
            python::py_classes(src, file, s.last()),
            b,
        );
    }
}

/// Every class that parsing a file gives starts on a line of the text:
/// from line 1 to one more than the text's line feeds.
pub proof fn law_class_lines_lie_in_the_text(path: Seq<char>, source: Seq<char>, r: Seq<ClassView>)
    requires
        parsed_as(path, source, r),
    ensures
        all_lines_within(r, line_bound(source)),
{
    let b = line_bound(source);
    match language_of_path(path) {
        Some(lang) => {
            match parsed_tree(language_grammar(lang), source) {
                Some(m) => {
                    let t = choose|t: SyntaxNode|
                        copies(t, m) && lines_within(t, b) && r == classes_in_tree(
                            lang,
                            source,
                            path,
                            t,
                        );
                    match lang {
                        SourceLanguage::TypeScript | SourceLanguage::JavaScript => lemma_ecma_lines(
                            source,
                            path,
                            t,
                            b,
                        ),
                        SourceLanguage::Python => lemma_py_lines(source, path, t, b),
                        SourceLanguage::Java => lemma_java_lines(source, path, t, b),
                        SourceLanguage::CSharp => lemma_cs_lines(source, path, t, b),
                        SourceLanguage::Php => lemma_php_lines(source, path, t, b),
                    }
                },
                None => {},
            }
        },
        None => {},
    }
}

} // verus!
