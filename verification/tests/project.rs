use rust_engine::languages::{language_of_file, parse_file, SourceLanguage};
use rust_engine::model::RelationshipKind;
use rust_engine::project::analyze_sources;

#[test]
fn parse_file_dispatches_on_extension() {
    assert_eq!(parse_file("a/Zoo.java", "class Zoo {}")[0].name, "Zoo");
    assert_eq!(parse_file("zoo.ts", "class Zoo {}")[0].name, "Zoo");
    assert_eq!(parse_file("zoo.mjs", "class Zoo {}")[0].name, "Zoo");
    assert_eq!(parse_file("zoo.py", "class Zoo:\n    pass\n")[0].name, "Zoo");
    assert_eq!(parse_file("Zoo.cs", "class Zoo {}")[0].name, "Zoo");
    assert_eq!(parse_file("zoo.php", "<?php class Zoo {}")[0].name, "Zoo");
    assert!(parse_file("zoo.rb", "class Zoo; end").is_empty());
    assert!(parse_file("Makefile", "class Zoo {}").is_empty());
}

#[test]
fn language_follows_the_extension() {
    assert_eq!(language_of_file("x/y.tsx"), Some(SourceLanguage::TypeScript));
    assert_eq!(language_of_file("x/y.cjs"), Some(SourceLanguage::JavaScript));
    assert_eq!(language_of_file("x/.py"), None);
    assert_eq!(language_of_file("x/y.PY"), None);
}

#[test]
fn classes_of_every_file_are_related() {
    let files = vec![
        ("src/Animal.java".to_string(), "public class Animal {}".to_string()),
        ("src/Dog.java".to_string(), "public class Dog extends Animal {}".to_string()),
        ("notes.txt".to_string(), "class Ignored {}".to_string()),
    ];
    let diagram = analyze_sources(&files);
    let names: Vec<_> = diagram.classes.iter().map(|c| c.name.as_str()).collect();
    assert_eq!(names, vec!["Animal", "Dog"]);
    assert_eq!(diagram.classes[1].file, "src/Dog.java");
    assert_eq!(diagram.relationships.len(), 1);
    assert_eq!(diagram.relationships[0].from, "Dog");
    assert_eq!(diagram.relationships[0].to, "Animal");
    assert_eq!(diagram.relationships[0].kind, RelationshipKind::Inheritance);
}

#[test]
fn class_lines_lie_within_the_text() {
    let source = "\n\npublic class A {}\nclass B {}\n";
    let classes = parse_file("x/A.java", source);
    let lines: Vec<u32> = classes.iter().map(|c| c.line).collect();
    assert_eq!(lines, vec![3, 4]);
    assert!(classes.iter().all(|c| c.file == "x/A.java"));
}
