use rust_engine::languages::java::parse;
use rust_engine::model::{ClassKind, ClassNode, Visibility};

fn parse_java(source: &str) -> Vec<ClassNode> {
    parse("Test.java", source)
}

fn find<'a>(classes: &'a [ClassNode], name: &str) -> &'a ClassNode {
    classes
        .iter()
        .find(|c| c.name == name)
        .unwrap_or_else(|| panic!("class {name} not found in {classes:?}"))
}

#[test]
fn java_class_extends_and_implements() {
    let classes = parse_java(
        "public abstract class Animal extends Base implements Shape {\n\
         \x20   public abstract double area();\n\
         }\n",
    );

    let animal = find(&classes, "Animal");
    assert_eq!(animal.kind, ClassKind::AbstractClass);
    assert_eq!(animal.extends, vec!["Base".to_string()]);
    assert_eq!(animal.implements, vec!["Shape".to_string()]);
    assert!(animal.methods[0].is_abstract);
}

#[test]
fn interface_extending_multiple_interfaces() {
    let classes = parse_java("public interface Movable extends Shape, Serializable {\n    void move();\n}\n");

    let movable = find(&classes, "Movable");
    assert_eq!(movable.kind, ClassKind::Interface);
    assert_eq!(movable.extends, vec!["Shape".to_string(), "Serializable".to_string()]);
    assert!(movable.methods[0].is_abstract, "interface methods have no body, so they're abstract");
}

#[test]
fn field_modifiers_and_types() {
    let classes = parse_java(
        "public class Cat {\n\
         \x20   private static int count = 0;\n\
         \x20   protected String name;\n\
         \x20   public List<Animal> friends;\n\
         }\n",
    );

    let cat = find(&classes, "Cat");
    let count = cat.fields.iter().find(|f| f.name == "count").unwrap();
    assert_eq!(count.visibility, Visibility::Private);
    assert!(count.is_static);

    let name = cat.fields.iter().find(|f| f.name == "name").unwrap();
    assert_eq!(name.visibility, Visibility::Protected);
    assert_eq!(name.type_text, "String");

    let friends = cat.fields.iter().find(|f| f.name == "friends").unwrap();
    assert_eq!(friends.type_text, "List<Animal>");
}

#[test]
fn enum_constants_become_fields() {
    let classes = parse_java("enum Color { RED, GREEN, BLUE }");
    let color = find(&classes, "Color");
    assert_eq!(color.kind, ClassKind::Enum);
    let names: Vec<_> = color.fields.iter().map(|f| f.name.as_str()).collect();
    assert_eq!(names, vec!["RED", "GREEN", "BLUE"]);
}

#[test]
fn constructor_is_captured_as_a_method() {
    let classes = parse_java(
        "public class Dog {\n\
         \x20   public Dog(String name) { }\n\
         }\n",
    );
    let dog = find(&classes, "Dog");
    assert!(dog.methods.iter().any(|m| m.name == "Dog"));
}
