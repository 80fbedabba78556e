use rust_engine::languages::csharp::parse;
use rust_engine::model::{ClassKind, ClassNode, Visibility};

fn parse_cs(source: &str) -> Vec<ClassNode> {
    parse("Test.cs", source)
}

fn find<'a>(classes: &'a [ClassNode], name: &str) -> &'a ClassNode {
    classes
        .iter()
        .find(|c| c.name == name)
        .unwrap_or_else(|| panic!("class {name} not found in {classes:?}"))
}

#[test]
fn base_class_and_interface_are_split_by_naming_convention() {
    let classes = parse_cs("public class Dog : Animal, IMovable { }");

    let dog = find(&classes, "Dog");
    assert_eq!(dog.extends, vec!["Animal".to_string()]);
    assert_eq!(dog.implements, vec!["IMovable".to_string()]);
}

#[test]
fn only_interfaces_when_first_base_looks_like_an_interface() {
    let classes = parse_cs("public class Cat : IShape, IMovable { }");

    let cat = find(&classes, "Cat");
    assert!(cat.extends.is_empty());
    assert_eq!(cat.implements, vec!["IShape".to_string(), "IMovable".to_string()]);
}

#[test]
fn abstract_class_and_abstract_method() {
    let classes = parse_cs(
        "public abstract class Animal {\n\
         \x20   public abstract double Area();\n\
         }\n",
    );

    let animal = find(&classes, "Animal");
    assert_eq!(animal.kind, ClassKind::AbstractClass);
    assert!(animal.methods[0].is_abstract);
}

#[test]
fn auto_property_is_treated_as_field() {
    let classes = parse_cs(
        "public class Animal {\n\
         \x20   public Person Owner { get; set; }\n\
         }\n",
    );

    let animal = find(&classes, "Animal");
    let owner = animal.fields.iter().find(|f| f.name == "Owner").unwrap();
    assert_eq!(owner.type_text, "Person");
    assert_eq!(owner.visibility, Visibility::Public);
}

#[test]
fn enum_members_become_fields() {
    let classes = parse_cs("public enum Color { Red, Green, Blue }");
    let color = find(&classes, "Color");
    assert_eq!(color.kind, ClassKind::Enum);
    let names: Vec<_> = color.fields.iter().map(|f| f.name.as_str()).collect();
    assert_eq!(names, vec!["Red", "Green", "Blue"]);
}

#[test]
fn field_visibility_and_static_modifier() {
    let classes = parse_cs(
        "public class Animal {\n\
         \x20   private static int Count = 0;\n\
         \x20   protected string Name;\n\
         }\n",
    );

    let animal = find(&classes, "Animal");
    let count = animal.fields.iter().find(|f| f.name == "Count").unwrap();
    assert_eq!(count.visibility, Visibility::Private);
    assert!(count.is_static);

    let name = animal.fields.iter().find(|f| f.name == "Name").unwrap();
    assert_eq!(name.visibility, Visibility::Protected);
}
