use rust_engine::languages::ecma::{parse, Dialect};
use rust_engine::model::{ClassKind, ClassNode, Visibility};

fn parse_ts(source: &str) -> Vec<ClassNode> {
    parse("test.ts", source, Dialect::TypeScript)
}

fn find<'a>(classes: &'a [ClassNode], name: &str) -> &'a ClassNode {
    classes
        .iter()
        .find(|c| c.name == name)
        .unwrap_or_else(|| panic!("class {name} not found in {classes:?}"))
}

#[test]
fn class_with_extends_and_implements() {
    let classes = parse_ts(
        r#"
        export abstract class Animal extends Base implements Shape, Named {
            abstract area(): number;
        }
        "#,
    );

    let animal = find(&classes, "Animal");
    assert_eq!(animal.kind, ClassKind::AbstractClass);
    assert_eq!(animal.extends, vec!["Base".to_string()]);
    assert_eq!(animal.implements, vec!["Shape".to_string(), "Named".to_string()]);
    assert_eq!(animal.methods[0].name, "area");
    assert!(animal.methods[0].is_abstract);
}

#[test]
fn fields_capture_visibility_and_static() {
    let classes = parse_ts(
        r#"
        class Cat {
            private static count: number = 0;
            protected name: string;
            owner: Person;
        }
        "#,
    );

    let cat = find(&classes, "Cat");
    let count = cat.fields.iter().find(|f| f.name == "count").unwrap();
    assert_eq!(count.visibility, Visibility::Private);
    assert!(count.is_static);

    let name = cat.fields.iter().find(|f| f.name == "name").unwrap();
    assert_eq!(name.visibility, Visibility::Protected);
    assert!(!name.is_static);

    let owner = cat.fields.iter().find(|f| f.name == "owner").unwrap();
    assert_eq!(owner.visibility, Visibility::Public);
    assert_eq!(owner.type_text, "Person");
}

#[test]
fn constructor_parameter_properties_become_fields() {
    let classes = parse_ts(
        r#"
        class Person {
            constructor(private readonly id: string, public age: number) {}
        }
        "#,
    );

    let person = find(&classes, "Person");
    let id = person.fields.iter().find(|f| f.name == "id").unwrap();
    assert_eq!(id.visibility, Visibility::Private);
    assert_eq!(id.type_text, "string");

    let age = person.fields.iter().find(|f| f.name == "age").unwrap();
    assert_eq!(age.visibility, Visibility::Public);
    assert_eq!(age.type_text, "number");
}

#[test]
fn interface_with_extends_and_methods() {
    let classes = parse_ts(
        r#"
        interface Movable extends Shape, Serializable {
            move(): void;
        }
        "#,
    );

    let movable = find(&classes, "Movable");
    assert_eq!(movable.kind, ClassKind::Interface);
    assert_eq!(movable.extends, vec!["Shape".to_string(), "Serializable".to_string()]);
    assert!(movable.methods[0].is_abstract);
}

#[test]
fn enum_variants_become_fields() {
    let classes = parse_ts("enum Color { Red, Green, Blue }");

    let color = find(&classes, "Color");
    assert_eq!(color.kind, ClassKind::Enum);
    let names: Vec<_> = color.fields.iter().map(|f| f.name.as_str()).collect();
    assert_eq!(names, vec!["Red", "Green", "Blue"]);
}

#[test]
fn javascript_private_field_is_private_visibility() {
    let classes = parse(
        "test.js",
        r#"
        class Cat {
            #secret = 1;
            speak() { return this.#secret; }
        }
        "#,
        Dialect::JavaScript,
    );

    let cat = find(&classes, "Cat");
    let secret = cat.fields.iter().find(|f| f.name == "secret").unwrap();
    assert_eq!(secret.visibility, Visibility::Private);
}
