use rust_engine::languages::python::parse;
use rust_engine::model::{ClassKind, ClassNode, Visibility};

fn parse_py(source: &str) -> Vec<ClassNode> {
    parse("test.py", source)
}

fn find<'a>(classes: &'a [ClassNode], name: &str) -> &'a ClassNode {
    classes
        .iter()
        .find(|c| c.name == name)
        .unwrap_or_else(|| panic!("class {name} not found in {classes:?}"))
}

#[test]
fn abc_base_class_is_abstract() {
    let classes = parse_py(
        "from abc import ABC, abstractmethod\n\
         class Shape(ABC):\n\
         \x20   @abstractmethod\n\
         \x20   def area(self) -> float: pass\n",
    );

    let shape = find(&classes, "Shape");
    assert_eq!(shape.kind, ClassKind::AbstractClass);
    assert!(!shape.extends.contains(&"ABC".to_string()), "ABC should be filtered out of extends");
    assert!(shape.methods[0].is_abstract);
}

#[test]
fn enum_base_class_is_rendered_as_enum() {
    let classes = parse_py("from enum import Enum\nclass Color(Enum):\n    RED = 1\n    GREEN = 2\n");

    let color = find(&classes, "Color");
    assert_eq!(color.kind, ClassKind::Enum);
    assert!(color.extends.is_empty(), "Enum base should be filtered out of extends");
    let names: Vec<_> = color.fields.iter().map(|f| f.name.as_str()).collect();
    assert_eq!(names, vec!["RED", "GREEN"]);
}

#[test]
fn bare_annotation_is_instance_field_not_static() {
    let classes = parse_py(
        "class Animal:\n\
         \x20   species_count: int = 0\n\
         \x20   name: str\n",
    );

    let animal = find(&classes, "Animal");
    let species_count = animal.fields.iter().find(|f| f.name == "species_count").unwrap();
    assert!(species_count.is_static, "assigned class attribute should be static");

    let name = animal.fields.iter().find(|f| f.name == "name").unwrap();
    assert!(!name.is_static, "bare type-hint-only annotation should not be static");
}

#[test]
fn self_assignment_in_init_becomes_instance_field() {
    let classes = parse_py(
        "class Animal:\n\
         \x20   def __init__(self, name):\n\
         \x20       self.name = name\n\
         \x20       self._owner = None\n\
         \x20       self.__secret = 1\n",
    );

    let animal = find(&classes, "Animal");
    let name = animal.fields.iter().find(|f| f.name == "name").unwrap();
    assert_eq!(name.visibility, Visibility::Public);
    assert!(!name.is_static);

    let owner = animal.fields.iter().find(|f| f.name == "_owner").unwrap();
    assert_eq!(owner.visibility, Visibility::Protected);

    let secret = animal.fields.iter().find(|f| f.name == "__secret").unwrap();
    assert_eq!(secret.visibility, Visibility::Private);
}

#[test]
fn staticmethod_and_classmethod_decorators_mark_static() {
    let classes = parse_py(
        "class Factory:\n\
         \x20   @staticmethod\n\
         \x20   def make(): pass\n\
         \x20   @classmethod\n\
         \x20   def create(cls): pass\n\
         \x20   def instance_method(self): pass\n",
    );

    let factory = find(&classes, "Factory");
    let make = factory.methods.iter().find(|m| m.name == "make").unwrap();
    assert!(make.is_static);

    let create = factory.methods.iter().find(|m| m.name == "create").unwrap();
    assert!(create.is_static);

    let instance_method = factory.methods.iter().find(|m| m.name == "instance_method").unwrap();
    assert!(!instance_method.is_static);
}

#[test]
fn class_inheritance_is_captured() {
    let classes = parse_py("class Dog(Animal):\n    pass\n");
    let dog = find(&classes, "Dog");
    assert_eq!(dog.extends, vec!["Animal".to_string()]);
}
