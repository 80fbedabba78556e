use rust_engine::model::{
    ClassDiagram, ClassKind, ClassNode, FieldNode, MethodNode, Param, Relationship,
    RelationshipKind, Visibility,
};
use rust_engine::relationships::{build_diagram, millis_since_epoch};

fn class(name: &str, kind: ClassKind) -> ClassNode {
    ClassNode {
        id: name.to_string(),
        name: name.to_string(),
        kind,
        file: "test.ts".to_string(),
        line: 1,
        fields: Vec::new(),
        methods: Vec::new(),
        extends: Vec::new(),
        implements: Vec::new(),
    }
}

fn field(name: &str, type_text: &str) -> FieldNode {
    FieldNode {
        name: name.to_string(),
        type_text: type_text.to_string(),
        visibility: Visibility::Public,
        is_static: false,
        line: 1,
    }
}

fn method(name: &str, params: &[(&str, &str)], return_type: &str) -> MethodNode {
    MethodNode {
        name: name.to_string(),
        params: params
            .iter()
            .map(|(n, t)| Param { name: n.to_string(), type_text: t.to_string() })
            .collect(),
        return_type: return_type.to_string(),
        visibility: Visibility::Public,
        is_static: false,
        is_abstract: false,
        line: 1,
    }
}

fn find<'a>(diagram: &'a ClassDiagram, from: &str, to: &str) -> Option<&'a Relationship> {
    diagram.relationships.iter().find(|r| r.from == from && r.to == to)
}

#[test]
fn inheritance_edge_between_known_classes() {
    let mut dog = class("Dog", ClassKind::Class);
    dog.extends.push("Animal".to_string());
    let animal = class("Animal", ClassKind::Class);

    let diagram = build_diagram(vec![dog, animal]);

    let rel = find(&diagram, "Dog", "Animal").expect("expected Dog -> Animal edge");
    assert_eq!(rel.kind, RelationshipKind::Inheritance);
}

#[test]
fn extends_unknown_class_produces_no_edge() {
    let mut dog = class("Dog", ClassKind::Class);
    dog.extends.push("SomeExternalBaseClass".to_string());

    let diagram = build_diagram(vec![dog]);

    assert!(diagram.relationships.is_empty());
}

#[test]
fn implementation_edge_for_interface() {
    let mut animal = class("Animal", ClassKind::Class);
    animal.implements.push("Shape".to_string());
    let shape = class("Shape", ClassKind::Interface);

    let diagram = build_diagram(vec![animal, shape]);

    let rel = find(&diagram, "Animal", "Shape").expect("expected Animal -> Shape edge");
    assert_eq!(rel.kind, RelationshipKind::Implementation);
}

#[test]
fn single_value_field_is_composition() {
    let mut animal = class("Animal", ClassKind::Class);
    animal.fields.push(field("owner", "Person"));
    let person = class("Person", ClassKind::Class);

    let diagram = build_diagram(vec![animal, person]);

    let rel = find(&diagram, "Animal", "Person").expect("expected Animal -> Person edge");
    assert_eq!(rel.kind, RelationshipKind::Composition);
}

#[test]
fn array_field_is_aggregation() {
    let mut animal = class("Animal", ClassKind::Class);
    animal.fields.push(field("friends", "Animal[]"));
    let diagram = build_diagram(vec![animal]);

    // A self-referential field should not create a self-loop edge.
    assert!(diagram.relationships.is_empty());

    let mut zoo = class("Zoo", ClassKind::Class);
    zoo.fields.push(field("animals", "Animal[]"));
    let animal = class("Animal", ClassKind::Class);
    let diagram = build_diagram(vec![zoo, animal]);

    let rel = find(&diagram, "Zoo", "Animal").expect("expected Zoo -> Animal edge");
    assert_eq!(rel.kind, RelationshipKind::Aggregation);
}

#[test]
fn method_param_not_held_as_field_is_dependency() {
    let mut dog = class("Dog", ClassKind::Class);
    dog.methods.push(method("fetch", &[("item", "Toy")], "void"));
    let toy = class("Toy", ClassKind::Class);

    let diagram = build_diagram(vec![dog, toy]);

    let rel = find(&diagram, "Dog", "Toy").expect("expected Dog -> Toy edge");
    assert_eq!(rel.kind, RelationshipKind::Dependency);
}

#[test]
fn method_param_already_a_field_does_not_duplicate_as_dependency() {
    let mut service = class("UserService", ClassKind::Class);
    service.fields.push(field("repo", "UserRepository"));
    service
        .methods
        .push(method("save", &[("repo", "UserRepository")], "void"));
    let repo = class("UserRepository", ClassKind::Class);

    let diagram = build_diagram(vec![service, repo]);

    let edges: Vec<_> = diagram
        .relationships
        .iter()
        .filter(|r| r.from == "UserService" && r.to == "UserRepository")
        .collect();
    assert_eq!(edges.len(), 1, "expected exactly one edge, got {edges:?}");
    assert_eq!(edges[0].kind, RelationshipKind::Composition);
}

#[test]
fn generic_return_type_links_to_inner_type() {
    let mut repo = class("Repository", ClassKind::Class);
    repo.methods.push(method("find", &[], "Promise<User>"));
    let user = class("User", ClassKind::Class);

    let diagram = build_diagram(vec![repo, user]);

    let rel = find(&diagram, "Repository", "User").expect("expected Repository -> User edge");
    assert_eq!(rel.kind, RelationshipKind::Dependency);
}

#[test]
fn no_duplicate_edges_for_same_relationship() {
    let mut dog = class("Dog", ClassKind::Class);
    dog.methods.push(method("fetch", &[("item", "Toy")], "Toy"));
    let toy = class("Toy", ClassKind::Class);

    let diagram = build_diagram(vec![dog, toy]);

    let edges: Vec<_> = diagram
        .relationships
        .iter()
        .filter(|r| r.from == "Dog" && r.to == "Toy")
        .collect();
    assert_eq!(edges.len(), 1, "expected relationship set to dedupe, got {edges:?}");
}

#[test]
fn self_reference_draws_no_edge() {
    let mut node = class("Node", ClassKind::Class);
    node.fields.push(field("next", "Node"));
    node.methods.push(method("link", &[("other", "Node")], "Node"));

    let diagram = build_diagram(vec![node]);

    assert!(diagram.relationships.is_empty(), "got {:?}", diagram.relationships);
}

#[test]
fn generic_field_type_links_to_wrapper_and_inner_type_when_both_known() {
    let mut zoo = class("Zoo", ClassKind::Class);
    zoo.fields.push(field("keeper", "Repository<Animal>"));
    let repository = class("Repository", ClassKind::Class);
    let animal = class("Animal", ClassKind::Class);

    let diagram = build_diagram(vec![zoo, repository, animal]);

    assert_eq!(find(&diagram, "Zoo", "Repository").unwrap().kind, RelationshipKind::Composition);
    assert_eq!(find(&diagram, "Zoo", "Animal").unwrap().kind, RelationshipKind::Composition);
}

#[test]
fn collection_prefixes_make_aggregation() {
    let mut zoo = class("Zoo", ClassKind::Class);
    zoo.fields.push(field("byName", "Map<string, Animal>"));
    zoo.fields.push(field("keepers", "Set<Keeper>"));
    zoo.fields.push(field("vet", "Vet"));
    let diagram = build_diagram(vec![
        zoo,
        class("Animal", ClassKind::Class),
        class("Keeper", ClassKind::Class),
        class("Vet", ClassKind::Class),
    ]);

    assert_eq!(find(&diagram, "Zoo", "Animal").unwrap().kind, RelationshipKind::Aggregation);
    assert_eq!(find(&diagram, "Zoo", "Keeper").unwrap().kind, RelationshipKind::Aggregation);
    assert_eq!(find(&diagram, "Zoo", "Vet").unwrap().kind, RelationshipKind::Composition);
}

#[test]
fn build_diagram_keeps_the_classes_and_stamps_a_time() {
    let diagram = build_diagram(vec![class("A", ClassKind::Interface), class("B", ClassKind::Enum)]);
    let names: Vec<_> = diagram.classes.iter().map(|c| c.name.as_str()).collect();
    assert_eq!(names, vec!["A", "B"]);
    assert!(diagram.generated_at_ms > 0);
}

#[test]
fn diagram_at_a_given_time_carries_that_time() {
    let mut dog = class("Dog", ClassKind::Class);
    dog.extends.push("Animal".to_string());
    let classes = vec![dog, class("Animal", ClassKind::Class)];
    let edges = rust_engine::relationships::infer_relationships(&classes);
    let diagram = rust_engine::relationships::build_diagram_at(classes, 42);
    assert_eq!(diagram.generated_at_ms, 42);
    assert_eq!(diagram.relationships, edges);
}

#[test]
fn return_type_named_inside_a_field_type_is_still_a_dependency() {
    let mut svc = class("Svc", ClassKind::Class);
    svc.fields.push(field("repo", "UserRepository"));
    svc.methods.push(method("load", &[], "User"));
    let diagram = build_diagram(vec![
        svc,
        class("UserRepository", ClassKind::Class),
        class("User", ClassKind::Class),
    ]);

    assert_eq!(
        diagram.relationships,
        vec![
            Relationship {
                from: "Svc".to_string(),
                to: "UserRepository".to_string(),
                kind: RelationshipKind::Composition
            },
            Relationship { from: "Svc".to_string(), to: "User".to_string(), kind: RelationshipKind::Dependency },
        ]
    );
}

#[test]
fn list_like_fields_are_aggregation() {
    let mut zoo = class("Zoo", ClassKind::Class);
    zoo.fields.push(field("a", "List<Animal>"));
    zoo.fields.push(field("k", "IEnumerable<Keeper>"));
    zoo.fields.push(field("v", "list[Vet]"));
    let diagram = build_diagram(vec![
        zoo,
        class("Animal", ClassKind::Class),
        class("Keeper", ClassKind::Class),
        class("Vet", ClassKind::Class),
    ]);

    for to in ["Animal", "Keeper", "Vet"] {
        assert_eq!(find(&diagram, "Zoo", to).unwrap().kind, RelationshipKind::Aggregation, "{to}");
    }
}

#[test]
fn elapsed_time_is_counted_in_whole_milliseconds() {
    assert_eq!(millis_since_epoch(None), 0);
    assert_eq!(millis_since_epoch(Some((1, 999_999_999))), 1999);
    assert_eq!(millis_since_epoch(Some((0, 999_999))), 0);
    assert_eq!(millis_since_epoch(Some((u64::MAX, 0))), u64::MAX.wrapping_mul(1000));
}
