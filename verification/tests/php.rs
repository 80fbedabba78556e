use rust_engine::languages::php::parse;
use rust_engine::model::{ClassKind, ClassNode, RelationshipKind, Visibility};
use rust_engine::relationships::build_diagram;

fn parse_php(source: &str) -> Vec<ClassNode> {
    let with_tag = format!("<?php\n{source}");
    parse("Test.php", &with_tag)
}

fn find<'a>(classes: &'a [ClassNode], name: &str) -> &'a ClassNode {
    classes
        .iter()
        .find(|c| c.name == name)
        .unwrap_or_else(|| panic!("class {name} not found in {classes:?}"))
}

#[test]
fn php_class_extends_and_implements() {
    let classes = parse_php(
        "abstract class Animal extends Base implements Shape {\n\
         \x20   abstract public function area(): float;\n\
         }\n",
    );

    let animal = find(&classes, "Animal");
    assert_eq!(animal.kind, ClassKind::AbstractClass);
    assert_eq!(animal.extends, vec!["Base".to_string()]);
    assert_eq!(animal.implements, vec!["Shape".to_string()]);
    assert!(animal.methods[0].is_abstract);
}

#[test]
fn trait_use_is_folded_into_implements_and_kind_is_trait() {
    let classes = parse_php(
        "trait HasFactory {\n    public function factory() {}\n}\n\
         class Animal {\n    use HasFactory;\n}\n",
    );

    let has_factory = find(&classes, "HasFactory");
    assert_eq!(has_factory.kind, ClassKind::Trait);

    let animal = find(&classes, "Animal");
    assert_eq!(animal.implements, vec!["HasFactory".to_string()]);
}

#[test]
fn property_visibility_and_static() {
    let classes = parse_php(
        "class Animal {\n\
         \x20   private static int $count = 0;\n\
         \x20   protected string $name;\n\
         \x20   public Person $owner;\n\
         }\n",
    );

    let animal = find(&classes, "Animal");
    let count = animal.fields.iter().find(|f| f.name == "count").unwrap();
    assert_eq!(count.visibility, Visibility::Private);
    assert!(count.is_static);

    let name = animal.fields.iter().find(|f| f.name == "name").unwrap();
    assert_eq!(name.visibility, Visibility::Protected);

    let owner = animal.fields.iter().find(|f| f.name == "owner").unwrap();
    assert_eq!(owner.type_text, "Person");
}

#[test]
fn enum_cases_become_fields() {
    let classes = parse_php("enum Color {\n    case Red;\n    case Green;\n}\n");
    let color = find(&classes, "Color");
    assert_eq!(color.kind, ClassKind::Enum);
    let names: Vec<_> = color.fields.iter().map(|f| f.name.as_str()).collect();
    assert_eq!(names, vec!["Red", "Green"]);
}

#[test]
fn interface_declaration() {
    let classes = parse_php("interface Shape {\n    public function area(): float;\n}\n");
    let shape = find(&classes, "Shape");
    assert_eq!(shape.kind, ClassKind::Interface);
    assert!(shape.methods[0].is_abstract);
}

#[test]
fn constructor_property_promotion_becomes_fields() {
    let classes = parse_php(
        "class Person {\n\
         \x20   public function __construct(private readonly string $id, public int $age = 1) {}\n\
         }\n",
    );

    let person = find(&classes, "Person");
    let id = person.fields.iter().find(|f| f.name == "id").unwrap();
    assert_eq!(id.visibility, Visibility::Private);
    assert_eq!(id.type_text, "string");

    let age = person.fields.iter().find(|f| f.name == "age").unwrap();
    assert_eq!(age.visibility, Visibility::Public);
    assert_eq!(age.type_text, "int");

    assert!(person.methods.iter().any(|m| m.name == "__construct"));
}

#[test]
fn eloquent_has_many_becomes_collection_field() {
    let classes = parse_php(
        "class User extends Model {\n\
         \x20   public function posts() {\n\
         \x20       return $this->hasMany(Post::class);\n\
         \x20   }\n\
         }\n",
    );

    let user = find(&classes, "User");
    let posts = user.fields.iter().find(|f| f.name == "posts").unwrap();
    assert_eq!(posts.type_text, "Post[]");
}

#[test]
fn eloquent_belongs_to_becomes_single_field() {
    let classes = parse_php(
        "class Post extends Model {\n\
         \x20   public function author() {\n\
         \x20       return $this->belongsTo(User::class, 'author_id');\n\
         \x20   }\n\
         }\n",
    );

    let post = find(&classes, "Post");
    let author = post.fields.iter().find(|f| f.name == "author").unwrap();
    assert_eq!(author.type_text, "User");
}

#[test]
fn non_eloquent_method_does_not_synthesize_a_field() {
    let classes = parse_php(
        "class Calculator {\n\
         \x20   public function add($a, $b) {\n\
         \x20       return $a + $b;\n\
         \x20   }\n\
         }\n",
    );

    let calculator = find(&classes, "Calculator");
    assert!(calculator.fields.is_empty());
}

#[test]
fn eloquent_relation_feeds_into_relationship_inference() {
    let classes = parse_php(
        "class User extends Model {\n\
         \x20   public function posts() {\n\
         \x20       return $this->hasMany(Post::class);\n\
         \x20   }\n\
         }\n\
         class Post extends Model {\n\
         }\n",
    );

    let diagram = build_diagram(classes);
    let rel = diagram
        .relationships
        .iter()
        .find(|r| r.from == "User" && r.to == "Post")
        .expect("expected a User -> Post relationship from the Eloquent hasMany accessor");
    assert_eq!(rel.kind, RelationshipKind::Aggregation);
}

#[test]
fn field_and_method_lines_point_at_their_own_declaration() {
    let classes = parse_php(
        "class Animal {\n\
         \x20   protected string $name;\n\
         \n\
         \x20   public function speak(): string {\n\
         \x20       return $this->name;\n\
         \x20   }\n\
         }\n",
    );

    let animal = find(&classes, "Animal");
    let name = animal.fields.iter().find(|f| f.name == "name").unwrap();
    let speak = animal.methods.iter().find(|m| m.name == "speak").unwrap();

    // parse_php prepends a `<?php` line, so these are one-indexed from
    // there, not from the snippet above.
    assert_eq!(name.line, 3);
    assert_eq!(speak.line, 5);
}

#[test]
fn eloquent_relation_field_line_points_at_the_accessor_method() {
    let classes = parse_php(
        "class User extends Model {\n\
         \x20   public function posts() {\n\
         \x20       return $this->hasMany(Post::class);\n\
         \x20   }\n\
         }\n",
    );

    let user = find(&classes, "User");
    let posts = user.fields.iter().find(|f| f.name == "posts").unwrap();
    assert_eq!(posts.line, 3);
}
