use rust_engine::languages::csharp::{looks_like_interface_name, split_bases};
use rust_engine::languages::ecma::base_type_name;
use rust_engine::languages::php::strip_sigil;
use rust_engine::languages::python::{last_segment, visibility_of};
use rust_engine::model::Visibility;

fn strings(v: &[&str]) -> Vec<String> {
    v.iter().map(|s| s.to_string()).collect()
}

#[test]
fn interface_names_start_with_i_and_a_capital() {
    assert!(looks_like_interface_name("IShape"));
    assert!(looks_like_interface_name("IÉtat"));
    assert!(!looks_like_interface_name("Item"));
    assert!(!looks_like_interface_name("I"));
    assert!(!looks_like_interface_name(""));
    assert!(!looks_like_interface_name("Shape"));
}

#[test]
fn base_list_split_on_the_first_name() {
    assert_eq!(split_bases(vec![]), (vec![], vec![]));
    assert_eq!(
        split_bases(strings(&["Animal", "IMovable", "Other"])),
        (strings(&["Animal"]), strings(&["IMovable", "Other"]))
    );
    assert_eq!(split_bases(strings(&["IShape", "Animal"])), (vec![], strings(&["IShape", "Animal"])));
}

#[test]
fn base_type_name_cuts_type_arguments_and_calls() {
    assert_eq!(base_type_name("Base<T>"), "Base");
    assert_eq!(base_type_name("  mixin(Base) "), "mixin");
    assert_eq!(base_type_name(" Plain "), "Plain");
    assert_eq!(base_type_name("<T>"), "");
}

#[test]
fn strip_sigil_removes_every_leading_dollar() {
    assert_eq!(strip_sigil("$name"), "name");
    assert_eq!(strip_sigil("$$x"), "x");
    assert_eq!(strip_sigil("plain$"), "plain$");
}

#[test]
fn python_visibility_follows_underscores() {
    assert_eq!(visibility_of("name"), Visibility::Public);
    assert_eq!(visibility_of("_owner"), Visibility::Protected);
    assert_eq!(visibility_of("__secret"), Visibility::Private);
    assert_eq!(visibility_of("__init__"), Visibility::Protected);
}

#[test]
fn last_segment_of_dotted_names() {
    assert_eq!(last_segment("abc.ABC"), "ABC");
    assert_eq!(last_segment("enum.IntEnum"), "IntEnum");
    assert_eq!(last_segment("Plain"), "Plain");
}
