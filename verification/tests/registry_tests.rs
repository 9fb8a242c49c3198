use di::definition::TypeDef;
use di::getter::{ConstGetter, GetterWrap};
use di::registry::argument_builder::ArgumentBuilder;
use di::registry::definition_candidate::DefinitionCandidateKey;
use di::registry::error::{CircularDependency, DependenciesNotFound};
use di::registry::getter_err::{
    ArgCountMismatchErr, ArgTypeErr, DefinitionTypeErr, GetterErr, GetterErrKind, GetterTypeErr,
};

fn int_type() -> TypeDef {
    TypeDef::new(7, "int".to_string())
}

fn text_type() -> TypeDef {
    TypeDef::new(8, "text".to_string())
}

#[test]
fn typedef_identifies_types() {
    let t = int_type();
    assert!(t.is(7));
    assert!(!t.is(8));
    assert_eq!("int", t.get_name());
}

#[test]
fn not_found_message() {
    let e = GetterErr::new(GetterErrKind::NotFound, "something");
    assert_eq!("Definition \"something\" was not found.", e.to_string());
}

#[test]
fn arg_not_found_message() {
    let e = GetterErr::new(GetterErrKind::NotFound, "reason");
    let e = e.to_arg_error("miracle");
    assert_eq!(
        "Definition \"miracle\" requires \"reason\", but it was not found.",
        e.to_string()
    );
}

#[test]
fn definition_type_mismatch_message() {
    let e = GetterErr::new(
        GetterErrKind::DefinitionTypeMismatch(DefinitionTypeErr::new(int_type(), text_type())),
        "something",
    );
    assert_eq!(
        "Expected \"something\" of \"int\" type, but type \"text\" found.",
        e.to_string()
    );
}

#[test]
fn arg_type_mismatch_message() {
    let inner = GetterErr::new(
        GetterErrKind::DefinitionTypeMismatch(DefinitionTypeErr::new(int_type(), text_type())),
        "result",
    );
    let e = inner.to_arg_error("something");
    assert_eq!(
        "Definition \"something\" requested \"result\" of \"int\" type, but type \"text\" found.",
        e.to_string()
    );
}

#[test]
fn getter_type_mismatch_message() {
    let e = GetterErr::new(
        GetterErrKind::GetterTypeMismatch(GetterTypeErr::new(int_type())),
        "something",
    );
    assert_eq!(
        "Definition \"something\" failed to return \"int\" getter.",
        e.to_string()
    );
}

#[test]
fn arg_count_mismatch_message() {
    let e = GetterErr::new(
        GetterErrKind::ArgCountMismatch(ArgCountMismatchErr::new(12, 305)),
        "something",
    );
    assert_eq!(
        "Definition \"something\" requires 12 args, but 305 specified.",
        e.to_string()
    );
}

#[test]
fn arg_type_err_carries_its_parts() {
    let e = ArgTypeErr::new("t", int_type(), text_type());
    assert_eq!("t", e.name);
    assert!(e.requested.is(7));
    assert!(e.found.is(8));
}

#[test]
fn argument_builder_gathers_sources() {
    let mut b = ArgumentBuilder::new();
    b.push_arg_source("one");
    b.push_arg_source("two");
    assert_eq!(b.arg_sources, vec!["one".to_string(), "two".to_string()]);

    b.set_arg_source("only");
    assert_eq!(b.arg_sources, vec!["only".to_string()]);

    let all = vec!["a".to_string(), "b".to_string()];
    b.set_arg_sources(&all);
    assert_eq!(b.arg_sources, all);
}

#[test]
fn candidate_key_and_errors_hold_their_parts() {
    let _k = DefinitionCandidateKey::new("a", Some("group"), "int");
    let c = CircularDependency::new(vec!["a".to_string(), "b".to_string()]);
    assert_eq!(c.path.len(), 2);
    let d = DependenciesNotFound::new("miracle", vec!["reason".to_string()]);
    assert_eq!("miracle", d.id);
    assert!(d.missing_dependencies.contains(&"reason".to_string()));
}

#[test]
fn getter_wrap_produces_values() {
    let g = GetterWrap::new(ConstGetter { value: 13i64 });
    let v: i64 = g.get();
    assert_eq!(13, v);
}
