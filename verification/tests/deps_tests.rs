use di::constructed::Instance;
use di::payload::{Payload, PayloadCtor};
use di::scope::{Scope, ScopeChild};
use di::Deps;

const UNIT: u64 = 0;
const KA: u64 = 1;
const KB: u64 = 2;
const KC: u64 = 3;
const KLIST: u64 = 4;

fn new_deps() -> Deps<Payload, PayloadCtor> {
    Deps::new(UNIT)
}

fn text(s: &str) -> Payload {
    Payload::Text(s.to_string())
}

fn append(suffix: &str) -> PayloadCtor {
    PayloadCtor::AppendSuffix {
        suffix: suffix.to_string(),
    }
}

fn replace(t: &str) -> PayloadCtor {
    PayloadCtor::ReplaceText { text: t.to_string() }
}

fn push(t: &str) -> PayloadCtor {
    PayloadCtor::PushText { text: t.to_string() }
}

/// The text of an `Owned` text child, if any, at `idx` among the owned
/// children of the scope.
fn owned_texts(scope: &Scope<Payload>) -> Vec<String> {
    let mut out = Vec::new();
    for child in scope.childs().iter() {
        if let ScopeChild::Owned(Payload::Text(s)) = child {
            out.push(s.clone());
        }
    }
    out
}

/// Every owned list child of the scope, each list concatenated to one
/// string.
fn owned_lists_concat(scope: &Scope<Payload>) -> Vec<String> {
    let mut out = Vec::new();
    for child in scope.childs().iter() {
        if let ScopeChild::Owned(Payload::List(l)) = child {
            out.push(l.concat());
        }
    }
    out
}

fn lock_text(scope: &Scope<Payload>, deps: &Deps<Payload, PayloadCtor>) -> String {
    match scope.lock(deps).unwrap().value() {
        Payload::Text(s) => s.clone(),
        _ => panic!("expected a text value"),
    }
}

#[test]
fn deps_creates_dependency() {
    let mut deps = new_deps();
    deps.attach(KA, KB, append("+B"));

    let a = deps.create(KA, text("Hello")).unwrap();

    assert_eq!(owned_texts(&a), vec!["Hello+B".to_string()]);
}

#[test]
fn deps_creates_dependency_of_dependency() {
    let mut deps = new_deps();
    deps.attach(KA, KB, append("+B"));
    deps.attach(KB, KC, append("+C"));

    let a = deps.create(KA, text("Hello")).unwrap();

    // Dependents are listed in teardown order, deepest first.
    assert_eq!(
        owned_texts(&a),
        vec!["Hello+B+C".to_string(), "Hello+B".to_string()]
    );
}

#[test]
fn deps_creates_mutable_dependency() {
    let mut deps = new_deps();
    deps.attach(KA, UNIT, replace("Hi!"));

    let a = deps.create(KA, text("Hello")).unwrap();

    assert_eq!("Hi!", lock_text(&a, &deps));
}

#[test]
fn bridge_dependency() {
    let mut deps = new_deps();

    deps.bridge(KA, KB, KLIST, PayloadCtor::ConcatPair);

    // Bind to created A and modify the value from "Hello" to "Hi".
    deps.attach(KA, UNIT, replace("Hi"));

    // Attach to the bridged list and append "Nice" to it.
    deps.attach(KLIST, UNIT, push("Nice"));

    // Create both instigators and the result should appear.
    let a = deps.create(KA, text("Hello")).unwrap();
    let b = deps.create(KB, text("World")).unwrap();

    assert_eq!("Hi", lock_text(&a, &deps));
    assert_eq!("World", lock_text(&b, &deps));

    assert_eq!(owned_lists_concat(&b), vec!["HiWorldNice".to_string()]);

    let c = deps.create(KB, text("Rust")).unwrap();

    assert_eq!("Rust", lock_text(&c, &deps));

    // The new instance pairs against the existing A("Hi") without
    // re-triggering the first pair.
    assert_eq!(owned_lists_concat(&c), vec!["HiRustNice".to_string()]);
    assert_eq!(owned_lists_concat(&b), vec!["HiWorldNice".to_string()]);
}

#[test]
fn on_creates_dependency() {
    let mut deps = new_deps();
    deps.attach(KA, KB, append("+B"));

    deps.create(KA, text("Hello")).map(|scope| {
        assert_eq!(owned_texts(&scope), vec!["Hello+B".to_string()]);
    })
    .unwrap();
}

#[test]
fn on_creates_dependency_of_dependency() {
    let mut deps = new_deps();
    deps.attach(KA, KB, append("+B"));
    deps.attach(KB, KC, append("+C"));

    let a = deps.create(KA, text("Hello")).unwrap();

    assert!(owned_texts(&a).contains(&"Hello+B+C".to_string()));
}

#[test]
fn on_creates_mutable_dependency() {
    let mut deps = new_deps();
    deps.attach(KA, UNIT, replace("Hi!"));

    let a = deps.create(KA, text("Hello")).unwrap();

    assert_eq!("Hi!", lock_text(&a, &deps));
}

#[test]
fn when_ready_mutation_is_visible() {
    let mut deps = new_deps();
    deps.when_ready(KA, replace("Hi!"));

    let a = deps.create(KA, text("Hello")).unwrap();

    assert_eq!("Hi!", lock_text(&a, &deps));
}

#[test]
fn explode_returns_original_value() {
    let mut deps = new_deps();

    let scope = deps.create(KA, text("Hello")).unwrap();
    assert!(matches!(scope.get_instance(), Instance::Isolated(_)));

    match scope.explode(&mut deps) {
        Payload::Text(s) => assert_eq!("Hello", s),
        _ => panic!("expected a text value"),
    }
}

#[test]
fn explode_shared_after_children_released() {
    let mut deps = new_deps();
    deps.bridge(KA, KB, KLIST, PayloadCtor::ConcatPair);

    let a = deps.create(KA, text("Hello")).unwrap();
    assert!(matches!(scope_instance(&a), Instance::Shared(_)));

    match a.explode(&mut deps) {
        Payload::Text(s) => assert_eq!("Hello", s),
        _ => panic!("expected a text value"),
    }
}

fn scope_instance<'a>(s: &'a Scope<Payload>) -> &'a Instance<Payload> {
    s.get_instance()
}

#[test]
fn constructor_failure_is_returned() {
    let mut deps = new_deps();
    deps.attach(KA, UNIT, PayloadCtor::FailWith {
        message: "boom".to_string(),
    });

    let err = deps.create(KA, text("Hello")).unwrap_err();
    assert_eq!("boom", err.message);
}

#[test]
fn hook_failure_is_returned() {
    let mut deps = new_deps();
    deps.when_ready(KA, PayloadCtor::FailWith {
        message: "late boom".to_string(),
    });

    let err = deps.create(KA, text("Hello")).unwrap_err();
    assert_eq!("late boom", err.message);
}

#[test]
fn wrong_shape_is_rejected() {
    let mut deps = new_deps();
    deps.attach(KA, KB, append("+B"));

    let err = deps.create(KA, Payload::Unit).unwrap_err();
    assert_eq!("expected a text value", err.message);
}

#[test]
fn cyclic_registrations_exhaust_depth() {
    let mut deps = new_deps();
    deps.attach(KA, KB, append("+B"));
    deps.attach(KB, KA, append("+A"));

    assert!(deps.create(KA, text("seed")).is_err());
}

#[test]
fn collectable_items_are_collected() {
    let mut deps = new_deps();
    deps.collectable(KLIST, push("5"));
    deps.collectable(KLIST, push("13"));

    match deps.collect(KLIST, Payload::List(Vec::new())).unwrap() {
        Payload::List(l) => assert_eq!(l, vec!["5".to_string(), "13".to_string()]),
        _ => panic!("expected a list value"),
    }
}

#[test]
fn bridge_failure_aborts_creation() {
    let mut deps = new_deps();
    deps.bridge(KA, KB, KLIST, PayloadCtor::FailWith {
        message: "no pairing".to_string(),
    });

    // The first instance has nothing to pair against, so it succeeds.
    let _a = deps.create(KA, text("Hello")).unwrap();

    // The second one is paired against it and the bridge fails.
    let err = deps.create(KB, text("World")).unwrap_err();
    assert_eq!("no pairing", err.message);
}
