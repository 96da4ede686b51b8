//! Tests of the placeholder renderer and of the binding map.

use promodoc::render::Bindings;
use promodoc::render::RenderError;
use promodoc::render::render;

fn sample_bindings() -> Bindings {
    let mut b = Bindings::new();
    b.insert("instance".to_string(), "prod1".to_string());
    b.insert("source".to_string(), "dev".to_string());
    b.insert("destination".to_string(), "stage".to_string());
    b
}

#[test]
fn test_render_substitutes_placeholders() {
    let b = sample_bindings();
    let line = render("# {instance}: {source}->{destination}", &b).unwrap();
    assert_eq!(line, "# prod1: dev->stage");
}

#[test]
fn test_render_plain_text_unchanged() {
    let b = sample_bindings();
    assert_eq!(render("no placeholders here", &b).unwrap(), "no placeholders here");
    assert_eq!(render("", &b).unwrap(), "");
}

#[test]
fn test_render_is_idempotent_on_identical_bindings() {
    let b = sample_bindings();
    let first = render("{instance} {source} {destination} {instance}", &b).unwrap();
    let second = render("{instance} {source} {destination} {instance}", &b).unwrap();
    assert_eq!(first, second);
}

#[test]
fn test_render_missing_binding() {
    let b = sample_bindings();
    let err = render("{instance} {cluster}", &b).unwrap_err();
    assert_eq!(err, RenderError::MissingBinding("cluster".to_string()));
}

#[test]
fn test_render_malformed_templates() {
    let b = sample_bindings();
    assert_eq!(render("{instance", &b).unwrap_err(), RenderError::MalformedTemplate);
    assert_eq!(render("instance}", &b).unwrap_err(), RenderError::MalformedTemplate);
    assert_eq!(render("{inst{ance}", &b).unwrap_err(), RenderError::MalformedTemplate);
}

#[test]
fn test_render_ignores_extra_keys() {
    let mut b = sample_bindings();
    b.insert("unused".to_string(), "whatever".to_string());
    assert_eq!(render("{instance}", &b).unwrap(), "prod1");
}

#[test]
fn test_bindings_later_insert_wins() {
    let mut b = Bindings::new();
    b.insert("targets".to_string(), "first".to_string());
    b.insert("targets".to_string(), "second".to_string());
    assert_eq!(render("{targets}", &b).unwrap(), "second");
}

#[test]
fn test_bindings_get() {
    let b = sample_bindings();
    assert_eq!(b.get(&"source".to_string()), Some(&"dev".to_string()));
    assert_eq!(b.get(&"targets".to_string()), None);
}
