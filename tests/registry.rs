use std::sync::Arc;

use arrow::datatypes::Schema;
use arrow::record_batch::RecordBatch;
use dq_compute::registry::ComputeRegistry;
use sqlparser::ast::Statement;
use sqlparser::dialect::GenericDialect;
use sqlparser::parser::Parser;

struct TableConfig {
    location: String,
}

struct StubEngine {
    label: &'static str,
    location: String,
}

impl StubEngine {
    fn select(&mut self, _statement: &Statement, files: Vec<String>) -> Vec<RecordBatch> {
        assert!(files.is_empty());
        vec![RecordBatch::new_empty(Arc::new(Schema::empty()))]
    }
}

struct StubFactory {
    label: &'static str,
}

impl StubFactory {
    fn create(&self, table: &TableConfig) -> StubEngine {
        StubEngine { label: self.label, location: table.location.clone() }
    }
}

fn table() -> TableConfig {
    TableConfig { location: "s3://bucket/table".to_string() }
}

fn statement() -> Statement {
    Parser::parse_sql(&GenericDialect {}, "SELECT 1").unwrap().remove(0)
}

#[test]
fn registered_stub_engine_selects_one_empty_batch() {
    let mut registry = ComputeRegistry::new();
    registry.register_compute_factory("mem", StubFactory { label: "stub" });
    let cfg = table();
    let engine = registry.create_compute_using_factory("mem", |f: &StubFactory| f.create(&cfg));
    let mut engine = engine.expect("a registered backend is present");
    assert_eq!(engine.label, "stub");
    assert_eq!(engine.location, "s3://bucket/table");
    let batches = engine.select(&statement(), Vec::new());
    assert_eq!(batches.len(), 1);
    assert_eq!(batches[0].num_rows(), 0);
}

#[test]
fn unregistered_backend_is_absent() {
    let mut registry = ComputeRegistry::new();
    let cfg = table();
    let engine = registry.create_compute_using_factory("ghost", |f: &StubFactory| f.create(&cfg));
    assert!(engine.is_none());
    registry.register_compute_factory("mem", StubFactory { label: "stub" });
    let engine = registry.create_compute_using_factory("ghost", |f: &StubFactory| f.create(&cfg));
    assert!(engine.is_none());
}

#[test]
fn absent_backend_never_calls_the_factory() {
    let registry: ComputeRegistry<StubFactory> = ComputeRegistry::new();
    let engine = registry.create_compute_using_factory("ghost", |_f: &StubFactory| -> StubEngine {
        panic!("no factory is registered under this name")
    });
    assert!(engine.is_none());
}

#[test]
fn second_registration_replaces_first() {
    let mut registry = ComputeRegistry::new();
    registry.register_compute_factory("mem", StubFactory { label: "A" });
    registry.register_compute_factory("mem", StubFactory { label: "B" });
    let cfg = table();
    let engine = registry.create_compute_using_factory("mem", |f: &StubFactory| f.create(&cfg));
    assert_eq!(engine.unwrap().label, "B");
}

#[test]
fn names_are_case_sensitive() {
    let mut registry = ComputeRegistry::new();
    registry.register_compute_factory("mem", StubFactory { label: "lower" });
    registry.register_compute_factory("MEM", StubFactory { label: "upper" });
    assert!(!registry.is_registered("Mem"));
    let cfg = table();
    let lower = registry.create_compute_using_factory("mem", |f: &StubFactory| f.create(&cfg));
    let upper = registry.create_compute_using_factory("MEM", |f: &StubFactory| f.create(&cfg));
    assert_eq!(lower.unwrap().label, "lower");
    assert_eq!(upper.unwrap().label, "upper");
}

#[test]
fn distinct_registrations_are_all_observable_in_any_order() {
    let names = ["duck", "fusion", "polars", "mem"];
    let mut forward = ComputeRegistry::new();
    for name in names.iter() {
        forward.register_compute_factory(name, StubFactory { label: name });
    }
    let mut backward = ComputeRegistry::new();
    for name in names.iter().rev() {
        backward.register_compute_factory(name, StubFactory { label: name });
    }
    let cfg = table();
    for name in names.iter() {
        let a = forward.create_compute_using_factory(name, |f: &StubFactory| f.create(&cfg));
        let b = backward.create_compute_using_factory(name, |f: &StubFactory| f.create(&cfg));
        assert_eq!(a.unwrap().label, *name);
        assert_eq!(b.unwrap().label, *name);
    }
}

#[test]
fn empty_registry_holds_no_name() {
    let registry: ComputeRegistry<StubFactory> = ComputeRegistry::new();
    assert!(!registry.is_registered("mem"));
    assert!(!registry.is_registered(""));
}

#[test]
fn registration_is_visible_through_is_registered() {
    let mut registry = ComputeRegistry::new();
    assert!(!registry.is_registered("mem"));
    registry.register_compute_factory("mem", StubFactory { label: "stub" });
    assert!(registry.is_registered("mem"));
    assert!(!registry.is_registered("me"));
    assert!(!registry.is_registered("memory"));
}

#[test]
fn factory_receives_the_callers_configuration() {
    let mut registry = ComputeRegistry::new();
    registry.register_compute_factory("mem", StubFactory { label: "stub" });
    let cfg = TableConfig { location: "/data/events.parquet".to_string() };
    let engine = registry.create_compute_using_factory("mem", |f: &StubFactory| f.create(&cfg));
    assert_eq!(engine.unwrap().location, "/data/events.parquet");
}
