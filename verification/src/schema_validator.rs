//! Structural validation: four JSON Schemas, one per validation target,
//! compiled once at construction and checked against provider replies.
//! The schema compiler and checker are outside capabilities; what they decide
//! is named, and everything downstream is proved against those names.

use vstd::prelude::*;

verus! {

/// Which of the four supported target shapes a structuring call is validated
/// against.  Chosen by the caller per request, immutable during one call.
#[derive(Clone, Copy, Debug, PartialEq, Eq, Structural)]
pub enum ValidationTarget {
    Concept,
    Entity,
    Scenario,
    Algorithm,
}

/// The structural schema for concept graphs (configuration content).
pub const CONCEPT_SCHEMA: &'static str = r#"{
  "title": "concept_graph",
  "type": "object",
  "required": ["nodes", "edges"],
  "additionalProperties": false,
  "properties": {
    "nodes": {
      "type": "array",
      "items": {
        "type": "object",
        "required": ["id", "label", "kind", "properties"],
        "additionalProperties": false,
        "properties": {
          "id": { "type": "string" },
          "label": { "type": "string" },
          "kind": { "type": "string", "enum": ["CONCEPT", "ENTITY", "SCENARIO", "ALGORITHM_STEP"] },
          "properties": {
            "type": "array",
            "items": {
              "type": "object",
              "required": ["key", "value"],
              "additionalProperties": false,
              "properties": {
                "key": { "type": "string" },
                "value": { "type": "string" }
              }
            }
          }
        }
      }
    },
    "edges": {
      "type": "array",
      "items": {
        "type": "object",
        "required": ["source_id", "target_id", "kind"],
        "additionalProperties": false,
        "properties": {
          "source_id": { "type": "string" },
          "target_id": { "type": "string" },
          "kind": { "type": "string", "enum": ["INFLUENCES", "DEPENDS_ON", "ADJACENT", "CONTAINS", "RELATES"] }
        }
      }
    }
  }
}"#;

/// The structural schema for entity scenes (configuration content).
pub const ENTITY_SCHEMA: &'static str = r#"{
  "title": "entity_scene",
  "type": "object",
  "required": ["nodes", "edges"],
  "additionalProperties": false,
  "properties": {
    "nodes": {
      "type": "array",
      "items": {
        "type": "object",
        "required": ["id", "label", "kind", "properties"],
        "additionalProperties": false,
        "properties": {
          "id": { "type": "string" },
          "label": { "type": "string" },
          "kind": { "type": "string", "enum": ["CONCEPT", "ENTITY", "SCENARIO", "ALGORITHM_STEP"] },
          "properties": {
            "type": "array",
            "items": {
              "type": "object",
              "required": ["key", "value"],
              "additionalProperties": false,
              "properties": {
                "key": { "type": "string" },
                "value": { "type": "string" }
              }
            }
          }
        }
      }
    },
    "edges": {
      "type": "array",
      "items": {
        "type": "object",
        "required": ["source_id", "target_id", "kind"],
        "additionalProperties": false,
        "properties": {
          "source_id": { "type": "string" },
          "target_id": { "type": "string" },
          "kind": { "type": "string", "enum": ["INFLUENCES", "DEPENDS_ON", "ADJACENT", "CONTAINS", "RELATES"] }
        }
      }
    }
  }
}"#;

/// The structural schema for scenario graphs (configuration content).
pub const SCENARIO_SCHEMA: &'static str = r#"{
  "title": "scenario",
  "type": "object",
  "required": ["nodes", "edges"],
  "additionalProperties": false,
  "properties": {
    "nodes": {
      "type": "array",
      "items": {
        "type": "object",
        "required": ["id", "label", "kind", "properties"],
        "additionalProperties": false,
        "properties": {
          "id": { "type": "string" },
          "label": { "type": "string" },
          "kind": { "type": "string", "enum": ["CONCEPT", "ENTITY", "SCENARIO", "ALGORITHM_STEP"] },
          "properties": {
            "type": "array",
            "items": {
              "type": "object",
              "required": ["key", "value"],
              "additionalProperties": false,
              "properties": {
                "key": { "type": "string" },
                "value": { "type": "string" }
              }
            }
          }
        }
      }
    },
    "edges": {
      "type": "array",
      "items": {
        "type": "object",
        "required": ["source_id", "target_id", "kind"],
        "additionalProperties": false,
        "properties": {
          "source_id": { "type": "string" },
          "target_id": { "type": "string" },
          "kind": { "type": "string", "enum": ["INFLUENCES", "DEPENDS_ON", "ADJACENT", "CONTAINS", "RELATES"] }
        }
      }
    }
  }
}"#;

/// The structural schema for algorithm pipelines (configuration content).
pub const ALGORITHM_SCHEMA: &'static str = r#"{
  "title": "algorithm_pipeline",
  "type": "object",
  "required": ["nodes", "edges"],
  "additionalProperties": false,
  "properties": {
    "nodes": {
      "type": "array",
      "items": {
        "type": "object",
        "required": ["id", "label", "kind", "properties"],
        "additionalProperties": false,
        "properties": {
          "id": { "type": "string" },
          "label": { "type": "string" },
          "kind": { "type": "string", "enum": ["CONCEPT", "ENTITY", "SCENARIO", "ALGORITHM_STEP"] },
          "properties": {
            "type": "array",
            "items": {
              "type": "object",
              "required": ["key", "value"],
              "additionalProperties": false,
              "properties": {
                "key": { "type": "string" },
                "value": { "type": "string" }
              }
            }
          }
        }
      }
    },
    "edges": {
      "type": "array",
      "items": {
        "type": "object",
        "required": ["source_id", "target_id", "kind"],
        "additionalProperties": false,
        "properties": {
          "source_id": { "type": "string" },
          "target_id": { "type": "string" },
          "kind": { "type": "string", "enum": ["INFLUENCES", "DEPENDS_ON", "ADJACENT", "CONTAINS", "RELATES"] }
        }
      }
    }
  }
}"#;

/// The schema text for one validation target.
pub open spec fn schema_text(target: ValidationTarget) -> Seq<char> {
    match target {
        ValidationTarget::Concept => CONCEPT_SCHEMA@,
        ValidationTarget::Entity => ENTITY_SCHEMA@,
        ValidationTarget::Scenario => SCENARIO_SCHEMA@,
        ValidationTarget::Algorithm => ALGORITHM_SCHEMA@,
    }
}

/// The validation target a wire-level target code denotes, if any.  Code
/// zero is the unspecified value and is rejected, as are unknown codes.
pub open spec fn target_of_code(code: i32) -> Option<ValidationTarget> {
    if code == 1 {
        Some(ValidationTarget::Concept)
    } else if code == 2 {
        Some(ValidationTarget::Entity)
    } else if code == 3 {
        Some(ValidationTarget::Scenario)
    } else if code == 4 {
        Some(ValidationTarget::Algorithm)
    } else {
        None
    }
}

/// Decode a wire-level target code, rejecting unknown or unspecified values.
pub fn validation_target_from_code(code: i32) -> (r: Option<ValidationTarget>)
    ensures
        r == target_of_code(code),
{
    if code == 1 {
        Some(ValidationTarget::Concept)
    } else if code == 2 {
        Some(ValidationTarget::Entity)
    } else if code == 3 {
        Some(ValidationTarget::Scenario)
    } else if code == 4 {
        Some(ValidationTarget::Algorithm)
    } else {
        None
    }
}

/// One compiled schema of the outside schema library, held opaquely:
/// `jsonschema::Validator` cannot be declared to the verifier because its
/// generic bound is a trait of the outside crate, so the whole struct is
/// opaque and is only touched by the trusted items below.
#[verifier::external_body]
pub struct CompiledSchema {
    inner: jsonschema::Validator,
}

/// Whether a text is well-formed JSON, as serde_json's parser decides it.
/// The decision depends on the text alone.
pub uninterp spec fn json_parses(text: Seq<char>) -> bool;

/// Whether a schema text parses and compiles, as jsonschema's compiler
/// decides it.  The name is only applied to the four built-in schema texts:
/// they hold no external references, so for them the decision depends on the
/// text alone.
pub uninterp spec fn schema_compiles(text: Seq<char>) -> bool;

/// The diagnostic serde_json's parser reports for a text that is not
/// well-formed JSON (its message with the line and column of the failure):
/// a function of the text alone.
pub uninterp spec fn parse_diagnostic(text: Seq<char>) -> Seq<char>;

/// The first violation message (with its location) that the named target's
/// built-in schema reports on a JSON text, or nothing when the text conforms.
/// The verdict depends on the target and the text alone.
pub uninterp spec fn schema_verdict(target: ValidationTarget, text: Seq<char>) -> Option<Seq<char>>;

/// Relies on `serde_json::from_str` and `jsonschema::validator_for`.  The
/// compiler resolves external schema references through its retriever, so
/// compile outcomes are a function of the text alone only for texts without
/// references; the built-in schema texts have none, and the `requires`
/// admits exactly those.
#[verifier::external_body]
fn compile_schema(text: &str) -> (r: Result<CompiledSchema, String>)
    requires
        text@ == CONCEPT_SCHEMA@ || text@ == ENTITY_SCHEMA@ || text@ == SCENARIO_SCHEMA@
            || text@ == ALGORITHM_SCHEMA@,
    ensures
        r.is_ok() == schema_compiles(text@),
{
    let value: serde_json::Value = match serde_json::from_str(text) {
        Ok(v) => v,
        Err(e) => {
            return Err(e.to_string());
        },
    };
    match jsonschema::validator_for(&value) {
        Ok(v) => Ok(CompiledSchema { inner: v }),
        Err(e) => Err(e.to_string()),
    }
}

/// Outcome of parsing a text as JSON and checking it against one target's
/// schema.
pub enum SchemaCheck {
    /// The text parses and conforms to the schema.
    Passed,
    /// The text is not well-formed JSON; carries the parser's diagnostic.
    BadJson(String),
    /// The text parses but violates the schema; carries the first violation
    /// with its location.
    Violation(String),
}

/// Compiles one structural schema per validation target, once; read-only and
/// shareable after construction.
pub struct SchemaValidator {
    concept: CompiledSchema,
    entity: CompiledSchema,
    scenario: CompiledSchema,
    algorithm: CompiledSchema,
}

impl SchemaValidator {
    /// Compile the four built-in schema texts.  Failure is a configuration
    /// error: the caller should treat it as fatal.
    pub fn new() -> (r: Result<SchemaValidator, String>)
        ensures
            r.is_ok() == (schema_compiles(CONCEPT_SCHEMA@) && schema_compiles(ENTITY_SCHEMA@)
                && schema_compiles(SCENARIO_SCHEMA@) && schema_compiles(ALGORITHM_SCHEMA@)),
    {
        let concept = match compile_schema(CONCEPT_SCHEMA) {
            Ok(v) => v,
            Err(e) => {
                return Err(e);
            },
        };
        let entity = match compile_schema(ENTITY_SCHEMA) {
            Ok(v) => v,
            Err(e) => {
                return Err(e);
            },
        };
        let scenario = match compile_schema(SCENARIO_SCHEMA) {
            Ok(v) => v,
            Err(e) => {
                return Err(e);
            },
        };
        let algorithm = match compile_schema(ALGORITHM_SCHEMA) {
            Ok(v) => v,
            Err(e) => {
                return Err(e);
            },
        };
        Ok(SchemaValidator { concept, entity, scenario, algorithm })
    }

    /// Relies on `serde_json::from_str` and `jsonschema::Validator::validate`:
    /// whether a text parses as JSON, and the first violation a compiled
    /// schema reports on it, depend on the schema and the text alone.  Every
    /// `SchemaValidator` is built by `new` from the four built-in schema
    /// texts, so the verdict is named by target.
    #[verifier::external_body]
    pub(crate) fn check_text(&self, text: &str, target: ValidationTarget) -> (r: SchemaCheck)
        ensures
            match r {
                SchemaCheck::Passed => json_parses(text@) && schema_verdict(target, text@) is None,
                SchemaCheck::BadJson(m) => !json_parses(text@) && m@ == parse_diagnostic(text@),
                SchemaCheck::Violation(m) => json_parses(text@) && schema_verdict(target, text@)
                    == Some(m@),
            },
    {
        let value: serde_json::Value = match serde_json::from_str(text) {
            Ok(v) => v,
            Err(e) => return SchemaCheck::BadJson(e.to_string()),
        };
        let schema = match target {
            ValidationTarget::Concept => &self.concept,
            ValidationTarget::Entity => &self.entity,
            ValidationTarget::Scenario => &self.scenario,
            ValidationTarget::Algorithm => &self.algorithm,
        };
        match schema.inner.validate(&value) {
            Ok(()) => SchemaCheck::Passed,
            Err(e) => SchemaCheck::Violation(format!("{} at {}", e, e.instance_path())),
        }
    }

    /// Check a JSON text against the target's schema: `Ok` exactly when the
    /// text parses as JSON and conforms; otherwise the parser's diagnostic or
    /// the first violation.
    pub fn validate(&self, json_text: &str, target: &ValidationTarget) -> (r: Result<(), String>)
        ensures
            r.is_ok() == (json_parses(json_text@) && schema_verdict(*target, json_text@) is None),
            (json_parses(json_text@) && schema_verdict(*target, json_text@) is Some) ==> (match r {
                Err(m) => Some(m@) == schema_verdict(*target, json_text@),
                Ok(_) => false,
            }),
            !json_parses(json_text@) ==> (match r {
                Err(m) => m@ == parse_diagnostic(json_text@),
                Ok(_) => false,
            }),
    {
        match self.check_text(json_text, *target) {
            SchemaCheck::Passed => Ok(()),
            SchemaCheck::BadJson(m) => Err(m),
            SchemaCheck::Violation(m) => Err(m),
        }
    }
}

} // verus!
