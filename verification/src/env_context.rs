//! The `capture-env` context: the value of one environment variable.

use vstd::prelude::*;
use crate::hook::CapsulaError;
use crate::json::{JView, JsonValue};
use crate::text::copy_string;

verus! {

/// The id under which the context is configured.
pub const KEY: &'static str = "capture-env";

/// The context reading one variable.
#[derive(Debug)]
pub struct EnvVarContext {
    pub name: String,
}

/// What the context captures: the variable and its value, if it is set.
#[derive(Debug)]
pub struct EnvVarCaptured {
    pub name: String,
    pub value: Option<String>,
}

/// Makes `capture-env` contexts.
#[derive(Debug, Clone, Copy, Default)]
pub struct EnvVarContextFactory;

/// The factory of `capture-env` contexts.
pub fn create_factory() -> (f: EnvVarContextFactory) {
    EnvVarContextFactory
}

impl EnvVarContextFactory {
    /// The id under which the factory's contexts are configured.
    pub fn key(&self) -> (r: &'static str)
        ensures
            r@ == "capture-env"@,
    {
        KEY
    }

    /// The context reading the variable `name`.
    pub fn create_context(&self, name: String) -> (c: EnvVarContext)
        ensures
            c.name == name,
    {
        EnvVarContext { name }
    }
}

impl EnvVarContext {
    /// The capture, given the variable's value (`None` when it is not set
    /// or not valid Unicode). It always succeeds.
    pub fn run(&self, value: Option<String>) -> (r: Result<EnvVarCaptured, CapsulaError>)
        ensures
            r matches Ok(c) && c.name@ == self.name@ && c.value == value,
    {
        Ok(EnvVarCaptured { name: copy_string(self.name.as_str()), value })
    }
}

impl EnvVarCaptured {
    /// The capture as JSON: `{"id": "capture-env", "name": .., "value": ..}`,
    /// the value `null` when the variable is not set.
    pub fn to_json(&self) -> (r: JsonValue)
        ensures
            r@ == JView::Object(
                seq![
                    ("id"@, JView::Str("capture-env"@)),
                    ("name"@, JView::Str(self.name@)),
                    ("value"@, match self.value {
                        Some(v) => JView::Str(v@),
                        None => JView::Null,
                    }),
                ],
            ),
    {
        let v = match &self.value {
            Some(s) => JsonValue::String(copy_string(s.as_str())),
            None => JsonValue::Null,
        };
        let mut entries: Vec<(String, JsonValue)> = Vec::new();
        entries.push((copy_string("id"), JsonValue::String(copy_string(KEY))));
        entries.push((copy_string("name"), JsonValue::String(copy_string(self.name.as_str()))));
        entries.push((copy_string("value"), v));
        let r = JsonValue::Object(entries);
        proof {
            crate::json::lemma_object_view(entries);
            assert(crate::json::entries_view(entries@) =~= seq![
                ("id"@, JView::Str("capture-env"@)),
                ("name"@, JView::Str(self.name@)),
                ("value"@, match self.value {
                    Some(v) => JView::Str(v@),
                    None => JView::Null,
                }),
            ]);
        }
        r
    }
}

} // verus!
