//! The parameters of the process tools, as JSON schemas.

use crate::json::{Json, JsonModel, JsonObject, NumberModel};
use crate::text::str_eq;
use vstd::prelude::*;

verus! {

/// A JSON integer.
pub open spec fn number(n: int) -> JsonModel {
    JsonModel::Number(NumberModel::Integer(n))
}

/// The schema of a value of a basic type.
pub open spec fn typed(kind: Seq<char>) -> Map<Seq<char>, JsonModel> {
    Map::<Seq<char>, JsonModel>::empty().insert("type"@, JsonModel::String(kind))
}

/// The schema of a string that is not empty.
pub open spec fn filled_string() -> JsonModel {
    JsonModel::Object(typed("string"@).insert("minLength"@, number(1)))
}

/// The schema of a switch that is off unless it is set.
pub open spec fn switch() -> JsonModel {
    JsonModel::Object(typed("boolean"@).insert("default"@, JsonModel::Bool(false)))
}

/// The schema of an integer that is not negative.
pub open spec fn natural() -> JsonModel {
    JsonModel::Object(typed("integer"@).insert("minimum"@, number(0)))
}

/// The schema of an integer from zero to a maximum.
pub open spec fn natural_up_to(maximum: int) -> JsonModel {
    JsonModel::Object(
        typed("integer"@).insert("minimum"@, number(0)).insert("maximum"@, number(maximum)),
    )
}

/// The schema of an object that takes no properties but those that are named.
pub open spec fn closed_object() -> Map<Seq<char>, JsonModel> {
    typed("object"@).insert("additionalProperties"@, JsonModel::Bool(false))
}

/// The schema of an object with the given properties, some of them required.
pub open spec fn object_schema(
    properties: Map<Seq<char>, JsonModel>,
    required: Seq<Seq<char>>,
) -> JsonModel {
    JsonModel::Object(
        closed_object().insert("properties"@, JsonModel::Object(properties)).insert(
            "required"@,
            JsonModel::Array(required.map_values(|key: Seq<char>| JsonModel::String(key))),
        ),
    )
}

/// The parameters of a tool that starts a process.
pub open spec fn start_schema() -> JsonModel {
    object_schema(
        Map::<Seq<char>, JsonModel>::empty().insert("command"@, filled_string()).insert(
            "cwd"@,
            JsonModel::Object(typed("string"@)),
        ).insert("timeout"@, natural()).insert("background"@, switch()),
        seq!["command"@],
    )
}

/// The parameters of the tool that reads output.
pub open spec fn get_output_schema() -> JsonModel {
    object_schema(
        Map::<Seq<char>, JsonModel>::empty().insert("process_id"@, filled_string()).insert(
            "stdout_offset"@,
            natural(),
        ).insert("stderr_offset"@, natural()).insert("wait_ms"@, natural_up_to(30000)),
        seq!["process_id"@],
    )
}

/// The parameters of the tool that writes input.
pub open spec fn write_schema() -> JsonModel {
    object_schema(
        Map::<Seq<char>, JsonModel>::empty().insert("process_id"@, filled_string()).insert(
            "input"@,
            JsonModel::Object(typed("string"@)),
        ).insert("close_stdin"@, switch()),
        seq!["process_id"@, "input"@],
    )
}

/// The parameters of the tool that kills a process.
pub open spec fn kill_schema() -> JsonModel {
    object_schema(
        Map::<Seq<char>, JsonModel>::empty().insert("process_id"@, filled_string()).insert(
            "grace_period_ms"@,
            natural_up_to(5000),
        ),
        seq!["process_id"@],
    )
}

/// The parameters of a tool.
pub open spec fn schema_model(name: Seq<char>) -> JsonModel {
    if name == "exec"@ || name == "shell_command"@ {
        start_schema()
    } else if name == "get_output"@ {
        get_output_schema()
    } else if name == "write_to_process"@ {
        write_schema()
    } else if name == "kill_shell"@ {
        kill_schema()
    } else {
        JsonModel::Object(closed_object())
    }
}

/// The schema of a value of a basic type, to be added to.
fn build_typed(kind: &str) -> (r: JsonObject)
    ensures
        r.well_formed(),
        r@ == typed(kind@),
{
    JsonObject::new().with("type", Json::text(kind))
}

/// The schema of a string that is not empty.
fn build_filled_string() -> (r: Json)
    ensures
        r.well_formed(),
        r.model() == filled_string(),
{
    build_typed("string").with("minLength", Json::unsigned(1)).build()
}

/// The schema of a switch that is off unless it is set.
fn build_switch() -> (r: Json)
    ensures
        r.well_formed(),
        r.model() == switch(),
{
    build_typed("boolean").with("default", Json::Bool(false)).build()
}

/// The schema of an integer that is not negative.
fn build_natural() -> (r: Json)
    ensures
        r.well_formed(),
        r.model() == natural(),
{
    build_typed("integer").with("minimum", Json::unsigned(0)).build()
}

/// The schema of an integer from zero to a maximum.
fn build_natural_up_to(maximum: u64) -> (r: Json)
    ensures
        r.well_formed(),
        r.model() == natural_up_to(maximum as int),
{
    build_typed("integer").with("minimum", Json::unsigned(0)).with(
        "maximum",
        Json::unsigned(maximum),
    ).build()
}

/// The schema of an object that takes no properties but those that are named.
fn build_closed_object() -> (r: JsonObject)
    ensures
        r.well_formed(),
        r@ == closed_object(),
{
    build_typed("object").with("additionalProperties", Json::Bool(false))
}

/// The schema of an object with the given properties, some of them required.
fn build_object_schema(properties: JsonObject, required: Vec<String>) -> (r: Json)
    requires
        properties.well_formed(),
    ensures
        r.well_formed(),
        r.model() == object_schema(properties@, required.deep_view()),
{
    build_closed_object().with("properties", properties.build()).with(
        "required",
        Json::text_array(&required),
    ).build()
}

/// The parameters of a tool, as a JSON schema; a tool that is none of these takes no
/// parameters.
#[must_use]
pub fn process_tool_schema(name: &str) -> (r: Json)
    ensures
        r.well_formed(),
        r.model() == schema_model(name@),
{
    if str_eq(name, "exec") || str_eq(name, "shell_command") {
        let properties: JsonObject = JsonObject::new().with("command", build_filled_string()).with(
            "cwd",
            build_typed("string").build(),
        ).with("timeout", build_natural()).with("background", build_switch());
        let required: Vec<String> = vec!["command".to_owned()];
        assert(required.deep_view() == seq!["command"@]);
        build_object_schema(properties, required)
    } else if str_eq(name, "get_output") {
        let properties: JsonObject = JsonObject::new().with(
            "process_id",
            build_filled_string(),
        ).with("stdout_offset", build_natural()).with("stderr_offset", build_natural()).with(
            "wait_ms",
            build_natural_up_to(30000),
        );
        let required: Vec<String> = vec!["process_id".to_owned()];
        assert(required.deep_view() == seq!["process_id"@]);
        build_object_schema(properties, required)
    } else if str_eq(name, "write_to_process") {
        let properties: JsonObject = JsonObject::new().with(
            "process_id",
            build_filled_string(),
        ).with("input", build_typed("string").build()).with("close_stdin", build_switch());
        let required: Vec<String> = vec!["process_id".to_owned(), "input".to_owned()];
        assert(required.deep_view() == seq!["process_id"@, "input"@]);
        build_object_schema(properties, required)
    } else if str_eq(name, "kill_shell") {
        let properties: JsonObject = JsonObject::new().with(
            "process_id",
            build_filled_string(),
        ).with("grace_period_ms", build_natural_up_to(5000));
        let required: Vec<String> = vec!["process_id".to_owned()];
        assert(required.deep_view() == seq!["process_id"@]);
        build_object_schema(properties, required)
    } else {
        build_closed_object().build()
    }
}

} // verus!
