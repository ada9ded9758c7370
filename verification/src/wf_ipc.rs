//! The messages of Wayfire's JSON IPC: commands as typed values, and the
//! envelope `{"method": .., "data": ..}` that carries each on the wire.

use vstd::prelude::*;

use crate::decimal::{decimal, signed_decimal};
use crate::error::WireError;
use crate::json::{lookup, members_model, position_of, Json, JsonValue};

verus! {

/// Position and size of a view.
#[derive(Debug, Clone, Copy, PartialEq, Eq)]
pub struct Geometry {
    pub x: i32,
    pub y: i32,
    pub width: u32,
    pub height: u32,
}

/// A command to the compositor.
#[derive(Debug, Clone, Copy, PartialEq, Eq)]
pub enum WayfireCommand {
    /// Wait for the next window-rule event.
    Watch,
    OutputInfo { id: i32 },
    ListViews,
    ConfigureView { id: i32, geometry: Geometry },
}

/// A command as it is sent: the method's name and its data.
#[derive(Debug, Clone, PartialEq)]
pub struct WayfireMessage {
    pub method: String,
    pub data: JsonValue,
}

/// The data object of a geometry: `x`, `y`, `width`, `height`.
pub open spec fn geometry_model(g: Geometry) -> Json {
    Json::Object(
        seq![
            ("x"@, Json::Number(signed_decimal(g.x as int))),
            ("y"@, Json::Number(signed_decimal(g.y as int))),
            ("width"@, Json::Number(decimal(g.width as nat))),
            ("height"@, Json::Number(decimal(g.height as nat))),
        ],
    )
}

/// The wire name of a command's method.
pub open spec fn method_name(command: WayfireCommand) -> Seq<char> {
    match command {
        WayfireCommand::Watch => "window-rules/events/watch"@,
        WayfireCommand::OutputInfo { .. } => "window-rules/output-info"@,
        WayfireCommand::ListViews => "list-views"@,
        WayfireCommand::ConfigureView { .. } => "configure-view"@,
    }
}

/// The data object of a command: its fields by name, or the empty object
/// for a command without fields.
pub open spec fn data_model(command: WayfireCommand) -> Json {
    match command {
        WayfireCommand::Watch => Json::Object(Seq::empty()),
        WayfireCommand::OutputInfo { id } => Json::Object(
            seq![("id"@, Json::Number(signed_decimal(id as int)))],
        ),
        WayfireCommand::ListViews => Json::Object(Seq::empty()),
        WayfireCommand::ConfigureView { id, geometry } => Json::Object(
            seq![
                ("id"@, Json::Number(signed_decimal(id as int))),
                ("geometry"@, geometry_model(geometry)),
            ],
        ),
    }
}

/// The envelope around a method and its data.
pub open spec fn envelope(method: Seq<char>, data: Json) -> Json {
    Json::Object(seq![("method"@, Json::Text(method)), ("data"@, data)])
}

/// The envelope of a command.
pub open spec fn command_envelope(command: WayfireCommand) -> Json {
    envelope(method_name(command), data_model(command))
}

/// Every command's envelope has the required shape: an object whose
/// `"method"` is the command's wire name and whose `"data"` is an object. It
/// is never taken for a failure report.
pub proof fn lemma_envelope_shape(command: WayfireCommand)
    ensures
        command_envelope(command) is Object,
        command_envelope(command).member("method"@) == Some(Json::Text(method_name(command))),
        command_envelope(command).member("data"@) == Some(data_model(command)),
        data_model(command) is Object,
        error_of(command_envelope(command)) is None,
{
    reveal_strlit("method");
    reveal_strlit("data");
    reveal_strlit("error");
    let members = command_envelope(command)->Object_0;
    let rest = members.skip(1);
    assert("method"@.len() == 6 && "data"@.len() == 4 && "error"@.len() == 5);
    assert(rest.len() == 1 && rest[0] == members[1]);
    assert(rest.skip(1).len() == 0);
    assert(lookup(rest.skip(1), "error"@) is None);
    assert(lookup(rest, "error"@) is None);
    assert(lookup(rest, "data"@) == Some(data_model(command)));
}

/// Only an object can be a failure report.
pub proof fn lemma_only_objects_report_errors(response: Json)
    requires
        !(response is Object),
    ensures
        error_of(response) is None,
{
}

impl Geometry {
    /// The geometry as a JSON object.
    pub fn to_json(&self) -> (value: JsonValue)
        ensures
            value@ == geometry_model(*self),
    {
        let members = vec![
            JsonValue::entry("x", JsonValue::integer(self.x as i64)),
            JsonValue::entry("y", JsonValue::integer(self.y as i64)),
            JsonValue::entry("width", JsonValue::unsigned(self.width as u64)),
            JsonValue::entry("height", JsonValue::unsigned(self.height as u64)),
        ];
        assert(members_model(members@) =~= geometry_model(*self)->Object_0);
        JsonValue::object(members)
    }
}

impl WayfireMessage {
    /// The envelope for this message.
    pub fn into_json(self) -> (value: JsonValue)
        ensures
            value@ == envelope(self.method@, self.data@),
    {
        let members = vec![
            (String::from_str("method"), JsonValue::Text(self.method)),
            JsonValue::entry("data", self.data),
        ];
        assert(members_model(members@) =~= envelope(self.method@, self.data@)->Object_0);
        JsonValue::object(members)
    }
}

impl WayfireCommand {
    /// The message for this command: its method's wire name and its data
    /// object. Every command has one.
    pub fn into_message(self) -> (message: WayfireMessage)
        ensures
            message.method@ == method_name(self),
            message.data@ == data_model(self),
    {
        let method = match self {
            WayfireCommand::Watch => "window-rules/events/watch",
            WayfireCommand::OutputInfo { .. } => "window-rules/output-info",
            WayfireCommand::ListViews => "list-views",
            WayfireCommand::ConfigureView { .. } => "configure-view",
        };
        let data = match self {
            WayfireCommand::Watch => JsonValue::object(Vec::new()),
            WayfireCommand::OutputInfo { id } => {
                let members = vec![JsonValue::entry("id", JsonValue::integer(id as i64))];
                assert(members_model(members@) =~= data_model(self)->Object_0);
                JsonValue::object(members)
            },
            WayfireCommand::ListViews => JsonValue::object(Vec::new()),
            WayfireCommand::ConfigureView { id, geometry } => {
                let members = vec![
                    JsonValue::entry("id", JsonValue::integer(id as i64)),
                    JsonValue::entry("geometry", geometry.to_json()),
                ];
                assert(members_model(members@) =~= data_model(self)->Object_0);
                JsonValue::object(members)
            },
        };
        assert(members_model(Seq::empty()) =~= Seq::empty());
        WayfireMessage { method: method.to_owned(), data }
    }

    /// The envelope that goes on the wire for this command.
    pub fn to_envelope(&self) -> (value: JsonValue)
        ensures
            value@ == command_envelope(*self),
    {
        self.into_message().into_json()
    }
}

/// The value under `"error"` of a response that reports a failure: `None`
/// for a response that is no object or has no such member.
pub open spec fn error_of(response: Json) -> Option<Json> {
    response.member("error"@)
}

/// Tells a failure report from any other response: gives the value of the
/// top-level `"error"` member, where there is one.
pub fn is_error_response(json: &JsonValue) -> (error: Option<&JsonValue>)
    ensures
        match error {
            Some(value) => error_of(json@) == Some(value@),
            None => error_of(json@) is None,
        },
{
    json.member("error")
}

/// Turns a response into the result of the call: the response itself, or,
/// for a failure report, `RemoteError` with the reported value.
pub fn classify_response(json: JsonValue) -> (r: Result<JsonValue, WireError>)
    ensures
        match r {
            Ok(value) => error_of(json@) is None && value == json,
            Err(e) => e matches WireError::RemoteError(reported) && error_of(json@) == Some(
                reported@,
            ),
        },
{
    match json {
        JsonValue::Object(members) => {
            proof {
                crate::json::lemma_view_of_containers(json);
            }
            let mut members = members;
            match position_of(&members, "error") {
                Some(i) => {
                    let member = members.remove(i);
                    Err(WireError::RemoteError(member.1))
                },
                None => Ok(JsonValue::Object(members)),
            }
        },
        other => Ok(other),
    }
}

} // verus!
