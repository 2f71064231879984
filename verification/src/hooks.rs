//! Hooking the assistant's events: the script that reports an event, and the
//! entries in the assistant's settings that make it run the script.
//!
//! The settings are a JSON document, read, changed and written with
//! `serde_json`. What a document holds is modelled by `JsonModel`; the order of
//! an object's members is no part of the model.

use serde_json::Value;
use vstd::prelude::*;
use vstd::string::StringExecFns;

verus! {

/// What a JSON value holds.
pub enum JsonModel {
    Null,
    Bool(bool),
    /// A number, by its text.
    Number(Seq<char>),
    Text(Seq<char>),
    Array(Seq<JsonModel>),
    /// An object: its members by name.
    Object(Map<Seq<char>, JsonModel>),
}

/// `serde_json::Value`, a JSON value. Nothing of its inside is known here but
/// through `document`.
#[verifier::external_type_specification]
#[verifier::external_body]
pub struct ExValue(serde_json::Value);

/// `serde_json::Error`, what reading or writing JSON can fail with. It is only
/// passed on.
#[verifier::external_type_specification]
#[verifier::external_body]
pub struct ExJsonError(serde_json::Error);

/// What a `serde_json::Value` holds.
pub uninterp spec fn document(value: serde_json::Value) -> JsonModel;

/// What `serde_json::from_str` reads from a text: the document that the text
/// denotes, or nothing where the text is no JSON.
pub uninterp spec fn parsed_document(text: Seq<char>) -> Option<JsonModel>;

/// The text that `serde_json::to_string_pretty` writes for a value.
pub uninterp spec fn pretty_text(value: serde_json::Value) -> Seq<char>;

/// The members of a document: those of an object, none of anything else.
pub open spec fn members(document: JsonModel) -> Map<Seq<char>, JsonModel> {
    match document {
        JsonModel::Object(members) => members,
        _ => Map::empty(),
    }
}

/// The member `key` of a document, or null where it has none.
pub open spec fn member_or_null(document: JsonModel, key: Seq<char>) -> JsonModel {
    if members(document).contains_key(key) {
        members(document)[key]
    } else {
        JsonModel::Null
    }
}

/// Whether a document can take members: it is an object, or null, which counts
/// as an object without members.
pub open spec fn takes_members(document: JsonModel) -> bool {
    document is Object || document is Null
}

/// Reads a JSON value from a text with `serde_json::from_str`. The value holds
/// the document that the text denotes; a text that is no JSON gives an error.
#[verifier::external_body]
fn parse_value(text: &str) -> (result: Result<Value, serde_json::Error>)
    ensures
        match result {
            Ok(value) => parsed_document(text@) == Some(document(value)),
            Err(_) => parsed_document(text@) is None,
        },
{
    serde_json::from_str(text)
}

/// Writes a value as indented JSON with `serde_json::to_string_pretty`. The
/// result is the text that the function writes for the value. It is never an
/// error: the function fails only where its writer fails or where the value's
/// own serialising fails, and here the writer is a vector in memory and the
/// value a `Value`, whose serialising has no failing path of its own.
#[verifier::external_body]
fn print_value(value: &Value) -> (result: Result<String, serde_json::Error>)
    ensures
        result is Ok,
        result matches Ok(text) ==> text@ == pretty_text(*value),
{
    serde_json::to_string_pretty(value)
}

/// The message of a `serde_json::Error`, as its `Display` gives it. Nothing is
/// claimed of the message.
#[verifier::external_body]
fn error_text(error: &serde_json::Error) -> String {
    error.to_string()
}

/// `Value::is_object`: whether the value is an object.
#[verifier::external_body]
fn is_object(value: &Value) -> (object: bool)
    ensures
        object == document(*value) is Object,
{
    value.is_object()
}

/// `Value::is_null`: whether the value is null.
#[verifier::external_body]
fn is_null(value: &Value) -> (null: bool)
    ensures
        null == document(*value) is Null,
{
    value.is_null()
}

/// `Value::get` with a name: the member of that name, where the value is an
/// object and has one.
#[verifier::external_body]
fn member<'a>(value: &'a Value, key: &str) -> (found: Option<&'a Value>)
    ensures
        match found {
            Some(member) => members(document(*value)).contains_key(key@) && document(*member)
                == members(document(*value))[key@],
            None => !members(document(*value)).contains_key(key@),
        },
{
    value.get(key)
}

/// The index operator of `Value` with a name, for writing: the member of that
/// name. Null becomes an object first, and a member that is missing is entered
/// as null. Any other value than an object or null makes the operator
/// panic, so it is left out. Whatever is written through the result is the
/// member afterwards; the other members stay.
#[verifier::external_body]
fn slot<'a>(value: &'a mut Value, key: &str) -> (member: &'a mut Value)
    requires
        takes_members(document(*old(value))),
    ensures
        document(*member) == member_or_null(document(*old(value)), key@),
        document(*final(value)) == JsonModel::Object(
            members(document(*old(value))).insert(key@, document(*final(member))),
        ),
{
    &mut value[key]
}

/// `Value::Null`.
#[verifier::external_body]
fn null_value() -> (value: Value)
    ensures
        document(value) == JsonModel::Null,
{
    Value::Null
}

/// `Value::String`: the JSON string of a text.
#[verifier::external_body]
fn text_value(text: String) -> (value: Value)
    ensures
        document(value) == JsonModel::Text(text@),
{
    Value::String(text)
}

/// `Value::Array`: the JSON array of the values, in their order.
#[verifier::external_body]
fn array_value(items: Vec<Value>) -> (value: Value)
    ensures
        document(value) == JsonModel::Array(items@.map_values(|item: Value| document(item))),
{
    Value::Array(items)
}

/// The command that runs the script at `script_path` for the event `event`.
pub open spec fn command_text(script_path: Seq<char>, event: Seq<char>) -> Seq<char> {
    "powershell -ExecutionPolicy Bypass -Command \"& '"@ + script_path + "' -Type\""@ + " '"@
        + event + "'\""@
}

/// The command that runs the script at `script_path` for the event `event`.
pub fn hook_command(script_path: &str, event: &str) -> (command: String)
    ensures
        command@ == command_text(script_path@, event@),
{
    let mut command = String::from_str("powershell -ExecutionPolicy Bypass -Command \"& '");
    command.append(script_path);
    command.append("' -Type\"");
    command.append(" '");
    command.append(event);
    command.append("'\"");
    command
}

/// The settings entry that runs `command`: a list of one group, without a
/// matcher, whose hooks are the one command.
pub open spec fn entry_model(command: Seq<char>) -> JsonModel {
    JsonModel::Array(
        seq![
            JsonModel::Object(
                map![
                    "hooks"@ => JsonModel::Array(
                        seq![
                            JsonModel::Object(
                                map![
                                    "type"@ => JsonModel::Text("command"@),
                                    "command"@ => JsonModel::Text(command),
                                ],
                            ),
                        ],
                    ),
                ],
            ),
        ],
    )
}

/// The settings entry that runs `command`.
pub fn hook_entry(command: String) -> (entry: Value)
    ensures
        document(entry) == entry_model(command@),
{
    let mut hook = null_value();
    *slot(&mut hook, "type") = text_value(String::from_str("command"));
    *slot(&mut hook, "command") = text_value(command);
    let ghost hook_model = JsonModel::Object(
        map!["type"@ => JsonModel::Text("command"@), "command"@ => JsonModel::Text(command@)],
    );
    proof {
        assert(members(document(hook)) =~= members(hook_model));
    }
    let mut hooks: Vec<Value> = Vec::new();
    hooks.push(hook);
    let hooks = array_value(hooks);
    proof {
        assert(document(hooks) == JsonModel::Array(seq![hook_model])) by {
            assert(document(hooks)->Array_0 =~= seq![hook_model]);
        }
    }
    let mut group = null_value();
    *slot(&mut group, "hooks") = hooks;
    let ghost group_model = JsonModel::Object(map!["hooks"@ => JsonModel::Array(seq![hook_model])]);
    proof {
        assert(members(document(group)) =~= members(group_model));
    }
    let mut groups: Vec<Value> = Vec::new();
    groups.push(group);
    let entry = array_value(groups);
    proof {
        assert(document(entry)->Array_0 =~= seq![group_model]);
    }
    entry
}

/// The members of a `hooks` object with the entry for `event` set.
pub open spec fn with_event(
    hooks: Map<Seq<char>, JsonModel>,
    script_path: Seq<char>,
    event: Seq<char>,
) -> Map<Seq<char>, JsonModel> {
    hooks.insert(event, entry_model(command_text(script_path, event)))
}

/// A settings document with the hooks entered: each hooked event runs the
/// script at `script_path`; every other member of `hooks` is what it was, and
/// so is every member but `hooks`.
pub open spec fn hooked(settings: JsonModel, script_path: Seq<char>) -> JsonModel {
    let hooks = members(member_or_null(settings, "hooks"@));
    let hooks = with_event(hooks, script_path, "PermissionRequest"@);
    let hooks = with_event(hooks, script_path, "PreToolUse"@);
    let hooks = with_event(hooks, script_path, "PostToolUse"@);
    let hooks = with_event(hooks, script_path, "Stop"@);
    JsonModel::Object(members(settings).insert("hooks"@, JsonModel::Object(hooks)))
}

/// Whether the hooks can be entered in a settings document: the document can
/// take members, and so can its member `hooks` where it has one.
pub open spec fn takes_hooks(settings: JsonModel) -> bool {
    takes_members(settings) && takes_members(member_or_null(settings, "hooks"@))
}

/// Whether the hooks can be entered in a settings document.
pub fn can_take_hooks(settings: &Value) -> (can: bool)
    ensures
        can == takes_hooks(document(*settings)),
{
    if !(is_object(settings) || is_null(settings)) {
        return false;
    }
    match member(settings, "hooks") {
        Some(hooks) => is_object(hooks) || is_null(hooks),
        None => true,
    }
}

/// Enters the entry for `event` in a `hooks` object.
fn hook_event(hooks: &mut Value, script_path: &str, event: &str)
    requires
        takes_members(document(*old(hooks))),
    ensures
        document(*final(hooks)) == JsonModel::Object(
            with_event(members(document(*old(hooks))), script_path@, event@),
        ),
{
    *slot(hooks, event) = hook_entry(hook_command(script_path, event));
}

/// Enters the hooks in a settings document, so that each hooked event runs
/// the script at `script_path`.
pub fn enter_hooks(settings: &mut Value, script_path: &str)
    requires
        takes_hooks(document(*old(settings))),
    ensures
        document(*final(settings)) == hooked(document(*old(settings)), script_path@),
{
    let hooks = slot(settings, "hooks");
    hook_event(hooks, script_path, "PermissionRequest");
    hook_event(hooks, script_path, "PreToolUse");
    hook_event(hooks, script_path, "PostToolUse");
    hook_event(hooks, script_path, "Stop");
}

/// What came of entering the hooks in the text of a settings document.
#[derive(Debug, PartialEq, Eq)]
pub enum Installed {
    /// The hooks are entered; holds the new text of the document.
    Written(String),
    /// The document is of a kind that cannot hold the hooks.
    Unfit,
    /// The new document could not be written out; holds the reason. Writing
    /// a document out does not fail, so this is not met with.
    Failed(String),
}

/// The document to start from: the one that the text found denotes, or null
/// where no text was found or it is no JSON.
pub open spec fn starting_document(found: Option<Seq<char>>) -> JsonModel {
    match found {
        Some(text) => match parsed_document(text) {
            Some(document) => document,
            None => JsonModel::Null,
        },
        None => JsonModel::Null,
    }
}

/// Enters the hooks in the settings whose text was found, if any, and writes
/// the new settings out. Settings that are missing or unreadable count as
/// empty. The new text is written wherever the settings can take the hooks.
pub fn settings_with_hooks(found: Option<&str>, script_path: &str) -> (installed: Installed)
    ensures
        ({
            let start = starting_document(
                match found {
                    Some(text) => Some(text@),
                    None => None,
                },
            );
            match installed {
                Installed::Unfit => !takes_hooks(start),
                Installed::Written(text) => takes_hooks(start) && exists|settings: Value|
                    #![trigger document(settings)]
                    document(settings) == hooked(start, script_path@) && text@ == pretty_text(
                        settings,
                    ),
                Installed::Failed(_) => false,
            }
        }),
{
    let mut settings = match found {
        Some(text) => match parse_value(text) {
            Ok(value) => value,
            Err(_) => null_value(),
        },
        None => null_value(),
    };
    if !can_take_hooks(&settings) {
        return Installed::Unfit;
    }
    enter_hooks(&mut settings, script_path);
    match print_value(&settings) {
        Ok(text) => Installed::Written(text),
        Err(error) => Installed::Failed(error_text(&error)),
    }
}

/// The name of the settings file in the assistant's settings directory.
pub fn settings_file_name() -> (name: String)
    ensures
        name@ == "settings.json"@,
{
    String::from_str("settings.json")
}

/// The name of the directory, in the assistant's settings directory, that
/// holds the hook script.
pub fn hooks_folder_name() -> (name: String)
    ensures
        name@ == "hooks"@,
{
    String::from_str("hooks")
}

/// The name of the hook script's file.
pub fn hook_script_name() -> (name: String)
    ensures
        name@ == "git-worktree-hook.ps1"@,
{
    String::from_str("git-worktree-hook.ps1")
}

/// The beginning of the script, up to the address that it posts to. The
/// script takes the kind of the event as its `Type` and posts the working
/// directory with the status that the kind stands for: `waiting_auth` for a
/// permission request, `running` around the use of a tool, `idle` at a stop
/// and for anything else.
pub open spec fn script_head() -> Seq<char> {
    "\n"@
        + "param (\n"@
        + "    [string]$Type\n"@
        + ")\n"@
        + "\n"@
        + "$Path = Get-Location\n"@
        + "$Payload = @{\n"@
        + "    path = $Path.Path\n"@
        + "    status = \"idle\"\n"@
        + "    message = \"\"\n"@
        + "}\n"@
        + "\n"@
        + "switch ($Type) {\n"@
        + "    \"PermissionRequest\" { $Payload.status = \"waiting_auth\" }\n"@
        + "    \"PreToolUse\" { $Payload.status = \"running\" }\n"@
        + "    \"PostToolUse\" { $Payload.status = \"running\" }\n"@
        + "    \"Stop\" { $Payload.status = \"idle\" }\n"@
        + "}\n"@
        + "\n"@
        + "try {\n"@
        + "    Invoke-RestMethod -Uri \""@
}

/// The end of the script, from the address on.
pub open spec fn script_tail() -> Seq<char> {
    "\" -Method Post -Body ($Payload | ConvertTo-Json)"@
        + " -ContentType \"application/json\" -ErrorAction SilentlyContinue\n"@
        + "} catch {}\n"@
}

/// The script that reports an event to `endpoint`.
pub open spec fn script_text(endpoint: Seq<char>) -> Seq<char> {
    script_head() + endpoint + script_tail()
}

/// The script that reports an event to `endpoint`.
pub fn hook_script(endpoint: &str) -> (script: String)
    ensures
        script@ == script_text(endpoint@),
{
    let mut script = String::new();
    script.append("\n");
    script.append("param (\n");
    script.append("    [string]$Type\n");
    script.append(")\n");
    script.append("\n");
    script.append("$Path = Get-Location\n");
    script.append("$Payload = @{\n");
    script.append("    path = $Path.Path\n");
    script.append("    status = \"idle\"\n");
    script.append("    message = \"\"\n");
    script.append("}\n");
    script.append("\n");
    script.append("switch ($Type) {\n");
    script.append("    \"PermissionRequest\" { $Payload.status = \"waiting_auth\" }\n");
    script.append("    \"PreToolUse\" { $Payload.status = \"running\" }\n");
    script.append("    \"PostToolUse\" { $Payload.status = \"running\" }\n");
    script.append("    \"Stop\" { $Payload.status = \"idle\" }\n");
    script.append("}\n");
    script.append("\n");
    script.append("try {\n");
    script.append("    Invoke-RestMethod -Uri \"");
    proof {
        assert(script@ =~= script_head());
    }
    script.append(endpoint);
    script.append("\" -Method Post -Body ($Payload | ConvertTo-Json)");
    script.append(" -ContentType \"application/json\" -ErrorAction SilentlyContinue\n");
    script.append("} catch {}\n");
    proof {
        assert(script@ =~= script_head() + endpoint@ + script_tail());
    }
    script
}

} // verus!
