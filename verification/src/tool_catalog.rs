//! The tools of the agent: their names, effects and input schemas.
use crate::harness::EffectClass;
use crate::json;
use crate::json::{Json, JsonView, ObjectBuilder};
use crate::text;
use vstd::prelude::*;

verus! {

pub const FILE_READ: &'static str = "file.read";

pub const FILE_LIST: &'static str = "file.list";

pub const FILE_WRITE: &'static str = "file.write";

pub const FILE_EDIT: &'static str = "file.edit";

pub const SHELL_EXEC: &'static str = "shell.exec";

/// One tool of the catalogue.
#[derive(Clone, Copy, Debug, PartialEq, Eq, Structural)]
pub enum Tool {
    FileRead,
    FileList,
    FileWrite,
    FileEdit,
    ShellExec,
}

/// What the catalogue says of a tool.
#[derive(Clone, Copy, Debug, PartialEq, Eq)]
pub struct ToolDefinition {
    pub internal_name: &'static str,
    pub provider_name: &'static str,
    pub effect: EffectClass,
    pub description: &'static str,
    pub tool: Tool,
}

/// A tool as a model provider is told of it.
#[derive(Debug, PartialEq, Eq)]
pub struct ToolSpec {
    pub name: String,
    pub description: String,
    pub input_schema: Json,
}

/// What a tool spec stands for.
pub struct ToolSpecView {
    pub name: Seq<char>,
    pub description: Seq<char>,
    pub input_schema: JsonView,
}

impl ToolSpec {
    /// The spec that `self` stands for.
    pub open spec fn view(&self) -> ToolSpecView {
        ToolSpecView {
            name: self.name@,
            description: self.description@,
            input_schema: self.input_schema@,
        }
    }

    /// The spec as it is sent to a provider.
    pub fn to_json(&self) -> (r: Json)
        ensures
            r@ == spec_json(self@),
    {
        ObjectBuilder::new().text("name", self.name.as_str()).text(
            "description",
            self.description.as_str(),
        ).with("input_schema", self.input_schema.clone()).build()
    }
}

impl Clone for ToolSpec {
    fn clone(&self) -> (r: ToolSpec)
        ensures
            r@ == self@,
    {
        ToolSpec {
            name: self.name.clone(),
            description: self.description.clone(),
            input_schema: self.input_schema.clone(),
        }
    }
}

/// A tool spec as it is sent to a provider.
pub open spec fn spec_json(spec: ToolSpecView) -> JsonView {
    JsonView::Object(
        json::no_members().push(("name"@, JsonView::Text(spec.name))).push(
            ("description"@, JsonView::Text(spec.description)),
        ).push(("input_schema"@, spec.input_schema)),
    )
}

/// Tool specs as they are sent to a provider.
pub open spec fn specs_json(specs: Seq<ToolSpecView>) -> JsonView {
    JsonView::Array(Seq::new(specs.len(), |i: int| spec_json(specs[i])))
}

/// What tool specs stand for.
pub open spec fn spec_views(specs: Seq<ToolSpec>) -> Seq<ToolSpecView> {
    Seq::new(specs.len(), |i: int| specs[i]@)
}

/// Tool specs as they are sent to a provider.
pub fn tools_to_json(specs: &Vec<ToolSpec>) -> (r: Json)
    ensures
        r@ == specs_json(spec_views(specs@)),
{
    let mut items: Vec<Json> = Vec::new();
    let mut i: usize = 0;
    while i < specs.len()
        invariant
            0 <= i <= specs@.len(),
            items@.len() == i,
            forall|k: int| 0 <= k < i ==> (#[trigger] items@[k])@ == spec_json(specs@[k]@),
        decreases specs@.len() - i,
    {
        items.push(specs[i].to_json());
        i += 1;
    }
    assert(json::json_views(items@) =~= Seq::new(
        spec_views(specs@).len(),
        |i: int| spec_json(spec_views(specs@)[i]),
    ));
    Json::array(items)
}

impl Tool {
    /// The name that the agent uses for the tool.
    pub open spec fn internal(self) -> Seq<char> {
        match self {
            Tool::FileRead => FILE_READ@,
            Tool::FileList => FILE_LIST@,
            Tool::FileWrite => FILE_WRITE@,
            Tool::FileEdit => FILE_EDIT@,
            Tool::ShellExec => SHELL_EXEC@,
        }
    }

    /// The name that model providers see.
    pub open spec fn provider(self) -> Seq<char> {
        match self {
            Tool::FileRead => "file_read"@,
            Tool::FileList => "file_list"@,
            Tool::FileWrite => "file_write"@,
            Tool::FileEdit => "file_edit"@,
            Tool::ShellExec => "shell_exec"@,
        }
    }

    /// The class of effect that the tool has.
    pub open spec fn effect_class(self) -> EffectClass {
        match self {
            Tool::FileRead | Tool::FileList => EffectClass::ReadOnly,
            Tool::FileWrite | Tool::FileEdit => EffectClass::WorkspaceWrite,
            Tool::ShellExec => EffectClass::ExternalSideEffect,
        }
    }

    /// What the tool does, in words.
    pub open spec fn about(self) -> Seq<char> {
        match self {
            Tool::FileRead => "Read a UTF-8 text file inside the current workspace."@,
            Tool::FileList => "List the entries of a directory inside the current workspace."@,
            Tool::FileWrite =>
                "Write UTF-8 text to a relative path inside the current workspace after approval."@,
            Tool::FileEdit =>
                "Replace the UTF-8 text of a file inside the current workspace after approval."@,
            Tool::ShellExec => "Run a shell command from the workspace root after approval."@,
        }
    }

    /// The JSON schema of the tool's input.
    pub open spec fn schema(self) -> JsonView {
        match self {
            Tool::FileRead | Tool::FileList => schema_object(
                json::no_members().push(("path"@, path_schema())),
                seq![JsonView::Text("path"@)],
            ),
            Tool::FileWrite | Tool::FileEdit => schema_object(
                json::no_members().push(
                    ("content"@, property_schema("UTF-8 content to write."@, "string"@)),
                ).push(("path"@, path_schema())),
                seq![JsonView::Text("path"@), JsonView::Text("content"@)],
            ),
            Tool::ShellExec => schema_object(
                json::no_members().push(
                    (
                        "command"@,
                        property_schema("Command line for sh, run in the workspace root."@, "string"@),
                    ),
                ).push(
                    (
                        "timeout_seconds"@,
                        property_schema("Seconds before the command is stopped."@, "integer"@),
                    ),
                ),
                seq![JsonView::Text("command"@)],
            ),
        }
    }

    /// What the catalogue says of the tool.
    pub fn definition(self) -> (r: ToolDefinition)
        ensures
            r.internal_name@ == self.internal(),
            r.provider_name@ == self.provider(),
            r.effect == self.effect_class(),
            r.description@ == self.about(),
            r.tool == self,
    {
        match self {
            Tool::FileRead => ToolDefinition {
                internal_name: FILE_READ,
                provider_name: "file_read",
                effect: EffectClass::ReadOnly,
                description: "Read a UTF-8 text file inside the current workspace.",
                tool: self,
            },
            Tool::FileList => ToolDefinition {
                internal_name: FILE_LIST,
                provider_name: "file_list",
                effect: EffectClass::ReadOnly,
                description: "List the entries of a directory inside the current workspace.",
                tool: self,
            },
            Tool::FileWrite => ToolDefinition {
                internal_name: FILE_WRITE,
                provider_name: "file_write",
                effect: EffectClass::WorkspaceWrite,
                description:
                    "Write UTF-8 text to a relative path inside the current workspace after approval.",
                tool: self,
            },
            Tool::FileEdit => ToolDefinition {
                internal_name: FILE_EDIT,
                provider_name: "file_edit",
                effect: EffectClass::WorkspaceWrite,
                description:
                    "Replace the UTF-8 text of a file inside the current workspace after approval.",
                tool: self,
            },
            Tool::ShellExec => ToolDefinition {
                internal_name: SHELL_EXEC,
                provider_name: "shell_exec",
                effect: EffectClass::ExternalSideEffect,
                description: "Run a shell command from the workspace root after approval.",
                tool: self,
            },
        }
    }

    /// The JSON schema of the tool's input.
    pub fn to_json(self) -> (r: Json)
        ensures
            r@ == self.schema(),
    {
        match self {
            Tool::FileRead | Tool::FileList => build_schema(
                ObjectBuilder::new().with("path", build_path()),
                "path",
                None,
            ),
            Tool::FileWrite | Tool::FileEdit => build_schema(
                ObjectBuilder::new().with(
                    "content",
                    build_property("UTF-8 content to write.", "string"),
                ).with("path", build_path()),
                "path",
                Some("content"),
            ),
            Tool::ShellExec => build_schema(
                ObjectBuilder::new().with(
                    "command",
                    build_property("Command line for sh, run in the workspace root.", "string"),
                ).with(
                    "timeout_seconds",
                    build_property("Seconds before the command is stopped.", "integer"),
                ),
                "command",
                None,
            ),
        }
    }
}

/// The schema of an object with `properties`, of which `required` must be there, and no others.
pub open spec fn schema_object(
    properties: Seq<(Seq<char>, JsonView)>,
    required: Seq<JsonView>,
) -> JsonView {
    JsonView::Object(
        json::no_members().push(("additionalProperties"@, JsonView::Bool(false))).push(
            ("properties"@, JsonView::Object(properties)),
        ).push(("required"@, JsonView::Array(required))).push(
            ("type"@, JsonView::Text("object"@)),
        ),
    )
}

/// The schema of one property.
pub open spec fn property_schema(description: Seq<char>, kind: Seq<char>) -> JsonView {
    JsonView::Object(
        json::no_members().push(("description"@, JsonView::Text(description))).push(
            ("type"@, JsonView::Text(kind)),
        ),
    )
}

/// The schema of a path.
pub open spec fn path_schema() -> JsonView {
    property_schema("Relative path inside the current workspace."@, "string"@)
}

fn build_property(description: &str, kind: &str) -> (r: Json)
    ensures
        r@ == property_schema(description@, kind@),
{
    ObjectBuilder::new().text("description", description).text("type", kind).build()
}

fn build_path() -> (r: Json)
    ensures
        r@ == path_schema(),
{
    build_property("Relative path inside the current workspace.", "string")
}

fn build_schema(properties: ObjectBuilder, first: &str, second: Option<&str>) -> (r: Json)
    ensures
        r@ == schema_object(
            properties@,
            match second {
                Some(name) => seq![JsonView::Text(first@), JsonView::Text(name@)],
                None => seq![JsonView::Text(first@)],
            },
        ),
{
    let mut required: Vec<Json> = Vec::new();
    required.push(Json::text(first));
    if let Some(name) = second {
        required.push(Json::text(name));
        assert(json::json_views(required@) =~= seq![JsonView::Text(first@), JsonView::Text(name@)]);
    } else {
        assert(json::json_views(required@) =~= seq![JsonView::Text(first@)]);
    }
    ObjectBuilder::new().flag("additionalProperties", false).with(
        "properties",
        properties.build(),
    ).with("required", Json::array(required)).text("type", "object").build()
}

/// The tools of the catalogue, in order.
pub open spec fn catalog() -> Seq<Tool> {
    seq![Tool::FileRead, Tool::FileList, Tool::FileWrite, Tool::FileEdit, Tool::ShellExec]
}

/// The tool that goes by `name` in the agent.
pub open spec fn named(name: Seq<char>) -> Option<Tool> {
    if name == FILE_READ@ {
        Some(Tool::FileRead)
    } else if name == FILE_LIST@ {
        Some(Tool::FileList)
    } else if name == FILE_WRITE@ {
        Some(Tool::FileWrite)
    } else if name == FILE_EDIT@ {
        Some(Tool::FileEdit)
    } else if name == SHELL_EXEC@ {
        Some(Tool::ShellExec)
    } else {
        None
    }
}

/// The tools of the catalogue, in order.
pub fn bootstrap_tools() -> (r: Vec<ToolDefinition>)
    ensures
        r@.len() == catalog().len(),
        forall|i: int|
            0 <= i < r@.len() ==> {
                &&& (#[trigger] r@[i]).tool == catalog()[i]
                &&& r@[i].internal_name@ == catalog()[i].internal()
                &&& r@[i].provider_name@ == catalog()[i].provider()
                &&& r@[i].effect == catalog()[i].effect_class()
                &&& r@[i].description@ == catalog()[i].about()
            },
{
    vec![
        Tool::FileRead.definition(),
        Tool::FileList.definition(),
        Tool::FileWrite.definition(),
        Tool::FileEdit.definition(),
        Tool::ShellExec.definition(),
    ]
}

/// The names of the tools that are enabled where nothing else is said: all of the catalogue.
pub fn default_enabled_tools() -> (r: Vec<String>)
    ensures
        text::views(r@) == catalog().map_values(|tool: Tool| tool.internal()),
{
    let r = vec![
        FILE_READ.to_owned(),
        FILE_LIST.to_owned(),
        FILE_WRITE.to_owned(),
        FILE_EDIT.to_owned(),
        SHELL_EXEC.to_owned(),
    ];
    assert(text::views(r@) =~= catalog().map_values(|tool: Tool| tool.internal()));
    r
}

/// The tool that goes by `name` in the agent.
pub fn lookup_internal(name: &str) -> (r: Option<Tool>)
    ensures
        r == named(name@),
{
    if text::same_text(name, FILE_READ) {
        Some(Tool::FileRead)
    } else if text::same_text(name, FILE_LIST) {
        Some(Tool::FileList)
    } else if text::same_text(name, FILE_WRITE) {
        Some(Tool::FileWrite)
    } else if text::same_text(name, FILE_EDIT) {
        Some(Tool::FileEdit)
    } else if text::same_text(name, SHELL_EXEC) {
        Some(Tool::ShellExec)
    } else {
        None
    }
}

/// Whether the catalogue has a tool of that name.
pub fn is_known_tool(name: &str) -> (r: bool)
    ensures
        r == named(name@) is Some,
{
    lookup_internal(name).is_some()
}

/// The class of effect of the named tool: what the catalogue says, and the strictest of the
/// catalogue's classes for a tool that it does not have.
pub open spec fn effect_of(name: Seq<char>) -> EffectClass {
    match named(name) {
        Some(tool) => tool.effect_class(),
        None => EffectClass::ExternalSideEffect,
    }
}

/// The class of effect of the named tool.
pub fn effect_for_tool(name: &str) -> (r: EffectClass)
    ensures
        r == effect_of(name@),
{
    match lookup_internal(name) {
        Some(tool) => tool.definition().effect,
        None => EffectClass::ExternalSideEffect,
    }
}

/// The name that model providers see for the named tool.
pub fn provider_name_for_internal(name: &str) -> (r: Option<&'static str>)
    ensures
        r is Some <==> named(name@) is Some,
        r is Some ==> r->Some_0@ == named(name@)->Some_0.provider(),
{
    match lookup_internal(name) {
        Some(tool) => Some(tool.definition().provider_name),
        None => None,
    }
}

/// The tool that a provider means by `name`: its provider name, or the agent's own.
pub open spec fn provider_named(name: Seq<char>) -> Option<Tool> {
    if name == Tool::FileRead.provider() || name == Tool::FileRead.internal() {
        Some(Tool::FileRead)
    } else if name == Tool::FileList.provider() || name == Tool::FileList.internal() {
        Some(Tool::FileList)
    } else if name == Tool::FileWrite.provider() || name == Tool::FileWrite.internal() {
        Some(Tool::FileWrite)
    } else if name == Tool::FileEdit.provider() || name == Tool::FileEdit.internal() {
        Some(Tool::FileEdit)
    } else if name == Tool::ShellExec.provider() || name == Tool::ShellExec.internal() {
        Some(Tool::ShellExec)
    } else {
        None
    }
}

fn goes_by(tool: Tool, name: &str) -> (r: bool)
    ensures
        r == (name@ == tool.provider() || name@ == tool.internal()),
{
    let definition = tool.definition();
    text::same_text(name, definition.provider_name) || text::same_text(
        name,
        definition.internal_name,
    )
}

/// The agent's name for the tool that a provider means by `name`.
pub fn internal_name_for_provider(name: &str) -> (r: Option<&'static str>)
    ensures
        r is Some <==> provider_named(name@) is Some,
        r is Some ==> r->Some_0@ == provider_named(name@)->Some_0.internal(),
{
    if goes_by(Tool::FileRead, name) {
        Some(FILE_READ)
    } else if goes_by(Tool::FileList, name) {
        Some(FILE_LIST)
    } else if goes_by(Tool::FileWrite, name) {
        Some(FILE_WRITE)
    } else if goes_by(Tool::FileEdit, name) {
        Some(FILE_EDIT)
    } else if goes_by(Tool::ShellExec, name) {
        Some(SHELL_EXEC)
    } else {
        None
    }
}

/// The spec of one tool.
pub open spec fn tool_spec(tool: Tool) -> ToolSpecView {
    ToolSpecView {
        name: tool.provider(),
        description: tool.about(),
        input_schema: tool.schema(),
    }
}

/// The specs of the enabled tools that the catalogue has, in the order in which they are enabled.
pub open spec fn specs_of(enabled: Seq<Seq<char>>) -> Seq<ToolSpecView>
    decreases enabled.len(),
{
    if enabled.len() == 0 {
        Seq::empty()
    } else {
        let before = specs_of(enabled.drop_last());
        match named(enabled.last()) {
            Some(tool) => before.push(tool_spec(tool)),
            None => before,
        }
    }
}

/// The specs of the enabled tools that the catalogue has.
pub fn tool_specs(enabled_tools: &Vec<String>) -> (r: Vec<ToolSpec>)
    ensures
        spec_views(r@) == specs_of(text::views(enabled_tools@)),
{
    let ghost names = text::views(enabled_tools@);
    let mut r: Vec<ToolSpec> = Vec::new();
    let mut i: usize = 0;
    assert(names.take(0) =~= Seq::<Seq<char>>::empty());
    assert(spec_views(r@) =~= Seq::<ToolSpecView>::empty());
    while i < enabled_tools.len()
        invariant
            0 <= i <= enabled_tools@.len(),
            names == text::views(enabled_tools@),
            spec_views(r@) == specs_of(names.take(i as int)),
        decreases enabled_tools@.len() - i,
    {
        let ghost before = spec_views(r@);
        proof {
            assert(names.take(i + 1).drop_last() =~= names.take(i as int));
            assert(names.take(i + 1).last() == enabled_tools@[i as int]@);
        }
        if let Some(tool) = lookup_internal(enabled_tools[i].as_str()) {
            let definition = tool.definition();
            r.push(
                ToolSpec {
                    name: definition.provider_name.to_owned(),
                    description: definition.description.to_owned(),
                    input_schema: tool.to_json(),
                },
            );
            assert(spec_views(r@) =~= before.push(tool_spec(tool)));
        }
        i += 1;
    }
    assert(names.take(enabled_tools@.len() as int) =~= names);
    r
}

/// The names of the catalogue are all different, so that each tool is found again by its name, and
/// a provider that answers with the name it was given means the same tool.
pub proof fn law_names_find_their_tool(tool: Tool)
    ensures
        named(tool.internal()) == Some(tool),
        provider_named(tool.internal()) == Some(tool),
        provider_named(tool.provider()) == Some(tool),
{
    reveal_strlit("file.read");
    reveal_strlit("file.list");
    reveal_strlit("file.write");
    reveal_strlit("file.edit");
    reveal_strlit("shell.exec");
    reveal_strlit("file_read");
    reveal_strlit("file_list");
    reveal_strlit("file_write");
    reveal_strlit("file_edit");
    reveal_strlit("shell_exec");
    assert(FILE_READ@[5] == 'r' && FILE_LIST@[5] == 'l' && FILE_WRITE@[5] == 'w' && FILE_EDIT@[5]
        == 'e');
    assert(SHELL_EXEC@[0] == 's' && SHELL_EXEC@[5] == '.' && FILE_READ@[4] == '.');
    assert("file_read"@[5] == 'r' && "file_list"@[5] == 'l' && "file_write"@[5] == 'w'
        && "file_edit"@[5] == 'e' && "shell_exec"@[5] == '_' && "file_read"@[4] == '_');
    assert(FILE_LIST@[4] == '.' && FILE_WRITE@[4] == '.' && FILE_EDIT@[4] == '.');
    assert("file_list"@[4] == '_' && "file_write"@[4] == '_' && "file_edit"@[4] == '_');
    assert(FILE_READ@[0] == 'f' && FILE_LIST@[0] == 'f' && FILE_WRITE@[0] == 'f' && FILE_EDIT@[0]
        == 'f');
    assert("file_read"@[0] == 'f' && "file_list"@[0] == 'f' && "file_write"@[0] == 'f'
        && "file_edit"@[0] == 'f' && "shell_exec"@[0] == 's');
}

/// The names of the agent stand for their tools, each for its own, and no other name for any.
pub proof fn law_tools_go_by_their_names(name: Seq<char>)
    ensures
        named(name) == Some(Tool::FileRead) <==> name == "file.read"@,
        named(name) == Some(Tool::FileList) <==> name == "file.list"@,
        named(name) == Some(Tool::FileWrite) <==> name == "file.write"@,
        named(name) == Some(Tool::FileEdit) <==> name == "file.edit"@,
        named(name) == Some(Tool::ShellExec) <==> name == "shell.exec"@,
        effect_of(name) == EffectClass::ReadOnly <==> name == "file.read"@ || name == "file.list"@,
        effect_of(name) == EffectClass::WorkspaceWrite <==> name == "file.write"@ || name
            == "file.edit"@,
        effect_of(name) != EffectClass::Network,
        effect_of(name) != EffectClass::SecretAccess,
{
    law_names_find_their_tool(Tool::FileRead);
    law_names_find_their_tool(Tool::FileList);
    law_names_find_their_tool(Tool::FileWrite);
    law_names_find_their_tool(Tool::FileEdit);
    law_names_find_their_tool(Tool::ShellExec);
}

/// Providers see names without dots: that of the agent with an underscore in place of its dot. Both
/// names of a tool find it, and no other name does.
pub proof fn law_providers_see_their_own_names(tool: Tool, name: Seq<char>)
    ensures
        tool.provider().len() == tool.internal().len(),
        forall|i: int|
            0 <= i < tool.provider().len() ==> (#[trigger] tool.provider()[i]) == if tool.internal()[i]
                == '.' {
                '_'
            } else {
                tool.internal()[i]
            },
        provider_named(name) == Some(tool) <==> name == tool.provider() || name == tool.internal(),
{
    reveal_strlit("file.read");
    reveal_strlit("file.list");
    reveal_strlit("file.write");
    reveal_strlit("file.edit");
    reveal_strlit("shell.exec");
    reveal_strlit("file_read");
    reveal_strlit("file_list");
    reveal_strlit("file_write");
    reveal_strlit("file_edit");
    reveal_strlit("shell_exec");
    lemma_names_differ(tool, name);
}

proof fn lemma_names_differ(tool: Tool, name: Seq<char>)
    ensures
        provider_named(name) == Some(tool) <==> name == tool.provider() || name == tool.internal(),
{
    lemma_names_apart(tool, Tool::FileRead);
    lemma_names_apart(tool, Tool::FileList);
    lemma_names_apart(tool, Tool::FileWrite);
    lemma_names_apart(tool, Tool::FileEdit);
    lemma_names_apart(tool, Tool::ShellExec);
}

proof fn lemma_names_apart(a: Tool, b: Tool)
    ensures
        a != b ==> a.provider() != b.provider() && a.provider() != b.internal() && a.internal()
            != b.provider() && a.internal() != b.internal(),
{
    reveal_strlit("file.read");
    reveal_strlit("file.list");
    reveal_strlit("file.write");
    reveal_strlit("file.edit");
    reveal_strlit("shell.exec");
    reveal_strlit("file_read");
    reveal_strlit("file_list");
    reveal_strlit("file_write");
    reveal_strlit("file_edit");
    reveal_strlit("shell_exec");
    if a != b {
        assert(a.provider()[5] != b.provider()[5]);
        assert(a.provider()[5] != b.internal()[5]);
        assert(a.internal()[5] != b.provider()[5]);
        assert(a.internal()[5] != b.internal()[5]);
    }
}

/// A provider is offered the enabled tools that there are, in the order in which they are enabled, and no
/// other: a name that stands for no tool adds nothing.
pub proof fn law_enabled_tools_are_offered(enabled: Seq<Seq<char>>, name: Seq<char>)
    ensures
        specs_of(Seq::empty()) == Seq::<ToolSpecView>::empty(),
        named(name) matches Some(tool) ==> {
            let more = specs_of(enabled.push(name));
            &&& more.drop_last() == specs_of(enabled)
            &&& more.last().name == tool.provider()
            &&& more.last().description == tool.about()
            &&& more.last().input_schema == tool.schema()
            &&& more.len() == specs_of(enabled).len() + 1
        },
        named(name) is None ==> specs_of(enabled.push(name)) == specs_of(enabled),
{
    assert(enabled.push(name).drop_last() =~= enabled);
    if let Some(tool) = named(name) {
        assert(specs_of(enabled.push(name)).drop_last() =~= specs_of(enabled));
    }
}

/// The spec of a tool is sent with its name, its description and the schema of its input, and nothing
/// else.
pub proof fn law_specs_are_sent_whole(specs: Seq<ToolSpecView>, i: int)
    requires
        0 <= i < specs.len(),
    ensures
        specs_json(specs) matches JsonView::Array(items) && items.len() == specs.len() && (
        items[i] matches JsonView::Object(m) && m.len() == 3 && m[0] == (
            "name"@,
            JsonView::Text(specs[i].name),
        ) && m[1] == ("description"@, JsonView::Text(specs[i].description)) && m[2] == (
            "input_schema"@,
            specs[i].input_schema,
        )),
{
    let m = spec_json(specs[i])->Object_0;
    assert(m[0] == ("name"@, JsonView::Text(specs[i].name)));
    assert(m[1] == ("description"@, JsonView::Text(specs[i].description)));
    assert(m[2] == ("input_schema"@, specs[i].input_schema));
}

/// Every tool takes an object with no other members than those it knows. Files are named by a path, which
/// is required; writing and editing also require the content, and a command is required where one is run.
pub proof fn law_schemas_require_their_input(tool: Tool)
    ensures
        tool.schema() matches JsonView::Object(m) && m.len() == 4 && m[0] == (
            "additionalProperties"@,
            JsonView::Bool(false),
        ) && m[3] == ("type"@, JsonView::Text("object"@)) && m[2] == (
            "required"@,
            JsonView::Array(
                match tool {
                    Tool::FileRead | Tool::FileList => seq![JsonView::Text("path"@)],
                    Tool::FileWrite | Tool::FileEdit => seq![
                        JsonView::Text("path"@),
                        JsonView::Text("content"@),
                    ],
                    Tool::ShellExec => seq![JsonView::Text("command"@)],
                },
            ),
        ) && m[1].0 == "properties"@,
{
    let m = tool.schema()->Object_0;
    assert(m[0] == ("additionalProperties"@, JsonView::Bool(false)));
    assert(m[1].0 == "properties"@);
    assert(m[3] == ("type"@, JsonView::Text("object"@)));
    assert(m[2].0 == "required"@);
}

} // verus!
