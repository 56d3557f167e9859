//! The tools that a model may call, as each provider wants them described.

use vstd::prelude::*;
use crate::json::{
    array1, field, field_views, json_views, lemma_array_view, lemma_object_view, object1, object2,
    object3, object4, str_views, Json, JsonView,
};

verus! {

/// The schema of a string.
pub open spec fn string_type() -> JsonView {
    JsonView::Object(seq![("type"@, JsonView::Str("string"@))])
}

/// The schema of an object with the properties `properties`, of which
/// `required` must be there.
pub open spec fn input_schema(properties: JsonView, required: JsonView) -> JsonView {
    JsonView::Object(
        seq![
            ("type"@, JsonView::Str("object"@)),
            ("properties"@, properties),
            ("required"@, required),
        ],
    )
}

/// The properties of an object whose members `keys` are all strings.
pub open spec fn strings(keys: Seq<Seq<char>>) -> JsonView {
    JsonView::Object(Seq::new(keys.len(), |i: int| (keys[i], string_type())))
}

/// The list of the names `keys`.
pub open spec fn names(keys: Seq<Seq<char>>) -> JsonView {
    JsonView::Array(Seq::new(keys.len(), |i: int| JsonView::Str(keys[i])))
}

/// The schema of the input of `AskUserQuestion`: a list of questions, each
/// with its text and, if wanted, a header, options to choose from and
/// whether several may be chosen.
pub open spec fn ask_user_input() -> JsonView {
    let option = input_schema(
        JsonView::Object(seq![("label"@, string_type()), ("description"@, string_type())]),
        JsonView::Array(seq![JsonView::Str("label"@)]),
    );
    let question = input_schema(
        JsonView::Object(
            seq![
                ("question"@, string_type()),
                ("header"@, string_type()),
                (
                    "options"@,
                    JsonView::Object(
                        seq![("type"@, JsonView::Str("array"@)), ("items"@, option)],
                    ),
                ),
                ("multiSelect"@, JsonView::Object(seq![("type"@, JsonView::Str("boolean"@))])),
            ],
        ),
        JsonView::Array(seq![JsonView::Str("question"@)]),
    );
    input_schema(
        JsonView::Object(
            seq![
                (
                    "questions"@,
                    JsonView::Object(
                        seq![("type"@, JsonView::Str("array"@)), ("items"@, question)],
                    ),
                ),
            ],
        ),
        JsonView::Array(seq![JsonView::Str("questions"@)]),
    )
}

/// One tool: its name, what it does, and the schema of its input.
pub struct ToolSpec {
    pub name: &'static str,
    pub description: &'static str,
    pub input: Json,
}

/// The tools on offer: name, description and input schema of each, in the
/// order in which they are offered.
pub open spec fn tool_table() -> Seq<(Seq<char>, Seq<char>, JsonView)> {
    seq![
        (
            "Read"@,
            "Read a file from disk."@,
            input_schema(strings(seq!["file_path"@]), names(seq!["file_path"@])),
        ),
        (
            "Write"@,
            "Write a file to disk."@,
            input_schema(
                strings(seq!["file_path"@, "content"@]),
                names(seq!["file_path"@, "content"@]),
            ),
        ),
        (
            "Edit"@,
            "Replace a string in a file."@,
            input_schema(
                strings(seq!["file_path"@, "old_string"@, "new_string"@]),
                names(seq!["file_path"@, "old_string"@, "new_string"@]),
            ),
        ),
        (
            "Bash"@,
            "Run a shell command."@,
            input_schema(strings(seq!["command"@]), names(seq!["command"@])),
        ),
        (
            "Glob"@,
            "Find files matching a glob pattern."@,
            input_schema(strings(seq!["pattern"@, "path"@]), names(seq!["pattern"@])),
        ),
        (
            "Grep"@,
            "Search for text within files."@,
            input_schema(strings(seq!["pattern"@, "path"@]), names(seq!["pattern"@])),
        ),
        (
            "WebFetch"@,
            "Fetch a URL over HTTP."@,
            input_schema(strings(seq!["url"@]), names(seq!["url"@])),
        ),
        (
            "Task"@,
            "Create a sub-task description."@,
            input_schema(strings(seq!["description"@]), names(seq!["description"@])),
        ),
        ("AskUserQuestion"@, "Ask user clarifying questions."@, ask_user_input()),
    ]
}

/// The rows of a list of tools.
pub open spec fn table_view(tools: Seq<ToolSpec>) -> Seq<(Seq<char>, Seq<char>, JsonView)> {
    Seq::new(tools.len(), |i: int| (tools[i].name@, tools[i].description@, tools[i].input@))
}

/// A tool as the OpenAI protocol describes it: a function with its name,
/// description and parameters.
pub open spec fn openai_tool(row: (Seq<char>, Seq<char>, JsonView)) -> JsonView {
    JsonView::Object(
        seq![
            ("type"@, JsonView::Str("function"@)),
            (
                "function"@,
                JsonView::Object(
                    seq![
                        ("name"@, JsonView::Str(row.0)),
                        ("description"@, JsonView::Str(row.1)),
                        ("parameters"@, row.2),
                    ],
                ),
            ),
        ],
    )
}

/// A tool as the Anthropic protocol describes it: its name, description and
/// input schema.
pub open spec fn anthropic_tool(row: (Seq<char>, Seq<char>, JsonView)) -> JsonView {
    JsonView::Object(
        seq![
            ("name"@, JsonView::Str(row.0)),
            ("description"@, JsonView::Str(row.1)),
            ("input_schema"@, row.2),
        ],
    )
}

/// The tools on offer as the OpenAI protocol describes them.
pub open spec fn openai_tool_list() -> Seq<JsonView> {
    Seq::new(tool_table().len(), |i: int| openai_tool(tool_table()[i]))
}

/// The tools on offer as the Anthropic protocol describes them.
pub open spec fn anthropic_tool_list() -> Seq<JsonView> {
    Seq::new(tool_table().len(), |i: int| anthropic_tool(tool_table()[i]))
}

/// The schema of a string.
fn string_json() -> (r: Json)
    ensures
        r@ == string_type(),
{
    object1("type", Json::string("string"))
}

/// The schema of an object with the properties `properties`, of which
/// `required` must be there.
fn schema_json(properties: Json, required: Json) -> (r: Json)
    ensures
        r@ == input_schema(properties@, required@),
{
    object3("type", Json::string("object"), "properties", properties, "required", required)
}

/// The schema of the input of `AskUserQuestion`.
pub fn ask_user_schema() -> (r: Json)
    ensures
        r@ == ask_user_input(),
{
    let option = schema_json(
        object2("label", string_json(), "description", string_json()),
        array1(Json::string("label")),
    );
    let question = schema_json(
        object4(
            "question",
            string_json(),
            "header",
            string_json(),
            "options",
            object2("type", Json::string("array"), "items", option),
            "multiSelect",
            object1("type", Json::string("boolean")),
        ),
        array1(Json::string("question")),
    );
    schema_json(
        object1("questions", object2("type", Json::string("array"), "items", question)),
        array1(Json::string("questions")),
    )
}

/// A tool in the OpenAI shape: a function with its name, description and
/// parameters.
pub fn tool_def(name: &str, description: &str, parameters: Json) -> (r: Json)
    ensures
        r@ == openai_tool((name@, description@, parameters@)),
{
    object2(
        "type",
        Json::string("function"),
        "function",
        object3(
            "name",
            Json::string(name),
            "description",
            Json::string(description),
            "parameters",
            parameters,
        ),
    )
}

/// The schema of an object whose properties `properties` are all strings,
/// of which `required` must be there.
fn text_schema(properties: &[&str], required: &[&str]) -> (r: Json)
    ensures
        r@ == input_schema(strings(str_views(properties@)), names(str_views(required@))),
{
    let mut fields: Vec<(String, Json)> = Vec::new();
    let mut i: usize = 0;
    while i < properties.len()
        invariant
            i <= properties.len(),
            fields.len() == i,
            forall|k: int|
                0 <= k < i ==> (#[trigger] fields@[k]).0@ == properties@[k]@ && fields@[k].1@
                    == string_type(),
        decreases properties.len() - i,
    {
        fields.push(field(properties[i], string_json()));
        i += 1;
    }
    let mut list: Vec<Json> = Vec::new();
    let mut j: usize = 0;
    while j < required.len()
        invariant
            j <= required.len(),
            list.len() == j,
            forall|k: int| 0 <= k < j ==> (#[trigger] list@[k])@ == JsonView::Str(required@[k]@),
        decreases required.len() - j,
    {
        list.push(Json::string(required[j]));
        j += 1;
    }
    proof {
        lemma_object_view(fields);
        lemma_array_view(list);
        assert(field_views(fields@) =~= strings(str_views(properties@))->Object_0);
        assert(json_views(list@) =~= names(str_views(required@))->Array_0);
    }
    schema_json(Json::Object(fields), Json::Array(list))
}

/// One tool whose input is made of strings.
fn text_tool(
    name: &'static str,
    description: &'static str,
    properties: &[&str],
    required: &[&str],
) -> (r: ToolSpec)
    ensures
        r.name == name,
        r.description == description,
        r.input@ == input_schema(strings(str_views(properties@)), names(str_views(required@))),
{
    ToolSpec { name, description, input: text_schema(properties, required) }
}

/// The tools on offer, in order.
pub fn tool_specs() -> (r: Vec<ToolSpec>)
    ensures
        table_view(r@) == tool_table(),
{
    let mut tools: Vec<ToolSpec> = Vec::new();
    let properties = ["file_path"];
    let required = ["file_path"];
    assert(str_views(properties@) =~= seq!["file_path"@]);
    assert(str_views(required@) =~= seq!["file_path"@]);
    tools.push(text_tool("Read", "Read a file from disk.", &properties, &required));
    let properties = ["file_path", "content"];
    let required = ["file_path", "content"];
    assert(str_views(properties@) =~= seq!["file_path"@, "content"@]);
    assert(str_views(required@) =~= seq!["file_path"@, "content"@]);
    tools.push(text_tool("Write", "Write a file to disk.", &properties, &required));
    let properties = ["file_path", "old_string", "new_string"];
    let required = ["file_path", "old_string", "new_string"];
    assert(str_views(properties@) =~= seq!["file_path"@, "old_string"@, "new_string"@]);
    assert(str_views(required@) =~= seq!["file_path"@, "old_string"@, "new_string"@]);
    tools.push(text_tool("Edit", "Replace a string in a file.", &properties, &required));
    let properties = ["command"];
    let required = ["command"];
    assert(str_views(properties@) =~= seq!["command"@]);
    assert(str_views(required@) =~= seq!["command"@]);
    tools.push(text_tool("Bash", "Run a shell command.", &properties, &required));
    let properties = ["pattern", "path"];
    let required = ["pattern"];
    assert(str_views(properties@) =~= seq!["pattern"@, "path"@]);
    assert(str_views(required@) =~= seq!["pattern"@]);
    tools.push(text_tool("Glob", "Find files matching a glob pattern.", &properties, &required));
    let properties = ["pattern", "path"];
    let required = ["pattern"];
    assert(str_views(properties@) =~= seq!["pattern"@, "path"@]);
    assert(str_views(required@) =~= seq!["pattern"@]);
    tools.push(text_tool("Grep", "Search for text within files.", &properties, &required));
    let properties = ["url"];
    let required = ["url"];
    assert(str_views(properties@) =~= seq!["url"@]);
    assert(str_views(required@) =~= seq!["url"@]);
    tools.push(text_tool("WebFetch", "Fetch a URL over HTTP.", &properties, &required));
    let properties = ["description"];
    let required = ["description"];
    assert(str_views(properties@) =~= seq!["description"@]);
    assert(str_views(required@) =~= seq!["description"@]);
    tools.push(text_tool("Task", "Create a sub-task description.", &properties, &required));
    tools.push(
        ToolSpec {
            name: "AskUserQuestion",
            description: "Ask user clarifying questions.",
            input: ask_user_schema(),
        },
    );
    assert(table_view(tools@) =~= tool_table());
    tools
}

/// The tools on offer as the OpenAI protocol describes them.
pub fn openai_tools() -> (r: Vec<Json>)
    ensures
        json_views(r@) == openai_tool_list(),
{
    let tools = tool_specs();
    let mut out: Vec<Json> = Vec::new();
    let mut i: usize = 0;
    while i < tools.len()
        invariant
            i <= tools.len(),
            table_view(tools@) == tool_table(),
            out.len() == i,
            forall|k: int| 0 <= k < i ==> out@[k]@ == openai_tool(tool_table()[k]),
        decreases tools.len() - i,
    {
        let tool = &tools[i];
        assert(table_view(tools@)[i as int] == (tool.name@, tool.description@, tool.input@));
        out.push(tool_def(tool.name, tool.description, tool.input.clone()));
        i += 1;
    }
    assert(table_view(tools@).len() == tools.len());
    assert(json_views(out@) =~= openai_tool_list());
    out
}

/// The tools on offer as the Anthropic protocol describes them.
pub fn anthropic_tools() -> (r: Vec<Json>)
    ensures
        json_views(r@) == anthropic_tool_list(),
{
    let tools = tool_specs();
    let mut out: Vec<Json> = Vec::new();
    let mut i: usize = 0;
    while i < tools.len()
        invariant
            i <= tools.len(),
            table_view(tools@) == tool_table(),
            out.len() == i,
            forall|k: int| 0 <= k < i ==> out@[k]@ == anthropic_tool(tool_table()[k]),
        decreases tools.len() - i,
    {
        let tool = &tools[i];
        assert(table_view(tools@)[i as int] == (tool.name@, tool.description@, tool.input@));
        out.push(
            object3(
                "name",
                Json::string(tool.name),
                "description",
                Json::string(tool.description),
                "input_schema",
                tool.input.clone(),
            ),
        );
        i += 1;
    }
    assert(table_view(tools@).len() == tools.len());
    assert(json_views(out@) =~= anthropic_tool_list());
    out
}

} // verus!
