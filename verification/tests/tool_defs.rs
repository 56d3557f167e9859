use open_cowork::json::{stringify_value, Json};
use open_cowork::tool_defs::{
    anthropic_tools, ask_user_schema, openai_tools, tool_def, tool_specs,
};

const NAMES: [&str; 9] = [
    "Read",
    "Write",
    "Edit",
    "Bash",
    "Glob",
    "Grep",
    "WebFetch",
    "Task",
    "AskUserQuestion",
];

#[test]
fn tools_are_offered_in_their_order() {
    let names: Vec<&str> = tool_specs().iter().map(|t| t.name).collect();
    assert_eq!(names, NAMES);
    let openai: Vec<String> = openai_tools()
        .iter()
        .map(|t| {
            t.child2("function", "name")
                .and_then(Json::as_str)
                .unwrap()
                .to_string()
        })
        .collect();
    assert_eq!(openai, NAMES);
    let anthropic: Vec<String> = anthropic_tools()
        .iter()
        .map(|t| t.get("name").and_then(Json::as_str).unwrap().to_string())
        .collect();
    assert_eq!(anthropic, NAMES);
}

#[test]
fn each_provider_gets_its_shape() {
    let openai = openai_tools();
    let anthropic = anthropic_tools();
    for (o, a) in openai.iter().zip(anthropic.iter()) {
        assert_eq!(o.get("type").and_then(Json::as_str), Some("function"));
        assert_eq!(o.child2("function", "description"), a.get("description"));
        assert_eq!(o.child2("function", "parameters"), a.get("input_schema"));
        assert!(a.get("type").is_none());
    }
    assert_eq!(
        stringify_value(&openai[0]),
        "{\"function\":{\"description\":\"Read a file from disk.\",\"name\":\"Read\",\"parameters\":{\"properties\":{\"file_path\":{\"type\":\"string\"}},\"required\":[\"file_path\"],\"type\":\"object\"}},\"type\":\"function\"}"
    );
    assert_eq!(
        stringify_value(&anthropic[4]),
        "{\"description\":\"Find files matching a glob pattern.\",\"input_schema\":{\"properties\":{\"path\":{\"type\":\"string\"},\"pattern\":{\"type\":\"string\"}},\"required\":[\"pattern\"],\"type\":\"object\"},\"name\":\"Glob\"}"
    );
}

#[test]
fn required_fields_are_named() {
    let required = |index: usize| -> Vec<String> {
        anthropic_tools()[index]
            .child2("input_schema", "required")
            .and_then(Json::as_array)
            .unwrap()
            .iter()
            .map(|v| v.as_str().unwrap().to_string())
            .collect()
    };
    assert_eq!(required(1), vec!["file_path", "content"]);
    assert_eq!(required(2), vec!["file_path", "old_string", "new_string"]);
    assert_eq!(required(3), vec!["command"]);
    assert_eq!(required(5), vec!["pattern"]);
    assert_eq!(required(6), vec!["url"]);
    assert_eq!(required(7), vec!["description"]);
    assert_eq!(required(8), vec!["questions"]);
}

#[test]
fn questions_to_the_user_have_their_schema() {
    let schema = ask_user_schema();
    let question = schema.path(&["properties", "questions", "items"]).unwrap();
    assert_eq!(
        question.get("required"),
        Some(&Json::Array(vec![Json::string("question")]))
    );
    assert_eq!(
        question
            .path(&["properties", "multiSelect", "type"])
            .and_then(Json::as_str),
        Some("boolean")
    );
    assert_eq!(
        question
            .path(&[
                "properties",
                "options",
                "items",
                "properties",
                "label",
                "type"
            ])
            .and_then(Json::as_str),
        Some("string")
    );
    assert_eq!(
        question
            .path(&["properties", "options", "items", "required", "0"])
            .and_then(Json::as_str),
        Some("label")
    );
    assert_eq!(
        question
            .path(&["properties", "header", "type"])
            .and_then(Json::as_str),
        Some("string")
    );
}

#[test]
fn a_tool_definition_wraps_its_parameters() {
    assert_eq!(
        stringify_value(&tool_def("N", "D", Json::Null)),
        "{\"function\":{\"description\":\"D\",\"name\":\"N\",\"parameters\":null},\"type\":\"function\"}"
    );
}
