use serde_json::Value;
use storyor::script::{script_schema, segment_schema};

fn parse(text: &str) -> Value {
    serde_json::from_str(text).unwrap()
}

fn required(v: &Value) -> Vec<String> {
    v["required"].as_array().unwrap().iter().map(|s| s.as_str().unwrap().to_string()).collect()
}

#[test]
fn script_schema_is_strict_and_complete() {
    let f = script_schema();
    assert_eq!(f.name, "script");
    assert_eq!(f.description.as_deref(), Some("评书朗读剧本，含角色库、段落分组与衔接话"));
    assert!(f.strict);
    let v = parse(&f.schema);
    assert_eq!(v["type"], "object");
    assert_eq!(v["additionalProperties"], false);
    assert_eq!(required(&v), vec!["characters", "paragraphs", "handoff"]);
    let character = &v["properties"]["characters"]["items"];
    assert_eq!(required(character), vec!["name", "profile", "scene", "guidance"]);
    let paragraph = &v["properties"]["paragraphs"]["items"];
    assert_eq!(required(paragraph), vec!["index", "lines"]);
    let line = &paragraph["properties"]["lines"]["items"];
    assert_eq!(required(line), vec!["speaker", "content", "description"]);
    assert_eq!(line["properties"]["speaker"]["description"], "说话者角色名，旁白用\"旁白\"");
    assert_eq!(v["properties"]["handoff"]["type"], "string");
}

#[test]
fn segment_schema_is_strict_and_complete() {
    let f = segment_schema();
    assert_eq!(f.name, "segments");
    assert_eq!(f.description.as_deref(), Some("剧情段切分结果"));
    assert!(f.strict);
    let v = parse(&f.schema);
    assert_eq!(required(&v), vec!["segments"]);
    let seg = &v["properties"]["segments"]["items"];
    assert_eq!(required(seg), vec!["index", "chapter_start", "chapter_end", "summary"]);
    assert_eq!(seg["properties"]["chapter_end"]["type"], "integer");
    assert_eq!(seg["additionalProperties"], false);
}
