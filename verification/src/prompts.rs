//! Prompt templates: the built-in defaults and where templates are looked
//! up.

use vstd::prelude::*;

use crate::error::StoryorError;
use crate::text::str_eq;

verus! {

/// The storyteller's system prompt.
pub const STORY_TELLER_TEMPLATE: &'static str = r#"你是一位经验丰富的评书艺人，擅长将小说改编为评书风格的朗读剧本。

## 你的任务
根据给定的章节原文，生成评书风格的剧本，包含：
1. **角色库**：本段涉及的所有角色档案（含音色设定 guidance，用于 TTS 合成）
2. **段落分组**：按情绪/场景转变将台词划分为若干段落（paragraphs），每段是一次 TTS 调用单位
3. **衔接话**：传递给下一段的剧情衔接说明（handoff）

## 风格要求
- 旁白用评书口吻："话说……""且说……""按下……不表"
- 台词保留角色性格，可适度口语化
- 段落划分依据情绪起伏、场景转换，而非机械按角色切换
- 每段台词行数不超过 {{max_paragraph_lines}} 行

## 输出格式
严格输出 JSON：
```json
{
  "characters": [{"name":"角色名","profile":"简介","scene":"场景","guidance":"TTS音色设定"}],
  "paragraphs": [{"index":0,"lines":[{"speaker":"旁白","content":"台词","tags":["情绪标签"]}]}],
  "handoff": "下一段剧情衔接说明"
}
```
"#;

/// The chapter-summary prompt.
pub const SUMMARY_TEMPLATE: &'static str = r#"请阅读以下章节并生成 1-2 句话的剧情摘要。

## 章节标题
{{title}}

## 章节正文
{{content}}

## 要求
- 概括核心剧情推进与关键事件
- 1-2 句话，不超过 80 字
- 不要评价，只陈述剧情
"#;

/// The plot-segmentation prompt.
pub const SEGMENT_TEMPLATE: &'static str = r#"你是剧情结构分析师。请将以下章节摘要按剧情弧线切分为若干剧情段。

## 章节摘要
{{summaries}}

## 切分原则
- 每段应是一个相对完整的剧情弧线（起承转合）
- 段落边界应在剧情转折点，而非机械按章切分
- 每段可跨多章，也可仅含一章
- 段落序号从 0 开始连续递增

## 输出格式
严格输出 JSON：
```json
{
  "segments": [
    {"index":0,"chapter_start":0,"chapter_end":3,"summary":"本段剧情概述"}
  ]
}
```
"#;

/// The script prompt.
pub const SCRIPT_TEMPLATE: &'static str = r#"请根据以下信息生成本剧情段的评书剧本。

## 本段剧情概述
{{segment_summary}}

## 上段衔接话
{{prev_handoff}}

## 当前角色库
{{characters}}

## 本段章节原文
{{chapter_text}}

## 要求
1. 生成评书风格剧本，旁白用评书口吻
2. 更新角色库：新增本段出现的角色，已有角色可更新音色设定
3. 按情绪/场景转变划分段落，每段不超过 {{max_paragraph_lines}} 行台词
4. 末尾给出 handoff：传递给下一段的剧情衔接说明

## 输出格式
严格输出 JSON：
```json
{
  "characters": [{"name":"角色名","profile":"简介","scene":"场景","guidance":"TTS音色设定"}],
  "paragraphs": [{"index":0,"lines":[{"speaker":"旁白","content":"台词","tags":["情绪标签"]}]}],
  "handoff": "下一段剧情衔接说明"
}
```
"#;

/// The built-in template of a name, if there is one.
pub open spec fn default_template_spec(name: Seq<char>) -> Option<Seq<char>> {
    if name == "story_teller.md"@ {
        Some(STORY_TELLER_TEMPLATE@)
    } else if name == "summary.md"@ {
        Some(SUMMARY_TEMPLATE@)
    } else if name == "segment.md"@ {
        Some(SEGMENT_TEMPLATE@)
    } else if name == "script.md"@ {
        Some(SCRIPT_TEMPLATE@)
    } else {
        None
    }
}

proof fn lemma_template_names_distinct()
    ensures
        "story_teller.md"@ != "summary.md"@,
        "story_teller.md"@ != "segment.md"@,
        "story_teller.md"@ != "script.md"@,
        "summary.md"@ != "segment.md"@,
        "summary.md"@ != "script.md"@,
        "segment.md"@ != "script.md"@,
{
    reveal_strlit("story_teller.md");
    reveal_strlit("summary.md");
    reveal_strlit("segment.md");
    reveal_strlit("script.md");
    assert("story_teller.md"@.len() != "summary.md"@.len());
    assert("story_teller.md"@.len() != "segment.md"@.len());
    assert("story_teller.md"@.len() != "script.md"@.len());
    assert("summary.md"@[1] != "segment.md"@[1]);
    assert("summary.md"@.len() != "script.md"@.len());
    assert("segment.md"@.len() != "script.md"@.len());
}

/// The built-in template of `name`: one of `story_teller.md`, `summary.md`,
/// `segment.md` and `script.md`.
pub fn default_template(name: &str) -> (t: Option<String>)
    ensures
        match t {
            Some(s) => default_template_spec(name@) == Some(s@),
            None => default_template_spec(name@) is None,
        },
        name@ == "story_teller.md"@ ==> (t matches Some(s) && s@ == STORY_TELLER_TEMPLATE@),
        name@ == "summary.md"@ ==> (t matches Some(s) && s@ == SUMMARY_TEMPLATE@),
        name@ == "segment.md"@ ==> (t matches Some(s) && s@ == SEGMENT_TEMPLATE@),
        name@ == "script.md"@ ==> (t matches Some(s) && s@ == SCRIPT_TEMPLATE@),
        name@ != "story_teller.md"@ && name@ != "summary.md"@ && name@ != "segment.md"@ && name@
            != "script.md"@ ==> t is None,
{
    proof {
        lemma_template_names_distinct();
    }
    if str_eq(name, "story_teller.md") {
        Some(STORY_TELLER_TEMPLATE.to_owned())
    } else if str_eq(name, "summary.md") {
        Some(SUMMARY_TEMPLATE.to_owned())
    } else if str_eq(name, "segment.md") {
        Some(SEGMENT_TEMPLATE.to_owned())
    } else if str_eq(name, "script.md") {
        Some(SCRIPT_TEMPLATE.to_owned())
    } else {
        None
    }
}

/// Each built-in template is found under its own file name: the
/// storyteller's prompt under `story_teller.md`, the summary request under
/// `summary.md`, the segmentation request under `segment.md` and the script
/// request under `script.md`; no other name has one.
pub proof fn law_builtin_template_names(name: Seq<char>)
    ensures
        name == "story_teller.md"@ ==> default_template_spec(name) == Some(STORY_TELLER_TEMPLATE@),
        name == "summary.md"@ ==> default_template_spec(name) == Some(SUMMARY_TEMPLATE@),
        name == "segment.md"@ ==> default_template_spec(name) == Some(SEGMENT_TEMPLATE@),
        name == "script.md"@ ==> default_template_spec(name) == Some(SCRIPT_TEMPLATE@),
        name != "story_teller.md"@ && name != "summary.md"@ && name != "segment.md"@ && name
            != "script.md"@ ==> default_template_spec(name) is None,
{
    lemma_template_names_distinct();
}

/// The template of `name` when no file provides it: the built-in one, or a
/// prompt error naming the missing template.
pub fn builtin_or_missing(name: &str) -> (r: Result<String, StoryorError>)
    ensures
        match default_template_spec(name@) {
            Some(t) => r matches Ok(s) && s@ == t,
            None => r matches Err(StoryorError::Prompt(m)) && m@ == "提示词模板缺失: "@ + name@,
        },
{
    match default_template(name) {
        Some(t) => Ok(t),
        None => {
            let mut m = "提示词模板缺失: ".to_owned();
            m.append(name);
            Err(StoryorError::Prompt(m))
        },
    }
}

/// The workspace's prompt directory.
pub fn prompts_dir() -> (d: String)
    ensures
        d@ == "prompts"@,
{
    "prompts".to_owned()
}

/// The names of the built-in templates, in the order they are written out.
pub fn template_names() -> (v: Vec<&'static str>)
    ensures
        v@.len() == 4,
        v@[0]@ == "story_teller.md"@,
        v@[1]@ == "summary.md"@,
        v@[2]@ == "segment.md"@,
        v@[3]@ == "script.md"@,
{
    vec!["story_teller.md", "summary.md", "segment.md", "script.md"]
}

} // verus!
