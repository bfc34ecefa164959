//! Data of the pipeline stages: chapters, summaries, plot segments, the
//! character library and scripts.

use vstd::prelude::*;

pub use crate::character::CharacterLibrary;
use crate::llm::types::JsonSchemaFormat;

verus! {

/// A chapter produced by splitting the novel.
#[derive(Debug, Clone)]
pub struct Chapter {
    /// Position of the chapter in the split result, from 0.
    pub index: usize,
    /// Chapter title.
    pub title: String,
    /// Chapter body.
    pub content: String,
}

/// The mathematical value of a [`Chapter`].
pub struct ChapterView {
    pub index: nat,
    pub title: Seq<char>,
    pub content: Seq<char>,
}

impl View for Chapter {
    type V = ChapterView;

    open spec fn view(&self) -> ChapterView {
        ChapterView { index: self.index as nat, title: self.title@, content: self.content@ }
    }
}

/// The views of a sequence of chapters.
pub open spec fn chapters_view(cs: Seq<Chapter>) -> Seq<ChapterView> {
    cs.map_values(|c: Chapter| c@)
}

} // verus!

verus! {

/// A character's profile.
#[derive(Debug, Clone)]
pub struct CharacterProfile {
    /// Character name.
    pub name: String,
    /// Who the character is: identity, temperament, relations.
    pub profile: String,
    /// Scenes the character appears in.
    pub scene: String,
    /// Voice setting for speech synthesis.
    pub guidance: String,
}

/// The mathematical value of a [`CharacterProfile`].
pub struct ProfileView {
    pub name: Seq<char>,
    pub profile: Seq<char>,
    pub scene: Seq<char>,
    pub guidance: Seq<char>,
}

impl View for CharacterProfile {
    type V = ProfileView;

    open spec fn view(&self) -> ProfileView {
        ProfileView {
            name: self.name@,
            profile: self.profile@,
            scene: self.scene@,
            guidance: self.guidance@,
        }
    }
}

impl CharacterProfile {
    /// A field-by-field copy.
    pub fn duplicate(&self) -> (r: CharacterProfile)
        ensures
            r@ == self@,
    {
        CharacterProfile {
            name: self.name.clone(),
            profile: self.profile.clone(),
            scene: self.scene.clone(),
            guidance: self.guidance.clone(),
        }
    }
}

/// The views of a sequence of profiles.
pub open spec fn profiles_view(ps: Seq<CharacterProfile>) -> Seq<ProfileView> {
    ps.map_values(|p: CharacterProfile| p@)
}

} // verus!

verus! {

/// A chapter's one- or two-sentence summary.
#[derive(Debug, Clone)]
pub struct ChapterSummary {
    /// Index of the summarised chapter.
    pub chapter_index: usize,
    /// The summary.
    pub summary: String,
}

/// A plot segment: a run of chapters that forms one arc of the story.
#[derive(Debug, Clone)]
pub struct PlotSegment {
    /// Segment index, from 0.
    pub index: usize,
    /// First chapter of the segment (inclusive).
    pub chapter_start: usize,
    /// Last chapter of the segment (inclusive).
    pub chapter_end: usize,
    /// Outline of the segment's plot.
    pub summary: String,
}

/// One line of the script.
#[derive(Debug, Clone)]
pub struct ScriptLine {
    /// Who speaks: a character's name, or the narrator.
    pub speaker: String,
    /// The spoken text, with delivery cues inlined.
    pub content: String,
    /// Director's notes on how the line is performed.
    pub description: String,
}

/// A paragraph: consecutive lines that are synthesised together.
#[derive(Debug, Clone)]
pub struct Paragraph {
    /// Paragraph index within its segment, from 0.
    pub index: usize,
    /// The paragraph's lines.
    pub lines: Vec<ScriptLine>,
}

/// The script of one plot segment.
pub struct Script {
    /// Index of the plot segment.
    pub segment_index: usize,
    /// The character library after this segment.
    pub characters: CharacterLibrary,
    /// The paragraphs, as the model grouped them.
    pub paragraphs: Vec<Paragraph>,
    /// Hand-off note to the next segment.
    pub handoff: String,
}

/// The model's answer when asked to split the plot into segments.
pub struct SegmentList {
    pub segments: Vec<PlotSegment>,
}

/// The model's answer when asked for a segment's script (without the
/// segment index).
pub struct ScriptBody {
    pub characters: Vec<CharacterProfile>,
    pub paragraphs: Vec<Paragraph>,
    pub handoff: String,
}

impl ScriptBody {
    /// Turns the answer into the segment's script: its characters are merged
    /// into `library`, and the script carries the merged library.
    pub fn into_script(self, segment_index: usize, library: &mut CharacterLibrary) -> (s: Script)
        ensures
            final(library)@ == crate::character::merge_spec(
                old(library)@,
                profiles_view(self.characters@),
            ),
            s.segment_index == segment_index,
            s.characters@ == final(library)@,
            s.characters.entries() == final(library).entries(),
            s.paragraphs == self.paragraphs,
            s.handoff == self.handoff,
    {
        library.merge(self.characters.as_slice());
        Script {
            segment_index,
            characters: library.duplicate(),
            paragraphs: self.paragraphs,
            handoff: self.handoff,
        }
    }
}

} // verus!

verus! {

/// The JSON schema of a segment's script: the updated character profiles,
/// the paragraphs of lines, and the hand-off note, all required, nothing
/// else allowed.
pub open spec fn script_schema_text() -> Seq<char> {
    r#"{"type":"object","properties":{"characters":{"type":"array","items":{"type":"object","properties":{"name":{"type":"string","description":"角色名"},"profile":{"type":"string","description":"角色身份、性格、关系简介"},"scene":{"type":"string","description":"出场场景"},"guidance":{"type":"string","description":"TTS音色设定，用于assistant消息"}},"required":["name","profile","scene","guidance"],"additionalProperties":false},"description":"本段涉及的角色档案（含更新后的角色库）"},"paragraphs":{"type":"array","items":{"type":"object","properties":{"index":{"type":"integer","description":"段落序号，从0开始"},"lines":{"type":"array","items":{"type":"object","properties":{"speaker":{"type":"string","description":"说话者角色名，旁白用\"旁白\""},"content":{"type":"string","description":"完整台词文本，需直接内联情绪/动作提示，例如：\"（紧张，深呼吸）呼……冷静，冷静。\""},"description":{"type":"string","description":"导演模式：从角色/场景/指导三维度刻画当前台词的演绎方式（100-300字）"}},"required":["speaker","content","description"],"additionalProperties":false},"description":"该段落包含的连续台词"}},"required":["index","lines"],"additionalProperties":false},"description":"按情绪/场景转变划分的段落分组"},"handoff":{"type":"string","description":"传递给下一段的剧情衔接说明"}},"required":["characters","paragraphs","handoff"],"additionalProperties":false}"#@
}

/// The JSON schema of a plot segmentation: a list of segments, each with its
/// index, first and last chapter, and summary.
pub open spec fn segment_schema_text() -> Seq<char> {
    r#"{"type":"object","properties":{"segments":{"type":"array","items":{"type":"object","properties":{"index":{"type":"integer","description":"段落序号，从0开始"},"chapter_start":{"type":"integer","description":"起始章节序号（含）"},"chapter_end":{"type":"integer","description":"结束章节序号（含）"},"summary":{"type":"string","description":"本段剧情概述"}},"required":["index","chapter_start","chapter_end","summary"],"additionalProperties":false},"description":"剧情段切分结果"}},"required":["segments"],"additionalProperties":false}"#@
}

/// The strict `json_schema` response format of a segment's script.
pub fn script_schema() -> (f: JsonSchemaFormat)
    ensures
        f.name@ == "script"@,
        f.description matches Some(d) && d@ == "评书朗读剧本，含角色库、段落分组与衔接话"@,
        f.schema@ == script_schema_text(),
        f.strict,
{
    JsonSchemaFormat {
        name: "script".to_string(),
        description: Some("评书朗读剧本，含角色库、段落分组与衔接话".to_string()),
        schema: r#"{"type":"object","properties":{"characters":{"type":"array","items":{"type":"object","properties":{"name":{"type":"string","description":"角色名"},"profile":{"type":"string","description":"角色身份、性格、关系简介"},"scene":{"type":"string","description":"出场场景"},"guidance":{"type":"string","description":"TTS音色设定，用于assistant消息"}},"required":["name","profile","scene","guidance"],"additionalProperties":false},"description":"本段涉及的角色档案（含更新后的角色库）"},"paragraphs":{"type":"array","items":{"type":"object","properties":{"index":{"type":"integer","description":"段落序号，从0开始"},"lines":{"type":"array","items":{"type":"object","properties":{"speaker":{"type":"string","description":"说话者角色名，旁白用\"旁白\""},"content":{"type":"string","description":"完整台词文本，需直接内联情绪/动作提示，例如：\"（紧张，深呼吸）呼……冷静，冷静。\""},"description":{"type":"string","description":"导演模式：从角色/场景/指导三维度刻画当前台词的演绎方式（100-300字）"}},"required":["speaker","content","description"],"additionalProperties":false},"description":"该段落包含的连续台词"}},"required":["index","lines"],"additionalProperties":false},"description":"按情绪/场景转变划分的段落分组"},"handoff":{"type":"string","description":"传递给下一段的剧情衔接说明"}},"required":["characters","paragraphs","handoff"],"additionalProperties":false}"#.to_string(),
        strict: true,
    }
}

/// The strict `json_schema` response format of a plot segmentation.
pub fn segment_schema() -> (f: JsonSchemaFormat)
    ensures
        f.name@ == "segments"@,
        f.description matches Some(d) && d@ == "剧情段切分结果"@,
        f.schema@ == segment_schema_text(),
        f.strict,
{
    JsonSchemaFormat {
        name: "segments".to_string(),
        description: Some("剧情段切分结果".to_string()),
        schema: r#"{"type":"object","properties":{"segments":{"type":"array","items":{"type":"object","properties":{"index":{"type":"integer","description":"段落序号，从0开始"},"chapter_start":{"type":"integer","description":"起始章节序号（含）"},"chapter_end":{"type":"integer","description":"结束章节序号（含）"},"summary":{"type":"string","description":"本段剧情概述"}},"required":["index","chapter_start","chapter_end","summary"],"additionalProperties":false},"description":"剧情段切分结果"}},"required":["segments"],"additionalProperties":false}"#.to_string(),
        strict: true,
    }
}

} // verus!
