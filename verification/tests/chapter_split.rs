use storyor::novel::{split_default, ChapterSplitter};

#[test]
fn split_multiple_chapters() {
    let text = "第1章 开端\n内容一\n第2章 发展\n内容二\n第3章 高潮\n内容三";
    let chapters = split_default(text).unwrap();
    assert_eq!(chapters.len(), 3);
    assert_eq!(chapters[0].title, "第1章 开端");
    assert_eq!(chapters[1].title, "第2章 发展");
    assert!(chapters[0].content.contains("内容一"));
}

#[test]
fn split_with_preface() {
    let text = "序言内容\n第1章 开端\n正文";
    let chapters = split_default(text).unwrap();
    assert_eq!(chapters.len(), 2);
    assert_eq!(chapters[0].title, "序言");
    assert_eq!(chapters[1].title, "第1章 开端");
}

#[test]
fn split_no_chapter_titles() {
    let text = "这是一段没有章节标题的文本。";
    let chapters = split_default(text).unwrap();
    assert_eq!(chapters.len(), 1);
    assert_eq!(chapters[0].title, "全文");
}

#[test]
fn split_empty_content() {
    let text = "第1章 空\n第2章 有内容\n正文";
    let chapters = split_default(text).unwrap();
    assert_eq!(chapters.len(), 2);
    assert_eq!(chapters[0].content, "");
    assert_eq!(chapters[1].content, "正文");
}

#[test]
fn custom_regex_english() {
    let text = "Chapter 1\nA\nChapter 2\nB";
    let splitter = ChapterSplitter::new(r"Chapter \d+").unwrap();
    let chapters = splitter.split(text);
    assert_eq!(chapters.len(), 2);
    assert_eq!(chapters[0].title, "Chapter 1");
}

#[test]
fn split_numbers_chapters_in_order() {
    let text = "楔子\n第一章 起\n甲\n第二章 承\n乙";
    let chapters = split_default(text).unwrap();
    assert_eq!(chapters.len(), 3);
    for (i, c) in chapters.iter().enumerate() {
        assert_eq!(c.index, i);
    }
    assert_eq!(chapters[0].content, "楔子");
    assert_eq!(chapters[2].content, "乙");
}

#[test]
fn split_trims_unicode_whitespace() {
    let text = "\u{3000}第1章 标题\u{3000}\n\u{3000}正文\u{3000}\n";
    let chapters = split_default(text).unwrap();
    assert_eq!(chapters.len(), 1);
    assert_eq!(chapters[0].title, "第1章 标题");
    assert_eq!(chapters[0].content, "正文");
}

#[test]
fn split_blank_preface_is_dropped() {
    let text = "  \n第1章 开端\n正文";
    let chapters = split_default(text).unwrap();
    assert_eq!(chapters.len(), 1);
    assert_eq!(chapters[0].title, "第1章 开端");
}

#[test]
fn invalid_pattern_is_a_regex_error() {
    let r = ChapterSplitter::new("第[");
    assert!(matches!(r, Err(storyor::error::StoryorError::Regex(_))));
}

#[test]
fn split_two_titles_on_one_line() {
    let text = "第1章第2章 同行\n正文";
    let chapters = split_default(text).unwrap();
    assert_eq!(chapters.len(), 2);
    assert_eq!(chapters[0].title, "第1章第2章 同行");
    assert_eq!(chapters[0].content, "");
    assert_eq!(chapters[1].title, "第1章第2章 同行");
    assert_eq!(chapters[1].content, "正文");
}
