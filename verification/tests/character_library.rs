use storyor::script::{CharacterLibrary, CharacterProfile};

fn profile(name: &str, guidance: &str) -> CharacterProfile {
    CharacterProfile {
        name: name.to_string(),
        profile: "测试".to_string(),
        scene: "测试场景".to_string(),
        guidance: guidance.to_string(),
    }
}

#[test]
fn merge_adds_new_character() {
    let mut lib = CharacterLibrary::new();
    lib.merge(&[profile("张三", "低沉")]);
    assert_eq!(lib.len(), 1);
    assert_eq!(lib.get("张三").unwrap().guidance, "低沉");
}

#[test]
fn merge_updates_existing() {
    let mut lib = CharacterLibrary::new();
    lib.merge(&[profile("张三", "低沉")]);
    lib.merge(&[profile("张三", "激昂")]);
    assert_eq!(lib.len(), 1);
    assert_eq!(lib.get("张三").unwrap().guidance, "激昂");
}

#[test]
fn merge_library_combines() {
    let mut lib = CharacterLibrary::new();
    lib.merge(&[profile("张三", "低沉")]);
    let mut other = CharacterLibrary::new();
    other.merge(&[profile("李四", "清亮")]);
    lib.merge_library(&other);
    assert_eq!(lib.len(), 2);
}

#[test]
fn render_empty_library() {
    let lib = CharacterLibrary::new();
    assert!(lib.is_empty());
    assert_eq!(lib.render_for_prompt(), "（暂无角色）");
}

#[test]
fn render_sorted_by_name() {
    let mut lib = CharacterLibrary::new();
    lib.merge(&[profile("b", "二"), profile("a", "一")]);
    assert_eq!(
        lib.render_for_prompt(),
        "- a：测试\n  场景：测试场景\n  音色：一\n- b：测试\n  场景：测试场景\n  音色：二"
    );
}

#[test]
fn merge_library_prefers_other() {
    let mut lib = CharacterLibrary::new();
    lib.merge(&[profile("张三", "低沉"), profile("王五", "沙哑")]);
    let mut other = CharacterLibrary::new();
    other.merge(&[profile("张三", "高亢")]);
    lib.merge_library(&other);
    assert_eq!(lib.len(), 2);
    assert_eq!(lib.get("张三").unwrap().guidance, "高亢");
    assert_eq!(lib.get("王五").unwrap().guidance, "沙哑");
    assert!(lib.get("赵六").is_none());
}

#[test]
fn merge_same_name_twice_in_one_batch_keeps_last() {
    let mut lib = CharacterLibrary::new();
    lib.merge(&[profile("张三", "一"), profile("张三", "二")]);
    assert_eq!(lib.len(), 1);
    assert_eq!(lib.get("张三").unwrap().guidance, "二");
}

#[test]
fn merging_the_same_profiles_twice_changes_nothing() {
    let batch = [profile("张三", "低沉"), profile("李四", "清亮"), profile("张三", "激昂")];
    let mut once = CharacterLibrary::new();
    once.merge(&[profile("王五", "沙哑")]);
    once.merge(&batch);
    let rendered = once.render_for_prompt();
    once.merge(&batch);
    assert_eq!(once.len(), 3);
    assert_eq!(once.render_for_prompt(), rendered);
}

#[test]
fn every_character_is_held_under_its_name() {
    let mut lib = CharacterLibrary::new();
    lib.merge(&[profile("张三", "低沉"), profile("李四", "清亮")]);
    for p in lib.profiles() {
        assert_eq!(lib.get(&p.name).unwrap().name, p.name);
    }
    assert_eq!(lib.profiles().len(), 2);
    assert_eq!(lib.profiles()[0].name, "张三".min("李四"));
}
