use lumora::classification::{
    category_rank, classify_lowered, classify_prompt, contains_keyword, CATEGORY_NAMES,
};

#[test]
fn prioritizes_explicit_output_type() {
    assert_eq!(classify_prompt("护肤产品成分科普长图海报"), "海报设计");
    assert_eq!(classify_prompt("电商护肤产品白底主图"), "产品电商");
    assert_eq!(
        classify_prompt("mobile app dashboard user interface"),
        "UI/网页"
    );
}

#[test]
fn classifies_subjects_and_visual_styles() {
    assert_eq!(classify_prompt("一只在咖啡杯旁打盹的橘猫"), "动物宠物");
    assert_eq!(classify_prompt("写实女性人像摄影"), "人像写真");
    assert_eq!(
        classify_prompt("cinematic mountain landscape at sunset"),
        "风景建筑"
    );
    assert_eq!(classify_prompt("二次元女孩插画"), "插画动漫");
    assert_eq!(
        classify_prompt("3D abstract fluid render in Blender"),
        "3D 设计"
    );
}

#[test]
fn ascii_keywords_require_word_boundaries() {
    assert_eq!(classify_prompt("a happy orange cat"), "动物宠物");
    assert_eq!(classify_prompt("unmapped abstract request"), "其他");
}

#[test]
fn keeps_category_order_stable() {
    assert!(category_rank("海报设计") < category_rank("其他"));
}

#[test]
fn prompts_are_lowered_before_they_are_classified() {
    assert_eq!(classify_prompt("A HAPPY ORANGE CAT"), "动物宠物");
    assert_eq!(classify_lowered("A HAPPY ORANGE CAT"), "其他");
}

#[test]
fn keywords_end_where_words_end() {
    assert!(contains_keyword("a cat, sleeping", "cat"));
    assert!(!contains_keyword("concatenate", "cat"));
    assert!(contains_keyword("cat", "cat"));
    assert!(contains_keyword("一只橘猫", "猫"));
    assert!(!contains_keyword("", "cat"));
}

#[test]
fn ranks_are_places_in_the_list() {
    for (place, name) in CATEGORY_NAMES.iter().enumerate() {
        assert_eq!(category_rank(name), place);
    }
    assert_eq!(category_rank("其他"), CATEGORY_NAMES.len());
    assert_eq!(category_rank("?"), CATEGORY_NAMES.len());
}

#[test]
fn letter_case_leaves_the_category_as_it_is() {
    for prompt in ["A cute Cat on a sofa", "UI design for a Web page", "ΟΔΟΣ a poster", "随便 Xyz"] {
        let category = classify_prompt(prompt);
        assert_eq!(classify_prompt(&prompt.to_ascii_uppercase()), category);
        assert_eq!(classify_prompt(&prompt.to_ascii_lowercase()), category);
    }
}
