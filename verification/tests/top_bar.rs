use idle_dungeons::top_bar::{depth_label, top_bar_text, GameState, TopBarField};

#[test]
fn depth_label_per_screen() {
    let depths = vec![1u32, 2, 7];
    assert_eq!(depth_label(GameState::Summary, Some(12), None, 0, 3), "12");
    assert_eq!(depth_label(GameState::Summary, None, None, 0, 3), "—");
    assert_eq!(depth_label(GameState::Running, None, Some(&depths), 1, 3), "2");
    assert_eq!(depth_label(GameState::Running, None, Some(&depths), 99, 3), "7");
    assert_eq!(depth_label(GameState::Running, None, Some(&vec![]), 0, 3), "—");
    assert_eq!(depth_label(GameState::Running, None, None, 0, 3), "—");
    assert_eq!(depth_label(GameState::Title, Some(12), None, 0, 3), "3");
    assert_eq!(depth_label(GameState::Build, None, None, 0, 40), "40");
}

#[test]
fn chip_texts() {
    assert_eq!(top_bar_text(TopBarField::Gold, 1234, 5, 2, 6, "9"), "1234");
    assert_eq!(top_bar_text(TopBarField::Salvage, 1234, 5, 2, 6, "9"), "5");
    assert_eq!(top_bar_text(TopBarField::SkillSlots, 1234, 5, 2, 6, "9"), "2/6");
    assert_eq!(top_bar_text(TopBarField::SkillSlots, 0, 0, 0, 0, "9"), "0/1");
    assert_eq!(top_bar_text(TopBarField::Depth, 0, 0, 0, 0, "—"), "—");
}
