use hollowreach::inventory::{give_item, inventory_listing, move_item_to_end, NpcInventory, PlayerInventory};
use hollowreach::npc_memory::{
    memory_file_path, player_speech_summarizable, record_npc_action, record_npc_observation, record_npc_spoke,
    record_player_speech, summarize_player_speech, NpcMemory, MAX_ENTRIES,
};

fn items(v: &[&str]) -> Vec<String> {
    v.iter().map(|s| s.to_string()).collect()
}

#[test]
fn added_item_is_carried_and_removed_once() {
    let mut inv = PlayerInventory::new();
    assert!(!inv.has("bread"));
    inv.add("bread".into());
    inv.add("key".into());
    inv.add("bread".into());
    assert!(inv.has("bread"));
    assert!(inv.remove("bread"));
    assert_eq!(inv.items, items(&["key", "bread"]));
    assert!(!inv.remove("apple"));
    assert_eq!(inv.items, items(&["key", "bread"]));
}

#[test]
fn add_then_remove_restores_inventory() {
    let mut inv = NpcInventory::new();
    inv.add("map".into());
    let before = inv.items.clone();
    inv.add("coin".into());
    assert!(inv.remove("coin"));
    assert_eq!(inv.items, before);
}

#[test]
fn giving_moves_exactly_one_copy() {
    let mut sender = items(&["apple", "coin", "apple"]);
    let mut receiver = items(&["bread"]);
    assert!(give_item(&mut sender, &mut receiver, &"apple".to_string()));
    assert_eq!(sender, items(&["coin", "apple"]));
    assert_eq!(receiver, items(&["bread", "apple"]));
    assert!(!give_item(&mut sender, &mut receiver, &"sword".to_string()));
    assert_eq!(sender, items(&["coin", "apple"]));
    assert_eq!(receiver, items(&["bread", "apple"]));
}

#[test]
fn gift_without_receiver_goes_back_to_the_end() {
    let mut own = items(&["apple", "coin"]);
    assert!(move_item_to_end(&mut own, &"apple".to_string()));
    assert_eq!(own, items(&["coin", "apple"]));
    assert!(!move_item_to_end(&mut own, &"pear".to_string()));
}

#[test]
fn inventory_listing_text() {
    assert_eq!(inventory_listing(&[]), "(empty)");
    assert_eq!(inventory_listing(&items(&["iron_key", "bread"])), "- iron_key\n- bread");
}

#[test]
fn memory_clamps_importance_and_keeps_capacity() {
    let mut m = NpcMemory::new();
    m.record("low".into(), 0, 1, None);
    m.record("high".into(), 200, 2, None);
    assert_eq!(m.entries[0].importance, 1);
    assert_eq!(m.entries[1].importance, 10);
    for i in 0..150u64 {
        m.record(format!("event {i}"), 5, 10 + i, None);
    }
    assert_eq!(m.entries.len(), MAX_ENTRIES);
    assert!(m.entries.iter().any(|e| e.text == "high"));
    assert!(!m.entries.iter().any(|e| e.text == "low"));
    for w in m.entries.windows(2) {
        assert!(w[0].timestamp <= w[1].timestamp);
    }
}

#[test]
fn top_memories_most_important_then_newest() {
    let mut m = NpcMemory::new();
    m.record("a".into(), 3, 1, None);
    m.record("b".into(), 7, 2, None);
    m.record("c".into(), 7, 3, None);
    m.record("d".into(), 1, 4, None);
    let top: Vec<&str> = m.top_memories(3).iter().map(|e| e.text.as_str()).collect();
    assert_eq!(top, vec!["c", "b", "a"]);
    assert_eq!(m.top_memories(10).len(), 4);
    assert_eq!(m.format_for_prompt(2), "[MEMORY]\n- c\n- b");
    assert_eq!(NpcMemory::new().format_for_prompt(5), "");
}

#[test]
fn player_speech_summaries() {
    assert_eq!(summarize_player_speech("  hello there  "), "The wanderer said: \"hello there\"");
    let long = "I have travelled very far across the mountains to find the old tower ruins";
    assert!(player_speech_summarizable(long));
    assert_eq!(
        summarize_player_speech(long),
        "The wanderer said: \"I have travelled very far across the mountains to find...\""
    );
    let mut m = NpcMemory::new();
    record_player_speech(&mut m, "Where is the smith?", 42);
    assert_eq!(m.entries[0].text, "The wanderer said: \"Where is the smith?\"");
    assert_eq!(m.entries[0].importance, 6);
    assert_eq!(m.entries[0].related_entity.as_deref(), Some("the wanderer"));
}

#[test]
fn npc_memory_records() {
    let mut m = NpcMemory::new();
    record_npc_spoke(&mut m, "Sir Roland", "Halt, who goes there?", 5);
    record_npc_action(&mut m, "Walked to the well", 6);
    record_npc_observation(&mut m, "The chest was opened", 7, Some("the wanderer".into()));
    assert_eq!(m.entries[0].text, "I said: \"Halt, who goes there?\"");
    assert_eq!(m.entries[0].importance, 3);
    assert_eq!(m.entries[0].related_entity.as_deref(), Some("Sir Roland"));
    assert_eq!(m.entries[1].importance, 4);
    assert_eq!(m.entries[2].importance, 5);
    assert_eq!(memory_file_path("roland"), "saves/roland_memory.json");
}
