use hollowreach::llm::{
    build_decision_prompt, build_system_prompt, clean_dialogue, clean_dialogue_output, decision_chat_prompt,
    dialogue_prompt, dialogue_retry_prompt, humanize_item, leak_marker, parse_decision, sentence_complete,
    DialogueCleaning, LlmAction, NearbyEntity, NpcContext, SurroundingsInfo,
};
use hollowreach::npc_ai::{
    build_context_hash, desired_anim, execute_npc_action, npc_turn, resolve_llm_action, NpcAction,
    NpcCurrentAnim, NpcDecisionState, NpcTurnQueue, TargetStatus, TurnFlags, TurnOutcome, WorldEntity,
};

fn roland() -> NpcContext {
    NpcContext {
        name: "Sir Roland".into(),
        role: "village guard".into(),
        traits: vec!["dutiful".into(), "suspicious".into()],
        backstory: String::new(),
        speech_style: "Curt.".into(),
        knowledge: vec![],
        goals: vec!["protect the village".into()],
        likes: vec![],
        dislikes: vec![],
        inventory: vec!["iron_key".into()],
        memories: String::new(),
    }
}

#[test]
fn parse_decision_reads_json_keyvalue_or_idles() {
    match parse_decision("```json\n{\"action\": \"speak\", \"text\": \"Halt!\"}\n```<eos>") {
        LlmAction::Speak(t) => assert_eq!(t, "Halt!"),
        other => panic!("unexpected {other:?}"),
    }
    match parse_decision("{\"action\": \"give\", \"target\": \"wanderer\", \"item\": \"bread\", \"text\": \"Eat.\"}") {
        LlmAction::Give { target_name, item_id, text } => {
            assert_eq!(target_name, "wanderer");
            assert_eq!(item_id, "bread");
            assert_eq!(text, "Eat.");
        },
        other => panic!("unexpected {other:?}"),
    }
    match parse_decision("action: move_to\ntarget: Well") {
        LlmAction::MoveTo { target_name } => assert_eq!(target_name, "Well"),
        other => panic!("unexpected {other:?}"),
    }
    assert!(matches!(parse_decision("I think I will wait."), LlmAction::Idle));
}

#[test]
fn dialogue_output_is_cleaned() {
    assert_eq!(clean_dialogue_output("Sir Roland: Halt there.", "Sir Roland"), "Halt there.");
    assert_eq!(clean_dialogue_output("  \"Well met, traveler.\"\nsecond line", "Greta"), "Well met, traveler.");
    assert_eq!(clean_dialogue_output("Traveler: hello<end_of_turn>", "Greta"), "hello");
    assert_eq!(clean_dialogue_output("<|channel>thinking... Final Answer: Good day!", "Greta"), "Good day!");
    assert_eq!(clean_dialogue_output("<|channel>thought\n\nFine weather.", "Greta"), "Fine weather.");
    assert_eq!(clean_dialogue_output("<|channel>no answer here", "Greta"), "");
    assert!(matches!(clean_dialogue("<|channel>no answer here", "Greta"), DialogueCleaning::NoAnswer));
    assert_eq!(clean_dialogue_output("Reply in character, please.", "Greta"), "");
    match clean_dialogue("I shall NEVER NARRATE again.", "Greta") {
        DialogueCleaning::Leak { marker, reply } => {
            assert_eq!(marker, "never narrate");
            assert_eq!(reply, "I shall NEVER NARRATE again.");
        },
        _ => panic!("expected a leak"),
    }
    assert_eq!(leak_marker("no narration here"), Some(8));
    assert_eq!(leak_marker("hello"), None);
}

#[test]
fn prompts_are_built_from_the_personality() {
    let npc = roland();
    let sys = build_system_prompt(&npc);
    assert_eq!(sys, "Sir Roland, village guard in Hollowreach.\nCurt.\nTraits: dutiful, suspicious\nCarrying: iron key");
    let p = dialogue_prompt(&npc, "Hello");
    assert_eq!(p, format!("<start_of_turn>user\n{sys}\n\nTraveler: Hello<end_of_turn>\n<start_of_turn>model\nSir Roland: "));
    let r = dialogue_retry_prompt(&npc, "Hi");
    assert!(r.contains("A traveler greets you with: Hi. How do you greet them back?"));
    let s = SurroundingsInfo {
        nearby_entities: vec![NearbyEntity { name: "Well".into(), entity_type: "prop".into(), entity: 3 }],
        player_nearby: true,
    };
    let d = build_decision_prompt(&npc, &s);
    assert!(d.starts_with("[CHARACTER]\nSir Roland, village guard.\nTraits: dutiful, suspicious\nSpeech style: Curt.\nGoals: protect the village\nCarrying: iron key\n\n[SURROUNDINGS]\n- Well (prop)\n- A young wanderer is nearby.\n\n[DECIDE]"));
    assert!(d.ends_with("\"item\": \"ITEM_ID\", \"text\": \"DIALOGUE\"}"));
    let c = decision_chat_prompt(&npc, &s);
    assert_eq!(c, format!("<start_of_turn>user\n{d}<end_of_turn>\n<start_of_turn>model\n"));
    assert_eq!(humanize_item("iron_key_old"), "iron key old");
}

#[test]
fn generation_never_stops_on_trimmed_text() {
    assert!(!sentence_complete("Hello there. "));
    assert!(!sentence_complete("Hi.\n"));
    assert!(!sentence_complete("ok"));
}

fn named() -> Vec<(u64, String)> {
    vec![(3, "Well".to_string()), (4, "Greta".to_string())]
}

#[test]
fn llm_actions_resolve_to_entities() {
    let a = resolve_llm_action(LlmAction::MoveTo { target_name: "well".into() }, &named(), Some(1));
    assert!(matches!(a, NpcAction::MoveTo(3)));
    let a = resolve_llm_action(LlmAction::MoveTo { target_name: "castle".into() }, &named(), Some(1));
    assert!(matches!(a, NpcAction::Idle));
    let a = resolve_llm_action(
        LlmAction::SpeakTo { target_name: "nobody".into(), text: "Hey".into() },
        &named(),
        Some(1),
    );
    assert!(matches!(a, NpcAction::Speak(ref t) if t == "Hey"));
    let a = resolve_llm_action(
        LlmAction::Give { target_name: "The Wanderer".into(), item_id: "bread".into(), text: "".into() },
        &named(),
        Some(1),
    );
    assert!(matches!(a, NpcAction::Give { target: 1, .. }));
}

#[test]
fn turn_queue_goes_round() {
    let mut q = NpcTurnQueue::new();
    q.enqueue(&[10, 11, 12]);
    assert!(q.initialized);
    assert_eq!(q.current(), Some(10));
    q.advance();
    q.advance();
    assert_eq!(q.current(), Some(12));
    q.advance();
    assert_eq!(q.current(), Some(10));
    q.remove(10);
    assert_eq!(q.current(), Some(11));
    q.advance();
    q.remove(12);
    assert_eq!(q.current(), Some(11));
    assert!(!q.queue.contains(&12));
}

#[test]
fn npc_turn_requests_decision_only_on_change() {
    let mut q = NpcTurnQueue::new();
    q.enqueue(&[10, 11]);
    let mut st = NpcDecisionState::new();
    let flags = TurnFlags {
        is_interacting: false,
        has_pending_decision: false,
        is_activated: true,
        llm_ready: true,
        has_personality: true,
    };
    assert_eq!(npc_turn(&mut q, &mut st, flags, 77), TurnOutcome::RequestDecision);
    assert_eq!(st.last_context_hash, 77);
    assert_eq!(npc_turn(&mut q, &mut st, flags, 77), TurnOutcome::Unchanged);
    let busy = TurnFlags { is_interacting: true, ..flags };
    assert_eq!(npc_turn(&mut q, &mut st, busy, 78), TurnOutcome::Waiting);
    assert_eq!(st.last_context_hash, 77);
    let no_model = TurnFlags { llm_ready: false, ..flags };
    assert_eq!(npc_turn(&mut q, &mut st, no_model, 79), TurnOutcome::ContextChanged);
}

fn near(id: u64, name: Option<&str>, state: Option<&str>) -> WorldEntity {
    WorldEntity { id, name: name.map(|n| n.to_string()), state: state.map(|s| s.to_string()) }
}

#[test]
fn context_hash_ignores_the_npc_itself() {
    let a = vec![near(1, Some("Well"), Some("full")), near(2, None, None)];
    let b = vec![near(1, Some("Well"), Some("full")), near(2, None, None), near(5, Some("Me"), Some("idle"))];
    assert_eq!(build_context_hash(5, &a), build_context_hash(5, &b));
    let c = vec![near(1, Some("Bucket"), Some("full")), near(2, None, None)];
    assert_ne!(build_context_hash(5, &a), build_context_hash(5, &c));
}

#[test]
fn context_hash_follows_entity_states() {
    let before = vec![near(1, Some("Chest"), Some("locked")), near(2, None, None)];
    let after = vec![near(1, Some("Chest"), Some("open")), near(2, None, None)];
    assert_ne!(build_context_hash(5, &before), build_context_hash(5, &after));
    let mut q = NpcTurnQueue::new();
    q.enqueue(&[5]);
    let mut st = NpcDecisionState::new();
    let flags = TurnFlags {
        is_interacting: false,
        has_pending_decision: false,
        is_activated: true,
        llm_ready: true,
        has_personality: true,
    };
    assert_eq!(npc_turn(&mut q, &mut st, flags, build_context_hash(5, &before)), TurnOutcome::RequestDecision);
    assert_eq!(npc_turn(&mut q, &mut st, flags, build_context_hash(5, &before)), TurnOutcome::Unchanged);
    st.current_action = Some(NpcAction::Idle);
    assert_eq!(npc_turn(&mut q, &mut st, flags, build_context_hash(5, &after)), TurnOutcome::RequestDecision);
    assert!(st.current_action.is_none());
}

#[test]
fn actions_run_until_done() {
    let mut st = NpcDecisionState::new();
    st.current_action = Some(NpcAction::MoveTo(3));
    assert_eq!(desired_anim(&st.current_action), NpcCurrentAnim::Walk);
    let out = execute_npc_action(&mut st, 9, false, None, TargetStatus::Away);
    assert!(out.chat.is_none() && st.current_action.is_some());
    execute_npc_action(&mut st, 9, false, None, TargetStatus::Reached);
    assert!(st.current_action.is_none());
    assert_eq!(desired_anim(&st.current_action), NpcCurrentAnim::Idle);

    st.current_action = Some(NpcAction::Give { target: 1, item_id: "bread".into(), text: "Eat.".into() });
    let name = "Greta".to_string();
    let out = execute_npc_action(&mut st, 9, false, Some(&name), TargetStatus::Reached);
    assert_eq!(out.give, Some((9, 1, "bread".to_string())));
    assert_eq!(out.chat, Some(("Greta".to_string(), "Eat.".to_string())));

    st.current_action = Some(NpcAction::SpeakTo { target: 4, text: "Morning.".into() });
    let out = execute_npc_action(&mut st, 9, false, None, TargetStatus::Gone);
    assert_eq!(out.look_at, Some(4));
    assert_eq!(out.chat, Some(("NPC".to_string(), "Morning.".to_string())));
    assert!(out.dialogue.is_none());

    st.current_action = Some(NpcAction::Speak("Quiet today.".into()));
    let out = execute_npc_action(&mut st, 9, false, Some(&name), TargetStatus::Gone);
    assert!(st.current_action.is_none());
    assert!(out.chat.is_none() && out.look_at.is_none() && out.give.is_none());
    assert_eq!(out.dialogue, Some(("Greta".to_string(), "Quiet today.".to_string())));
    st.current_action = Some(NpcAction::Speak("Hm.".into()));
    let out = execute_npc_action(&mut st, 9, true, Some(&name), TargetStatus::Gone);
    assert!(out.dialogue.is_none() && st.current_action.is_none());
}
