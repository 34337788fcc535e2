use hollowreach::collections::{FlagSet, StringMap};
use hollowreach::interactions::{
    apply_interaction_event, evaluate_conditions, execute_reaction, get_available_interactions,
    parse_condition_type, parse_effect_type, Condition, ConditionType, EffectOutput, EffectWorld,
    EntityIdMap, Interaction, InteractionEvent, ReactionEffect, ReactionEffectType,
};

fn make_flag_set() -> FlagSet {
    FlagSet::new()
}

fn make_inventory(items: &[&str]) -> Vec<String> {
    items.iter().map(|s| s.to_string()).collect()
}

fn cond(t: ConditionType) -> Condition {
    Condition { condition_type: t, state: None, item: None, flag: None, entity: None }
}

fn effect(t: ReactionEffectType) -> ReactionEffect {
    ReactionEffect {
        effect_type: t,
        anim: None,
        asset: None,
        new_state: None,
        entity: None,
        item: None,
        flag: None,
        prompt: None,
        text: None,
        enabled: None,
    }
}

#[test]
fn empty_conditions_always_pass() {
    assert!(evaluate_conditions(&[], "locked", &[], &make_flag_set(), None));
}

#[test]
fn entity_state_match() {
    let conds = vec![Condition {
        condition_type: ConditionType::EntityState,
        state: Some("locked".into()),
        item: None,
        flag: None,
        entity: None,
    }];
    assert!(evaluate_conditions(&conds, "locked", &[], &make_flag_set(), None));
    assert!(!evaluate_conditions(&conds, "open", &[], &make_flag_set(), None));
}

#[test]
fn actor_has_item_specific() {
    let conds = vec![Condition {
        condition_type: ConditionType::ActorHasItem,
        state: None,
        item: Some("iron_key".into()),
        flag: None,
        entity: None,
    }];
    assert!(evaluate_conditions(&conds, "locked", &make_inventory(&["iron_key"]), &make_flag_set(), None,));
    assert!(!evaluate_conditions(&conds, "locked", &make_inventory(&["gold_key"]), &make_flag_set(), None,));
    assert!(!evaluate_conditions(&conds, "locked", &[], &make_flag_set(), None));
}

#[test]
fn actor_has_item_wildcard() {
    let conds = vec![Condition {
        condition_type: ConditionType::ActorHasItem,
        state: None,
        item: Some("*".into()),
        flag: None,
        entity: None,
    }];
    assert!(evaluate_conditions(&conds, "any", &make_inventory(&["bread"]), &make_flag_set(), None,));
    assert!(!evaluate_conditions(&conds, "any", &[], &make_flag_set(), None));
}

#[test]
fn flag_set_and_not_set() {
    let mut flags = make_flag_set();
    flags.insert("tavern_door_unlocked".into());

    let set_cond = vec![Condition {
        condition_type: ConditionType::FlagSet,
        state: None,
        item: None,
        flag: Some("tavern_door_unlocked".into()),
        entity: None,
    }];
    assert!(evaluate_conditions(&set_cond, "", &[], &flags, None));

    let not_set_cond = vec![Condition {
        condition_type: ConditionType::FlagNotSet,
        state: None,
        item: None,
        flag: Some("tavern_door_unlocked".into()),
        entity: None,
    }];
    assert!(!evaluate_conditions(&not_set_cond, "", &[], &flags, None));

    let missing_cond = vec![Condition {
        condition_type: ConditionType::FlagNotSet,
        state: None,
        item: None,
        flag: Some("nonexistent".into()),
        entity: None,
    }];
    assert!(evaluate_conditions(&missing_cond, "", &[], &flags, None));
}

#[test]
fn other_entity_state() {
    let mut states = StringMap::new();
    states.insert("lever_01".into(), "pulled".into());

    let conds = vec![Condition {
        condition_type: ConditionType::OtherEntityState,
        state: Some("pulled".into()),
        item: None,
        flag: None,
        entity: Some("lever_01".into()),
    }];
    assert!(evaluate_conditions(&conds, "", &[], &make_flag_set(), Some(&states)));
    assert!(!evaluate_conditions(&conds, "", &[], &make_flag_set(), None));

    let mut wrong = StringMap::new();
    wrong.insert("lever_01".into(), "default".into());
    assert!(!evaluate_conditions(&conds, "", &[], &make_flag_set(), Some(&wrong)));
}

#[test]
fn multiple_conditions_all_must_pass() {
    let conds = vec![
        Condition {
            condition_type: ConditionType::EntityState,
            state: Some("locked".into()),
            item: None,
            flag: None,
            entity: None,
        },
        Condition {
            condition_type: ConditionType::ActorHasItem,
            state: None,
            item: Some("iron_key".into()),
            flag: None,
            entity: None,
        },
    ];
    assert!(evaluate_conditions(&conds, "locked", &make_inventory(&["iron_key"]), &make_flag_set(), None,));
    assert!(!evaluate_conditions(&conds, "locked", &[], &make_flag_set(), None,));
    assert!(!evaluate_conditions(&conds, "open", &make_inventory(&["iron_key"]), &make_flag_set(), None,));
}

#[test]
fn filters_interactions_by_conditions() {
    let interactions = vec![
        Interaction { id: "examine".into(), label: "Examine".into(), conditions: vec![], reaction: vec![] },
        Interaction {
            id: "unlock".into(),
            label: "Unlock".into(),
            conditions: vec![
                Condition {
                    condition_type: ConditionType::EntityState,
                    state: Some("locked".into()),
                    item: None,
                    flag: None,
                    entity: None,
                },
                Condition {
                    condition_type: ConditionType::ActorHasItem,
                    state: None,
                    item: Some("iron_key".into()),
                    flag: None,
                    entity: None,
                },
            ],
            reaction: vec![],
        },
        Interaction {
            id: "open".into(),
            label: "Open".into(),
            conditions: vec![Condition {
                condition_type: ConditionType::EntityState,
                state: Some("unlocked".into()),
                item: None,
                flag: None,
                entity: None,
            }],
            reaction: vec![],
        },
    ];

    let available = get_available_interactions(&interactions, "locked", &[], &make_flag_set(), None);
    assert_eq!(available.len(), 1);
    assert_eq!(available[0].id, "examine");

    let available =
        get_available_interactions(&interactions, "locked", &make_inventory(&["iron_key"]), &make_flag_set(), None);
    assert_eq!(available.len(), 2);
    assert!(available.iter().any(|i| i.id == "examine"));
    assert!(available.iter().any(|i| i.id == "unlock"));

    let available = get_available_interactions(&interactions, "unlocked", &[], &make_flag_set(), None);
    assert_eq!(available.len(), 2);
    assert!(available.iter().any(|i| i.id == "examine"));
    assert!(available.iter().any(|i| i.id == "open"));
}

#[test]
fn execute_reaction_returns_all_effects() {
    let mut sound = effect(ReactionEffectType::Sound);
    sound.asset = Some("lock_click".into());
    let mut change = effect(ReactionEffectType::StateChange);
    change.new_state = Some("unlocked".into());
    let effects = vec![sound, change];
    let result = execute_reaction(&effects);
    assert_eq!(result.len(), 2);
    assert_eq!(result[0].effect_type, ReactionEffectType::Sound);
    assert_eq!(result[1].effect_type, ReactionEffectType::StateChange);
}

#[test]
fn condition_and_effect_names_parse() {
    assert_eq!(parse_condition_type("flag_not_set"), Some(ConditionType::FlagNotSet));
    assert_eq!(parse_condition_type("other_entity_state"), Some(ConditionType::OtherEntityState));
    assert_eq!(parse_condition_type("Flag_Set"), None);
    assert_eq!(parse_effect_type("collider_change"), Some(ReactionEffectType::ColliderChange));
    assert_eq!(parse_effect_type("target_state_change"), Some(ReactionEffectType::TargetStateChange));
    assert_eq!(parse_effect_type("explode"), None);
}

fn world() -> EffectWorld {
    EffectWorld {
        flags: FlagSet::new(),
        entity_ids: EntityIdMap(vec![("door_tavern".to_string(), 7), ("lever_01".to_string(), 9)]),
        states: vec![(7, "locked".to_string()), (9, "default".to_string())],
        actor_items: Some(vec!["iron_key".to_string()]),
    }
}

#[test]
fn unlocking_a_door_applies_every_effect_in_order() {
    let mut w = world();
    let mut remove = effect(ReactionEffectType::RemoveItem);
    remove.item = Some("iron_key".into());
    let mut change = effect(ReactionEffectType::StateChange);
    change.new_state = Some("unlocked".into());
    let mut flag = effect(ReactionEffectType::SetFlag);
    flag.flag = Some("tavern_door_unlocked".into());
    let mut sound = effect(ReactionEffectType::Sound);
    sound.asset = Some("lock_click".into());
    let mut lever = effect(ReactionEffectType::TargetStateChange);
    lever.entity = Some("lever_01".into());
    lever.new_state = Some("pulled".into());
    let event = InteractionEvent {
        target: 7,
        target_id: "door_tavern".into(),
        actor: 1,
        interaction_id: "unlock".into(),
        effects: vec![remove, change, flag, sound, lever],
    };
    let out = apply_interaction_event(&mut w, &event);
    assert_eq!(w.actor_items, Some(vec![]));
    assert_eq!(w.states, vec![(7, "unlocked".to_string()), (9, "pulled".to_string())]);
    assert!(w.flags.contains("tavern_door_unlocked"));
    assert_eq!(out.len(), 1);
    assert!(matches!(&out[0], EffectOutput::PlaySound(s) if s.asset == "lock_click"));
}

#[test]
fn set_flag_then_clear_flag_decides_flag_conditions() {
    let mut w = world();
    let mut set = effect(ReactionEffectType::SetFlag);
    set.flag = Some("gate_open".into());
    let event = InteractionEvent {
        target: 7,
        target_id: "door_tavern".into(),
        actor: 1,
        interaction_id: "x".into(),
        effects: vec![set],
    };
    apply_interaction_event(&mut w, &event);
    let flag_set = vec![Condition { flag: Some("gate_open".into()), ..cond(ConditionType::FlagSet) }];
    let flag_not_set = vec![Condition { flag: Some("gate_open".into()), ..cond(ConditionType::FlagNotSet) }];
    assert!(evaluate_conditions(&flag_set, "", &[], &w.flags, None));
    assert!(!evaluate_conditions(&flag_not_set, "", &[], &w.flags, None));

    let mut clear = effect(ReactionEffectType::ClearFlag);
    clear.flag = Some("gate_open".into());
    let event = InteractionEvent {
        target: 7,
        target_id: "door_tavern".into(),
        actor: 1,
        interaction_id: "x".into(),
        effects: vec![clear],
    };
    apply_interaction_event(&mut w, &event);
    assert!(!evaluate_conditions(&flag_set, "", &[], &w.flags, None));
    assert!(evaluate_conditions(&flag_not_set, "", &[], &w.flags, None));
}

#[test]
fn output_effects_leave_the_world_alone() {
    let mut w = world();
    let mut text = effect(ReactionEffectType::InfoText);
    text.text = Some("A tattered map.".into());
    let mut prompt = effect(ReactionEffectType::DialoguePrompt);
    prompt.prompt = Some("Greet the wanderer.".into());
    let mut collider = effect(ReactionEffectType::ColliderChange);
    collider.enabled = Some(false);
    let mut anim = effect(ReactionEffectType::ActorAnimation);
    anim.anim = Some("interact".into());
    let event = InteractionEvent {
        target: 7,
        target_id: "door_tavern".into(),
        actor: 1,
        interaction_id: "open".into(),
        effects: vec![text, prompt, collider, anim],
    };
    let out = apply_interaction_event(&mut w, &event);
    assert_eq!(w.states, world().states);
    assert_eq!(w.actor_items, world().actor_items);
    assert_eq!(out.len(), 4);
    assert!(matches!(&out[0], EffectOutput::ShowText(t) if t.text == "A tattered map." && !t.is_dialogue_prompt));
    assert!(matches!(&out[1], EffectOutput::ShowText(t) if t.is_dialogue_prompt));
    assert!(matches!(&out[2], EffectOutput::ColliderChange { target_id, enabled: false } if target_id == "door_tavern"));
    assert!(matches!(&out[3], EffectOutput::PlayAnimation(a) if a.entity == 1 && a.anim == "interact"));
}

#[test]
fn spawned_item_satisfies_has_item_condition() {
    let mut w = world();
    let mut spawn = effect(ReactionEffectType::SpawnItem);
    spawn.item = Some("map".into());
    let event = InteractionEvent {
        target: 7,
        target_id: "door_tavern".into(),
        actor: 1,
        interaction_id: "search".into(),
        effects: vec![spawn],
    };
    apply_interaction_event(&mut w, &event);
    let has_map = vec![Condition { item: Some("map".into()), ..cond(ConditionType::ActorHasItem) }];
    let items = w.actor_items.clone().unwrap();
    assert_eq!(items, vec!["iron_key".to_string(), "map".to_string()]);
    assert!(evaluate_conditions(&has_map, "", &items, &w.flags, None));
}
