use hollowreach::context::{
    build_area_context, context_hash, str_le, AreaContext, AreaInfo, EntityId, EntityRecord, EntitySnapshot,
    EntityState, InArea, InteractionList, NpcCurrentAction, NpcRecord, PlayerInventory, PlayerRecord,
    PlayerSnapshot,
};

#[test]
fn context_hash_deterministic() {
    let ctx = AreaContext {
        area_id: "courtyard".into(),
        area_label: "Village Courtyard".into(),
        area_description: "A courtyard.".into(),
        entities: vec![EntitySnapshot {
            id: "barrel_01".into(),
            state: "intact".into(),
            position: [10, 0, 30],
            interactions: vec!["examine".into()],
        }],
        npcs: vec![],
        player: Some(PlayerSnapshot { position: [0, 10, 0], inventory: vec!["iron_key".into()] }),
    };
    let h1 = context_hash(&ctx);
    let h2 = context_hash(&ctx);
    assert_eq!(h1, h2);
}

#[test]
fn context_hash_changes_on_mutation() {
    let ctx1 = AreaContext {
        area_id: "courtyard".into(),
        area_label: "Village Courtyard".into(),
        area_description: "A courtyard.".into(),
        entities: vec![EntitySnapshot {
            id: "barrel_01".into(),
            state: "intact".into(),
            position: [10, 0, 30],
            interactions: vec!["examine".into()],
        }],
        npcs: vec![],
        player: None,
    };
    let mut ctx2 = ctx1.clone();
    ctx2.entities[0].state = "broken".into();
    assert_ne!(context_hash(&ctx1), context_hash(&ctx2));
}

fn here(area: &str) -> InArea {
    InArea(Some(area.to_string()))
}

fn entity(id: &str, area: Option<&str>, interactions: Option<Vec<&str>>) -> EntityRecord {
    EntityRecord {
        id: EntityId(id.into()),
        state: EntityState("idle".into()),
        position: [1, 2, 3],
        in_area: InArea(area.map(|a| a.to_string())),
        interactions: interactions.map(|l| InteractionList(l.into_iter().map(|s| s.to_string()).collect())),
    }
}

#[test]
fn area_context_gathers_sorted_members_of_the_area() {
    let areas = vec![
        AreaInfo { id: "tavern".into(), label: "Tavern".into(), description: "Warm.".into() },
        AreaInfo { id: "courtyard".into(), label: "Village Courtyard".into(), description: "Open.".into() },
    ];
    let entities = vec![
        entity("well", Some("courtyard"), Some(vec!["draw"])),
        entity("barrel_01", Some("courtyard"), None),
        entity("bar", Some("tavern"), None),
        entity("cart", None, None),
    ];
    let npcs = vec![
        NpcRecord {
            id: EntityId("roland".into()),
            state: EntityState("idle".into()),
            position: [0, 0, 0],
            in_area: here("courtyard"),
            name: "Sir Roland".into(),
            action: None,
        },
        NpcRecord {
            id: EntityId("greta".into()),
            state: EntityState("busy".into()),
            position: [5, 0, 5],
            in_area: here("courtyard"),
            name: "Greta".into(),
            action: Some(NpcCurrentAction("sweeping".into())),
        },
    ];
    let players = vec![
        PlayerRecord { position: [9, 9, 9], in_area: here("tavern"), inventory: None },
        PlayerRecord {
            position: [0, 10, 0],
            in_area: here("courtyard"),
            inventory: Some(PlayerInventory(vec!["iron_key".into()])),
        },
    ];
    let ctx = build_area_context("courtyard", &areas, &entities, &npcs, &players).unwrap();
    assert_eq!(ctx.area_label, "Village Courtyard");
    assert_eq!(ctx.area_description, "Open.");
    let ids: Vec<&str> = ctx.entities.iter().map(|e| e.id.as_str()).collect();
    assert_eq!(ids, vec!["barrel_01", "well"]);
    assert!(ctx.entities[0].interactions.is_empty());
    assert_eq!(ctx.entities[1].interactions, vec!["draw".to_string()]);
    let npc_ids: Vec<&str> = ctx.npcs.iter().map(|n| n.id.as_str()).collect();
    assert_eq!(npc_ids, vec!["greta", "roland"]);
    assert_eq!(ctx.npcs[0].current_action, "sweeping");
    assert_eq!(ctx.npcs[1].current_action, "idle");
    let player = ctx.player.unwrap();
    assert_eq!(player.position, [0, 10, 0]);
    assert_eq!(player.inventory, vec!["iron_key".to_string()]);
}

#[test]
fn unknown_area_has_no_context() {
    let areas = vec![AreaInfo { id: "tavern".into(), label: "Tavern".into(), description: String::new() }];
    assert!(build_area_context("courtyard", &areas, &[], &[], &[]).is_none());
    let ctx = build_area_context("tavern", &areas, &[], &[], &[]).unwrap();
    assert!(ctx.entities.is_empty() && ctx.npcs.is_empty() && ctx.player.is_none());
}

#[test]
fn string_order_is_byte_order() {
    assert!(str_le("barrel", "barrel_01"));
    assert!(!str_le("barrel_01", "barrel"));
    assert!(str_le("Zebra", "apple"));
    assert!(str_le("same", "same"));
    assert!(!str_le("b", "a"));
}

#[test]
fn gather_order_does_not_change_the_context() {
    let areas = vec![AreaInfo { id: "courtyard".into(), label: "Courtyard".into(), description: "Open.".into() }];
    let a = entity("well", Some("courtyard"), Some(vec!["draw"]));
    let b = entity("barrel_01", Some("courtyard"), None);
    let c = entity("anvil", Some("courtyard"), None);
    let d = entity("bar", Some("tavern"), None);
    let first = vec![a.clone(), b.clone(), c.clone(), d.clone()];
    let second = vec![d, c, a, b];
    let one = build_area_context("courtyard", &areas, &first, &[], &[]).unwrap();
    let two = build_area_context("courtyard", &areas, &second, &[], &[]).unwrap();
    let ids_one: Vec<&str> = one.entities.iter().map(|e| e.id.as_str()).collect();
    let ids_two: Vec<&str> = two.entities.iter().map(|e| e.id.as_str()).collect();
    assert_eq!(ids_one, vec!["anvil", "barrel_01", "well"]);
    assert_eq!(ids_one, ids_two);
    assert_eq!(context_hash(&one), context_hash(&two));
}
