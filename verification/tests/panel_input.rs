use hollowreach::panel::{
    panel_widgets, PanelWidget,
    apply_panel_command, panel_button, panel_dialogue_timer_finished, panel_escape, panel_transition,
    CursorChange, PanelAction, PanelButtonAction, PanelContent, PanelRequest, PanelState, PanelVisual,
};
use hollowreach::interactions::Interaction;
use hollowreach::pause_menu::{game_not_paused, pause_button, toggle_pause, EscapeClaims, PauseAction, PauseEffect, PauseState};
use hollowreach::text_input::{
    key_to_char, text_input_frame, KeyCode, KeyEvent, LogicalKey, TextInputOutcome, TextInputState,
};

fn dialogue() -> PanelContent {
    PanelContent::Dialogue { speaker: "Sir Roland".into(), text: "Halt!".into() }
}

#[test]
fn open_close_and_replace_panel() {
    let mut s = PanelState::new();
    let mut ti = TextInputState::new();
    let u = apply_panel_command(&mut s, &mut ti, PanelAction::Open(dialogue()));
    assert!(u.show_content && s.visual == PanelVisual::Open && s.dialogue_timer);
    let u = apply_panel_command(&mut s, &mut ti, PanelAction::Open(PanelContent::TextInput { target_npc: 3 }));
    assert!(u.dismiss && s.visual == PanelVisual::Closing);
    let u = panel_transition(&mut s, &mut ti, true);
    assert!(u.show_content && u.clear_content && u.cursor == CursorChange::Release);
    assert!(matches!(s.content, PanelContent::TextInput { target_npc: 3 }));
    assert!(ti.active && ti.target_npc == Some(3));
    let u = apply_panel_command(&mut s, &mut ti, PanelAction::Close);
    assert!(u.dismiss && u.cursor == CursorChange::Grab);
    panel_transition(&mut s, &mut ti, true);
    assert!(matches!(s.content, PanelContent::Empty) && s.visual == PanelVisual::Hidden);
    assert!(!ti.active);
}

#[test]
fn last_command_wins_while_closing() {
    let mut s = PanelState::new();
    let mut ti = TextInputState::new();
    apply_panel_command(&mut s, &mut ti, PanelAction::Open(dialogue()));
    apply_panel_command(&mut s, &mut ti, PanelAction::Close);
    apply_panel_command(&mut s, &mut ti, PanelAction::Open(dialogue()));
    apply_panel_command(&mut s, &mut ti, PanelAction::Close);
    assert!(panel_transition(&mut s, &mut ti, false) == hollowreach::panel::PanelUpdate {
        show_content: false,
        clear_content: false,
        dismiss: false,
        cursor: CursorChange::Keep
    });
    panel_transition(&mut s, &mut ti, true);
    assert_eq!(s.visual, PanelVisual::Hidden);
}

#[test]
fn escape_and_buttons_on_npc_menu() {
    let mut s = PanelState::new();
    let mut ti = TextInputState::new();
    let menu = PanelContent::NpcMenu { npc: 4, name: "Greta".into(), role: "baker".into(), greeting: "Hi".into() };
    apply_panel_command(&mut s, &mut ti, PanelAction::Open(menu));
    let r = panel_escape(&s);
    assert_eq!(r.len(), 4);
    assert!(matches!(r[0], PanelRequest::ConsumeEscape));
    assert!(matches!(r[1], PanelRequest::ReleaseNpc(4)));
    assert!(matches!(r[2], PanelRequest::Send(PanelAction::Close)));
    let r = panel_button(&s, PanelButtonAction::Say);
    assert!(matches!(&r[0], PanelRequest::Send(PanelAction::Open(PanelContent::TextInput { target_npc: 4 }))));
    let r = panel_button(&s, PanelButtonAction::Nevermind);
    assert_eq!(r.len(), 3);
    assert!(panel_escape(&PanelState::new()).is_empty());
}

#[test]
fn dialogue_timer_closes_once() {
    let mut s = PanelState::new();
    let mut ti = TextInputState::new();
    apply_panel_command(&mut s, &mut ti, PanelAction::Open(dialogue()));
    assert!(matches!(panel_dialogue_timer_finished(&mut s), Some(PanelAction::Close)));
    assert!(panel_dialogue_timer_finished(&mut s).is_none());
}

fn press(code: KeyCode, ch: &str) -> KeyEvent {
    KeyEvent { key_code: code, logical_key: LogicalKey::Character(ch.into()), pressed: true }
}

fn special(code: KeyCode) -> KeyEvent {
    KeyEvent { key_code: code, logical_key: LogicalKey::Other, pressed: true }
}

#[test]
fn typing_and_submitting_a_line() {
    let mut ti = TextInputState::new();
    assert!(matches!(text_input_frame(&mut ti, &[press(KeyCode::KeyA, "a")]), TextInputOutcome::Inactive));
    hollowreach::text_input::activate_text_input(&mut ti, 9);
    assert!(matches!(text_input_frame(&mut ti, &[press(KeyCode::KeyE, "e")]), TextInputOutcome::SkippedActivationFrame));
    let events = [
        press(KeyCode::KeyH, "h"),
        press(KeyCode::KeyI, "i"),
        KeyEvent { key_code: KeyCode::Space, logical_key: LogicalKey::Space, pressed: true },
        press(KeyCode::KeyX, "x"),
        special(KeyCode::Backspace),
    ];
    assert!(matches!(text_input_frame(&mut ti, &events), TextInputOutcome::Typed));
    assert_eq!(ti.current_text, "hi ");
    match text_input_frame(&mut ti, &[special(KeyCode::Enter), press(KeyCode::KeyZ, "z")]) {
        TextInputOutcome::Submitted(Some(ev)) => {
            assert_eq!(ev.npc, 9);
            assert_eq!(ev.text, "hi");
        },
        other => panic!("unexpected outcome {other:?}"),
    }
    assert_eq!(ti.current_text, "");
    assert!(matches!(text_input_frame(&mut ti, &[special(KeyCode::Escape)]), TextInputOutcome::Cancelled(Some(9))));
    assert!(!ti.active);
}

#[test]
fn typing_stops_at_the_byte_limit() {
    let mut ti = TextInputState::new();
    hollowreach::text_input::activate_text_input(&mut ti, 1);
    text_input_frame(&mut ti, &[]);
    let many: Vec<KeyEvent> = (0..300).map(|_| press(KeyCode::KeyA, "a")).collect();
    text_input_frame(&mut ti, &many);
    assert_eq!(ti.current_text.len(), 256);
}

#[test]
fn keys_to_characters() {
    assert_eq!(key_to_char(KeyCode::KeyA, false), Some('a'));
    assert_eq!(key_to_char(KeyCode::KeyA, true), Some('A'));
    assert_eq!(key_to_char(KeyCode::Digit1, true), Some('!'));
    assert_eq!(key_to_char(KeyCode::Escape, false), None);
}

#[test]
fn escape_toggles_pause_only_when_free() {
    let free = EscapeClaims { npc_panel_open: false, prop_panel_open: false, text_input_active: false, escape_consumed: false };
    let mut p = PauseState::new();
    assert!(toggle_pause(&mut p, free));
    assert!(p.paused && !game_not_paused(&p));
    assert!(toggle_pause(&mut p, free));
    assert!(!p.paused);
    let busy = EscapeClaims { text_input_active: true, ..free };
    assert!(!toggle_pause(&mut p, busy));
    assert!(!p.paused);
    p.paused = true;
    assert_eq!(pause_button(&mut p, PauseAction::Save), PauseEffect::SaveUnavailable);
    assert!(p.paused);
    assert_eq!(pause_button(&mut p, PauseAction::Resume), PauseEffect::Resumed);
    assert!(!p.paused);
    assert_eq!(pause_button(&mut p, PauseAction::Quit), PauseEffect::Exit);
}

#[test]
fn panel_layouts() {
    let menu = PanelContent::PropMenu {
        prop: 2,
        name: "Old Chest".into(),
        subtitle: "Locked".into(),
        interactions: vec![
            Interaction { id: "examine".into(), label: "Examine".into(), conditions: vec![], reaction: vec![] },
            Interaction { id: "unlock".into(), label: "Unlock".into(), conditions: vec![], reaction: vec![] },
        ],
    };
    let ws = panel_widgets(&menu);
    assert_eq!(ws.len(), 6);
    assert!(matches!(&ws[0], PanelWidget::Title(t) if t == "Old Chest"));
    assert!(matches!(&ws[2], PanelWidget::Divider));
    assert!(matches!(&ws[4], PanelWidget::Button { label, action: PanelButtonAction::PropInteraction { index: 1 }, muted: false } if label == "Unlock"));
    assert!(matches!(&ws[5], PanelWidget::Button { label, action: PanelButtonAction::Nevermind, muted: true } if label == "Nevermind"));
    assert!(panel_widgets(&PanelContent::Empty).is_empty());
    let ws = panel_widgets(&PanelContent::TextInput { target_npc: 1 });
    assert!(matches!(&ws[2], PanelWidget::Hint(h) if h == "[Enter] Send    [Esc] Cancel"));
}
