//! The single interaction panel: NPC menu, prop menu, text input and dialogue
//! share one panel, driven by a state machine. Commands open, close or replace
//! the content; a replacement goes through a close animation first.

use vstd::prelude::*;
use crate::interactions::{Interaction, ReactionEffect, execute_reaction};
use crate::text_input::{TextInputState, activate_text_input, deactivate_text_input};

verus! {

/// What the panel is currently showing.
#[derive(Debug, Clone)]
pub enum PanelContent {
    /// Panel is closed / hidden.
    Empty,
    /// NPC interaction menu: Say, Give Item, Nevermind.
    NpcMenu { npc: u64, name: String, role: String, greeting: String },
    /// Prop interaction menu: one button per available interaction.
    PropMenu { prop: u64, name: String, subtitle: String, interactions: Vec<Interaction> },
    /// Text input for "Say" to NPC.
    TextInput { target_npc: u64 },
    /// Read-only dialogue / info text display (auto-dismisses after a timer).
    Dialogue { speaker: String, text: String },
}

/// Visual state of the panel animation.
#[derive(Clone, Copy, PartialEq, Eq, Structural, Debug)]
pub enum PanelVisual {
    /// Panel is fully closed and invisible.
    Hidden,
    /// Panel is visible (or opening).
    Open,
    /// Close animation in progress.
    Closing,
}

/// Single source of truth for the interaction panel.
#[derive(Debug)]
pub struct PanelState {
    /// What content is currently being shown.
    pub content: PanelContent,
    /// Animation/visual state.
    pub visual: PanelVisual,
    /// Queued content for close then reopen transitions.
    pub pending: Option<PanelContent>,
    /// Whether the four-second auto-dismiss timer of dialogue content runs.
    pub dialogue_timer: bool,
}

impl PanelState {
    /// The closed panel.
    pub fn new() -> (s: PanelState)
        ensures
            s.content is Empty,
            s.visual == PanelVisual::Hidden,
            s.pending is None,
            !s.dialogue_timer,
    {
        PanelState { content: PanelContent::Empty, visual: PanelVisual::Hidden, pending: None, dialogue_timer: false }
    }
}

/// Event to open or close the panel.
#[derive(Debug)]
pub struct PanelCommand {
    pub action: PanelAction,
}

#[derive(Debug, Clone)]
pub enum PanelAction {
    /// Open with new content. If already open, transitions via close then reopen.
    Open(PanelContent),
    /// Close the panel.
    Close,
}

/// Button inside the panel.
pub struct PanelButton {
    pub action: PanelButtonAction,
}

/// Actions for panel buttons.
#[derive(Clone, Copy, Debug)]
pub enum PanelButtonAction {
    Say,
    GiveItem,
    Nevermind,
    PropInteraction { index: usize },
}

/// Run condition: true when the panel is closed (no content showing).
pub fn panel_not_open(state: &PanelState) -> (r: bool)
    ensures
        r == state.content is Empty,
{
    match state.content {
        PanelContent::Empty => true,
        _ => false,
    }
}

/// Run condition: true when the current content does not block gameplay;
/// read-only dialogue does not lock movement, look or interaction.
pub fn panel_not_blocking_gameplay(state: &PanelState) -> (r: bool)
    ensures
        r == (state.content is Empty || state.content is Dialogue),
{
    match state.content {
        PanelContent::Empty | PanelContent::Dialogue { .. } => true,
        _ => false,
    }
}

/// Contents that need a free mouse cursor.
pub open spec fn needs_cursor(c: PanelContent) -> bool {
    c is NpcMenu || c is PropMenu || c is TextInput
}

fn needs_cursor_exec(c: &PanelContent) -> (r: bool)
    ensures
        r == needs_cursor(*c),
{
    match c {
        PanelContent::NpcMenu { .. } | PanelContent::PropMenu { .. } | PanelContent::TextInput { .. } => true,
        _ => false,
    }
}

fn is_dialogue(c: &PanelContent) -> (r: bool)
    ensures
        r == c is Dialogue,
{
    match c {
        PanelContent::Dialogue { .. } => true,
        _ => false,
    }
}

/// What happens to the mouse cursor.
#[derive(Clone, Copy, PartialEq, Eq, Structural, Debug)]
pub enum CursorChange {
    /// Leave it as it is.
    Keep,
    /// Free and show it.
    Release,
    /// Lock and hide it.
    Grab,
}

/// What the panel's widgets must do after a step of the state machine.
#[derive(Clone, Copy, PartialEq, Eq, Structural, Debug)]
pub struct PanelUpdate {
    /// Spawn the widgets of the (new) current content and make the panel visible.
    pub show_content: bool,
    /// Despawn the widgets of the previous content.
    pub clear_content: bool,
    /// Start the close animation.
    pub dismiss: bool,
    pub cursor: CursorChange,
}

pub open spec fn no_update() -> PanelUpdate {
    PanelUpdate { show_content: false, clear_content: false, dismiss: false, cursor: CursorChange::Keep }
}

fn no_update_exec() -> (u: PanelUpdate)
    ensures
        u == no_update(),
{
    PanelUpdate { show_content: false, clear_content: false, dismiss: false, cursor: CursorChange::Keep }
}

/// The panel after a command, and what its widgets must do.
pub open spec fn command_step(s: PanelState, a: PanelAction) -> (PanelState, PanelUpdate) {
    match a {
        PanelAction::Open(c) => match s.visual {
            PanelVisual::Hidden => (
                PanelState { content: c, visual: PanelVisual::Open, pending: s.pending, dialogue_timer: c is Dialogue },
                PanelUpdate {
                    show_content: true,
                    clear_content: false,
                    dismiss: false,
                    cursor: if needs_cursor(c) { CursorChange::Release } else { CursorChange::Keep },
                },
            ),
            PanelVisual::Open => (
                PanelState { pending: Some(c), visual: PanelVisual::Closing, ..s },
                PanelUpdate { dismiss: true, ..no_update() },
            ),
            PanelVisual::Closing => (PanelState { pending: Some(c), ..s }, no_update()),
        },
        PanelAction::Close => match s.visual {
            PanelVisual::Hidden => (s, no_update()),
            PanelVisual::Open => (
                PanelState { pending: None, visual: PanelVisual::Closing, ..s },
                PanelUpdate {
                    dismiss: true,
                    cursor: if needs_cursor(s.content) { CursorChange::Grab } else { CursorChange::Keep },
                    ..no_update()
                },
            ),
            PanelVisual::Closing => (PanelState { pending: None, ..s }, no_update()),
        },
    }
}

/// The text box opens exactly when text-input content is shown at once.
pub open spec fn command_opens_text_input(s: PanelState, a: PanelAction) -> Option<u64> {
    match a {
        PanelAction::Open(PanelContent::TextInput { target_npc }) => if s.visual == PanelVisual::Hidden {
            Some(target_npc)
        } else {
            None
        },
        _ => None,
    }
}

/// Processes one panel command: opens, closes, or queues a transition.
pub fn apply_panel_command(
    state: &mut PanelState,
    text_input: &mut TextInputState,
    action: PanelAction,
) -> (u: PanelUpdate)
    ensures
        (*final(state), u) == command_step(*old(state), action),
        match command_opens_text_input(*old(state), action) {
            Some(npc) => final(text_input).active && final(text_input).current_text@ == Seq::<char>::empty()
                && final(text_input).target_npc == Some(npc) && final(text_input).just_activated,
            None => *final(text_input) == *old(text_input),
        },
{
    match action {
        PanelAction::Open(content) => match state.visual {
            PanelVisual::Hidden => {
                if let PanelContent::TextInput { target_npc } = &content {
                    activate_text_input(text_input, *target_npc);
                }
                state.dialogue_timer = is_dialogue(&content);
                let cursor = if needs_cursor_exec(&content) { CursorChange::Release } else { CursorChange::Keep };
                state.content = content;
                state.visual = PanelVisual::Open;
                PanelUpdate { show_content: true, clear_content: false, dismiss: false, cursor }
            },
            PanelVisual::Open => {
                state.pending = Some(content);
                state.visual = PanelVisual::Closing;
                PanelUpdate { show_content: false, clear_content: false, dismiss: true, cursor: CursorChange::Keep }
            },
            PanelVisual::Closing => {
                state.pending = Some(content);
                no_update_exec()
            },
        },
        PanelAction::Close => match state.visual {
            PanelVisual::Hidden => no_update_exec(),
            PanelVisual::Open => {
                state.pending = None;
                let cursor = if needs_cursor_exec(&state.content) { CursorChange::Grab } else { CursorChange::Keep };
                state.visual = PanelVisual::Closing;
                PanelUpdate { show_content: false, clear_content: false, dismiss: true, cursor }
            },
            PanelVisual::Closing => {
                state.pending = None;
                no_update_exec()
            },
        },
    }
}

/// The panel once the close animation has hidden it: the queued content opens,
/// or the panel is fully closed.
pub open spec fn transition_step(s: PanelState) -> (PanelState, PanelUpdate) {
    match s.pending {
        Some(p) => (
            PanelState { content: p, visual: PanelVisual::Open, pending: None, dialogue_timer: p is Dialogue },
            PanelUpdate {
                show_content: true,
                clear_content: true,
                dismiss: false,
                cursor: if needs_cursor(p) { CursorChange::Release } else { CursorChange::Grab },
            },
        ),
        None => (
            PanelState { content: PanelContent::Empty, visual: PanelVisual::Hidden, pending: None, dialogue_timer: false },
            PanelUpdate { clear_content: true, ..no_update() },
        ),
    }
}

/// Finishes a close once the close animation has hidden the panel
/// (`panel_hidden`): processes the pending transition.
pub fn panel_transition(
    state: &mut PanelState,
    text_input: &mut TextInputState,
    panel_hidden: bool,
) -> (u: PanelUpdate)
    ensures
        old(state).visual == PanelVisual::Closing && panel_hidden ==> (*final(state), u) == transition_step(*old(state)),
        !(old(state).visual == PanelVisual::Closing && panel_hidden) ==> *final(state) == *old(state) && u == no_update()
            && *final(text_input) == *old(text_input),
        old(state).visual == PanelVisual::Closing && panel_hidden ==> match old(state).pending {
            Some(PanelContent::TextInput { target_npc }) => final(text_input).active
                && final(text_input).target_npc == Some(target_npc)
                && final(text_input).current_text@ == Seq::<char>::empty(),
            _ => if old(state).content is TextInput {
                !final(text_input).active && final(text_input).target_npc is None
                    && final(text_input).current_text@ == Seq::<char>::empty()
            } else {
                *final(text_input) == *old(text_input)
            },
        },
{
    if state.visual != PanelVisual::Closing || !panel_hidden {
        return no_update_exec();
    }
    if let PanelContent::TextInput { .. } = &state.content {
        deactivate_text_input(text_input);
    }
    let pending = state.pending.take();
    match pending {
        Some(p) => {
            if let PanelContent::TextInput { target_npc } = &p {
                activate_text_input(text_input, *target_npc);
            }
            state.dialogue_timer = is_dialogue(&p);
            let cursor = if needs_cursor_exec(&p) { CursorChange::Release } else { CursorChange::Grab };
            state.content = p;
            state.visual = PanelVisual::Open;
            PanelUpdate { show_content: true, clear_content: true, dismiss: false, cursor }
        },
        None => {
            state.content = PanelContent::Empty;
            state.visual = PanelVisual::Hidden;
            state.dialogue_timer = false;
            PanelUpdate { show_content: false, clear_content: true, dismiss: false, cursor: CursorChange::Keep }
        },
    }
}

/// Requests the panel's input handling makes of the rest of the game.
#[derive(Debug)]
pub enum PanelRequest {
    /// Send a panel command.
    Send(PanelAction),
    /// The NPC is no longer being interacted with: its AI resumes.
    ReleaseNpc(u64),
    /// The Escape key press is used up (the pause menu must not see it).
    ConsumeEscape,
    /// Advance the interaction cooldown by two seconds.
    AdvanceCooldown,
    /// Perform an interaction of the player on a prop.
    Interact { prop: u64, interaction_id: String, effects: Vec<ReactionEffect> },
}

/// What Escape does to the panel.
pub fn panel_escape(state: &PanelState) -> (r: Vec<PanelRequest>)
    ensures
        match state.content {
            PanelContent::Empty | PanelContent::TextInput { .. } => r.len() == 0,
            PanelContent::Dialogue { .. } => r.len() == 2 && r[0] is ConsumeEscape
                && r[1] == PanelRequest::Send(PanelAction::Close),
            PanelContent::NpcMenu { npc, .. } => r.len() == 4 && r[0] is ConsumeEscape
                && r[1] == PanelRequest::ReleaseNpc(npc) && r[2] == PanelRequest::Send(PanelAction::Close)
                && r[3] is AdvanceCooldown,
            PanelContent::PropMenu { .. } => r.len() == 3 && r[0] is ConsumeEscape
                && r[1] == PanelRequest::Send(PanelAction::Close) && r[2] is AdvanceCooldown,
        },
{
    let mut r: Vec<PanelRequest> = Vec::new();
    match &state.content {
        PanelContent::Empty => {},
        PanelContent::TextInput { .. } => {},
        PanelContent::Dialogue { .. } => {
            r.push(PanelRequest::ConsumeEscape);
            r.push(PanelRequest::Send(PanelAction::Close));
        },
        PanelContent::NpcMenu { npc, .. } => {
            r.push(PanelRequest::ConsumeEscape);
            r.push(PanelRequest::ReleaseNpc(*npc));
            r.push(PanelRequest::Send(PanelAction::Close));
            r.push(PanelRequest::AdvanceCooldown);
        },
        PanelContent::PropMenu { .. } => {
            r.push(PanelRequest::ConsumeEscape);
            r.push(PanelRequest::Send(PanelAction::Close));
            r.push(PanelRequest::AdvanceCooldown);
        },
    }
    r
}

/// What a click on a panel button does.
pub fn panel_button(state: &PanelState, action: PanelButtonAction) -> (r: Vec<PanelRequest>)
    ensures
        match action {
            PanelButtonAction::Say => match state.content {
                PanelContent::NpcMenu { npc, .. } => r.len() == 1
                    && r[0] == PanelRequest::Send(PanelAction::Open(PanelContent::TextInput { target_npc: npc })),
                _ => r.len() == 0,
            },
            PanelButtonAction::GiveItem | PanelButtonAction::Nevermind => match state.content {
                PanelContent::NpcMenu { npc, .. } => r.len() == 3 && r[0] == PanelRequest::ReleaseNpc(npc)
                    && r[1] == PanelRequest::Send(PanelAction::Close) && r[2] is AdvanceCooldown,
                _ => r.len() == 2 && r[0] == PanelRequest::Send(PanelAction::Close) && r[1] is AdvanceCooldown,
            },
            PanelButtonAction::PropInteraction { index } => {
                let chosen = match state.content {
                    PanelContent::PropMenu { prop, interactions, .. } => if index < interactions.len() {
                        Some((prop, interactions@[index as int]))
                    } else {
                        None
                    },
                    _ => None,
                };
                match chosen {
                    Some((prop, i)) => r.len() == 3 && match r[0] {
                        PanelRequest::Interact { prop: p, interaction_id, effects } => p == prop
                            && interaction_id@ == i.id@ && effects@ == i.reaction@,
                        _ => false,
                    } && r[1] == PanelRequest::Send(PanelAction::Close) && r[2] is AdvanceCooldown,
                    None => r.len() == 2 && r[0] == PanelRequest::Send(PanelAction::Close) && r[1] is AdvanceCooldown,
                }
            },
        },
{
    let mut r: Vec<PanelRequest> = Vec::new();
    match action {
        PanelButtonAction::Say => {
            if let PanelContent::NpcMenu { npc, .. } = &state.content {
                r.push(PanelRequest::Send(PanelAction::Open(PanelContent::TextInput { target_npc: *npc })));
            }
        },
        PanelButtonAction::GiveItem | PanelButtonAction::Nevermind => {
            if let PanelContent::NpcMenu { npc, .. } = &state.content {
                r.push(PanelRequest::ReleaseNpc(*npc));
            }
            r.push(PanelRequest::Send(PanelAction::Close));
            r.push(PanelRequest::AdvanceCooldown);
        },
        PanelButtonAction::PropInteraction { index } => {
            if let PanelContent::PropMenu { prop, interactions, .. } = &state.content {
                if index < interactions.len() {
                    let chosen = &interactions[index];
                    let effects = execute_reaction(chosen.reaction.as_slice());
                    r.push(PanelRequest::Interact { prop: *prop, interaction_id: chosen.id.clone(), effects });
                }
            }
            r.push(PanelRequest::Send(PanelAction::Close));
            r.push(PanelRequest::AdvanceCooldown);
        },
    }
    r
}

/// The dialogue timer has run out: it stops, and the panel is to close.
pub fn panel_dialogue_timer_finished(state: &mut PanelState) -> (r: Option<PanelAction>)
    ensures
        old(state).dialogue_timer ==> r == Some(PanelAction::Close) && !final(state).dialogue_timer,
        !old(state).dialogue_timer ==> r is None,
        final(state).content == old(state).content,
        final(state).visual == old(state).visual,
        final(state).pending == old(state).pending,
{
    if state.dialogue_timer {
        state.dialogue_timer = false;
        Some(PanelAction::Close)
    } else {
        None
    }
}

} // verus!

verus! {

/// Opening the hidden panel shows the content at once.
pub proof fn lemma_open_from_hidden_shows(s: PanelState, c: PanelContent)
    requires
        s.visual == PanelVisual::Hidden,
    ensures
        command_step(s, PanelAction::Open(c)).0.content == c,
        command_step(s, PanelAction::Open(c)).0.visual == PanelVisual::Open,
        command_step(s, PanelAction::Open(c)).1.show_content,
{
}

/// Opening other content on the open panel first plays the close animation;
/// when it ends, the new content is shown.
pub proof fn lemma_replace_goes_through_closing(s: PanelState, c: PanelContent)
    requires
        s.visual == PanelVisual::Open,
    ensures
        command_step(s, PanelAction::Open(c)).0.visual == PanelVisual::Closing,
        transition_step(command_step(s, PanelAction::Open(c)).0).0.content == c,
        transition_step(command_step(s, PanelAction::Open(c)).0).0.visual == PanelVisual::Open,
{
}

/// Closing the open panel ends, after the close animation, with the panel
/// hidden and empty.
pub proof fn lemma_close_then_hidden(s: PanelState)
    requires
        s.visual == PanelVisual::Open,
    ensures
        transition_step(command_step(s, PanelAction::Close).0).0.visual == PanelVisual::Hidden,
        transition_step(command_step(s, PanelAction::Close).0).0.content is Empty,
        transition_step(command_step(s, PanelAction::Close).0).0.pending is None,
{
}

/// While the panel is closing, the last command wins: a later `Open` replaces
/// the queued content, and a `Close` drops it.
pub proof fn lemma_last_command_wins_while_closing(s: PanelState, c1: PanelContent, c2: PanelContent)
    requires
        s.visual == PanelVisual::Closing,
    ensures
        transition_step(command_step(command_step(s, PanelAction::Open(c1)).0, PanelAction::Open(c2)).0).0.content == c2,
        transition_step(command_step(command_step(s, PanelAction::Open(c1)).0, PanelAction::Close).0).0.visual
            == PanelVisual::Hidden,
{
}

/// Closing the hidden panel changes nothing.
pub proof fn lemma_close_hidden_is_noop(s: PanelState)
    requires
        s.visual == PanelVisual::Hidden,
    ensures
        command_step(s, PanelAction::Close).0 == s,
        command_step(s, PanelAction::Close).1 == no_update(),
{
}

} // verus!

verus! {

/// One element of the panel's layout, top to bottom (buttons side by side).
#[derive(Debug)]
pub enum PanelWidget {
    /// The large gold heading.
    Title(String),
    /// The small grey text beside the heading.
    Subtitle(String),
    /// Body text.
    Body(String),
    /// A horizontal divider.
    Divider,
    /// A button; muted buttons are drawn dimmer.
    Button { label: String, action: PanelButtonAction, muted: bool },
    /// The label above the text input.
    InputLabel(String),
    /// The line the player types into (prompt, typed text and cursor).
    InputLine,
    /// A key hint below the input.
    Hint(String),
}

pub enum PanelWidgetView {
    Title(Seq<char>),
    Subtitle(Seq<char>),
    Body(Seq<char>),
    Divider,
    Button { label: Seq<char>, action: PanelButtonAction, muted: bool },
    InputLabel(Seq<char>),
    InputLine,
    Hint(Seq<char>),
}

impl View for PanelWidget {
    type V = PanelWidgetView;

    open spec fn view(&self) -> PanelWidgetView {
        match self {
            PanelWidget::Title(s) => PanelWidgetView::Title(s@),
            PanelWidget::Subtitle(s) => PanelWidgetView::Subtitle(s@),
            PanelWidget::Body(s) => PanelWidgetView::Body(s@),
            PanelWidget::Divider => PanelWidgetView::Divider,
            PanelWidget::Button { label, action, muted } => PanelWidgetView::Button { label: label@, action: *action, muted: *muted },
            PanelWidget::InputLabel(s) => PanelWidgetView::InputLabel(s@),
            PanelWidget::InputLine => PanelWidgetView::InputLine,
            PanelWidget::Hint(s) => PanelWidgetView::Hint(s@),
        }
    }
}

/// The views of a list of widgets.
pub open spec fn widget_views(ws: Seq<PanelWidget>) -> Seq<PanelWidgetView> {
    ws.map_values(|w: PanelWidget| w@)
}

/// One button per offered interaction, labelled with its label.
pub open spec fn interaction_buttons(interactions: Seq<Interaction>) -> Seq<PanelWidgetView> {
    Seq::new(
        interactions.len(),
        |i: int| PanelWidgetView::Button {
            label: interactions[i].label@,
            action: PanelButtonAction::PropInteraction { index: i as usize },
            muted: false,
        },
    )
}

/// The muted button that leaves a menu.
pub open spec fn nevermind_button() -> PanelWidgetView {
    PanelWidgetView::Button { label: "Nevermind"@, action: PanelButtonAction::Nevermind, muted: true }
}

/// What the panel shows for each content.
pub open spec fn widgets_of(c: PanelContent) -> Seq<PanelWidgetView> {
    match c {
        PanelContent::Empty => Seq::empty(),
        PanelContent::NpcMenu { name, role, greeting, .. } => seq![
            PanelWidgetView::Title(name@),
            PanelWidgetView::Subtitle(role@),
            PanelWidgetView::Body(greeting@),
            PanelWidgetView::Divider,
            PanelWidgetView::Button { label: "Say"@, action: PanelButtonAction::Say, muted: false },
            PanelWidgetView::Button { label: "Give Item"@, action: PanelButtonAction::GiveItem, muted: false },
            nevermind_button(),
        ],
        PanelContent::PropMenu { name, subtitle, interactions, .. } => seq![
            PanelWidgetView::Title(name@),
            PanelWidgetView::Subtitle(subtitle@),
            PanelWidgetView::Divider,
        ] + interaction_buttons(interactions@) + seq![nevermind_button()],
        PanelContent::TextInput { .. } => seq![
            PanelWidgetView::InputLabel("Say to ..."@),
            PanelWidgetView::InputLine,
            PanelWidgetView::Hint("[Enter] Send    [Esc] Cancel"@),
        ],
        PanelContent::Dialogue { speaker, text } => seq![
            PanelWidgetView::Title(speaker@),
            PanelWidgetView::Divider,
            PanelWidgetView::Body(text@),
        ],
    }
}

fn push_widget(ws: &mut Vec<PanelWidget>, w: PanelWidget)
    ensures
        widget_views(final(ws)@) == widget_views(old(ws)@).push(w@),
{
    ws.push(w);
    assert(widget_views(ws@) =~= widget_views(old(ws)@).push(w@));
}

/// The layout of the panel for its content.
pub fn panel_widgets(content: &PanelContent) -> (r: Vec<PanelWidget>)
    ensures
        widget_views(r@) == widgets_of(*content),
{
    let mut ws: Vec<PanelWidget> = Vec::new();
    match content {
        PanelContent::Empty => {},
        PanelContent::NpcMenu { name, role, greeting, .. } => {
            push_widget(&mut ws, PanelWidget::Title(name.clone()));
            push_widget(&mut ws, PanelWidget::Subtitle(role.clone()));
            push_widget(&mut ws, PanelWidget::Body(greeting.clone()));
            push_widget(&mut ws, PanelWidget::Divider);
            push_widget(&mut ws, PanelWidget::Button { label: "Say".to_owned(), action: PanelButtonAction::Say, muted: false });
            push_widget(
                &mut ws,
                PanelWidget::Button { label: "Give Item".to_owned(), action: PanelButtonAction::GiveItem, muted: false },
            );
            push_widget(
                &mut ws,
                PanelWidget::Button { label: "Nevermind".to_owned(), action: PanelButtonAction::Nevermind, muted: true },
            );
        },
        PanelContent::PropMenu { name, subtitle, interactions, .. } => {
            push_widget(&mut ws, PanelWidget::Title(name.clone()));
            push_widget(&mut ws, PanelWidget::Subtitle(subtitle.clone()));
            push_widget(&mut ws, PanelWidget::Divider);
            let ghost head = widget_views(ws@);
            let mut i: usize = 0;
            while i < interactions.len()
                invariant
                    i <= interactions.len(),
                    widget_views(ws@) == head + interaction_buttons(interactions@).take(i as int),
                decreases interactions.len() - i,
            {
                let label = interactions[i].label.clone();
                push_widget(&mut ws, PanelWidget::Button { label, action: PanelButtonAction::PropInteraction { index: i }, muted: false });
                assert(interaction_buttons(interactions@).take(i + 1) =~= interaction_buttons(interactions@).take(i as int).push(
                    interaction_buttons(interactions@)[i as int],
                ));
                i += 1;
            }
            assert(interaction_buttons(interactions@).take(interactions.len() as int) =~= interaction_buttons(interactions@));
            push_widget(
                &mut ws,
                PanelWidget::Button { label: "Nevermind".to_owned(), action: PanelButtonAction::Nevermind, muted: true },
            );
        },
        PanelContent::TextInput { .. } => {
            push_widget(&mut ws, PanelWidget::InputLabel("Say to ...".to_owned()));
            push_widget(&mut ws, PanelWidget::InputLine);
            push_widget(&mut ws, PanelWidget::Hint("[Enter] Send    [Esc] Cancel".to_owned()));
        },
        PanelContent::Dialogue { speaker, text } => {
            push_widget(&mut ws, PanelWidget::Title(speaker.clone()));
            push_widget(&mut ws, PanelWidget::Divider);
            push_widget(&mut ws, PanelWidget::Body(text.clone()));
        },
    }
    assert(widget_views(ws@) =~= widgets_of(*content));
    ws
}

} // verus!
