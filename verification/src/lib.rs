//! Game logic of Hollowreach: interactions, inventories, NPC memory and
//! decisions, the interaction panel, text input and the text protocols
//! spoken with the language model.

pub mod text;
pub mod collections;
pub mod inventory;
pub mod json;
pub mod interactions;
pub mod config;
pub mod sorting;
pub mod npc_memory;
pub mod text_input;
pub mod panel;
pub mod llm;
pub mod npc_ai;

pub mod context;
pub mod game_log;
pub mod debug_overlay;
pub mod tts;
pub mod pause_menu;
pub mod chat_log;
pub mod npc_look_at;
