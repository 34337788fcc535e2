use hollowreach::chat_log::{display_text, proximity_hint_text, PushChatMessage};
use hollowreach::debug_overlay::{llm_stats_text, ram_text, vram_from_compute_apps, vram_from_pmon};
use hollowreach::npc_look_at::head_bone_owner;
use hollowreach::game_log::{chat_detail_text, clock_text, log_line_text, say_detail_text, session_file_name_text};
use hollowreach::text::{chars_of, parse_u64, zero_padded_chars};
use hollowreach::tts::{job_outcome, startup_step, tts_output_path, JobOutcome, StartupStep, TtsRequestIds, WorkerResponse};

#[test]
fn clock_stamps() {
    assert_eq!(clock_text(0, 0), "00:00:00.000");
    assert_eq!(clock_text(3600 * 25 + 61, 7), "01:01:01.007");
    assert_eq!(clock_text(86399, 999), "23:59:59.999");
    let v: String = zero_padded_chars(5, 3).into_iter().collect();
    assert_eq!(v, "005");
    let v: String = zero_padded_chars(12345, 3).into_iter().collect();
    assert_eq!(v, "12345");
}

#[test]
fn log_lines() {
    assert_eq!(log_line_text("12:00:00.000", "SESSION", "started"), "[12:00:00.000] SESSION: started");
    assert_eq!(session_file_name_text("12:34:56.789"), "session_12-34-56.789.log");
    assert_eq!(say_detail_text("Greta", "hi \"there\""), "player -> Greta: \"hi \\\"there\\\"\"");
    assert_eq!(chat_detail_text("Sir Roland", "Halt"), "Sir Roland: \"Halt\"");
}

#[test]
fn chat_messages_show_speaker() {
    let m = PushChatMessage { speaker: "Greta".into(), text: "Fresh bread!".into() };
    assert_eq!(display_text(&m), "Greta: Fresh bread!");
    let m = PushChatMessage { speaker: String::new(), text: "You found a map.".into() };
    assert_eq!(display_text(&m), "You found a map.");
    assert_eq!(proximity_hint_text("Old Chest"), "[E]  Old Chest");
}

#[test]
fn numbers_parse_like_std() {
    assert_eq!(parse_u64(&chars_of("42")), Some(42));
    assert_eq!(parse_u64(&chars_of("+7")), Some(7));
    assert_eq!(parse_u64(&chars_of("18446744073709551615")), Some(u64::MAX));
    assert_eq!(parse_u64(&chars_of("18446744073709551616")), None);
    assert_eq!(parse_u64(&chars_of("")), None);
    assert_eq!(parse_u64(&chars_of("+")), None);
    assert_eq!(parse_u64(&chars_of("-1")), None);
    assert_eq!(parse_u64(&chars_of("12a")), None);
}

#[test]
fn ram_line_from_status() {
    let status = "Name:\tgame\nVmPeak:\t  900000 kB\nVmRSS:\t  524288 kB\nThreads: 9\n";
    assert_eq!(ram_text(status), "RAM: 512 MB");
    assert_eq!(ram_text("Name: x\n"), "RAM: N/A");
    assert_eq!(ram_text("VmRSS: lots"), "RAM: 0 MB");
}

#[test]
fn vram_lines() {
    let listing = "1234, 800\n4321, 2048\n";
    assert_eq!(vram_from_compute_apps(listing, 4321), Some("VRAM: 2048 MB".to_string()));
    assert_eq!(vram_from_compute_apps(listing, 99), None);
    let pmon = "# gpu pid type fb\n    0   4321   G   512   -\n";
    assert_eq!(vram_from_pmon(pmon, 4321), Some("VRAM: 512 MB".to_string()));
    assert_eq!(vram_from_pmon(pmon, 7), None);
    assert_eq!(llm_stats_text(0, 0, 0, 0), "LLM: idle (no requests)");
    assert_eq!(llm_stats_text(812, 2048, 5, 1), "LLM: prompt=812/2048 tok (req 5 / rej 1)");
}

#[test]
fn speech_requests_get_their_own_files() {
    assert_eq!(tts_output_path(0), "/tmp/hollowreach_tts/tts_0.wav");
    let mut ids = TtsRequestIds::new();
    let a = ids.request("Hello".into(), "knight".into(), 3);
    let b = ids.request("Bye".into(), "knight".into(), 3);
    assert_eq!(a.output_path, "/tmp/hollowreach_tts/tts_0.wav");
    assert_eq!(b.output_path, "/tmp/hollowreach_tts/tts_1.wav");
    assert_eq!(ids.next_id, 2);
}

fn resp(status: &str) -> WorkerResponse {
    WorkerResponse { status: status.into(), path: None, error: None, device: None, message: None }
}

#[test]
fn worker_status_lines() {
    assert!(matches!(startup_step(&resp("loading")), StartupStep::Loading { message } if message == "Loading..."));
    let mut r = resp("loading");
    r.message = Some("Loading model".into());
    assert!(matches!(startup_step(&r), StartupStep::Loading { message } if message == "Loading model"));
    assert!(matches!(startup_step(&resp("ready")), StartupStep::Ready));
    assert!(matches!(startup_step(&resp("error")), StartupStep::Failed));
    assert!(matches!(startup_step(&resp("warming")), StartupStep::Waiting));
    let mut done = resp("done");
    done.path = Some("/tmp/a.wav".into());
    assert!(matches!(job_outcome(&done), JobOutcome::Delivered(p) if p == "/tmp/a.wav"));
    assert!(matches!(job_outcome(&resp("done")), JobOutcome::Ignored));
    let mut err = resp("error");
    err.error = Some("oom".into());
    assert!(matches!(job_outcome(&err), JobOutcome::GenerationError(Some(e)) if e == "oom"));
    assert!(matches!(job_outcome(&resp("busy")), JobOutcome::Ignored));
}

#[test]
fn head_bones_find_their_npc() {
    // A bone named "head" under an armature under NPC 7.
    assert_eq!(head_bone_owner("head", &[40, 7, 1], &[7, 9], &[]), Some(7));
    // The nearest NPC ancestor wins.
    assert_eq!(head_bone_owner("head", &[9, 7], &[7, 9], &[]), Some(9));
    // Only the exact name counts.
    assert_eq!(head_bone_owner("Head", &[7], &[7], &[]), None);
    assert_eq!(head_bone_owner("neck", &[7], &[7], &[]), None);
    // No NPC above the bone.
    assert_eq!(head_bone_owner("head", &[40, 1], &[7], &[]), None);
    assert_eq!(head_bone_owner("head", &[], &[7], &[]), None);
    // An NPC keeps the first head bone it was given.
    assert_eq!(head_bone_owner("head", &[7], &[7], &[7]), None);
    assert_eq!(head_bone_owner("head", &[7], &[7], &[9]), Some(7));
}
