//! The host: nvim's launch, the course of a session, and the desktop around it.

use anvi_core::autostart;
use anvi_core::bundle::{requirements, resolve, Bundle, BundleError, Found, Kind};
use anvi_core::controller::{is_current, Action, Capture, Cmd, Controller, Event};
use anvi_core::event::HostEvent;
use anvi_core::focus::{came_to_front, root_of, set_foreground, thread_to_join, FocusStep};
use anvi_core::keys::{
    copy, held_modifier, is_down, is_press_of, paste, select_all, wait_modifiers_released,
    KeyEvent, Modifiers, ReleaseStep, VK_A, VK_C, VK_CONTROL, VK_MENU, VK_RWIN, VK_SHIFT, VK_V,
};
use anvi_core::neovide;
use anvi_core::neovide::{
    centered, is_app_window, top_level_window_of, wait_for_window, watch, Process, WatchStep,
    WindowFacts, WindowStep,
};
use anvi_core::server::{
    arguments, channel_id, conclude_handshake, listen_address, Connect, ConnectStep, Handshake,
    Launch, LaunchEvent, LaunchStep, NvimConfig, CONNECT_ATTEMPTS, CONNECT_INTERVAL_MS,
    HANDSHAKE_TIMEOUT_MS, PORT_ATTEMPTS,
};
use anvi_core::session::{Applied, Phase};
use anvi_core::tray::{exit_requested, icon, menu_action, MenuAction, EXIT_ID, SIZE, STARTUP_ID};
use anvi_core::uia::{
    copied_text, in_foreground, is_edit_like, must_restore, target_hwnd, CaptureStep, Captured,
    Focused, Refusal, Uia, DOCUMENT_CONTROL, EDIT_CONTROL,
};
use anvi_core::value::Value;

fn lines(xs: &[&str]) -> Vec<String> {
    xs.iter().map(|s| (*s).to_owned()).collect()
}

// ---- bringing nvim up ----

#[test]
fn a_missing_init_lua_is_reported_before_anything_is_tried() {
    let launch = Launch::new();
    assert_eq!(launch.start("/r/init.lua", true), LaunchStep::TryPort);
    assert_eq!(
        launch.start("/nonexistent/runtime/init.lua", false),
        LaunchStep::GiveUp(
            "bundled init.lua not found at /nonexistent/runtime/init.lua \
             (runtime_dir must contain init.lua and lua/anvi/)"
                .to_owned()
        )
    );
}

#[test]
fn a_missing_executable_is_reported_at_once() {
    let config = NvimConfig {
        nvim_exe: "nvim-does-not-exist".to_owned(),
        runtime_dir: "r".to_owned(),
        appname: "anvi-test".to_owned(),
    };
    assert_eq!(
        config.spawn_failure(),
        "failed to spawn nvim at nvim-does-not-exist (NVIM_APPNAME=anvi-test)"
    );
    let mut launch = Launch::new();
    for event in [
        LaunchEvent::NotStarted("no such file".to_owned()),
        LaunchEvent::NoPort("no such file".to_owned()),
    ] {
        assert_eq!(launch.step("nvim", event), LaunchStep::GiveUp("no such file".to_owned()));
    }
}

#[test]
fn several_ports_are_tried_and_all_are_reported() {
    let mut launch = Launch::new();
    for port in 1..PORT_ATTEMPTS as u16 {
        let event = LaunchEvent::NotAttached { port, reason: format!("r{port}") };
        assert_eq!(launch.step("nvim", event), LaunchStep::TryPort);
    }
    let last = LaunchEvent::NotAttached { port: 5, reason: "r5".to_owned() };
    assert_eq!(
        launch.step("nvim", last),
        LaunchStep::GiveUp(
            "nvim (nvim) did not come up on 5 different ports \
             [port 1: r1; port 2: r2; port 3: r3; port 4: r4; port 5: r5]; \
             the nvim.stderr log records carry nvim's own message"
                .to_owned()
        )
    );
    assert_eq!(Launch::new().step("nvim", LaunchEvent::Attached), LaunchStep::Ready);
}

#[test]
fn a_port_is_dialled_until_the_attempts_are_used_up() {
    let mut connect = Connect::new();
    for _ in 1..CONNECT_ATTEMPTS {
        assert_eq!(connect.on_refused("127.0.0.1:9", "refused"), ConnectStep::Retry);
    }
    assert_eq!(
        connect.on_refused("127.0.0.1:9", "refused"),
        ConnectStep::GiveUp(
            "could not connect to the nvim server at 127.0.0.1:9 within 2s (100 attempts); \
             last error: refused"
                .to_owned()
        )
    );
    assert_eq!(u64::from(CONNECT_ATTEMPTS) * CONNECT_INTERVAL_MS, 2000);
    assert_eq!(HANDSHAKE_TIMEOUT_MS, 2000);
    assert_eq!(Connect::new().before_dial(None), None);
    assert_eq!(
        Connect::new().before_dial(Some("exit status: 1")).as_deref(),
        Some("nvim exited before accepting a connection (exit status: 1)")
    );
}

#[test]
fn the_server_has_to_say_that_it_is_nvim() {
    assert_eq!(conclude_handshake(Handshake::Registered(3), "a"), Ok(3));
    assert_eq!(
        conclude_handshake(Handshake::Failed("no".to_owned()), "a"),
        Err("no".to_owned())
    );
    assert_eq!(
        conclude_handshake(Handshake::TimedOut, &listen_address(8080)),
        Err("the server at 127.0.0.1:8080 did not answer nvim_get_api_info within 2s; \
             something other than nvim may hold the port"
            .to_owned())
    );
    assert_eq!(channel_id(&[Value::from_u64(7), Value::Nil]), Ok(7));
    assert_eq!(
        channel_id(&[]),
        Err("nvim_get_api_info returned an empty array".to_owned())
    );
    assert_eq!(
        channel_id(&[Value::from_str("x")]),
        Err("nvim_get_api_info's first element is not a channel id: \
             String(Utf8String { s: Ok(\"x\") })"
            .to_owned())
    );
    assert!(channel_id(&[Value::from_u64(u64::MAX)]).is_err());
}

#[test]
fn nvim_is_started_apart_from_the_users_own() {
    assert_eq!(
        arguments("C:\\r\\init.lua", 65535),
        ["--headless", "--listen", "127.0.0.1:65535", "-u", "C:\\r\\init.lua", "--noplugin"]
    );
}

// ---- the course of a session ----

fn captured(text: &[&str], hwnd: isize) -> Event {
    Event::Captured(Capture::Target(Captured { lines: lines(text), hwnd }))
}

fn host(event: HostEvent) -> Event {
    Event::Cmd(Cmd::Host(event))
}

fn editing(text: &[&str], hwnd: isize) -> Controller {
    let mut c = Controller::new();
    assert_eq!(c.step(false, Event::Cmd(Cmd::Hotkey)), Action::Capture);
    assert_eq!(c.step(false, captured(text, hwnd)), Action::StartSession);
    assert_eq!(c.pending().map(|p| p.lines.clone()), Some(lines(text)));
    assert_eq!(c.step(false, Event::Started(true)), Action::Show);
    assert!(c.pending().is_none());
    assert_eq!(c.step(false, Event::Shown(true)), Action::Wait);
    assert_eq!(c.phase(), Phase::Editing);
    c
}

#[test]
fn what_was_written_goes_back_when_the_session_ends() {
    let mut c = editing(&["a"], 77);
    assert_eq!(c.step(false, host(HostEvent::SessionWrite(lines(&["b"])))), Action::Wait);
    assert_eq!(
        c.step(false, host(HostEvent::SessionEnd)),
        Action::Finish { hwnd: 77, applied: Applied::WriteBack(lines(&["b"])) }
    );
    assert_eq!(c.phase(), Phase::Idle);
}

#[test]
fn a_session_without_a_write_or_a_change_changes_nothing() {
    let mut c = editing(&["a"], 77);
    assert_eq!(
        c.step(false, host(HostEvent::SessionEnd)),
        Action::Finish { hwnd: 77, applied: Applied::Discarded }
    );
    let mut c = editing(&["a"], 78);
    c.step(false, host(HostEvent::SessionWrite(lines(&["a"]))));
    assert_eq!(
        c.step(false, host(HostEvent::SessionEnd)),
        Action::Finish { hwnd: 78, applied: Applied::Unchanged }
    );
    assert_eq!(c.step(false, host(HostEvent::SessionEnd)), Action::Wait);
}

#[test]
fn a_session_that_cannot_start_leaves_idleness() {
    for event in [Event::Captured(Capture::NoTarget), Event::Captured(Capture::Failed)] {
        let mut c = Controller::new();
        c.step(false, Event::Cmd(Cmd::Hotkey));
        assert_eq!(c.phase(), Phase::Capturing);
        assert_eq!(c.step(false, Event::Cmd(Cmd::Hotkey)), Action::Wait);
        assert_eq!(c.step(false, event), Action::Wait);
        assert_eq!(c.phase(), Phase::Idle);
    }
    let mut c = Controller::new();
    c.step(false, Event::Cmd(Cmd::Hotkey));
    c.step(false, captured(&["a"], 1));
    assert_eq!(c.step(false, Event::Started(false)), Action::Wait);
    assert_eq!(c.phase(), Phase::Idle);
    let mut c = Controller::new();
    c.step(false, Event::Cmd(Cmd::Hotkey));
    c.step(false, captured(&["a"], 1));
    c.step(false, Event::Started(true));
    assert_eq!(c.step(false, Event::Shown(false)), Action::Wait);
    assert_eq!(c.phase(), Phase::Idle);
}

#[test]
fn the_hotkey_only_focuses_while_a_session_is_edited() {
    let mut c = editing(&["a"], 1);
    assert_eq!(c.step(false, Event::Cmd(Cmd::Hotkey)), Action::Focus);
    assert_eq!(c.phase(), Phase::Editing);
}

#[test]
fn closing_the_window_is_left_to_nvim() {
    let mut c = editing(&["a"], 1);
    assert_eq!(c.step(false, Event::Cmd(Cmd::CloseRequested)), Action::Quit);
    assert_eq!(c.phase(), Phase::Editing);
    assert_eq!(Controller::new().step(false, Event::Cmd(Cmd::CloseRequested)), Action::Wait);
}

#[test]
fn a_lost_nvim_is_replaced_and_its_events_count_no_more() {
    for event in [HostEvent::Disconnected, HostEvent::NvimDying] {
        let mut c = editing(&["a"], 1);
        assert_eq!(c.step(false, host(event)), Action::Restart { generation: 1 });
        assert!(!is_current(0, c.generation()));
        assert!(is_current(1, c.generation()));
        assert_eq!(c.step(false, Event::Restarted(true)), Action::Hide);
        assert_eq!(c.phase(), Phase::Idle);
    }
    let mut c = editing(&["a"], 1);
    c.step(false, host(HostEvent::Disconnected));
    assert_eq!(c.step(false, Event::Restarted(false)), Action::Wait);
    assert_eq!(c.phase(), Phase::Editing);
}

#[test]
fn on_the_way_out_nothing_is_restarted() {
    let mut c = editing(&["a"], 1);
    assert_eq!(c.step(true, host(HostEvent::Disconnected)), Action::Wait);
    assert_eq!(c.step(true, Event::Cmd(Cmd::Exit)), Action::TearDown);
    assert_eq!(c.generation(), 1);
}

#[test]
fn keys_and_sizes_are_handed_on() {
    let mut c = Controller::new();
    assert_eq!(
        c.step(false, Event::Cmd(Cmd::Input("<Esc>".to_owned()))),
        Action::Input("<Esc>".to_owned())
    );
    assert_eq!(
        c.step(false, Event::Cmd(Cmd::Resize { cols: 80, rows: 24 })),
        Action::Resize { cols: 80, rows: 24 }
    );
    let resolved = HostEvent::ConfigResolved { dir: "d".to_owned(), loaded: true };
    assert_eq!(c.step(false, host(resolved)), Action::Wait);
    let failed = HostEvent::InitError { kind: "k".to_owned(), message: "m".to_owned() };
    assert_eq!(c.step(false, host(failed)), Action::Wait);
}

// ---- Neovide ----

#[test]
fn a_press_without_a_window_restarts_the_pair() {
    let mut c = neovide::Controller::new();
    let hotkey = || neovide::Event::Cmd(neovide::Cmd::Hotkey);
    assert_eq!(c.step(false, hotkey()), neovide::Action::CheckWindow);
    assert_eq!(
        c.step(false, neovide::Event::WindowChecked(false)),
        neovide::Action::Do(Action::Restart { generation: 1 })
    );
    assert_eq!(
        c.step(false, neovide::Event::Restarted(true)),
        neovide::Action::Do(Action::Wait)
    );
    assert_eq!(c.phase(), Phase::Idle);
    c.step(false, hotkey());
    assert_eq!(
        c.step(false, neovide::Event::WindowChecked(true)),
        neovide::Action::Do(Action::Capture)
    );
    let target = Captured { lines: lines(&["a"]), hwnd: 3 };
    assert_eq!(
        c.step(false, neovide::Event::Captured(Capture::Target(target))),
        neovide::Action::Do(Action::StartSession)
    );
    assert_eq!(c.pending().map(|p| p.hwnd), Some(3));
    assert_eq!(
        c.step(false, neovide::Event::Started(true)),
        neovide::Action::Do(Action::Show)
    );
    c.step(false, neovide::Event::Shown(true));
    assert_eq!(c.step(false, hotkey()), neovide::Action::Do(Action::Focus));
    assert_eq!(
        c.step(false, neovide::Event::Cmd(neovide::Cmd::Host(HostEvent::SessionEnd))),
        neovide::Action::Do(Action::Finish { hwnd: 3, applied: Applied::Discarded })
    );
}

#[test]
fn losing_neovide_is_like_losing_nvim() {
    let lost = || neovide::Event::Cmd(neovide::Cmd::EditorLost("neovide exited"));
    let mut c = neovide::Controller::new();
    assert_eq!(c.step(false, lost()), neovide::Action::Do(Action::Restart { generation: 1 }));
    assert_eq!(c.step(true, lost()), neovide::Action::Do(Action::Wait));
    assert_eq!(c.generation(), 1);
    assert_eq!(
        c.step(true, neovide::Event::Cmd(neovide::Cmd::Exit)),
        neovide::Action::Do(Action::TearDown)
    );
}

#[test]
fn neovide_that_was_killed_on_purpose_is_not_lost() {
    assert_eq!(watch(false, Process::Exited, true, false), WatchStep::ProcessLost);
    assert_eq!(watch(false, Process::Running, false, false), WatchStep::WindowLost);
    assert_eq!(watch(false, Process::Running, true, true), WatchStep::Again);
    assert_eq!(watch(false, Process::Unwatchable, false, false), WatchStep::Stop);
    for process in [Process::Running, Process::Exited, Process::Unwatchable] {
        assert_eq!(watch(true, process, false, true), WatchStep::Stop);
        assert_eq!(watch(false, process, false, true), WatchStep::Stop);
    }
    assert_eq!(WatchStep::ProcessLost.reason(), Some("neovide exited"));
    assert_eq!(WatchStep::WindowLost.reason(), Some("neovide window destroyed"));
    assert_eq!(WatchStep::Again.reason(), None);
    assert_eq!(WatchStep::Stop.reason(), None);
}

#[test]
fn the_window_is_the_first_that_the_user_sees() {
    let window = |hwnd, pid, ex_style| WindowFacts {
        hwnd,
        pid,
        is_root: true,
        visible: true,
        ex_style,
    };
    let windows = [
        window(1, 9, 0),
        window(2, 5, 0x80),
        WindowFacts { visible: false, ..window(3, 5, 0) },
        WindowFacts { is_root: false, ..window(4, 5, 0) },
        window(5, 5, 0x7f),
        window(6, 5, 0),
    ];
    assert!(!is_app_window(&windows[1]));
    assert!(is_app_window(&window(1, 1, 0xffff_ff7f)));
    assert_eq!(top_level_window_of(&windows, 5), Some(5));
    assert_eq!(top_level_window_of(&windows, 6), None);
    assert_eq!(top_level_window_of(&[], 5), None);
}

#[test]
fn the_window_is_waited_for() {
    assert_eq!(wait_for_window(Some(3), Process::Exited, true), WindowStep::Found(3));
    assert_eq!(wait_for_window(None, Process::Exited, true), WindowStep::Exited);
    assert_eq!(wait_for_window(None, Process::Unwatchable, true), WindowStep::Unwatchable);
    assert_eq!(wait_for_window(None, Process::Running, true), WindowStep::TimedOut);
    assert_eq!(wait_for_window(None, Process::Running, false), WindowStep::Again);
    assert_eq!(centered(1920, 801), 559);
    assert_eq!(centered(800, 1921), 0);
}

// ---- the field that is edited ----

fn focused(control_type: i32, id: Option<Vec<i32>>) -> Option<Focused> {
    Some(Focused {
        control_type: Some(control_type),
        focusable: Some(true),
        native_hwnd: Some(11),
        runtime_id: id,
    })
}

fn holding(id: Option<Vec<i32>>) -> Uia {
    let mut uia = Uia::start();
    let field = focused(EDIT_CONTROL, id);
    assert_eq!(uia.capture(&field, 99), CaptureStep::CopyFrom { hwnd: 11 });
    let held = uia.retain(field.expect("a field"), 11, "a\nb\n");
    assert_eq!((held.lines, held.hwnd), (lines(&["a", "b"]), 11));
    uia
}

#[test]
fn only_text_fields_are_captured() {
    let mut uia = Uia::start();
    assert_eq!(uia.capture(&None, 99), CaptureStep::NoTarget);
    assert_eq!(uia.capture(&focused(1, None), 99), CaptureStep::NoTarget);
    assert!(is_edit_like(Some(DOCUMENT_CONTROL), Some(true)));
    assert!(!is_edit_like(Some(EDIT_CONTROL), Some(false)));
    assert!(!is_edit_like(Some(EDIT_CONTROL), None));
    assert!(!is_edit_like(None, Some(true)));
    assert_eq!(target_hwnd(None, 99), Some(99));
    assert_eq!(target_hwnd(Some(0), 99), Some(99));
    assert_eq!(target_hwnd(Some(5), 99), Some(5));
    assert_eq!(target_hwnd(None, 0), None);
    let nowhere = focused(EDIT_CONTROL, None).map(|f| Focused { native_hwnd: None, ..f });
    assert_eq!(uia.capture(&nowhere, 0), CaptureStep::NoTarget);
}

#[test]
fn text_goes_back_to_the_field_it_came_from_once() {
    let back = lines(&["x", "y"]);
    let mut uia = holding(Some(vec![1, 2]));
    let same = focused(DOCUMENT_CONTROL, Some(vec![1, 2]));
    assert_eq!(uia.write_back(&same, Some(false), &back), Ok((11, "x\r\ny".to_owned())));
    assert_eq!(uia.write_back(&same, Some(true), &back), Err(Refusal::NoTarget));
    let refused = |id: Option<Vec<i32>>, focus: Option<Focused>, compared| {
        holding(id).write_back(&focus, compared, &back)
    };
    let held = || Some(vec![1, 2]);
    assert_eq!(
        refused(held(), focused(EDIT_CONTROL, Some(vec![1, 3])), Some(true)),
        Err(Refusal::OtherElement)
    );
    assert_eq!(
        refused(held(), focused(EDIT_CONTROL, None), Some(true)),
        Err(Refusal::OtherElement)
    );
    assert_eq!(refused(held(), focused(7, held()), Some(true)), Err(Refusal::NotEditable));
    assert_eq!(refused(held(), None, Some(true)), Err(Refusal::NoFocus));
    let empty = || Some(vec![]);
    assert!(refused(empty(), focused(EDIT_CONTROL, empty()), Some(true)).is_ok());
    assert_eq!(
        refused(None, focused(EDIT_CONTROL, held()), Some(false)),
        Err(Refusal::OtherElement)
    );
    assert_eq!(
        refused(empty(), focused(EDIT_CONTROL, empty()), None),
        Err(Refusal::NotComparable)
    );
}

#[test]
fn a_capture_lets_an_earlier_field_go() {
    let mut uia = holding(Some(vec![1]));
    assert_eq!(uia.capture(&None, 99), CaptureStep::NoTarget);
    let same = focused(EDIT_CONTROL, Some(vec![1]));
    assert_eq!(uia.write_back(&same, Some(true), &[]), Err(Refusal::NoTarget));
}

#[test]
fn an_untouched_clipboard_means_an_empty_field() {
    assert_eq!(copied_text(false, Some("old".to_owned())).as_deref(), Some(""));
    assert_eq!(copied_text(true, Some("new".to_owned())).as_deref(), Some("new"));
    assert_eq!(copied_text(true, None), None);
    assert!(must_restore(1, 2));
    assert!(!must_restore(2, 2));
    assert_eq!(in_foreground(4, 4), Ok(()));
    assert_eq!(in_foreground(4, 5), Err(Refusal::NotForeground));
    assert_eq!(in_foreground(0, 0), Err(Refusal::NotForeground));
}

// ---- keys, focus, autostart, bundle, tray ----

#[test]
fn nothing_is_sent_while_a_modifier_is_down() {
    let up = Modifiers { control: 0, shift: 1, menu: 0, left_win: 0, right_win: 0x7fff };
    assert_eq!(held_modifier(&up), None);
    assert_eq!(wait_modifiers_released(&up, true), ReleaseStep::Ready);
    let held = Modifiers { menu: 0x8000, right_win: 0x8001, ..up };
    assert_eq!(held_modifier(&held), Some(VK_MENU));
    assert_eq!(wait_modifiers_released(&held, false), ReleaseStep::Wait);
    assert_eq!(wait_modifiers_released(&held, true), ReleaseStep::GiveUp { vk: VK_MENU });
    assert_eq!(held_modifier(&Modifiers { right_win: 0xffff, ..up }), Some(VK_RWIN));
    assert_eq!(held_modifier(&Modifiers { shift: 0x8000, ..held }), Some(VK_SHIFT));
    assert!(is_down(0x8000) && !is_down(0x7fff));
}

#[test]
fn chords_press_and_release_their_keys() {
    let chord = |vk| {
        vec![
            KeyEvent { vk: VK_CONTROL, up: false },
            KeyEvent { vk, up: false },
            KeyEvent { vk, up: true },
            KeyEvent { vk: VK_CONTROL, up: true },
        ]
    };
    assert_eq!(select_all(), chord(VK_A));
    assert_eq!(copy(), chord(VK_C));
    assert_eq!(paste(), chord(VK_V));
    assert_eq!((VK_A, VK_C, VK_V), (b'A'.into(), b'C'.into(), b'V'.into()));
    assert!(is_press_of(3, 3, true));
    assert!(!is_press_of(3, 3, false));
    assert!(!is_press_of(3, 4, true));
}

#[test]
fn what_counts_is_which_window_is_in_front() {
    assert_eq!(root_of(0, 7), 7);
    assert_eq!(root_of(3, 7), 3);
    assert_eq!(set_foreground(false, 1, 1, 1), FocusStep::Gone);
    assert_eq!(set_foreground(true, 1, 1, 0), FocusStep::Done);
    assert_eq!(set_foreground(true, 1, 2, 0), FocusStep::NoOwner);
    assert_eq!(set_foreground(true, 1, 2, 5), FocusStep::Ask);
    assert!(came_to_front(4, 4) && !came_to_front(4, 5));
    assert_eq!(thread_to_join(0, 1), None);
    assert_eq!(thread_to_join(1, 1), None);
    assert_eq!(thread_to_join(2, 1), Some(2));
}

#[test]
fn starting_at_sign_in_is_one_registry_value() {
    assert_eq!(autostart::is_enabled(0), Ok(true));
    assert_eq!(autostart::is_enabled(2), Ok(false));
    assert_eq!(autostart::is_enabled(5), Err(5));
    assert_eq!(autostart::set(true, 0), Ok(()));
    assert_eq!(autostart::set(true, 2), Err(2));
    assert_eq!(autostart::set(false, 2), Ok(()));
    assert_eq!(autostart::set(false, 5), Err(5));
    assert_eq!(autostart::RUN_KEY, r"Software\Microsoft\Windows\CurrentVersion\Run");
    assert_eq!(autostart::VALUE_NAME, "anvi");
    let value = autostart::run_value(r"C:\Program Files\anvi.exe");
    let text = String::from_utf16(&value[..value.len() - 1]).expect("valid");
    assert_eq!(text, "\"C:\\Program Files\\anvi.exe\"");
    assert_eq!(value.last(), Some(&0));
    assert!(autostart::shown_after(true, true) && autostart::shown_after(false, false));
    assert!(!autostart::shown_after(true, false) && !autostart::shown_after(false, true));
}

const WHOLE: [Found; 4] =
    [Found::File { len: 1 }, Found::File { len: 9 }, Found::File { len: 0 }, Found::Directory];

fn broken(at: usize, found: Found) -> BundleError {
    let mut all = WHOLE;
    all[at] = found;
    resolve("C:\\a", '\\', &all).expect_err("something is missing")
}

#[test]
fn a_complete_bundle_is_accepted() {
    let required: Vec<(String, Kind)> =
        requirements("/x", '/').into_iter().map(|r| (r.path, r.kind)).collect();
    assert_eq!(
        required,
        [
            ("/x/runtime/init.lua".to_owned(), Kind::Lua),
            ("/x/runtime/lua/anvi/init.lua".to_owned(), Kind::Lua),
            ("/x/nvim/bin/nvim.exe".to_owned(), Kind::File),
            ("/x/nvim/share/nvim/runtime".to_owned(), Kind::Directory),
        ]
    );
    assert_eq!(
        resolve("C:\\a", '\\', &WHOLE),
        Ok(Bundle {
            runtime_dir: "C:\\a\\runtime".to_owned(),
            nvim_exe: "C:\\a\\nvim\\bin\\nvim.exe".to_owned(),
        })
    );
    assert_eq!(anvi_core::bundle::APPNAME, "anvi");
}

#[test]
fn the_first_thing_that_is_missing_is_reported() {
    assert_eq!(
        broken(0, Found::Missing).message(),
        "bundled lua file is missing: C:\\a\\runtime\\init.lua"
    );
    assert_eq!(
        broken(0, Found::Directory).message(),
        "bundled lua path is not a file: C:\\a\\runtime\\init.lua"
    );
    assert_eq!(
        broken(1, Found::File { len: 0 }).message(),
        "bundled lua file is empty: C:\\a\\runtime\\lua\\anvi\\init.lua \
         (copy it from crates/anywhere-core/runtime/)"
    );
    assert_eq!(
        broken(2, Found::Other).message(),
        "bundled file is missing: C:\\a\\nvim\\bin\\nvim.exe"
    );
    assert_eq!(
        broken(3, Found::File { len: 3 }).message(),
        "bundled directory is missing: C:\\a\\nvim\\share\\nvim\\runtime"
    );
    assert_eq!(
        resolve("r", '/', &[]),
        Err(BundleError::MissingLua("r/runtime/init.lua".to_owned()))
    );
}

#[test]
fn the_menu_has_two_items() {
    assert_eq!(menu_action(EXIT_ID), MenuAction::Quit);
    assert_eq!(menu_action(STARTUP_ID), MenuAction::ToggleAutostart);
    assert_eq!(menu_action("other"), MenuAction::Unknown);
    assert!(exit_requested(&lines(&["x", "anywhere.exit"]), "anywhere.exit"));
    assert!(!exit_requested(&lines(&["x"]), "anywhere.exit"));
    assert!(!exit_requested(&[], "anywhere.exit"));
}

#[test]
fn the_icon_shows_a_letter_on_a_square_with_round_corners() {
    let side = SIZE as usize;
    let rgba = icon();
    assert_eq!(rgba.len(), side * side * 4);
    let pixel = |x: usize, y: usize| &rgba[(y * side + x) * 4..(y * side + x) * 4 + 4];
    let (bg, fg) = ([0x24, 0x2b, 0x33, 0xff], [0x8e, 0xc0, 0x7c, 0xff]);
    assert_eq!(pixel(0, 0), [0; 4]);
    assert_eq!(pixel(31, 31), [0; 4]);
    assert_eq!(pixel(6, 0), bg);
    assert_eq!(pixel(16, 0), bg);
    assert_eq!(pixel(6, 2), bg);
    assert_eq!(pixel(10, 2), fg);
    assert_eq!(pixel(21, 5), fg);
    assert_eq!(pixel(22, 2), bg);
    assert_eq!(pixel(6, 6), fg);
    assert_eq!(pixel(10, 6), bg);
    assert_eq!(pixel(16, 14), fg);
    assert_eq!(pixel(25, 29), fg);
    assert_eq!(pixel(16, 29), bg);
    for y in 0..side {
        for x in 0..side {
            assert_eq!(pixel(x, y), pixel(side - 1 - x, y));
        }
    }
}
