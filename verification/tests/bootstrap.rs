use rustwlc::engine::Compositor;
use rustwlc::flags::{KeyMod, MOD_CTRL, MOD_SHIFT};
use rustwlc::input::{keyboard, pointer};
use rustwlc::log::{format_log, log_type_name, LogAction, LogSink, Logger};
use rustwlc::model::KeyBinding;
use rustwlc::types::{BackendType, Keysym, LogType, Phase, Point};
use rustwlc::{get_backend_type, init, init2, log_set_default_handler, log_set_handler, log_set_rust_handler, terminate};

type RawHandler = fn(LogType, &[u8]);
type TextHandler = fn(LogType, &str);

fn raw_sink(_kind: LogType, _text: &[u8]) {}

fn text_sink(_kind: LogType, _text: &str) {}

#[test]
fn default_sink_prints_kind_and_text() {
    let mut logger: Logger<RawHandler, TextHandler> = Logger::new();
    log_set_default_handler(&mut logger);
    let action = logger.log(LogType::Warn, "backend unavailable");
    let line = match action {
        LogAction::Print(line) => line,
        _ => panic!("the console sink did not print"),
    };
    println!("{}", line);
    assert!(line.contains("Warn"));
    assert!(line.contains("backend unavailable"));
    assert_eq!(line, "wlc [Warn] backend unavailable");
}

#[test]
fn log_lines_are_formatted() {
    assert_eq!(format_log(LogType::Info, "started"), "wlc [Info] started");
    assert_eq!(format_log(LogType::Error, ""), "wlc [Error] ");
    assert_eq!(format_log(LogType::Wayland, "x y"), "wlc [Wayland] x y");
    assert_eq!(log_type_name(LogType::Info), "Info");
    assert_eq!(log_type_name(LogType::Warn), "Warn");
    assert_eq!(log_type_name(LogType::Error), "Error");
    assert_eq!(log_type_name(LogType::Wayland), "Wayland");
}

#[test]
fn log_sink_is_replaced() {
    let mut logger: Logger<RawHandler, TextHandler> = Logger::new();
    assert!(matches!(logger.log(LogType::Info, "lost"), LogAction::Discard));
    log_set_handler(&mut logger, raw_sink);
    assert!(matches!(logger.log(LogType::Info, "raw"), LogAction::CallRaw));
    log_set_rust_handler(&mut logger, text_sink);
    assert!(matches!(logger.log(LogType::Info, "text"), LogAction::CallText));
    assert!(matches!(logger.sink, Some(LogSink::Text(_))));
    log_set_default_handler(&mut logger);
    assert!(matches!(logger.log(LogType::Info, "text"), LogAction::Print(_)));
    log_set_rust_handler(&mut logger, text_sink);
    assert!(matches!(logger.sink, Some(LogSink::Text(_))));
}

#[test]
fn init_needs_a_backend() {
    let mut engine = Compositor::new(BackendType::Unknown);
    assert_eq!(get_backend_type(&engine), BackendType::Unknown);
    assert!(init(&mut engine).is_none());
    assert_eq!(engine.phase(), Phase::Bootstrap);
    assert!(init2(&mut engine).is_none());
}

#[test]
fn init_then_run_then_terminate() {
    let mut engine = Compositor::new(BackendType::DRM);
    assert_eq!(get_backend_type(&engine), BackendType::DRM);
    assert_eq!(engine.phase(), Phase::Bootstrap);
    let run = init(&mut engine).expect("a backend is there");
    assert_eq!(engine.phase(), Phase::Initialized);
    assert!(init(&mut engine).is_none());
    assert!(init2(&mut engine).is_none());
    assert_eq!(engine.phase(), Phase::Initialized);
    assert!(!engine.is_running());
    assert!(run.run(&mut engine));
    assert_eq!(engine.phase(), Phase::Running);
    assert!(engine.is_running());
    terminate(&mut engine);
    assert_eq!(engine.phase(), Phase::Terminated);
    assert!(!engine.is_running());
    assert!(init(&mut engine).is_none());
    assert_eq!(engine.phase(), Phase::Terminated);
    let mut other = Compositor::new(BackendType::X11);
    let run = init2(&mut other).expect("a backend is there");
    terminate(&mut other);
    assert!(!run.run(&mut other));
    assert_eq!(other.phase(), Phase::Terminated);
}

#[test]
fn pointer_position_is_kept() {
    let mut engine = Compositor::new(BackendType::X11);
    assert_eq!(pointer::get_position(&engine), Point { x: 0, y: 0 });
    pointer::set_position(&mut engine, &Point { x: -5, y: 900 });
    assert_eq!(pointer::get_position(&engine), Point { x: -5, y: 900 });
}

#[test]
fn keys_are_looked_up_in_the_keymap() {
    let mut engine = Compositor::new(BackendType::X11);
    let none = KeyMod::empty();
    let shift = KeyMod::from_bits_truncate(MOD_SHIFT);
    let ctrl = KeyMod::from_bits_truncate(MOD_CTRL);
    assert_eq!(keyboard::get_keysym_for_key(&engine, 30, &none), Keysym(0));
    assert_eq!(keyboard::get_utf32_for_key(&engine, 30, &none), 0);
    assert!(keyboard::get_current_keys(&engine).is_empty());
    engine.bind_key(KeyBinding { key: 30, mods: none, keysym: Keysym(0x61), utf32: 0x61 });
    engine.bind_key(KeyBinding { key: 30, mods: shift, keysym: Keysym(0x41), utf32: 0x41 });
    engine.bind_key(KeyBinding { key: 30, mods: none, keysym: Keysym(0x7a), utf32: 0x7a });
    engine.bind_key(KeyBinding { key: 1, mods: none, keysym: Keysym(0xff1b), utf32: 0x1b });
    assert_eq!(keyboard::get_keysym_for_key(&engine, 30, &none), Keysym(0x61));
    assert_eq!(keyboard::get_utf32_for_key(&engine, 30, &none), 0x61);
    assert_eq!(keyboard::get_keysym_for_key(&engine, 30, &shift), Keysym(0x41));
    assert_eq!(keyboard::get_utf32_for_key(&engine, 30, &shift), 0x41);
    assert_eq!(keyboard::get_keysym_for_key(&engine, 1, &none), Keysym(0xff1b));
    assert_eq!(keyboard::get_keysym_for_key(&engine, 30, &ctrl), Keysym(0));
    assert_eq!(keyboard::get_utf32_for_key(&engine, 2, &none), 0);
    assert_eq!(
        keyboard::find_binding(&engine, 30, &none),
        Some(KeyBinding { key: 30, mods: none, keysym: Keysym(0x61), utf32: 0x61 })
    );
    engine.set_held_keys(vec![30, 1]);
    assert_eq!(keyboard::get_current_keys(&engine), &[30, 1]);
}
