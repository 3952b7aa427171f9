use scrcpy_gui::Session;
use scrcpy_gui::capture_error_message;
use scrcpy_gui::connect_error_message;
use scrcpy_gui::connect_outcome;
use scrcpy_gui::contains_text;
use scrcpy_gui::devices_error_message;
use scrcpy_gui::disconnect_error_message;
use scrcpy_gui::pull_error_message;
use scrcpy_gui::start_error_message;
use scrcpy_gui::start_success_message;
use scrcpy_gui::stop_outcome;

#[test]
fn fresh_session_tracks_nothing() {
    let session = Session::new();
    assert_eq!(session.current(), None);
}

#[test]
fn tracking_then_taking_returns_the_handle_and_clears_the_slot() {
    let mut session = Session::new();
    session.track(41);
    assert_eq!(session.current(), Some(41));
    assert_eq!(session.take_current(), Some(41));
    assert_eq!(session.current(), None);
    assert_eq!(session.take_current(), None);
}

#[test]
fn second_start_supersedes_the_first() {
    let mut session = Session::new();
    // First start: nothing to terminate, track the new process.
    assert_eq!(session.take_current(), None);
    session.track(7);
    // Second start: the first handle comes out for termination and exactly
    // the second one stays tracked.
    let to_kill = session.take_current();
    assert_eq!(to_kill, Some(7));
    session.track(8);
    assert_eq!(session.current(), Some(8));
}

#[test]
fn failed_launch_leaves_the_slot_empty() {
    let mut session = Session::new();
    session.track(7);
    let _ = session.take_current();
    // The spawn failed: nothing is recorded.
    assert_eq!(session.current(), None);
}

#[test]
fn stop_without_session_reports_nothing_running() {
    assert_eq!(stop_outcome(false, None), Ok("Çalışan scrcpy bulunamadı".to_string()));
}

#[test]
fn stop_with_session_reports_success() {
    assert_eq!(stop_outcome(true, None), Ok("scrcpy durduruldu".to_string()));
}

#[test]
fn stop_with_failed_kill_surfaces_the_error() {
    assert_eq!(
        stop_outcome(true, Some("no such process")),
        Err("Durdurma hatası: no such process".to_string())
    );
}

#[test]
fn start_messages_are_fixed() {
    assert_eq!(start_success_message(), "scrcpy başlatıldı");
    assert_eq!(start_error_message("boom"), "scrcpy başlatılamadı: boom");
}

#[test]
fn connect_succeeds_when_output_says_connected() {
    let r = connect_outcome("192.168.1.20", "5555", "connected to 192.168.1.20:5555", "");
    assert_eq!(r, Ok("Bağlandı: 192.168.1.20:5555".to_string()));
}

#[test]
fn already_connected_counts_as_connected() {
    let r = connect_outcome("10.0.0.5", "5555", "already connected to 10.0.0.5:5555", "");
    assert_eq!(r, Ok("Bağlandı: 10.0.0.5:5555".to_string()));
}

#[test]
fn connect_fails_when_output_lacks_the_word() {
    let r = connect_outcome("10.0.0.5", "5555", "failed to authenticate", "timeout");
    assert_eq!(
        r,
        Err("Bağlantı başarısız: failed to authenticate timeout".to_string())
    );
}

#[test]
fn substring_search_finds_and_misses() {
    assert!(contains_text("already connected to x", "connected"));
    assert!(contains_text("connected", "connected"));
    assert!(!contains_text("Connected", "connected"));
    assert!(!contains_text("connecte", "connected"));
    assert!(!contains_text("", "connected"));
    assert!(contains_text("anything", ""));
}

#[test]
fn error_messages_embed_the_detail() {
    assert_eq!(devices_error_message("not found"), "ADB çalıştırılamadı: not found");
    assert_eq!(connect_error_message("x"), "Bağlantı hatası: x");
    assert_eq!(disconnect_error_message("x"), "Bağlantı kesme hatası: x");
    assert_eq!(capture_error_message("x"), "Ekran görüntüsü alınamadı: x");
    assert_eq!(pull_error_message("x"), "Dosya aktarılamadı: x");
}
