use sura::config::Config;
use sura::message::Notification;
use sura::message::Request;
use sura::terminal;

#[test]
fn csi_sequences_have_the_escape_prefix() {
    assert_eq!(terminal::send_escape_sequence_csi("2J"), "\x1b[2J");
    assert_eq!(terminal::clear_line(), "\x1b[2K");
    assert_eq!(terminal::open(), "\x1b[?1049h");
    assert_eq!(terminal::close(), "\x1b[?1049l");
}

#[test]
fn move_cursor_renders_decimal_coordinates() {
    assert_eq!(terminal::move_cursor(1, 1), "\x1b[1;1H");
    assert_eq!(terminal::move_cursor(3, 14), "\x1b[3;14H");
    assert_eq!(terminal::move_cursor(120, 0), "\x1b[120;0H");
    assert_eq!(terminal::move_cursor(10007, 65535), "\x1b[10007;65535H");
}

fn config() -> Config {
    let mut c = Config::new();
    c.language_servers.push((String::from("rust"), String::from("/usr/bin/rust-analyzer")));
    c.language_servers.push((String::from("go"), String::from("/usr/bin/gopls")));
    c.language_servers.push((String::from("rust"), String::from("/opt/other")));
    c
}

#[test]
fn server_lookup_finds_the_first_entry() {
    let c = config();
    assert_eq!(c.server_for("rust").map(String::as_str), Some("/usr/bin/rust-analyzer"));
    assert_eq!(c.server_for("go").map(String::as_str), Some("/usr/bin/gopls"));
}

#[test]
fn server_lookup_misses_unknown_languages() {
    let c = config();
    assert_eq!(c.server_for("python"), None);
    assert_eq!(c.server_for("rus"), None);
    assert_eq!(c.server_for(""), None);
    assert_eq!(Config::new().server_for("rust"), None);
}

#[test]
fn request_carries_the_protocol_tag() {
    let r = Request::new(5, "textDocument/hover", "{\"line\":3}");
    assert_eq!(r.jsonrpc, "2.0");
    assert_eq!(r.id, 5);
    assert_eq!(r.method, "textDocument/hover");
    assert_eq!(r.params, "{\"line\":3}");
}

#[test]
fn notification_carries_the_protocol_tag() {
    let n = Notification::new("initialized", "{}");
    assert_eq!(n.jsonrpc, "2.0");
    assert_eq!(n.method, "initialized");
    assert_eq!(n.params, "{}");
}

#[test]
fn a_fresh_application_has_no_editors() {
    let app = sura::app::App::new();
    assert_eq!(app.editors.len(), 0);
}
