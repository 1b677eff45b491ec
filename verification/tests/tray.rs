use retype::tray::{icon_name, Message};

#[test]
fn icon_shows_whether_enabled() {
    assert_eq!(icon_name(true), "gtk-connect");
    assert_eq!(icon_name(false), "gtk-disconnect");
}

#[test]
fn messages_differ() {
    assert_ne!(Message::Quit, Message::ToggleEnabled);
}
