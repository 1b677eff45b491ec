//! The icon in the system tray.

use vstd::prelude::*;

verus! {

/// What the menu of the tray icon asks for.
#[derive(Debug, Clone, Copy, PartialEq, Eq, Structural)]
pub enum Message {
    Quit,
    ToggleEnabled,
}

/// The name of the icon that shows whether the hotkeys are enabled.
pub fn icon_name(enabled: bool) -> (r: &'static str)
    ensures
        enabled ==> r@ == "gtk-connect"@,
        !enabled ==> r@ == "gtk-disconnect"@,
{
    if enabled {
        "gtk-connect"
    } else {
        "gtk-disconnect"
    }
}

/// The icon tells the two cases apart.
pub proof fn law_icon_tells_enabled(enabled: &'static str, disabled: &'static str)
    requires
        call_ensures(icon_name, (true,), enabled),
        call_ensures(icon_name, (false,), disabled),
    ensures
        enabled@ == "gtk-connect"@,
        disabled@ == "gtk-disconnect"@,
        enabled@ != disabled@,
{
    reveal_strlit("gtk-connect");
    reveal_strlit("gtk-disconnect");
    assert("gtk-connect"@.len() != "gtk-disconnect"@.len());
}

} // verus!
