//! Decisions of the desktop shell: the interface language, the tray menu,
//! and what closing the window does.
use vstd::prelude::*;

use crate::text::{ascii_lower_code, ascii_lower_code_of, chars_of, same_text};

verus! {

// ===================== interface language =====================

/// Whether a system locale names Chinese: once lower-cased it starts with
/// `zh`. Only `z` and `Z` lower-case to a text that starts with `z`, and
/// only `h` and `H` to one that starts with `h`, so the first two characters
/// decide.
pub open spec fn is_chinese_locale(locale: Seq<char>) -> bool {
    locale.len() >= 2 && ascii_lower_code(locale[0]) == 122 && ascii_lower_code(locale[1]) == 104
}

/// The interface language for the system locale (`None` when the system
/// reports none): `zh-cn` for a Chinese locale, `en` for any other.
pub open spec fn ui_locale_for(system: Option<Seq<char>>) -> Seq<char> {
    match system {
        Some(locale) => if is_chinese_locale(locale) {
            "zh-cn"@
        } else {
            "en"@
        },
        None => "en"@,
    }
}

proof fn lemma_folds_to(c: char)
    ensures
        ascii_lower_code(c) == 122 <==> (c == 'z' || c == 'Z'),
        ascii_lower_code(c) == 104 <==> (c == 'h' || c == 'H'),
{
    assert('z' as u32 == 122);
    assert('Z' as u32 == 90);
    assert('h' as u32 == 104);
    assert('H' as u32 == 72);
}

/// The interface is Chinese exactly for a system locale whose first two
/// characters are `z` or `Z`, then `h` or `H`; every other locale, and no
/// locale, gives English. The two answers differ.
pub proof fn lemma_chinese_only_for_zh(system: Option<Seq<char>>)
    ensures
        ui_locale_for(system) == "zh-cn"@ || ui_locale_for(system) == "en"@,
        "zh-cn"@ != "en"@,
        ui_locale_for(system) == "zh-cn"@ <==> (system matches Some(s) && s.len() >= 2 && (s[0]
            == 'z' || s[0] == 'Z') && (s[1] == 'h' || s[1] == 'H')),
{
    reveal_strlit("zh-cn");
    reveal_strlit("en");
    if let Some(s) = system {
        if s.len() >= 2 {
            lemma_folds_to(s[0]);
            lemma_folds_to(s[1]);
        }
    }
    assert("zh-cn"@.len() != "en"@.len());
}

pub fn ui_locale(system: Option<String>) -> (locale: &'static str)
    ensures
        locale@ == ui_locale_for(
            match system {
                Some(s) => Some(s@),
                None => None,
            },
        ),
        locale@ == "zh-cn"@ <==> (system matches Some(s) && s@.len() >= 2 && (s@[0] == 'z' || s@[0]
            == 'Z') && (s@[1] == 'h' || s@[1] == 'H')),
{
    match system {
        None => {
            proof {
                lemma_chinese_only_for_zh(None);
            }
            "en"
        },
        Some(s) => {
            proof {
                lemma_chinese_only_for_zh(Some(s@));
            }
            let v = chars_of(s.as_str());
            if v.len() >= 2 && ascii_lower_code_of(v[0]) == 122
                && ascii_lower_code_of(v[1]) == 104 {
                "zh-cn"
            } else {
                "en"
            }
        },
    }
}

// ===================== tray menu =====================

/// What a click on an entry of the tray menu asks for.
#[derive(Clone, Copy, Debug, PartialEq, Eq, Structural)]
pub enum TrayCommand {
    /// Entry `show`: show and focus the main window.
    ShowWindow,
    /// Entry `quit`: mark the shell as quitting, stop the service, exit.
    Quit,
    /// Entry `service_control`: start the service, or stop it.
    ToggleService,
    /// Any other entry: nothing.
    Ignore,
}

pub open spec fn tray_command_for(id: Seq<char>) -> TrayCommand {
    if id == "show"@ {
        TrayCommand::ShowWindow
    } else if id == "quit"@ {
        TrayCommand::Quit
    } else if id == "service_control"@ {
        TrayCommand::ToggleService
    } else {
        TrayCommand::Ignore
    }
}

/// The command of the tray menu entry with identifier `id`.
pub fn tray_command(id: &str) -> (cmd: TrayCommand)
    ensures
        cmd == tray_command_for(id@),
        id@ == "show"@ <==> cmd == TrayCommand::ShowWindow,
        id@ == "quit"@ <==> cmd == TrayCommand::Quit,
        id@ == "service_control"@ <==> cmd == TrayCommand::ToggleService,
{
    proof {
        reveal_strlit("show");
        reveal_strlit("quit");
        reveal_strlit("service_control");
        assert("show"@[0] != "quit"@[0]);
        assert("show"@.len() != "service_control"@.len());
        assert("quit"@.len() != "service_control"@.len());
    }
    if same_text(id, "show") {
        TrayCommand::ShowWindow
    } else if same_text(id, "quit") {
        TrayCommand::Quit
    } else if same_text(id, "service_control") {
        TrayCommand::ToggleService
    } else {
        TrayCommand::Ignore
    }
}

/// What the service entry of the tray menu does.
#[derive(Clone, Copy, Debug, PartialEq, Eq, Structural)]
pub enum ServiceToggle {
    Start,
    Stop,
}

/// The service entry stops a running service and starts a stopped one.
pub fn service_toggle(running: bool) -> (toggle: ServiceToggle)
    ensures
        running ==> toggle == ServiceToggle::Stop,
        !running ==> toggle == ServiceToggle::Start,
{
    if running {
        ServiceToggle::Stop
    } else {
        ServiceToggle::Start
    }
}

/// The translation key of the service entry's label: it names what a click
/// will do.
pub fn service_menu_label(running: bool) -> (key: &'static str)
    ensures
        key@ == (if running {
            "menu.stop_service"@
        } else {
            "menu.start_service"@
        }),
{
    if running {
        "menu.stop_service"
    } else {
        "menu.start_service"
    }
}

// ===================== window =====================

/// Whether a request to close the main window only hides it to the tray:
/// always, unless the shell is quitting.
pub fn hide_instead_of_close(quitting: bool) -> (hide: bool)
    ensures
        hide == !quitting,
{
    !quitting
}

} // verus!
