//! The entries of the tray menu.

use crate::buttons::same_text;
use vstd::prelude::*;

verus! {

/// An entry of the tray menu.
#[derive(Clone, Copy, Debug, PartialEq, Eq, Structural)]
pub enum MenuButton {
    Hide,
    Quit,
}

/// The identifier under which an entry is registered with the menu.
pub open spec fn menu_id(button: MenuButton) -> Seq<char> {
    match button {
        MenuButton::Hide => "hide"@,
        MenuButton::Quit => "quit"@,
    }
}

/// The entry that an identifier stands for, if it is one of the menu's.
pub open spec fn menu_of_id(id: Seq<char>) -> Option<MenuButton> {
    if id == "hide"@ {
        Some(MenuButton::Hide)
    } else if id == "quit"@ {
        Some(MenuButton::Quit)
    } else {
        None
    }
}

impl MenuButton {
    /// The identifier of the entry.
    pub fn id(&self) -> (id: &'static str)
        ensures
            id@ == menu_id(*self),
    {
        match self {
            MenuButton::Hide => "hide",
            MenuButton::Quit => "quit",
        }
    }

    /// The entry that an identifier stands for. Any identifier but the two
    /// of the menu is refused.
    pub fn try_from(value: &str) -> (found: Result<MenuButton, &'static str>)
        ensures
            match menu_of_id(value@) {
                Some(button) => found == Ok::<MenuButton, &'static str>(button),
                None => found is Err && found->Err_0@ == "Unknown menu button"@,
            },
    {
        if same_text(value, "hide") {
            Ok(MenuButton::Hide)
        } else if same_text(value, "quit") {
            Ok(MenuButton::Quit)
        } else {
            Err("Unknown menu button")
        }
    }
}

/// Each entry is found again from its identifier.
pub proof fn lemma_menu_id_roundtrip(button: MenuButton)
    ensures
        menu_of_id(menu_id(button)) == Some(button),
{
    reveal_strlit("hide");
    reveal_strlit("quit");
    assert("hide"@[0] != "quit"@[0]);
}

} // verus!
