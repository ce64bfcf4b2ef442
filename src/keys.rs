use vstd::prelude::*;
use vstd::string::StringExecFns;
use crate::store::compare_names;

verus! {

/// The keys the UI knows by name; every other key is `Other`.
#[derive(Clone, Copy, Debug, PartialEq, Eq, Structural)]
pub enum KeyCode {
    Key0,
    Key1,
    Key2,
    Key3,
    Key4,
    Key5,
    Key6,
    Key7,
    Key8,
    Key9,
    NumPad0,
    NumPad1,
    NumPad2,
    NumPad3,
    NumPad4,
    NumPad5,
    NumPad6,
    NumPad7,
    NumPad8,
    NumPad9,
    Equal,
    Minus,
    NumPadMinus,
    Slash,
    NumPadSlash,
    NumPadAsterisk,
    Enter,
    NumPadEnter,
    Backspace,
    Escape,
    Period,
    NumPadDot,
    C,
    Other,
}

/// The key a name stands for.
pub open spec fn key_of_name(name: Seq<char>) -> Option<KeyCode> {
    if name == "0"@ {
        Some(KeyCode::Key0)
    } else if name == "1"@ {
        Some(KeyCode::Key1)
    } else if name == "2"@ {
        Some(KeyCode::Key2)
    } else if name == "3"@ {
        Some(KeyCode::Key3)
    } else if name == "4"@ {
        Some(KeyCode::Key4)
    } else if name == "5"@ {
        Some(KeyCode::Key5)
    } else if name == "6"@ {
        Some(KeyCode::Key6)
    } else if name == "7"@ {
        Some(KeyCode::Key7)
    } else if name == "8"@ {
        Some(KeyCode::Key8)
    } else if name == "9"@ {
        Some(KeyCode::Key9)
    } else if name == "Plus"@ {
        Some(KeyCode::Equal)
    } else if name == "Minus"@ {
        Some(KeyCode::Minus)
    } else if name == "Asterisk"@ {
        Some(KeyCode::Key8)
    } else if name == "Slash"@ {
        Some(KeyCode::Slash)
    } else if name == "Enter"@ {
        Some(KeyCode::Enter)
    } else if name == "Backspace"@ {
        Some(KeyCode::Backspace)
    } else if name == "Escape"@ {
        Some(KeyCode::Escape)
    } else if name == "Period"@ {
        Some(KeyCode::Period)
    } else if name == "C"@ {
        Some(KeyCode::C)
    } else {
        None
    }
}

/// The name of a key, empty for one without a name.
pub open spec fn name_of_key(key: KeyCode) -> Seq<char> {
    match key {
        KeyCode::Key0 | KeyCode::NumPad0 => "0"@,
        KeyCode::Key1 | KeyCode::NumPad1 => "1"@,
        KeyCode::Key2 | KeyCode::NumPad2 => "2"@,
        KeyCode::Key3 | KeyCode::NumPad3 => "3"@,
        KeyCode::Key4 | KeyCode::NumPad4 => "4"@,
        KeyCode::Key5 | KeyCode::NumPad5 => "5"@,
        KeyCode::Key6 | KeyCode::NumPad6 => "6"@,
        KeyCode::Key7 | KeyCode::NumPad7 => "7"@,
        KeyCode::Key8 | KeyCode::NumPad8 => "8"@,
        KeyCode::Key9 | KeyCode::NumPad9 => "9"@,
        KeyCode::Equal => "Plus"@,
        KeyCode::Minus | KeyCode::NumPadMinus => "Minus"@,
        KeyCode::Slash | KeyCode::NumPadSlash => "Slash"@,
        KeyCode::NumPadAsterisk => "Asterisk"@,
        KeyCode::Enter | KeyCode::NumPadEnter => "Enter"@,
        KeyCode::Backspace => "Backspace"@,
        KeyCode::Escape => "Escape"@,
        KeyCode::Period | KeyCode::NumPadDot => "Period"@,
        KeyCode::C => "C"@,
        _ => ""@,
    }
}

/// The key a name stands for.
pub fn name_to_key(name: &str) -> (r: Option<KeyCode>)
    ensures
        r == key_of_name(name@),
{
    proof {
        reveal_strlit("0");
        reveal_strlit("1");
        reveal_strlit("2");
        reveal_strlit("3");
        reveal_strlit("4");
        reveal_strlit("5");
        reveal_strlit("6");
        reveal_strlit("7");
        reveal_strlit("8");
        reveal_strlit("9");
        reveal_strlit("Plus");
        reveal_strlit("Minus");
        reveal_strlit("Asterisk");
        reveal_strlit("Slash");
        reveal_strlit("Enter");
        reveal_strlit("Backspace");
        reveal_strlit("Escape");
        reveal_strlit("Period");
        reveal_strlit("C");
    }
    if compare_names(name, "0") == 0 {
        Some(KeyCode::Key0)
    } else if compare_names(name, "1") == 0 {
        Some(KeyCode::Key1)
    } else if compare_names(name, "2") == 0 {
        Some(KeyCode::Key2)
    } else if compare_names(name, "3") == 0 {
        Some(KeyCode::Key3)
    } else if compare_names(name, "4") == 0 {
        Some(KeyCode::Key4)
    } else if compare_names(name, "5") == 0 {
        Some(KeyCode::Key5)
    } else if compare_names(name, "6") == 0 {
        Some(KeyCode::Key6)
    } else if compare_names(name, "7") == 0 {
        Some(KeyCode::Key7)
    } else if compare_names(name, "8") == 0 {
        Some(KeyCode::Key8)
    } else if compare_names(name, "9") == 0 {
        Some(KeyCode::Key9)
    } else if compare_names(name, "Plus") == 0 {
        Some(KeyCode::Equal)
    } else if compare_names(name, "Minus") == 0 {
        Some(KeyCode::Minus)
    } else if compare_names(name, "Asterisk") == 0 {
        Some(KeyCode::Key8)
    } else if compare_names(name, "Slash") == 0 {
        Some(KeyCode::Slash)
    } else if compare_names(name, "Enter") == 0 {
        Some(KeyCode::Enter)
    } else if compare_names(name, "Backspace") == 0 {
        Some(KeyCode::Backspace)
    } else if compare_names(name, "Escape") == 0 {
        Some(KeyCode::Escape)
    } else if compare_names(name, "Period") == 0 {
        Some(KeyCode::Period)
    } else if compare_names(name, "C") == 0 {
        Some(KeyCode::C)
    } else {
        None
    }
}

/// The name of a key, empty for one without a name.
pub fn key_to_name(key: KeyCode) -> (r: String)
    ensures
        r@ == name_of_key(key),
{
    let s = match key {
        KeyCode::Key0 | KeyCode::NumPad0 => "0",
        KeyCode::Key1 | KeyCode::NumPad1 => "1",
        KeyCode::Key2 | KeyCode::NumPad2 => "2",
        KeyCode::Key3 | KeyCode::NumPad3 => "3",
        KeyCode::Key4 | KeyCode::NumPad4 => "4",
        KeyCode::Key5 | KeyCode::NumPad5 => "5",
        KeyCode::Key6 | KeyCode::NumPad6 => "6",
        KeyCode::Key7 | KeyCode::NumPad7 => "7",
        KeyCode::Key8 | KeyCode::NumPad8 => "8",
        KeyCode::Key9 | KeyCode::NumPad9 => "9",
        KeyCode::Equal => "Plus",
        KeyCode::Minus | KeyCode::NumPadMinus => "Minus",
        KeyCode::Slash | KeyCode::NumPadSlash => "Slash",
        KeyCode::NumPadAsterisk => "Asterisk",
        KeyCode::Enter | KeyCode::NumPadEnter => "Enter",
        KeyCode::Backspace => "Backspace",
        KeyCode::Escape => "Escape",
        KeyCode::Period | KeyCode::NumPadDot => "Period",
        KeyCode::C => "C",
        _ => "",
    };
    String::from_str(s)
}

/// Whether the key named `key_name` is among the keys held down.
pub fn ui_is_key_down(key_name: &str, down: &Vec<KeyCode>) -> (r: bool)
    ensures
        r == (key_of_name(key_name@) matches Some(k) && down@.contains(k)),
{
    match name_to_key(key_name) {
        Some(k) => {
            let mut i: usize = 0;
            while i < down.len()
                invariant
                    i <= down@.len(),
                    key_of_name(key_name@) == Some(k),
                    forall|j: int| 0 <= j < i ==> down@[j] != k,
                decreases down@.len() - i,
            {
                if down[i] == k {
                    assert(down@[i as int] == k);
                    assert(down@.contains(k));
                    return true;
                }
                i = i + 1;
            }
            false
        },
        None => false,
    }
}

/// The name of the first key pressed, or empty when none was.
pub fn ui_get_key_pressed(pressed: &Vec<KeyCode>) -> (r: String)
    ensures
        pressed@.len() > 0 ==> r@ == name_of_key(pressed@[0]),
        pressed@.len() == 0 ==> r@ == Seq::<char>::empty(),
{
    if pressed.len() > 0 {
        key_to_name(pressed[0])
    } else {
        String::new()
    }
}

} // verus!
