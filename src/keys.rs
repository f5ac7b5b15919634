//! Key names as written in settings ("F1", "PageUp", "x") and the
//! virtual-key codes they stand for.
use vstd::prelude::*;

verus! {

/// The upper-case form of a string, as std's full Unicode case mapping gives it.
pub uninterp spec fn upper_of(s: Seq<char>) -> Seq<char>;

/// Relies on `str::to_uppercase`: the result is the upper-case mapping of
/// the characters, so it depends on them alone; an empty string stays empty.
#[verifier::external_body]
fn to_upper(s: &str) -> (r: String)
    ensures
        r@ == upper_of(s@),
        s@.len() == 0 ==> r@.len() == 0,
{
    s.to_uppercase()
}

/// Whether two strings hold the same characters.
pub fn str_equals(a: &str, b: &str) -> (r: bool)
    ensures
        r == (a@ == b@),
{
    let n = a.unicode_len();
    if n != b.unicode_len() {
        return false;
    }
    let mut i: usize = 0;
    while i < n
        invariant
            0 <= i <= n,
            n == a@.len(),
            n == b@.len(),
            forall|j: int| 0 <= j < i ==> a@[j] == b@[j],
        decreases n - i,
    {
        if a.get_char(i) != b.get_char(i) {
            return false;
        }
        i = i + 1;
    }
    assert(a@ =~= b@);
    true
}

/// The virtual-key code of an upper-case key name: End, Insert, Delete,
/// Home, PageUp, PageDown, F1 to F12, the letters and the digits. Any other
/// name, "NONE" among them, has none.
pub open spec fn vk_code_of(name: Seq<char>) -> Option<i32> {
    if name == "END"@ {
        Some(0x23)
    } else if name == "INSERT"@ {
        Some(0x2D)
    } else if name == "DELETE"@ {
        Some(0x2E)
    } else if name == "HOME"@ {
        Some(0x24)
    } else if name == "PAGEUP"@ {
        Some(0x21)
    } else if name == "PAGEDOWN"@ {
        Some(0x22)
    } else if name == "F1"@ {
        Some(0x70)
    } else if name == "F2"@ {
        Some(0x71)
    } else if name == "F3"@ {
        Some(0x72)
    } else if name == "F4"@ {
        Some(0x73)
    } else if name == "F5"@ {
        Some(0x74)
    } else if name == "F6"@ {
        Some(0x75)
    } else if name == "F7"@ {
        Some(0x76)
    } else if name == "F8"@ {
        Some(0x77)
    } else if name == "F9"@ {
        Some(0x78)
    } else if name == "F10"@ {
        Some(0x79)
    } else if name == "F11"@ {
        Some(0x7A)
    } else if name == "F12"@ {
        Some(0x7B)
    } else if name == "A"@ {
        Some(0x41)
    } else if name == "B"@ {
        Some(0x42)
    } else if name == "C"@ {
        Some(0x43)
    } else if name == "D"@ {
        Some(0x44)
    } else if name == "E"@ {
        Some(0x45)
    } else if name == "F"@ {
        Some(0x46)
    } else if name == "G"@ {
        Some(0x47)
    } else if name == "H"@ {
        Some(0x48)
    } else if name == "I"@ {
        Some(0x49)
    } else if name == "J"@ {
        Some(0x4A)
    } else if name == "K"@ {
        Some(0x4B)
    } else if name == "L"@ {
        Some(0x4C)
    } else if name == "M"@ {
        Some(0x4D)
    } else if name == "N"@ {
        Some(0x4E)
    } else if name == "O"@ {
        Some(0x4F)
    } else if name == "P"@ {
        Some(0x50)
    } else if name == "Q"@ {
        Some(0x51)
    } else if name == "R"@ {
        Some(0x52)
    } else if name == "S"@ {
        Some(0x53)
    } else if name == "T"@ {
        Some(0x54)
    } else if name == "U"@ {
        Some(0x55)
    } else if name == "V"@ {
        Some(0x56)
    } else if name == "W"@ {
        Some(0x57)
    } else if name == "X"@ {
        Some(0x58)
    } else if name == "Y"@ {
        Some(0x59)
    } else if name == "Z"@ {
        Some(0x5A)
    } else if name == "0"@ {
        Some(0x30)
    } else if name == "1"@ {
        Some(0x31)
    } else if name == "2"@ {
        Some(0x32)
    } else if name == "3"@ {
        Some(0x33)
    } else if name == "4"@ {
        Some(0x34)
    } else if name == "5"@ {
        Some(0x35)
    } else if name == "6"@ {
        Some(0x36)
    } else if name == "7"@ {
        Some(0x37)
    } else if name == "8"@ {
        Some(0x38)
    } else if name == "9"@ {
        Some(0x39)
    } else {
        None
    }
}

/// The virtual-key code of a key name that is already in upper case.
pub fn vk_code_for_upper(name: &str) -> (r: Option<i32>)
    ensures
        r == vk_code_of(name@),
{
    if str_equals(name, "END") {
        Some(0x23)
    } else if str_equals(name, "INSERT") {
        Some(0x2D)
    } else if str_equals(name, "DELETE") {
        Some(0x2E)
    } else if str_equals(name, "HOME") {
        Some(0x24)
    } else if str_equals(name, "PAGEUP") {
        Some(0x21)
    } else if str_equals(name, "PAGEDOWN") {
        Some(0x22)
    } else if str_equals(name, "F1") {
        Some(0x70)
    } else if str_equals(name, "F2") {
        Some(0x71)
    } else if str_equals(name, "F3") {
        Some(0x72)
    } else if str_equals(name, "F4") {
        Some(0x73)
    } else if str_equals(name, "F5") {
        Some(0x74)
    } else if str_equals(name, "F6") {
        Some(0x75)
    } else if str_equals(name, "F7") {
        Some(0x76)
    } else if str_equals(name, "F8") {
        Some(0x77)
    } else if str_equals(name, "F9") {
        Some(0x78)
    } else if str_equals(name, "F10") {
        Some(0x79)
    } else if str_equals(name, "F11") {
        Some(0x7A)
    } else if str_equals(name, "F12") {
        Some(0x7B)
    } else if str_equals(name, "A") {
        Some(0x41)
    } else if str_equals(name, "B") {
        Some(0x42)
    } else if str_equals(name, "C") {
        Some(0x43)
    } else if str_equals(name, "D") {
        Some(0x44)
    } else if str_equals(name, "E") {
        Some(0x45)
    } else if str_equals(name, "F") {
        Some(0x46)
    } else if str_equals(name, "G") {
        Some(0x47)
    } else if str_equals(name, "H") {
        Some(0x48)
    } else if str_equals(name, "I") {
        Some(0x49)
    } else if str_equals(name, "J") {
        Some(0x4A)
    } else if str_equals(name, "K") {
        Some(0x4B)
    } else if str_equals(name, "L") {
        Some(0x4C)
    } else if str_equals(name, "M") {
        Some(0x4D)
    } else if str_equals(name, "N") {
        Some(0x4E)
    } else if str_equals(name, "O") {
        Some(0x4F)
    } else if str_equals(name, "P") {
        Some(0x50)
    } else if str_equals(name, "Q") {
        Some(0x51)
    } else if str_equals(name, "R") {
        Some(0x52)
    } else if str_equals(name, "S") {
        Some(0x53)
    } else if str_equals(name, "T") {
        Some(0x54)
    } else if str_equals(name, "U") {
        Some(0x55)
    } else if str_equals(name, "V") {
        Some(0x56)
    } else if str_equals(name, "W") {
        Some(0x57)
    } else if str_equals(name, "X") {
        Some(0x58)
    } else if str_equals(name, "Y") {
        Some(0x59)
    } else if str_equals(name, "Z") {
        Some(0x5A)
    } else if str_equals(name, "0") {
        Some(0x30)
    } else if str_equals(name, "1") {
        Some(0x31)
    } else if str_equals(name, "2") {
        Some(0x32)
    } else if str_equals(name, "3") {
        Some(0x33)
    } else if str_equals(name, "4") {
        Some(0x34)
    } else if str_equals(name, "5") {
        Some(0x35)
    } else if str_equals(name, "6") {
        Some(0x36)
    } else if str_equals(name, "7") {
        Some(0x37)
    } else if str_equals(name, "8") {
        Some(0x38)
    } else if str_equals(name, "9") {
        Some(0x39)
    } else {
        None
    }
}

/// The virtual-key code of a key name, in any letter case.
pub fn key_name_to_vk_code(key_name: &str) -> (r: Option<i32>)
    ensures
        r == vk_code_of(upper_of(key_name@)),
{
    let upper = to_upper(key_name);
    vk_code_for_upper(upper.as_str())
}

} // verus!
