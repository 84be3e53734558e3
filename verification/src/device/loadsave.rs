//! The files that a device is kept in.

use crate::utils;
use crate::utils::decimal_text;
use crate::utils::inner_text;
use vstd::prelude::*;
use vstd::string::*;

verus! {

/// Whether a character is a decimal digit in any script.
pub uninterp spec fn unicode_digit(c: char) -> bool;

/// `regex::Regex::is_match` with `\d`: whether a character is a decimal digit
/// in any script.
#[verifier::external_body]
fn is_unicode_digit(c: char) -> (res: bool)
    ensures
        res == unicode_digit(c),
{
    regex::Regex::new(r"^\d$").is_ok_and(|digit| digit.is_match(&c.to_string()))
}

/// Whether a character counts as a digit in a file name.
pub open spec fn is_digit(c: char) -> bool {
    if c as int <= 127 {
        '0' <= c <= '9'
    } else {
        unicode_digit(c)
    }
}

/// One digit or more, and nothing else.
pub open spec fn is_number(text: Seq<char>) -> bool {
    &&& text.len() > 0
    &&& forall|i: int| 0 <= i < text.len() ==> is_digit(#[trigger] text[i])
}

/// The name of the file for a value description.
pub open spec fn description_file(id: nat) -> Seq<char> {
    "Value_description_"@ + utils::decimal(id) + ".json"@
}

/// The name of the file for a value.
pub open spec fn value_file(id: nat) -> Seq<char> {
    "Value_"@ + utils::decimal(id) + "r.json"@
}

/// Whether a file holds a value description, by its name.
pub open spec fn is_description_name(name: Seq<char>) -> bool {
    utils::inner(name, "Value_description_"@, ".json"@) matches Some(number) && is_number(number)
}

/// Whether a file holds a value, by its name.
pub open spec fn is_value_name(name: Seq<char>) -> bool {
    utils::inner(name, "Value_"@, "r.json"@) matches Some(number) && is_number(number)
}

fn is_number_text(text: &str) -> (res: bool)
    ensures
        res == is_number(text@),
{
    let len: usize = text.unicode_len();
    if len == 0 {
        return false;
    }
    let mut i: usize = 0;
    while i < len
        invariant
            i <= len,
            len == text@.len(),
            forall|k: int| 0 <= k < i ==> is_digit(#[trigger] text@[k]),
        decreases len - i,
    {
        let c: char = text.get_char(i);
        let digit: bool = if c as u32 <= 127 {
            '0' <= c && c <= '9'
        } else {
            is_unicode_digit(c)
        };
        if !digit {
            assert(!is_digit(text@[i as int]));
            return false;
        }
        i += 1;
    }
    true
}

/// Whether a directory entry is a file that holds a value description. A name
/// that is no text is none.
pub fn holds_description(name: Option<&str>, is_file: bool) -> (res: bool)
    ensures
        res == (name matches Some(name) && is_description_name(name@) && is_file),
{
    match name {
        None => false,
        Some(name) => match inner_text(name, "Value_description_", ".json") {
            Some(number) => is_number_text(number) && is_file,
            None => false,
        },
    }
}

/// Whether a directory entry is a file that holds a value.
pub fn holds_value(name: Option<&str>, is_file: bool) -> (res: bool)
    ensures
        res == (name matches Some(name) && is_value_name(name@) && is_file),
{
    match name {
        None => false,
        Some(name) => match inner_text(name, "Value_", "r.json") {
            Some(number) => is_number_text(number) && is_file,
            None => false,
        },
    }
}

/// The name of the file for the value description with this id.
pub fn description_file_name(id: u32) -> (res: String)
    ensures
        res@ == description_file(id as nat),
{
    let mut res: String = "Value_description_".to_owned();
    res.append(decimal_text(id as u64).as_str());
    res.append(".json");
    res
}

/// The name of the file for the value with this id.
pub fn value_file_name(id: u32) -> (res: String)
    ensures
        res@ == value_file(id as nat),
{
    let mut res: String = "Value_".to_owned();
    res.append(decimal_text(id as u64).as_str());
    res.append("r.json");
    res
}

/// The name under which a file is written before it takes the place of the one
/// before.
pub fn temporary_name(name: &str) -> (res: String)
    ensures
        res@ == "tmp."@ + name@,
{
    let mut res: String = "tmp.".to_owned();
    res.append(name);
    res
}

/// The name of the directory for the device with this address.
pub fn device_dir_name(address: &str) -> (res: String)
    ensures
        res@ == "Device_descriptionID_"@ + address@,
{
    let mut res: String = "Device_descriptionID_".to_owned();
    res.append(address);
    res
}

/// The name of the file for the description of the device with this address.
pub fn device_file_name(address: &str) -> (res: String)
    ensures
        res@ == "Device_descriptionID_"@ + address@ + ".json"@,
{
    let mut res: String = device_dir_name(address);
    res.append(".json");
    res
}

/// Whether a text is on a single line.
pub open spec fn is_one_line(text: Seq<char>) -> bool {
    forall|i: int| 0 <= i < text.len() ==> #[trigger] text[i] != '\n'
}

/// The address in the name of a device's directory, if it is one.
pub open spec fn address_in_dir(name: Seq<char>) -> Option<Seq<char>> {
    match utils::inner(name, "Device_descriptionID_"@, ""@) {
        Some(address) => if is_one_line(address) {
            Some(address)
        } else {
            None
        },
        None => None,
    }
}

/// The address in the name of a device's directory, if it is one.
pub fn device_dir_address<'a>(name: &'a str) -> (res: Option<&'a str>)
    ensures
        match (res, address_in_dir(name@)) {
            (Some(address), Some(expected)) => address@ == expected,
            (None, None) => true,
            _ => false,
        },
{
    match inner_text(name, "Device_descriptionID_", "") {
        None => None,
        Some(address) => {
            let len: usize = address.unicode_len();
            let mut i: usize = 0;
            while i < len
                invariant
                    i <= len,
                    len == address@.len(),
                    utils::inner(name@, "Device_descriptionID_"@, ""@) == Some(address@),
                    forall|k: int| 0 <= k < i ==> #[trigger] address@[k] != '\n',
                decreases len - i,
            {
                if address.get_char(i) == '\n' {
                    assert(address@[i as int] == '\n');
                    return None;
                }
                i += 1;
            }
            Some(address)
        },
    }
}

/// What is saved is found again.
pub proof fn law_saved_files_are_loaded(id: nat)
    ensures
        is_description_name(description_file(id)),
        is_value_name(value_file(id)),
{
    utils::lemma_decimal_digits(id);
    utils::lemma_inner("Value_description_"@, utils::decimal(id), ".json"@);
    utils::lemma_inner("Value_"@, utils::decimal(id), "r.json"@);
}

/// A file that was not written to its end is not taken for a real one.
pub proof fn law_temporary_files_are_not_loaded(name: Seq<char>)
    ensures
        !is_description_name("tmp."@ + name),
        !is_value_name("tmp."@ + name),
{
    reveal_strlit("tmp.");
    reveal_strlit("Value_description_");
    reveal_strlit("Value_");
    let text = "tmp."@ + name;
    assert(text[0] == 't');
    if utils::inner(text, "Value_description_"@, ".json"@) is Some {
        assert(text.subrange(0, 18)[0] == 'V');
    }
    if utils::inner(text, "Value_"@, "r.json"@) is Some {
        assert(text.subrange(0, 6)[0] == 'V');
    }
}

/// The file of a value is never taken for that of a value description, nor the
/// other way round.
pub proof fn law_files_are_told_apart(id: nat)
    ensures
        !is_value_name(description_file(id)),
        !is_description_name(value_file(id)),
{
    reveal_strlit("Value_description_");
    reveal_strlit("Value_");
    reveal_strlit(".json");
    reveal_strlit("r.json");
    utils::lemma_decimal_digits(id);
    let d = description_file(id);
    if utils::inner(d, "Value_"@, "r.json"@) is Some {
        let number = utils::inner(d, "Value_"@, "r.json"@)->0;
        if is_number(number) {
            assert(d[6] == 'd');
            assert(number[0] == 'd');
            assert(is_digit(number[0]));
        }
    }
    let v = value_file(id);
    if utils::inner(v, "Value_description_"@, ".json"@) is Some {
        assert(v.subrange(0, 18)[6] == 'd');
        assert(v[6] == utils::decimal(id)[0]);
    }
}

/// The directory of a device is found under its address.
pub proof fn law_device_dir_is_found(address: Seq<char>)
    requires
        is_one_line(address),
    ensures
        address_in_dir("Device_descriptionID_"@ + address) == Some(address),
{
    reveal_strlit("");
    utils::lemma_inner("Device_descriptionID_"@, address, ""@);
    assert("Device_descriptionID_"@ + address + ""@ =~= "Device_descriptionID_"@ + address);
}

/// Of the ASCII characters only '0' to '9' are digits, and a number consists of
/// digits and has at least one.
pub proof fn law_numbers_in_names(c: char, text: Seq<char>)
    ensures
        c as int <= 127 ==> (is_digit(c) <==> '0' <= c <= '9'),
        c as int > 127 ==> is_digit(c) == unicode_digit(c),
        !is_number(Seq::<char>::empty()),
        is_number(seq![c]) == is_digit(c),
        text.len() > 0 ==> is_number(text.push(c)) == (is_number(text) && is_digit(c)),
{
    assert(is_number(seq![c]) ==> is_digit(seq![c][0]));
    let longer = text.push(c);
    if text.len() > 0 && is_number(longer) {
        assert(is_digit(longer[text.len() as int]));
        assert forall|i: int| 0 <= i < text.len() implies is_digit(#[trigger] text[i]) by {
            assert(is_digit(longer[i]));
        }
    }
}

/// The files of a device are told by their names: a number between a fixed
/// beginning and a fixed end, which is the id when the file is written.
pub proof fn law_names_of_files(name: Seq<char>, id: nat)
    ensures
        is_description_name(name) <==> exists|number: Seq<char>| #[trigger]
            is_number(number) && name == "Value_description_"@ + number + ".json"@,
        is_value_name(name) <==> exists|number: Seq<char>| #[trigger]
            is_number(number) && name == "Value_"@ + number + "r.json"@,
        description_file(id) == "Value_description_"@ + utils::decimal(id) + ".json"@,
        value_file(id) == "Value_"@ + utils::decimal(id) + "r.json"@,
{
    utils::law_inner_makes_up_text(name, "Value_description_"@, ".json"@);
    utils::law_inner_makes_up_text(name, "Value_"@, "r.json"@);
    assert forall|number: Seq<char>| #[trigger]
        is_number(number) && name == "Value_description_"@ + number
            + ".json"@ implies is_description_name(name) by {
        utils::lemma_inner("Value_description_"@, number, ".json"@);
    }
    assert forall|number: Seq<char>| #[trigger]
        is_number(number) && name == "Value_"@ + number + "r.json"@ implies is_value_name(name) by {
        utils::lemma_inner("Value_"@, number, "r.json"@);
    }
}

/// The address of a device is all that follows the beginning of its directory's
/// name, as long as there is no line break in it.
pub proof fn law_addresses_of_directories(name: Seq<char>, address: Seq<char>)
    ensures
        address_in_dir(name) == Some(address) <==> name == "Device_descriptionID_"@ + address
            && !address.contains('\n'),
        is_one_line(address) <==> !address.contains('\n'),
{
    reveal_strlit("");
    assert("Device_descriptionID_"@ + address + ""@ =~= "Device_descriptionID_"@ + address);
    utils::law_inner_makes_up_text(name, "Device_descriptionID_"@, ""@);
    utils::lemma_inner("Device_descriptionID_"@, address, ""@);
    if let Some(found) = utils::inner(name, "Device_descriptionID_"@, ""@) {
        assert("Device_descriptionID_"@ + found + ""@ =~= "Device_descriptionID_"@ + found);
    }
    if !address.contains('\n') {
        assert forall|i: int| 0 <= i < address.len() implies #[trigger] address[i] != '\n' by {
            assert(address.contains(address[i]));
        }
    }
}

} // verus!
