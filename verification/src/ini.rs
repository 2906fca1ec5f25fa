//! Values in sections, as a file with `[section]` and `key=value` lines.

use crate::text::is_white;
use configparser::ini::Ini;
use vstd::prelude::*;

verus! {

/// A document of configparser.
#[verifier::external_type_specification]
#[verifier::external_body]
pub struct ExIni(configparser::ini::Ini);

/// The values of a document, each under its section and its key. A key can stand without a value.
pub uninterp spec fn ini_values(ini: Ini) -> Map<(Seq<char>, Seq<char>), Option<Seq<char>>>;

/// Whether a document was made by `Ini::new_cs` and has kept the settings that it got there.
pub uninterp spec fn ini_plain(ini: Ini) -> bool;

/// The values that a document made by `Ini::new_cs` reads from a text, or how it describes what is
/// wrong.
pub uninterp spec fn ini_parsed(text: Seq<char>) -> Result<
    Map<(Seq<char>, Seq<char>), Option<Seq<char>>>,
    Seq<char>,
>;

/// No values.
pub open spec fn no_values() -> Map<(Seq<char>, Seq<char>), Option<Seq<char>>> {
    Map::empty()
}

/// The values after one of them is set.
pub open spec fn with_value(
    values: Map<(Seq<char>, Seq<char>), Option<Seq<char>>>,
    section: Seq<char>,
    key: Seq<char>,
    value: Seq<char>,
) -> Map<(Seq<char>, Seq<char>), Option<Seq<char>>> {
    values.insert((section, key), Some(value))
}

/// The value under a section and a key.
pub open spec fn value_at(
    values: Map<(Seq<char>, Seq<char>), Option<Seq<char>>>,
    section: Seq<char>,
    key: Seq<char>,
) -> Option<Seq<char>> {
    if values.dom().contains((section, key)) {
        values[(section, key)]
    } else {
        None
    }
}

/// A letter or a digit of ASCII.
pub open spec fn is_word_char(c: char) -> bool {
    let n = c as u32;
    ||| 0x30 <= n <= 0x39
    ||| 0x41 <= n <= 0x5a
    ||| 0x61 <= n <= 0x7a
}

/// One or more letters and digits.
pub open spec fn is_word(s: Seq<char>) -> bool {
    s.len() > 0 && forall|i: int| 0 <= i < s.len() ==> is_word_char(#[trigger] s[i])
}

/// A value that one line can hold: it ends no line, starts no comment, and has no white space at
/// either end.
pub open spec fn fits_line(s: Seq<char>) -> bool {
    &&& forall|i: int|
        0 <= i < s.len() ==> #[trigger] s[i] != '\n' && s[i] != '\r' && s[i] != ';' && s[i] != '#'
    &&& s.len() > 0 ==> !is_white(s[0]) && !is_white(s.last())
}

/// Values of which each is found again when they are written and read: sections and keys are words,
/// and each value fits a line.
pub open spec fn writable(values: Map<(Seq<char>, Seq<char>), Option<Seq<char>>>) -> bool {
    forall|at: (Seq<char>, Seq<char>)| #[trigger]
        values.dom().contains(at) ==> is_word(at.0) && at.0 != "default"@ && is_word(at.1)
            && values[at] is Some && fits_line(values[at].unwrap())
}

/// `Ini::new_cs`: a document without values.
#[verifier::external_body]
pub(crate) fn new_ini() -> (ini: Ini)
    ensures
        ini_plain(ini),
        ini_values(ini) == no_values(),
{
    Ini::new_cs()
}

/// `Ini::set`: the value stands under its section and key; the others stay as they were.
#[verifier::external_body]
pub(crate) fn set_value(ini: &mut Ini, section: &str, key: &str, value: String)
    requires
        ini_plain(*old(ini)),
    ensures
        ini_plain(*final(ini)),
        ini_values(*final(ini)) == with_value(ini_values(*old(ini)), section@, key@, value@),
{
    ini.set(section, key, Some(value));
}

/// `Ini::get`: the value under a section and a key, if there is one.
#[verifier::external_body]
pub(crate) fn get_value(ini: &Ini, section: &str, key: &str) -> (res: Option<String>)
    requires
        ini_plain(*ini),
    ensures
        match res {
            Some(value) => value_at(ini_values(*ini), section@, key@) == Some(value@),
            None => value_at(ini_values(*ini), section@, key@) is None,
        },
{
    ini.get(section, key)
}

/// `Ini::read`: the document holds what the text says. If the text cannot be read, the document
/// stays as it was.
#[verifier::external_body]
pub(crate) fn read_values(ini: &mut Ini, text: String) -> (res: Result<(), String>)
    requires
        ini_plain(*old(ini)),
    ensures
        ini_plain(*final(ini)),
        match res {
            Ok(_) => holds_parsed(*final(ini), text@),
            Err(why) => ini_parsed(text@) is Err && ini_parsed(text@)->Err_0 == why@
                && ini_values(*final(ini)) == ini_values(*old(ini)),
        },
{
    ini.read(text).map(|_| ())
}

/// Whether a document holds the values that stand in a text.
pub open spec fn holds_parsed(ini: Ini, text: Seq<char>) -> bool {
    ini_parsed(text) is Ok && ini_parsed(text)->Ok_0 == ini_values(ini)
}

/// `Ini::writes`: a text. In which order the sections and the keys stand there is not said. Where
/// every value is writable, the text is read to the same values again.
#[verifier::external_body]
pub(crate) fn write_values(ini: &Ini) -> (text: String)
    requires
        ini_plain(*ini),
    ensures
        writable(ini_values(*ini)) ==> holds_parsed(*ini, text@),
{
    ini.writes()
}

} // verus!
