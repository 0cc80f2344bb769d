//! Reads single settings from named values.
use vstd::prelude::*;

use crate::numbers::Single;
use crate::text::{
    ascii_lowered, is_blank, number_value, parse_number, pieces, same_text, separators_part_texts,
    split_pieces, to_ascii_lower, trim, trimmed, unparted_texts_are_one_piece, views, NumberFault,
    Separator,
};
use crate::web::{pair_views, parse_url, parsed_url};

verus! {

/// Why the configuration cannot be used.
#[derive(Debug, PartialEq, Eq)]
pub enum ConfigError {
    /// The file with settings could not be read.
    Dotenv(String),
    /// A setting that has no default is not given.
    Missing { name: &'static str },
    /// A setting has a value that it cannot have.
    Invalid { name: &'static str, reason: String },
}

/// The value of a [`ConfigError`].
#[verifier::ext_equal]
pub enum ConfigErrorModel {
    Dotenv(Seq<char>),
    Missing { name: Seq<char> },
    Invalid { name: Seq<char>, reason: Seq<char> },
}

impl View for ConfigError {
    type V = ConfigErrorModel;

    open spec fn view(&self) -> ConfigErrorModel {
        match *self {
            ConfigError::Dotenv(reason) => ConfigErrorModel::Dotenv(reason@),
            ConfigError::Missing { name } => ConfigErrorModel::Missing { name: name@ },
            ConfigError::Invalid { name, reason } => ConfigErrorModel::Invalid {
                name: name@,
                reason: reason@,
            },
        }
    }
}

impl ConfigErrorModel {
    /// The fault in words.
    pub open spec fn words(self) -> Seq<char> {
        match self {
            ConfigErrorModel::Dotenv(reason) => "could not read .env: "@ + reason,
            ConfigErrorModel::Missing { name } => "missing required configuration variable "@
                + name,
            ConfigErrorModel::Invalid { name, reason } => "invalid value for "@ + name + ": "@
                + reason,
        }
    }
}

impl ConfigError {
    /// The fault in words.
    pub fn message(&self) -> (r: String)
        ensures
            r@ == self@.words(),
    {
        match self {
            ConfigError::Dotenv(reason) => {
                let mut out = "could not read .env: ".to_owned();
                out.append(reason.as_str());
                out
            },
            ConfigError::Missing { name } => {
                let mut out = "missing required configuration variable ".to_owned();
                out.append(name);
                out
            },
            ConfigError::Invalid { name, reason } => {
                let mut out = "invalid value for ".to_owned();
                out.append(name);
                out.append(": ");
                out.append(reason.as_str());
                out
            },
        }
    }
}

/// A fault, if there is one.
pub type Fault = Option<ConfigErrorModel>;

/// The first of two faults.
pub open spec fn or_fault(first: Fault, second: Fault) -> Fault {
    if first is Some {
        first
    } else {
        second
    }
}

/// The fault of a setting with a value that it cannot have.
pub open spec fn invalid_fault(name: Seq<char>, reason: Seq<char>) -> Fault {
    Some(ConfigErrorModel::Invalid { name, reason })
}

/// The fault that says what a setting ought to be.
pub fn invalid(name: &'static str, reason: String) -> (r: ConfigError)
    ensures
        Some(r@) == invalid_fault(name@, reason@),
{
    ConfigError::Invalid { name, reason }
}

/// Names and values; of one name the last value counts.
pub type Values = Vec<(String, String)>;

/// The value of a name.
pub open spec fn value_of(values: Seq<(Seq<char>, Seq<char>)>, name: Seq<char>) -> Option<Seq<char>>
    decreases values.len(),
{
    if values.len() == 0 {
        None
    } else if values.last().0 == name {
        Some(values.last().1)
    } else {
        value_of(values.drop_last(), name)
    }
}

/// Of one name the last value counts, and the other names are left alone.
pub proof fn later_values_count(
    values: Seq<(Seq<char>, Seq<char>)>,
    name: Seq<char>,
    value: Seq<char>,
    other: Seq<char>,
)
    requires
        other != name,
    ensures
        value_of(values.push((name, value)), name) == Some(value),
        value_of(values.push((name, value)), other) == value_of(values, other),
{
    assert(values.push((name, value)).drop_last() =~= values);
}

/// The value of a name, or another text where the name has none.
pub open spec fn value_or(
    values: Seq<(Seq<char>, Seq<char>)>,
    name: Seq<char>,
    default: Seq<char>,
) -> Seq<char> {
    match value_of(values, name) {
        Some(value) => value,
        None => default,
    }
}

/// The value of the name.
pub fn find_value(values: &Values, name: &str) -> (r: Option<String>)
    ensures
        match r {
            Some(value) => value_of(pair_views(values@), name@) == Some(value@),
            None => value_of(pair_views(values@), name@) is None,
        },
{
    let ghost all = pair_views(values@);
    let mut n: usize = values.len();
    assert(all.take(n as int) =~= all);
    while n > 0
        invariant
            all == pair_views(values@),
            n <= values@.len(),
            value_of(all, name@) == value_of(all.take(n as int), name@),
        decreases n,
    {
        assert(all.take(n as int).last() == (values@[n - 1].0@, values@[n - 1].1@));
        assert(all.take(n as int).drop_last() =~= all.take(n - 1));
        if same_text(values[n - 1].0.as_str(), name) {
            return Some(values[n - 1].1.clone());
        }
        n -= 1;
    }
    None
}

/// The text of a setting, or its default.
pub fn read_string(values: &Values, name: &str, default: &str) -> (r: String)
    ensures
        r@ == value_or(pair_views(values@), name@, default@),
{
    match find_value(values, name) {
        Some(value) => value,
        None => default.to_owned(),
    }
}

/// The fault of a setting without a default.
pub open spec fn required_fault(values: Seq<(Seq<char>, Seq<char>)>, name: Seq<char>) -> Fault {
    match value_of(values, name) {
        Some(value) => if trim(value).len() > 0 {
            None
        } else {
            Some(ConfigErrorModel::Missing { name })
        },
        None => Some(ConfigErrorModel::Missing { name }),
    }
}

/// The text of a setting that has no default.
pub fn read_required(values: &Values, name: &'static str) -> (r: Result<String, ConfigError>)
    ensures
        match r {
            Ok(value) => required_fault(pair_views(values@), name@) is None && value_of(
                pair_views(values@),
                name@,
            ) == Some(value@),
            Err(error) => required_fault(pair_views(values@), name@) == Some(error@),
        },
{
    match find_value(values, name) {
        Some(value) => if is_blank(value.as_str()) {
            Err(ConfigError::Missing { name })
        } else {
            Ok(value)
        },
        None => Err(ConfigError::Missing { name }),
    }
}

/// The value of a number, or why it has none.
pub open spec fn number_reading(
    values: Seq<(Seq<char>, Seq<char>)>,
    name: Seq<char>,
    default: nat,
    max: nat,
) -> Result<nat, NumberFault> {
    match value_of(values, name) {
        Some(value) => number_value(value, max),
        None => Ok(default),
    }
}

/// The number that was read.
pub open spec fn number_or(
    values: Seq<(Seq<char>, Seq<char>)>,
    name: Seq<char>,
    default: nat,
    max: nat,
) -> nat {
    number_reading(values, name, default, max)->Ok_0
}

/// The fault of a number.
pub open spec fn number_fault(
    values: Seq<(Seq<char>, Seq<char>)>,
    name: Seq<char>,
    default: nat,
    max: nat,
) -> Fault {
    match number_reading(values, name, default, max) {
        Ok(_) => None,
        Err(fault) => invalid_fault(name, fault.words()),
    }
}

/// The number of a setting up to `max`, or its default.
pub fn read_number(values: &Values, name: &'static str, default: u64, max: u64) -> (r: Result<
    u64,
    ConfigError,
>)
    requires
        default <= max,
    ensures
        match r {
            Ok(value) => {
                &&& number_fault(pair_views(values@), name@, default as nat, max as nat) is None
                &&& value == number_or(pair_views(values@), name@, default as nat, max as nat)
                &&& value <= max
            },
            Err(error) => number_fault(
                pair_views(values@),
                name@,
                default as nat,
                max as nat,
            ) == Some(error@),
        },
{
    match find_value(values, name) {
        Some(value) => match parse_number(value.as_str(), max) {
            Ok(number) => Ok(number),
            Err(fault) => Err(invalid(name, fault.message().to_owned())),
        },
        None => Ok(default),
    }
}

/// Whether a text says yes.
pub open spec fn says_yes(s: Seq<char>) -> bool {
    s == "true"@ || s == "1"@ || s == "yes"@ || s == "on"@
}

/// Whether a text says no.
pub open spec fn says_no(s: Seq<char>) -> bool {
    s == "false"@ || s == "0"@ || s == "no"@ || s == "off"@
}

/// The words for a switch, without white space and in lower case.
pub open spec fn switch_word(value: Seq<char>) -> Seq<char> {
    ascii_lowered(trim(value))
}

/// Whether a switch is on.
pub open spec fn switch_or(
    values: Seq<(Seq<char>, Seq<char>)>,
    name: Seq<char>,
    default: bool,
) -> bool {
    match value_of(values, name) {
        Some(value) => says_yes(switch_word(value)),
        None => default,
    }
}

/// The fault of a switch.
pub open spec fn switch_fault(values: Seq<(Seq<char>, Seq<char>)>, name: Seq<char>) -> Fault {
    match value_of(values, name) {
        Some(value) => if says_yes(switch_word(value)) || says_no(switch_word(value)) {
            None
        } else {
            invalid_fault(name, "expected a boolean (true/false, yes/no, on/off, or 1/0)"@)
        },
        None => None,
    }
}

/// The state of a switch, or its default.
pub fn read_switch(values: &Values, name: &'static str, default: bool) -> (r: Result<
    bool,
    ConfigError,
>)
    ensures
        match r {
            Ok(on) => switch_fault(pair_views(values@), name@) is None && on == switch_or(
                pair_views(values@),
                name@,
                default,
            ),
            Err(error) => switch_fault(pair_views(values@), name@) == Some(error@),
        },
{
    match find_value(values, name) {
        None => Ok(default),
        Some(value) => {
            let bare = trimmed(value.as_str());
            let word = to_ascii_lower(bare.as_str());
            let w = word.as_str();
            if same_text(w, "true") || same_text(w, "1") || same_text(w, "yes") || same_text(
                w,
                "on",
            ) {
                Ok(true)
            } else if same_text(w, "false") || same_text(w, "0") || same_text(w, "no") || same_text(
                w,
                "off",
            ) {
                proof {
                    words_for_yes_and_no_differ(w@);
                }
                Ok(false)
            } else {
                Err(
                    invalid(
                        name,
                        "expected a boolean (true/false, yes/no, on/off, or 1/0)".to_owned(),
                    ),
                )
            }
        },
    }
}

/// No word says both yes and no.
pub proof fn words_for_yes_and_no_differ(s: Seq<char>)
    ensures
        !(says_yes(s) && says_no(s)),
{
    reveal_strlit("true");
    reveal_strlit("1");
    reveal_strlit("yes");
    reveal_strlit("on");
    reveal_strlit("false");
    reveal_strlit("0");
    reveal_strlit("no");
    reveal_strlit("off");
    if says_yes(s) && says_no(s) {
        assert(s.len() == 4 || s.len() == 1 || s.len() == 3 || s.len() == 2);
        assert(s[0] == 't' || s[0] == '1' || s[0] == 'y' || s[0] == 'o');
        assert(s[0] == 'f' || s[0] == '0' || s[0] == 'n' || s[0] == 'o');
    }
}

/// The address of a setting in its normal form.
pub open spec fn url_or(
    values: Seq<(Seq<char>, Seq<char>)>,
    name: Seq<char>,
    default: Seq<char>,
) -> Seq<char> {
    parsed_url(value_or(values, name, default))->Ok_0
}

/// The fault of an address.
pub open spec fn url_fault(
    values: Seq<(Seq<char>, Seq<char>)>,
    name: Seq<char>,
    default: Seq<char>,
) -> Fault {
    match parsed_url(value_or(values, name, default)) {
        Ok(_) => None,
        Err(reason) => invalid_fault(name, reason),
    }
}

/// The address of a setting, or its default.
pub fn read_url(values: &Values, name: &'static str, default: &str) -> (r: Result<
    String,
    ConfigError,
>)
    ensures
        match r {
            Ok(url) => url_fault(pair_views(values@), name@, default@) is None && url@ == url_or(
                pair_views(values@),
                name@,
                default@,
            ),
            Err(error) => url_fault(pair_views(values@), name@, default@) == Some(error@),
        },
{
    let raw = read_string(values, name, default);
    match parse_url(raw.as_str()) {
        Ok(url) => Ok(url),
        Err(reason) => Err(invalid(name, reason)),
    }
}

/// The entries of a list: what stands between the commas, without the white
/// space around it.
pub open spec fn list_entries(value: Seq<char>) -> Seq<Seq<char>> {
    let parts = pieces(value, Separator::Only(','));
    Seq::new(parts.len(), |i: int| trim(parts[i]))
}

/// The list of a setting, or its default.
pub fn read_list(values: &Values, name: &str, default: &str) -> (r: Vec<String>)
    ensures
        views(r@) == list_entries(value_or(pair_views(values@), name@, default@)),
{
    let raw = read_string(values, name, default);
    let parts = split_pieces(raw.as_str(), Separator::Only(','));
    let ghost entries = list_entries(raw@);
    let mut out: Vec<String> = Vec::new();
    let mut i: usize = 0;
    while i < parts.len()
        invariant
            i <= parts@.len(),
            views(parts@) == pieces(raw@, Separator::Only(',')),
            entries == list_entries(raw@),
            views(out@) == entries.take(i as int),
        decreases parts@.len() - i,
    {
        let ghost before = views(out@);
        let entry = trimmed(parts[i].as_str());
        let ghost model = entry@;
        assert(parts@[i as int]@ == views(parts@)[i as int]);
        out.push(entry);
        i += 1;
        assert(views(out@) =~= before.push(model));
        assert(entries.take(i as int) =~= entries.take(i - 1).push(entries[i - 1]));
    }
    assert(entries.take(i as int) =~= entries);
    out
}

/// A fractional number as the standard library read it from a setting: nothing
/// where the setting is not given, else the number or why the text is none.
pub type Reading = Option<Result<Single, String>>;

/// The fractional number that was read.
pub open spec fn reading_or(reading: Reading, default: Single) -> Single {
    match reading {
        Some(Ok(value)) => value,
        _ => default,
    }
}

/// The fault of a fractional number.
pub open spec fn reading_fault(reading: Reading, name: Seq<char>) -> Fault {
    match reading {
        Some(Err(reason)) => invalid_fault(name, reason@),
        _ => None,
    }
}

/// The fractional number of a setting, or its default.
pub fn take_reading(reading: &Reading, name: &'static str, default: Single) -> (r: Result<
    Single,
    ConfigError,
>)
    ensures
        match r {
            Ok(value) => reading_fault(*reading, name@) is None && value == reading_or(
                *reading,
                default,
            ),
            Err(error) => reading_fault(*reading, name@) == Some(error@),
        },
{
    match reading {
        Some(Ok(value)) => Ok(*value),
        Some(Err(reason)) => Err(invalid(name, reason.clone())),
        None => Ok(default),
    }
}

/// A switch is on for four words and off for four others, whatever their case
/// and the white space around them; any other value is refused, and without one
/// the default counts.
pub proof fn switches_know_eight_words(
    values: Seq<(Seq<char>, Seq<char>)>,
    name: Seq<char>,
    default: bool,
)
    ensures
        value_of(values, name) is None ==> switch_fault(values, name) is None && switch_or(
            values,
            name,
            default,
        ) == default,
        value_of(values, name) matches Some(value) ==> {
            let word = ascii_lowered(trim(value));
            let yes = word == seq!['t', 'r', 'u', 'e'] || word == seq!['1'] || word
                == seq!['y', 'e', 's'] || word == seq!['o', 'n'];
            let no = word == seq!['f', 'a', 'l', 's', 'e'] || word == seq!['0'] || word
                == seq!['n', 'o'] || word == seq!['o', 'f', 'f'];
            &&& switch_or(values, name, default) == yes
            &&& switch_fault(values, name) is None <==> yes || no
            &&& switch_fault(values, name) matches Some(fault) ==> fault == (
            ConfigErrorModel::Invalid {
                name,
                reason: "expected a boolean (true/false, yes/no, on/off, or 1/0)"@,
            })
        },
{
    reveal_strlit("true");
    reveal_strlit("1");
    reveal_strlit("yes");
    reveal_strlit("on");
    reveal_strlit("false");
    reveal_strlit("0");
    reveal_strlit("no");
    reveal_strlit("off");
    assert("true"@ =~= seq!['t', 'r', 'u', 'e']);
    assert("1"@ =~= seq!['1']);
    assert("yes"@ =~= seq!['y', 'e', 's']);
    assert("on"@ =~= seq!['o', 'n']);
    assert("false"@ =~= seq!['f', 'a', 'l', 's', 'e']);
    assert("0"@ =~= seq!['0']);
    assert("no"@ =~= seq!['n', 'o']);
    assert("off"@ =~= seq!['o', 'f', 'f']);
}

/// The entries of a list stand between commas, without the white space around
/// them.
pub proof fn lists_are_parted_by_commas(a: Seq<char>, b: Seq<char>, plain: Seq<char>)
    requires
        forall|k: int| 0 <= k < plain.len() ==> #[trigger] plain[k] != ',',
    ensures
        list_entries(a.push(',') + b) == list_entries(a) + list_entries(b),
        list_entries(plain) == seq![trim(plain)],
{
    separators_part_texts(a, ',', b, Separator::Only(','));
    unparted_texts_are_one_piece(plain, Separator::Only(','));
    assert(list_entries(a.push(',') + b) =~= list_entries(a) + list_entries(b));
    assert(list_entries(plain) =~= seq![trim(plain)]);
}

/// A setting has the value that is given, and its default where none is; a
/// number that cannot be read is refused by name, and a key that is not given or
/// blank is missing.
pub proof fn settings_have_their_value_or_a_default(
    values: Seq<(Seq<char>, Seq<char>)>,
    name: Seq<char>,
    text: Seq<char>,
    number: nat,
    max: nat,
)
    ensures
        value_of(values, name) matches Some(value) ==> {
            &&& value_or(values, name, text) == value
            &&& required_fault(values, name) is None <==> trim(value).len() > 0
            &&& trim(value).len() == 0 ==> required_fault(values, name) == Some(
                ConfigErrorModel::Missing { name },
            )
            &&& number_value(value, max) matches Ok(n) ==> number_or(values, name, number, max) == n
                && number_fault(values, name, number, max) is None
            &&& number_value(value, max) matches Err(fault) ==> number_fault(
                values,
                name,
                number,
                max,
            ) == Some(ConfigErrorModel::Invalid { name, reason: fault.words() })
            &&& parsed_url(value) matches Ok(url) ==> url_or(values, name, text) == url && url_fault(
                values,
                name,
                text,
            ) is None
            &&& parsed_url(value) matches Err(reason) ==> url_fault(values, name, text) == Some(
                ConfigErrorModel::Invalid { name, reason },
            )
        },
        value_of(values, name) is None ==> {
            &&& value_or(values, name, text) == text
            &&& required_fault(values, name) == Some(ConfigErrorModel::Missing { name })
            &&& number_or(values, name, number, max) == number
            &&& number_fault(values, name, number, max) is None
            &&& parsed_url(text) matches Ok(url) ==> url_or(values, name, text) == url
        },
{
}

/// Of two faults the first counts.
pub proof fn the_first_fault_counts(first: Fault, second: Fault)
    ensures
        first is Some ==> or_fault(first, second) == first,
        first is None ==> or_fault(first, second) == second,
{
}

} // verus!
