//! The activity log: a JSON array of strings, one entry for each action of
//! the operator, the newest last.
//!
//! As with the list of marked senders, the functions here work on the content
//! of the file, and the caller reads and writes it.

use vstd::prelude::*;
use vstd::string::StringExecFns;
use crate::decimal::{digit, digit_text};
use crate::error::TriageError;
use crate::json::{string_array_json, write_string_array};
use crate::target_list::{list, stored_list};

verus! {

/// A number below one hundred in two digits.
pub open spec fn two_digits(n: nat) -> Seq<char> {
    seq![digit(n / 10), digit(n % 10)]
}

/// A number below ten thousand in four digits.
pub open spec fn four_digits(n: nat) -> Seq<char> {
    two_digits(n / 100) + two_digits(n % 100)
}

/// An entry of the log: the time in square brackets, the action, a colon and
/// the address.
pub open spec fn entry_text(stamp: Seq<char>, action: Seq<char>, address: Seq<char>) -> Seq<char> {
    "["@ + stamp + "] "@ + action + ": "@ + address
}

/// A date and a time of day, as the operator's clock shows them.
#[derive(Clone, Copy, Debug, PartialEq, Eq)]
pub struct Moment {
    year: u16,
    month: u8,
    day: u8,
    hour: u8,
    minute: u8,
    second: u8,
}

/// The numbers are those of a date and a time of day. The length of the
/// month is not looked at.
pub open spec fn is_moment(year: u16, month: u8, day: u8, hour: u8, minute: u8, second: u8) -> bool {
    &&& year <= 9999
    &&& 1 <= month <= 12
    &&& 1 <= day <= 31
    &&& hour <= 23
    &&& minute <= 59
    &&& second <= 59
}

fn two_digit_string(n: u8) -> (s: String)
    requires
        n < 100,
    ensures
        s@ == two_digits(n as nat),
{
    digit_text((n / 10) as usize).to_owned().concat(digit_text((n % 10) as usize))
}

impl Moment {
    #[verifier::type_invariant]
    spec fn in_range(&self) -> bool {
        is_moment(self.year, self.month, self.day, self.hour, self.minute, self.second)
    }

    /// The year.
    pub closed spec fn year(&self) -> nat {
        self.year as nat
    }

    /// The month, from 1.
    pub closed spec fn month(&self) -> nat {
        self.month as nat
    }

    /// The day of the month, from 1.
    pub closed spec fn day(&self) -> nat {
        self.day as nat
    }

    /// The hour.
    pub closed spec fn hour(&self) -> nat {
        self.hour as nat
    }

    /// The minute.
    pub closed spec fn minute(&self) -> nat {
        self.minute as nat
    }

    /// The second.
    pub closed spec fn second(&self) -> nat {
        self.second as nat
    }

    /// The moment as the log shows it: year, month and day, each followed by
    /// its sign, then the time of day.
    pub open spec fn stamp_text(&self) -> Seq<char> {
        four_digits(self.year()) + "年"@ + two_digits(self.month()) + "月"@ + two_digits(self.day())
            + "日 "@ + two_digits(self.hour()) + ":"@ + two_digits(self.minute()) + ":"@
            + two_digits(self.second())
    }

    /// The moment with the given numbers, if they are those of a date and a
    /// time of day.
    pub fn new(year: u16, month: u8, day: u8, hour: u8, minute: u8, second: u8) -> (m: Option<Self>)
        ensures
            m is Some <==> is_moment(year, month, day, hour, minute, second),
            m is Some ==> {
                &&& m->0.year() == year
                &&& m->0.month() == month
                &&& m->0.day() == day
                &&& m->0.hour() == hour
                &&& m->0.minute() == minute
                &&& m->0.second() == second
            },
    {
        if year <= 9999 && 1 <= month && month <= 12 && 1 <= day && day <= 31 && hour <= 23
            && minute <= 59 && second <= 59 {
            Some(Moment { year, month, day, hour, minute, second })
        } else {
            None
        }
    }

    /// Writes the moment as the log shows it.
    pub fn stamp(&self) -> (s: String)
        ensures
            s@ == self.stamp_text(),
    {
        proof {
            use_type_invariant(self);
        }
        let century = (self.year / 100) as u8;
        let years = (self.year % 100) as u8;
        let date = two_digit_string(century).concat(two_digit_string(years).as_str()).concat(
            "年",
        ).concat(two_digit_string(self.month).as_str()).concat("月").concat(
            two_digit_string(self.day).as_str(),
        ).concat("日 ");
        date.concat(two_digit_string(self.hour).as_str()).concat(":").concat(
            two_digit_string(self.minute).as_str(),
        ).concat(":").concat(two_digit_string(self.second).as_str())
    }
}

/// The entry that records that `address` was marked at the moment `when`.
pub fn add_entry(when: &Moment, address: &str) -> (entry: String)
    ensures
        entry@ == entry_text(when.stamp_text(), "Add"@, address@),
{
    "[".to_owned().concat(when.stamp().as_str()).concat("] ").concat("Add").concat(": ").concat(
        address,
    )
}

/// One append to the log: from the content of the file as it was read and
/// the new entry, the bytes to overwrite the file with. The entries that were
/// there stay as they are and in their order; the new one comes last.
///
/// Fails with `ParseDBError` exactly where the content is neither empty nor a
/// JSON array of strings, and with `EncodeDBError` exactly where the JSON
/// writer refuses the new list.
pub fn append(content: &str, entry: String) -> (r: Result<Vec<u8>, TriageError>)
    ensures
        match stored_list(content@) {
            None => r == Err::<Vec<u8>, TriageError>(TriageError::ParseDBError),
            Some(entries) => match string_array_json(entries.push(entry@)) {
                Some(bytes) => r matches Ok(b) && b@ == bytes,
                None => r == Err::<Vec<u8>, TriageError>(TriageError::EncodeDBError),
            },
        },
{
    match list(content) {
        Err(e) => Err(e),
        Ok(entries) => {
            let mut entries = entries;
            let ghost before = entries.deep_view();
            entries.push(entry);
            proof {
                assert(entries.deep_view() =~= before.push(entry@));
            }
            match write_string_array(&entries) {
                Ok(bytes) => Ok(bytes),
                Err(_) => Err(TriageError::EncodeDBError),
            }
        },
    }
}

} // verus!
