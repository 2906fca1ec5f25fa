//! Settings that come from environment variables.
//!
//! The program hands its environment to the library as a list of names and values;
//! a variable whose value is not valid Unicode is left out of it.

use crate::text::{
    decimal, numbers_up_to_a_bound_are_read, only_digits_are_read, parse_unsigned, parsed_unsigned,
    same_text,
};
use vstd::prelude::*;

verus! {

/// The variables of the environment, each with its value.
#[derive(Debug)]
pub struct Vars {
    pub entries: Vec<(String, String)>,
}

/// The value of the first entry from `from` on that is called `name`.
pub open spec fn entry_value(entries: Seq<(String, String)>, from: int, name: Seq<char>) -> Option<
    Seq<char>,
>
    decreases entries.len() - from,
{
    if from >= entries.len() {
        None
    } else if entries[from].0@ == name {
        Some(entries[from].1@)
    } else {
        entry_value(entries, from + 1, name)
    }
}

impl Vars {
    /// The value of the variable `name`, if it is set.
    pub open spec fn value(&self, name: Seq<char>) -> Option<Seq<char>> {
        entry_value(self.entries@, 0, name)
    }

    /// The number in the variable `name`, if it is set to one of at most `max`.
    pub open spec fn number(&self, name: Seq<char>, max: nat) -> Option<nat> {
        match self.value(name) {
            Some(text) => parsed_unsigned(text, max),
            None => None,
        }
    }

    /// The number in the variable `name`, or `default`.
    pub open spec fn number_or(&self, name: Seq<char>, max: nat, default: nat) -> nat {
        match self.number(name, max) {
            Some(n) => n,
            None => default,
        }
    }

    /// The `true` or `false` in the variable `name`, if it is set to one of them.
    pub open spec fn flag(&self, name: Seq<char>) -> Option<bool> {
        match self.value(name) {
            Some(text) => if text == "true"@ {
                Some(true)
            } else if text == "false"@ {
                Some(false)
            } else {
                None
            },
            None => None,
        }
    }

    /// The value of the variable `name`, if it is set.
    pub fn get(&self, name: &str) -> (res: Option<&String>)
        ensures
            match res {
                Some(text) => self.value(name@) == Some(text@),
                None => self.value(name@) is None,
            },
    {
        let mut i: usize = 0;
        while i < self.entries.len()
            invariant
                i <= self.entries@.len(),
                self.value(name@) == entry_value(self.entries@, i as int, name@),
            decreases self.entries@.len() - i,
        {
            if same_text(self.entries[i].0.as_str(), name) {
                return Some(&self.entries[i].1);
            }
            i += 1;
        }
        None
    }

    /// The number in the variable `name`, if it is set to one that fits 64 bits.
    pub fn read_u64(&self, name: &str) -> (res: Option<u64>)
        ensures
            match res {
                Some(n) => self.number(name@, u64::MAX as nat) == Some(n as nat),
                None => self.number(name@, u64::MAX as nat) is None,
            },
    {
        match self.get(name) {
            Some(text) => parse_unsigned(text.as_str(), u64::MAX),
            None => None,
        }
    }

    /// The number in the variable `name`, if it is set to one that fits `usize`.
    pub fn read_usize(&self, name: &str) -> (res: Option<usize>)
        ensures
            match res {
                Some(n) => self.number(name@, usize::MAX as nat) == Some(n as nat),
                None => self.number(name@, usize::MAX as nat) is None,
            },
    {
        match self.get(name) {
            Some(text) => match parse_unsigned(text.as_str(), usize::MAX as u64) {
                Some(n) => Some(n as usize),
                None => None,
            },
            None => None,
        }
    }

    /// The number in the variable `name`, or `default`.
    pub fn env_usize(&self, name: &str, default: usize) -> (n: usize)
        ensures
            n == self.number_or(name@, usize::MAX as nat, default as nat),
    {
        match self.read_usize(name) {
            Some(n) => n,
            None => default,
        }
    }

    /// The number in the variable `name`, or `default`.
    pub fn env_u64(&self, name: &str, default: u64) -> (n: u64)
        ensures
            n == self.number_or(name@, u64::MAX as nat, default as nat),
    {
        match self.read_u64(name) {
            Some(n) => n,
            None => default,
        }
    }

    /// The `true` or `false` in the variable `name`, if it is set to one of them.
    pub fn env_flag(&self, name: &str) -> (res: Option<bool>)
        ensures
            res == self.flag(name@),
    {
        match self.get(name) {
            Some(text) => {
                if same_text(text.as_str(), "true") {
                    Some(true)
                } else if same_text(text.as_str(), "false") {
                    Some(false)
                } else {
                    None
                }
            },
            None => None,
        }
    }
}

/// A variable has the value of its first entry, and none if it has no entry.
pub proof fn the_first_entry_counts(vars: Vars, name: Seq<char>, at: int)
    requires
        0 <= at <= vars.entries@.len(),
        forall|k: int| 0 <= k < at ==> (#[trigger] vars.entries@[k]).0@ != name,
        at < vars.entries@.len() ==> vars.entries@[at].0@ == name,
    ensures
        vars.value(name) == if at < vars.entries@.len() {
            Some(vars.entries@[at].1@)
        } else {
            None
        },
{
    entry_found(vars.entries@, 0, name, at);
}

proof fn entry_found(entries: Seq<(String, String)>, from: int, name: Seq<char>, at: int)
    requires
        0 <= from <= at <= entries.len(),
        forall|k: int| from <= k < at ==> (#[trigger] entries[k]).0@ != name,
        at < entries.len() ==> entries[at].0@ == name,
    ensures
        entry_value(entries, from, name) == if at < entries.len() {
            Some(entries[at].1@)
        } else {
            None
        },
    decreases at - from,
{
    if from < at {
        entry_found(entries, from + 1, name, at);
    }
}

/// A variable that is set to a number has that number. One that is not set, or to something that is
/// no number or too large a one, has the number that stands in for it.
pub proof fn a_number_that_is_set_counts(vars: Vars, name: Seq<char>, n: nat, max: nat, default: nat)
    ensures
        vars.value(name) is None ==> vars.number_or(name, max, default) == default,
        vars.value(name) == Some(decimal(n)) && n <= max ==> vars.number_or(name, max, default)
            == n,
        vars.value(name) == Some(decimal(n)) && n > max ==> vars.number_or(name, max, default)
            == default,
        vars.value(name) matches Some(text) ==> (text.len() == 0 || exists|i: int|
            0 < i < text.len() && !(48 <= (#[trigger] text[i]) as u32 <= 57)) ==> vars.number_or(
            name,
            max,
            default,
        ) == default,
{
    numbers_up_to_a_bound_are_read(n, max);
    if vars.value(name) is Some {
        let text = vars.value(name)->0;
        if exists|i: int| 0 < i < text.len() && !(48 <= (#[trigger] text[i]) as u32 <= 57) {
            let i = choose|i: int| 0 < i < text.len() && !(48 <= (#[trigger] text[i]) as u32 <= 57);
            only_digits_are_read(text, i, max);
        }
    }
}

/// A flag is set by the words `true` and `false` alone.
pub proof fn flags_are_two_words(vars: Vars, name: Seq<char>)
    ensures
        vars.flag(name) == Some(true) <==> vars.value(name) == Some(seq!['t', 'r', 'u', 'e']),
        vars.flag(name) == Some(false) <==> vars.value(name) == Some(seq!['f', 'a', 'l', 's', 'e']),
{
    reveal_strlit("true");
    reveal_strlit("false");
    assert("true"@ =~= seq!['t', 'r', 'u', 'e']);
    assert("false"@ =~= seq!['f', 'a', 'l', 's', 'e']);
    assert("true"@.len() != "false"@.len());
}

} // verus!
