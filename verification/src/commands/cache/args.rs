use crate::text::{all_digits, digit_value, digits_value, i64_text, parse_i64};
use vstd::prelude::*;
use vstd::string::*;

verus! {

/// The age past which `dopbase cache clean` removes entries by default: 14 days.
pub const DEFAULT_MAX_AGE_SECONDS: i64 = 1_209_600;

/// The `dopbase cache` subcommands.
pub enum CacheCommand {
    /// Show cached environments for the active server.
    List,
    /// Remove cached environments by age, or every entry with `all`.
    Clean(CacheCleanArgs),
}

/// The options of `dopbase cache clean`.
pub struct CacheCleanArgs {
    /// Remove entries older than this age; 14 days when absent.
    pub older_than: Option<CacheAge>,
    /// Remove every cached environment, regardless of age.
    pub all: bool,
    /// Show what would be removed without changing the cache.
    pub dry_run: bool,
    /// Skip the confirmation prompt.
    pub yes: bool,
}

/// A positive age written as a whole number and a unit (`s`, `m`, `h` or
/// `d`), kept with the text it was written as.
pub struct CacheAge {
    seconds: i64,
    display: String,
}

/// The abstract content of a `CacheAge`.
pub ghost struct AgeView {
    pub seconds: i64,
    pub display: Seq<char>,
}

impl View for CacheAge {
    type V = AgeView;

    closed spec fn view(&self) -> AgeView {
        AgeView { seconds: self.seconds, display: self.display@ }
    }
}

/// The seconds in one unit of an age suffix; 0 for any other character.
pub open spec fn unit_seconds(c: char) -> int {
    if c == 's' {
        1
    } else if c == 'm' {
        60
    } else if c == 'h' {
        3600
    } else if c == 'd' {
        86400
    } else {
        0
    }
}

/// The message for text that is not a whole number followed by a unit.
pub open spec fn age_format_message() -> Seq<char> {
    "use a positive whole number followed by s, m, h, or d"@
}

/// The message for an age that is zero or negative.
pub open spec fn age_positive_message() -> Seq<char> {
    "cache age must be greater than zero"@
}

/// The message for an age whose seconds do not fit in an `i64`.
pub open spec fn age_too_large_message() -> Seq<char> {
    "cache age is too large"@
}

/// What an age written as `text` is worth in seconds, or the message that
/// refuses it: the last character is the unit, the text before it an `i64`
/// greater than zero, and the product must fit in an `i64`.
pub open spec fn age_parse(text: Seq<char>) -> Result<i64, Seq<char>> {
    if text.len() == 0 || unit_seconds(text.last()) == 0 {
        Err(age_format_message())
    } else {
        match i64_text(text.drop_last()) {
            None => Err(age_format_message()),
            Some(amount) => if amount <= 0 {
                Err(age_positive_message())
            } else if amount * unit_seconds(text.last()) > i64::MAX {
                Err(age_too_large_message())
            } else {
                Ok((amount * unit_seconds(text.last())) as i64)
            },
        }
    }
}

impl CacheAge {
    /// The seconds are what the text reads as.
    #[verifier::type_invariant]
    spec fn well_formed(self) -> bool {
        age_parse(self.display@) == Ok::<i64, Seq<char>>(self.seconds)
    }

    /// The age in seconds.
    pub fn seconds(&self) -> (res: i64)
        ensures
            res == self@.seconds,
            age_parse(self@.display) == Ok::<i64, Seq<char>>(res),
    {
        proof {
            use_type_invariant(self);
        }
        self.seconds
    }

    /// The age as it was written.
    pub fn to_string(&self) -> (res: String)
        ensures
            res@ == self@.display,
    {
        self.display.clone()
    }

    /// Reads an age such as `30d`, `12h`, `90m` or `45s`.
    pub fn parse(value: &str) -> (res: Result<CacheAge, String>)
        ensures
            match res {
                Ok(age) => age_parse(value@) == Ok::<i64, Seq<char>>(age@.seconds) && age@.display
                    == value@,
                Err(message) => age_parse(value@) == Err::<i64, Seq<char>>(message@),
            },
    {
        proof {
            reveal_strlit("use a positive whole number followed by s, m, h, or d");
            reveal_strlit("cache age must be greater than zero");
            reveal_strlit("cache age is too large");
        }
        let n = value.unicode_len();
        if n == 0 {
            return Err("use a positive whole number followed by s, m, h, or d".to_owned());
        }
        let unit = value.get_char(n - 1);
        let multiplier: i64 = if unit == 's' {
            1
        } else if unit == 'm' {
            60
        } else if unit == 'h' {
            3600
        } else if unit == 'd' {
            86400
        } else {
            return Err("use a positive whole number followed by s, m, h, or d".to_owned());
        };
        let amount_text = value.substring_char(0, n - 1);
        assert(amount_text@ =~= value@.drop_last());
        let amount = match parse_i64(amount_text) {
            Some(amount) => amount,
            None => {
                return Err("use a positive whole number followed by s, m, h, or d".to_owned());
            },
        };
        if amount <= 0 {
            return Err("cache age must be greater than zero".to_owned());
        }
        let seconds = match amount.checked_mul(multiplier) {
            Some(seconds) => seconds,
            None => {
                return Err("cache age is too large".to_owned());
            },
        };
        Ok(CacheAge { seconds, display: value.to_owned() })
    }
}

impl core::str::FromStr for CacheAge {
    type Err = String;

    /// Reads an age as `CacheAge::parse` does.
    fn from_str(value: &str) -> (res: Result<CacheAge, String>)
        ensures
            match res {
                Ok(age) => age_parse(value@) == Ok::<i64, Seq<char>>(age@.seconds) && age@.display
                    == value@,
                Err(message) => age_parse(value@) == Err::<i64, Seq<char>>(message@),
            },
    {
        CacheAge::parse(value)
    }
}

impl Default for CacheAge {
    /// Fourteen days, written `14d`.
    fn default() -> (res: CacheAge)
        ensures
            res@.seconds == DEFAULT_MAX_AGE_SECONDS,
            res@.display == "14d"@,
    {
        proof {
            reveal_strlit("14d");
            let digits = "14d"@.drop_last();
            assert(digits =~= seq!['1', '4']);
            assert(digits.drop_last() =~= seq!['1']);
            assert(digits.drop_last().drop_last() =~= Seq::<char>::empty());
            assert(digits_value(digits.drop_last().drop_last()) == 0);
            assert(digit_value('1') == 1);
            assert(digit_value('4') == 4);
            assert(digits.drop_last().last() == '1');
            assert(digits_value(digits.drop_last()) == 1);
            assert(digits_value(digits) == 14);
            assert(all_digits(digits));
            assert(i64_text(digits) == Some(14i64));
        }
        CacheAge { seconds: DEFAULT_MAX_AGE_SECONDS, display: "14d".to_owned() }
    }
}

} // verus!
