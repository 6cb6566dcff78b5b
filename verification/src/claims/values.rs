use crate::decimal::{
    decimal, format_decimal, lemma_decimal_digits, lemma_parse_decimal, parse_decimal,
    parse_unsigned, NumberError,
};
use crate::text::{
    first_index, lemma_count_zero, lemma_nth_index_joined, same_text, split_around, split_once,
    to_chars, VariantNotFound,
};
use crate::time::NonZeroUnixMillis;
use vstd::bytes::{
    lemma_auto_spec_u64_to_from_le_bytes, spec_u64_from_le_bytes, spec_u64_to_le_bytes,
    u64_from_le_bytes, u64_to_le_bytes,
};
use vstd::prelude::*;
use vstd::slice::slice_subrange;
use vstd::string::StringExecFns;

verus! {

/// How two values of one claim are reconciled.
#[derive(Clone, Copy, Debug, PartialEq, Eq, Structural, Hash)]
pub enum ClaimAggregation {
    /// The greater magnitude wins; a tie keeps what is stored.
    Max,
    /// The lesser magnitude wins; a tie keeps what is stored.
    Min,
    /// The value updated last wins; a tie goes to the incoming value.
    New,
}

impl Default for ClaimAggregation {
    fn default() -> (r: Self)
        ensures
            r == ClaimAggregation::New,
    {
        ClaimAggregation::New
    }
}

impl ClaimAggregation {
    /// The name of the policy.
    pub open spec fn text(self) -> Seq<char> {
        match self {
            ClaimAggregation::Max => "Max"@,
            ClaimAggregation::Min => "Min"@,
            ClaimAggregation::New => "New"@,
        }
    }

    /// The policy that a text names.
    pub open spec fn parse(s: Seq<char>) -> Result<ClaimAggregation, VariantNotFound> {
        if s == "Max"@ {
            Ok(ClaimAggregation::Max)
        } else if s == "Min"@ {
            Ok(ClaimAggregation::Min)
        } else if s == "New"@ {
            Ok(ClaimAggregation::New)
        } else {
            Err(VariantNotFound)
        }
    }

    /// Writes the name of the policy.
    pub fn to_string(&self) -> (r: String)
        ensures
            r@ == self.text(),
    {
        match self {
            ClaimAggregation::Max => String::from_str("Max"),
            ClaimAggregation::Min => String::from_str("Min"),
            ClaimAggregation::New => String::from_str("New"),
        }
    }

    /// Reads the name of a policy.
    pub fn from_str(s: &str) -> (r: Result<Self, VariantNotFound>)
        ensures
            r == Self::parse(s@),
    {
        if same_text(s, "Max") {
            Ok(ClaimAggregation::Max)
        } else if same_text(s, "Min") {
            Ok(ClaimAggregation::Min)
        } else if same_text(s, "New") {
            Ok(ClaimAggregation::New)
        } else {
            Err(VariantNotFound)
        }
    }

    /// The name of a policy reads back as that policy, and holds no slash.
    pub proof fn lemma_parse_text(self)
        ensures
            Self::parse(self.text()) == Ok::<Self, VariantNotFound>(self),
            !self.text().contains('/'),
    {
        reveal_strlit("Max");
        reveal_strlit("Min");
        reveal_strlit("New");
        assert("Max"@[1] != "Min"@[1]);
        assert("Max"@[0] != "New"@[0]);
        assert("Min"@[0] != "New"@[0]);
    }
}

/// Why a text is no claim value.
#[derive(Clone, Copy, Debug, PartialEq, Eq, Structural)]
pub enum ClaimValueError {
    /// The magnitude is no number.
    Value(NumberError),
    /// No slash parts the magnitude from the update time.
    MissingSlash,
    /// The update time is no time.
    Updated(NumberError),
    /// The expiration is no time.
    Expiration(NumberError),
}

/// One fact: a magnitude, when it was last updated, and when it stops being valid.
#[derive(Clone, Copy, Debug, PartialEq, Eq, Structural)]
pub struct ClaimValue {
    pub date_expires: Option<NonZeroUnixMillis>,
    pub date_updated: NonZeroUnixMillis,
    pub value: u64,
}

impl ClaimValue {
    /// Whether `new` takes over magnitude and update time from `self`.
    pub open spec fn replaced_by(self, new: ClaimValue, aggregation: ClaimAggregation) -> bool {
        match aggregation {
            ClaimAggregation::New => new.date_updated@ >= self.date_updated@,
            ClaimAggregation::Min => new.value < self.value,
            ClaimAggregation::Max => new.value > self.value,
        }
    }

    /// Whether `new` hands its expiration to `self`: it does when it takes over,
    /// and also when it is at least as recent.
    pub open spec fn expiration_from(self, new: ClaimValue, aggregation: ClaimAggregation) -> bool {
        self.replaced_by(new, aggregation) || new.date_updated@ >= self.date_updated@
    }

    /// What `self` becomes when `new` is merged into it.
    pub open spec fn merged(self, new: ClaimValue, aggregation: ClaimAggregation) -> ClaimValue {
        ClaimValue {
            value: if self.replaced_by(new, aggregation) {
                new.value
            } else {
                self.value
            },
            date_updated: if self.replaced_by(new, aggregation) {
                new.date_updated
            } else {
                self.date_updated
            },
            date_expires: if self.expiration_from(new, aggregation) {
                new.date_expires
            } else {
                self.date_expires
            },
        }
    }

    /// Whether the value is past its expiration at `now`.
    pub open spec fn expired_at(self, now: NonZeroUnixMillis) -> bool {
        self.date_expires matches Some(expiration) && expiration@ < now@
    }

    /// Merges `new` into `self` and tells whether `self` changed.
    pub fn merge(&mut self, new: &Self, aggregation: ClaimAggregation) -> (changed: bool)
        ensures
            *final(self) == old(self).merged(*new, aggregation),
            changed == (*final(self) != *old(self)),
    {
        let newer = new.date_updated.get() >= self.date_updated.get();
        let replace = match aggregation {
            ClaimAggregation::New => newer,
            ClaimAggregation::Min => new.value < self.value,
            ClaimAggregation::Max => new.value > self.value,
        };
        let mut changed = false;
        if replace && new.value != self.value {
            self.value = new.value;
            changed = true;
        }
        if replace && new.date_updated != self.date_updated {
            self.date_updated = new.date_updated;
            changed = true;
        }
        if (replace || newer) && self.date_expires != new.date_expires {
            self.date_expires = new.date_expires;
            changed = true;
        }
        changed
    }

    /// The text of a value: magnitude, update time and, where there is one,
    /// expiration, with slashes between them.
    pub open spec fn text(self) -> Seq<char> {
        let head = decimal(self.value as nat) + seq!['/'] + self.date_updated.text();
        match self.date_expires {
            Some(expiration) => head + seq!['/'] + expiration.text(),
            None => head,
        }
    }

    /// What a text denotes: a claim value, or the reason why none.
    pub open spec fn parse(s: Seq<char>) -> Result<ClaimValue, ClaimValueError> {
        match first_index(s, '/') {
            None => Err(ClaimValueError::MissingSlash),
            Some(i) => {
                let (value, dates) = split_around(s, i);
                let (updated, expires) = match first_index(dates, '/') {
                    Some(j) => (split_around(dates, j).0, Some(split_around(dates, j).1)),
                    None => (dates, None),
                };
                match parse_unsigned(value, u64::MAX as nat) {
                    Err(e) => Err(ClaimValueError::Value(e)),
                    Ok(value) => match NonZeroUnixMillis::parse(updated) {
                        Err(e) => Err(ClaimValueError::Updated(e)),
                        Ok(date_updated) => match expires {
                            None => Ok(
                                ClaimValue { value: value as u64, date_updated, date_expires: None },
                            ),
                            Some(expires) => match NonZeroUnixMillis::parse(expires) {
                                Err(e) => Err(ClaimValueError::Expiration(e)),
                                Ok(date_expires) => Ok(
                                    ClaimValue {
                                        value: value as u64,
                                        date_updated,
                                        date_expires: Some(date_expires),
                                    },
                                ),
                            },
                        },
                    },
                }
            },
        }
    }

    /// Whether the times of a ghost value are times that can be made.
    pub open spec fn valid(self) -> bool {
        &&& self.date_updated.valid()
        &&& self.date_expires matches Some(expiration) ==> expiration.valid()
    }

    /// Writes the value as text.
    pub fn to_string(&self) -> (r: String)
        ensures
            r@ == self.text(),
    {
        let mut r = format_decimal(self.value);
        r.push('/');
        let updated = self.date_updated.to_string();
        r.append(updated.as_str());
        match self.date_expires {
            Some(expiration) => {
                r.push('/');
                let expires = expiration.to_string();
                r.append(expires.as_str());
            },
            None => {},
        }
        r
    }

    /// Reads a value from text.
    pub fn from_str(s: &str) -> (r: Result<Self, ClaimValueError>)
        ensures
            r == Self::parse(s@),
            r matches Ok(v) ==> v.valid(),
    {
        let (value, dates) = match split_once(s, '/') {
            Some(pair) => pair,
            None => {
                return Err(ClaimValueError::MissingSlash);
            },
        };
        let (updated, expires) = match split_once(dates, '/') {
            Some((updated, expires)) => (updated, Some(expires)),
            None => (dates, None),
        };
        let chars = to_chars(value);
        assert(chars@.subrange(0, chars@.len() as int) == value@);
        let value = match parse_decimal(&chars, 0, chars.len(), u64::MAX) {
            Ok(value) => value,
            Err(e) => {
                return Err(ClaimValueError::Value(e));
            },
        };
        let date_updated = match NonZeroUnixMillis::from_str(updated) {
            Ok(date) => date,
            Err(e) => {
                return Err(ClaimValueError::Updated(e));
            },
        };
        match expires {
            Some(expires) => match NonZeroUnixMillis::from_str(expires) {
                Ok(date) => Ok(ClaimValue { value, date_updated, date_expires: Some(date) }),
                Err(e) => Err(ClaimValueError::Expiration(e)),
            },
            None => Ok(ClaimValue { value, date_updated, date_expires: None }),
        }
    }

    /// The text of a value reads back as that value.
    pub proof fn lemma_parse_text(self)
        requires
            self.valid(),
        ensures
            Self::parse(self.text()) == Ok::<Self, ClaimValueError>(self),
    {
        let value = decimal(self.value as nat);
        let updated = self.date_updated.text();
        lemma_decimal_digits(self.value as nat);
        lemma_decimal_digits(self.date_updated@ as nat);
        lemma_parse_decimal(self.value as nat, u64::MAX as nat);
        self.date_updated.lemma_parse_text();
        assert(!value.contains('/')) by {
            if value.contains('/') {
                let j = choose|j: int| 0 <= j < value.len() && value[j] == '/';
                assert(crate::decimal::is_digit(value[j]));
            }
        }
        assert(!updated.contains('/')) by {
            if updated.contains('/') {
                let j = choose|j: int| 0 <= j < updated.len() && updated[j] == '/';
                assert(crate::decimal::is_digit(updated[j]));
            }
        }
        lemma_count_zero(value, '/');
        lemma_count_zero(updated, '/');
        match self.date_expires {
            Some(expiration) => {
                let expires = expiration.text();
                expiration.lemma_parse_text();
                let dates = updated + seq!['/'] + expires;
                assert(self.text() == value + seq!['/'] + dates);
                lemma_nth_index_joined(value, dates, '/', 0);
                lemma_nth_index_joined(updated, expires, '/', 0);
            },
            None => {
                lemma_nth_index_joined(value, updated, '/', 0);
                crate::text::lemma_nth_index_range(updated, '/', 0);
            },
        }
    }

    /// The expiration as a number: zero where there is none.
    pub open spec fn expiration_number(self) -> u64 {
        match self.date_expires {
            Some(expiration) => expiration@ as u64,
            None => 0,
        }
    }

    /// The record of a value: 24 bytes, which hold the magnitude, the update time
    /// and the expiration, or zero for none, each as eight bytes with the lowest first.
    pub open spec fn record(self) -> Seq<u8> {
        spec_u64_to_le_bytes(self.value) + spec_u64_to_le_bytes(self.date_updated@ as u64)
            + spec_u64_to_le_bytes(self.expiration_number())
    }

    /// What a record denotes: a claim value, where it has 24 bytes and its update
    /// time is not zero.
    pub open spec fn parse_record(bytes: Seq<u8>) -> Option<ClaimValue> {
        if bytes.len() != 24 || spec_u64_from_le_bytes(bytes.subrange(8, 16)) == 0 {
            None
        } else {
            let expiration = spec_u64_from_le_bytes(bytes.subrange(16, 24));
            Some(
                ClaimValue {
                    value: spec_u64_from_le_bytes(bytes.subrange(0, 8)),
                    date_updated: NonZeroUnixMillis::of(
                        spec_u64_from_le_bytes(bytes.subrange(8, 16)) as int,
                    ),
                    date_expires: if expiration == 0 {
                        None
                    } else {
                        Some(NonZeroUnixMillis::of(expiration as int))
                    },
                },
            )
        }
    }

    /// Writes the record of the value.
    pub fn to_bytes(&self) -> (r: Vec<u8>)
        ensures
            r@ == self.record(),
            r@.len() == 24,
    {
        let mut r = u64_to_le_bytes(self.value);
        let mut updated = u64_to_le_bytes(self.date_updated.get());
        let mut expires = u64_to_le_bytes(
            match self.date_expires {
                Some(expiration) => expiration.get(),
                None => 0,
            },
        );
        r.append(&mut updated);
        r.append(&mut expires);
        r
    }

    /// Reads a value from its record.
    pub fn from_bytes(bytes: &[u8]) -> (r: Option<Self>)
        ensures
            r == Self::parse_record(bytes@),
            r matches Some(v) ==> v.valid(),
    {
        broadcast use NonZeroUnixMillis::lemma_view_of, NonZeroUnixMillis::lemma_of_view;

        if bytes.len() != 24 {
            return None;
        }
        let value = u64_from_le_bytes(slice_subrange(bytes, 0, 8));
        let updated = u64_from_le_bytes(slice_subrange(bytes, 8, 16));
        let expires = u64_from_le_bytes(slice_subrange(bytes, 16, 24));
        let date_updated = match NonZeroUnixMillis::new(updated) {
            Some(date) => date,
            None => {
                return None;
            },
        };
        assert(NonZeroUnixMillis::of(date_updated@) == date_updated);
        let date_expires = NonZeroUnixMillis::new(expires);
        proof {
            if let Some(date) = date_expires {
                assert(NonZeroUnixMillis::of(date@) == date);
            }
        }
        Some(ClaimValue { value, date_updated, date_expires })
    }

    /// The record of a value reads back as that value.
    pub proof fn lemma_parse_record(self)
        requires
            self.valid(),
        ensures
            Self::parse_record(self.record()) == Some(self),
            self.record().len() == 24,
    {
        broadcast use NonZeroUnixMillis::lemma_view_of;

        lemma_auto_spec_u64_to_from_le_bytes();
        let a = spec_u64_to_le_bytes(self.value);
        let b = spec_u64_to_le_bytes(self.date_updated@ as u64);
        let c = spec_u64_to_le_bytes(self.expiration_number());
        let bytes = self.record();
        assert(bytes.subrange(0, 8) == a);
        assert(bytes.subrange(8, 16) == b);
        assert(bytes.subrange(16, 24) == c);
        assert(NonZeroUnixMillis::of(self.date_updated@) == self.date_updated);
        if let Some(expiration) = self.date_expires {
            assert(NonZeroUnixMillis::of(expiration@) == expiration);
        }
    }

    /// Tells whether the value is past its expiration at `now`.
    pub fn is_expired(&self, now: NonZeroUnixMillis) -> (r: bool)
        ensures
            r == self.expired_at(now),
    {
        match self.date_expires {
            Some(expiration) => expiration.get() < now.get(),
            None => false,
        }
    }
}

} // verus!
