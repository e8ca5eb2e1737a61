//! Trade details: the immutable, builder-constructed payload describing the
//! economics of a trade, together with the timestamps it carries.

use crate::error::{DateField, TradeError, ValidationError};
use vstd::prelude::*;

verus! {

/// Currency of an amount.
#[derive(Debug, Clone, Copy, PartialEq, Eq, PartialOrd, Ord, Hash, Structural)]
pub enum Currency {
    USD,
    GBP,
    EUR,
}

/// Side of the trade taken by the trading entity.
#[derive(Debug, Clone, Copy, PartialEq, Eq, PartialOrd, Ord, Hash, Structural)]
pub enum Direction {
    Buy,
    Sell,
}

/// A UTC instant with nanosecond precision, held as nanoseconds since the
/// Unix epoch.
#[derive(Debug, Clone, Copy, PartialEq, Eq, PartialOrd, Ord, Hash, Structural)]
pub struct TimeStamp {
    pub nanos: i64,
}

/// True for leap years of the proleptic Gregorian calendar.
pub open spec fn is_leap_year(year: int) -> bool {
    (year % 4 == 0 && year % 100 != 0) || year % 400 == 0
}

/// Number of days in a month of the Gregorian calendar.
pub open spec fn days_in_month(year: int, month: int) -> int {
    if month == 2 {
        if is_leap_year(year) {
            29
        } else {
            28
        }
    } else if month == 4 || month == 6 || month == 9 || month == 11 {
        30
    } else {
        31
    }
}

/// A well-formed calendar date and time-of-day.
pub open spec fn civil_ok(year: i32, month: u32, day: u32, hour: u32, min: u32, sec: u32) -> bool {
    &&& 1 <= month <= 12
    &&& 1 <= day <= days_in_month(year as int, month as int)
    &&& hour <= 23
    &&& min <= 59
    &&& sec <= 59
}

/// The nanoseconds since the Unix epoch of a calendar date and time, as
/// chrono computes them.
pub uninterp spec fn nanos_of_civil(
    year: i32,
    month: u32,
    day: u32,
    hour: u32,
    min: u32,
    sec: u32,
) -> i64;

/// Relies on chrono's `Utc.with_ymd_and_hms` and `DateTime::timestamp_nanos_opt`:
/// the nanoseconds since the Unix epoch of the given calendar date and time,
/// `None` when the date is invalid or outside the range a nanosecond count
/// can hold. chrono documents that range as 1677-09-21 to 2262-04-11, so
/// every instant of the years 1678 to 2261 is inside it.
#[verifier::external_body]
fn civil_to_nanos(year: i32, month: u32, day: u32, hour: u32, min: u32, sec: u32) -> (r: Option<
    i64,
>)
    ensures
        r matches Some(n) ==> n == nanos_of_civil(year, month, day, hour, min, sec),
        civil_ok(year, month, day, hour, min, sec) && 1678 <= year <= 2261 ==> r is Some,
{
    chrono::TimeZone::with_ymd_and_hms(&chrono::Utc, year, month, day, hour, min, sec)
        .single()
        .and_then(|dt| dt.timestamp_nanos_opt())
}

/// Relies on chrono's `Utc::now` and `DateTime::timestamp_nanos_opt`: the
/// current time as nanoseconds since the Unix epoch. Nothing is promised of
/// the value, which depends on the clock.
#[verifier::external_body]
fn now_nanos() -> Option<i64> {
    chrono::Utc::now().timestamp_nanos_opt()
}

impl TimeStamp {
    /// The current time. Falls back to the epoch if the clock reading cannot
    /// be represented in nanoseconds.
    pub fn new() -> TimeStamp {
        match now_nanos() {
            Some(n) => TimeStamp { nanos: n },
            None => TimeStamp { nanos: 0 },
        }
    }

    /// The given calendar date and time of day, in UTC. The years 1678 to
    /// 2261 are the ones a nanosecond count can hold in full.
    pub fn new_with(year: i32, month: u32, day: u32, hour: u32, min: u32, sec: u32) -> (r:
        TimeStamp)
        requires
            civil_ok(year, month, day, hour, min, sec),
            1678 <= year <= 2261,
        ensures
            r.nanos == nanos_of_civil(year, month, day, hour, min, sec),
    {
        match civil_to_nanos(year, month, day, hour, min, sec) {
            Some(n) => TimeStamp { nanos: n },
            None => vstd::pervasive::unreached(),
        }
    }

    /// Nanoseconds since the Unix epoch.
    pub fn nanos(&self) -> (r: i64)
        ensures
            r == self.nanos,
    {
        self.nanos
    }
}

/// The abstract value of a [`TradeDetails`] record.
pub struct TradeDetailsView {
    pub trading_entity: Option<Seq<char>>,
    pub counter_party: Option<Seq<char>>,
    pub direction: Option<Direction>,
    pub notional_currency: Option<Currency>,
    pub notional_amount: u64,
    pub underlying_currency: Option<Currency>,
    pub underlying_amount: u64,
    pub trade_date: Option<TimeStamp>,
    pub value_date: Option<TimeStamp>,
    pub delivery_date: Option<TimeStamp>,
    pub strike: Option<u64>,
}

/// The economics of a trade. Also serves as its own draft while fields are
/// filled in; it carries no identity field, because its identity is the hash
/// of its canonical encoding, computed by [`TradeDetails::validate_and_finalise`].
#[derive(Debug, Clone, PartialEq, Eq, Default)]
pub struct TradeDetails {
    trading_entity: Option<String>,
    counter_party: Option<String>,
    direction: Option<Direction>,
    notional_currency: Option<Currency>,
    notional_amount: u64,
    underlying_currency: Option<Currency>,
    underlying_amount: u64,
    trade_date: Option<TimeStamp>,
    value_date: Option<TimeStamp>,
    delivery_date: Option<TimeStamp>,
    strike: Option<u64>,
}

pub open spec fn view_opt_string(o: Option<String>) -> Option<Seq<char>> {
    match o {
        Some(s) => Some(s@),
        None => None,
    }
}

impl View for TradeDetails {
    type V = TradeDetailsView;

    closed spec fn view(&self) -> TradeDetailsView {
        TradeDetailsView {
            trading_entity: view_opt_string(self.trading_entity),
            counter_party: view_opt_string(self.counter_party),
            direction: self.direction,
            notional_currency: self.notional_currency,
            notional_amount: self.notional_amount,
            underlying_currency: self.underlying_currency,
            underlying_amount: self.underlying_amount,
            trade_date: self.trade_date,
            value_date: self.value_date,
            delivery_date: self.delivery_date,
            strike: self.strike,
        }
    }
}

/// True when all three dates are set and ordered
/// `trade_date <= value_date <= delivery_date`.
pub open spec fn dates_valid(d: TradeDetailsView) -> bool {
    &&& d.trade_date is Some
    &&& d.value_date is Some
    &&& d.delivery_date is Some
    &&& d.trade_date->0.nanos <= d.value_date->0.nanos
    &&& d.value_date->0.nanos <= d.delivery_date->0.nanos
}

impl TradeDetails {
    /// An empty draft, the basis for builder-style construction.
    pub fn new() -> (r: TradeDetails)
        ensures
            r@ == (TradeDetailsView {
                trading_entity: None,
                counter_party: None,
                direction: None,
                notional_currency: None,
                notional_amount: 0,
                underlying_currency: None,
                underlying_amount: 0,
                trade_date: None,
                value_date: None,
                delivery_date: None,
                strike: None,
            }),
    {
        TradeDetails {
            trading_entity: None,
            counter_party: None,
            direction: None,
            notional_currency: None,
            notional_amount: 0,
            underlying_currency: None,
            underlying_amount: 0,
            trade_date: None,
            value_date: None,
            delivery_date: None,
            strike: None,
        }
    }

    pub fn set_direction(self, direction: Direction) -> (r: TradeDetails)
        ensures
            r@ == (TradeDetailsView { direction: Some(direction), ..self@ }),
    {
        TradeDetails { direction: Some(direction), ..self }
    }

    pub fn set_notional_currency(self, symbol: Currency) -> (r: TradeDetails)
        ensures
            r@ == (TradeDetailsView { notional_currency: Some(symbol), ..self@ }),
    {
        TradeDetails { notional_currency: Some(symbol), ..self }
    }

    pub fn set_underlying_currency(self, symbol: Currency) -> (r: TradeDetails)
        ensures
            r@ == (TradeDetailsView { underlying_currency: Some(symbol), ..self@ }),
    {
        TradeDetails { underlying_currency: Some(symbol), ..self }
    }

    pub fn set_notional_amount(self, amount: u64) -> (r: TradeDetails)
        ensures
            r@ == (TradeDetailsView { notional_amount: amount, ..self@ }),
    {
        TradeDetails { notional_amount: amount, ..self }
    }

    pub fn set_underlying_amount(self, amount: u64) -> (r: TradeDetails)
        ensures
            r@ == (TradeDetailsView { underlying_amount: amount, ..self@ }),
    {
        TradeDetails { underlying_amount: amount, ..self }
    }

    pub fn set_trade_date(self, date: TimeStamp) -> (r: TradeDetails)
        ensures
            r@ == (TradeDetailsView { trade_date: Some(date), ..self@ }),
    {
        TradeDetails { trade_date: Some(date), ..self }
    }

    pub fn set_value_date(self, date: TimeStamp) -> (r: TradeDetails)
        ensures
            r@ == (TradeDetailsView { value_date: Some(date), ..self@ }),
    {
        TradeDetails { value_date: Some(date), ..self }
    }

    pub fn set_delivery_date(self, date: TimeStamp) -> (r: TradeDetails)
        ensures
            r@ == (TradeDetailsView { delivery_date: Some(date), ..self@ }),
    {
        TradeDetails { delivery_date: Some(date), ..self }
    }

    pub fn set_strike(self, rate: u64) -> (r: TradeDetails)
        ensures
            r@ == (TradeDetailsView { strike: Some(rate), ..self@ }),
    {
        TradeDetails { strike: Some(rate), ..self }
    }

    /// True exactly when all three dates are set and satisfy
    /// `trade_date <= value_date <= delivery_date`, equality permitted.
    pub fn validate_dates(&self) -> (r: bool)
        ensures
            r == dates_valid(self@),
    {
        match (&self.trade_date, &self.value_date, &self.delivery_date) {
            (Some(a), Some(b), Some(c)) => a.nanos <= b.nanos && b.nanos <= c.nanos,
            _ => false,
        }
    }

    /// Sets the trading entity to a fresh identifier tagged with the given
    /// prefix: the lowercased prefix, the separator `'1'`, then 32 data and
    /// checksum characters. The prefix must be one bech32 accepts.
    pub fn new_trade_entity(self, trade_entity: &str) -> (r: TradeDetails)
        requires
            crate::utils::hrp_valid(trade_entity@),
        ensures
            r@.trading_entity matches Some(e) ==> {
                &&& e.len() == trade_entity@.len() + 33
                &&& e[trade_entity@.len() as int] == '1'
                &&& (crate::utils::no_uppercase(trade_entity@) ==> e.subrange(
                    0,
                    trade_entity@.len() as int,
                ) == trade_entity@)
            },
            r@.trading_entity is Some,
            r@ == (TradeDetailsView { trading_entity: r@.trading_entity, ..self@ }),
    {
        let id = crate::utils::new_time_ordered_id();
        match crate::utils::bech32_encode_id(trade_entity, &id) {
            Some(entity_id) => TradeDetails { trading_entity: Some(entity_id), ..self },
            None => vstd::pervasive::unreached(),
        }
    }

    /// Sets the counterparty to a fresh identifier tagged with the given
    /// prefix: the lowercased prefix, the separator `'1'`, then 32 data and
    /// checksum characters. The prefix must be one bech32 accepts.
    pub fn new_counter_party(self, counter_party: &str) -> (r: TradeDetails)
        requires
            crate::utils::hrp_valid(counter_party@),
        ensures
            r@.counter_party matches Some(e) ==> {
                &&& e.len() == counter_party@.len() + 33
                &&& e[counter_party@.len() as int] == '1'
                &&& (crate::utils::no_uppercase(counter_party@) ==> e.subrange(
                    0,
                    counter_party@.len() as int,
                ) == counter_party@)
            },
            r@.counter_party is Some,
            r@ == (TradeDetailsView { counter_party: r@.counter_party, ..self@ }),
    {
        let id = crate::utils::new_time_ordered_id();
        match crate::utils::bech32_encode_id(counter_party, &id) {
            Some(entity_id) => TradeDetails { counter_party: Some(entity_id), ..self },
            None => vstd::pervasive::unreached(),
        }
    }

    /// Encodes the record canonically; byte-identical input gives
    /// byte-identical output.
    pub fn encode(&self) -> (r: Vec<u8>)
        ensures
            r@ == crate::codec::enc_trade_details(self@),
    {
        let mut buf: Vec<u8> = Vec::new();
        crate::codec::write_opt_str(&mut buf, &self.trading_entity);
        crate::codec::write_opt_str(&mut buf, &self.counter_party);
        crate::codec::write_opt_direction(&mut buf, &self.direction);
        crate::codec::write_opt_currency(&mut buf, &self.notional_currency);
        crate::codec::push_u64(&mut buf, self.notional_amount);
        crate::codec::write_opt_currency(&mut buf, &self.underlying_currency);
        crate::codec::push_u64(&mut buf, self.underlying_amount);
        crate::codec::write_opt_timestamp(&mut buf, &self.trade_date);
        crate::codec::write_opt_timestamp(&mut buf, &self.value_date);
        crate::codec::write_opt_timestamp(&mut buf, &self.delivery_date);
        crate::codec::write_opt_u64(&mut buf, &self.strike);
        proof {
            assert(buf@ =~= crate::codec::enc_trade_details(self@));
        }
        buf
    }

    /// Validates the record, and on success returns its content hash together
    /// with its canonical encoding. Pure: no side effects, and byte-identical
    /// output for byte-identical input.
    pub fn validate_and_finalise(&self) -> (r: Result<(String, Vec<u8>), TradeError>)
        ensures
            r is Ok <==> first_validation_error(self@) is None,
            r matches Ok((h, bytes)) ==> bytes@ == crate::codec::enc_trade_details(self@) && h@
                == crate::utils::digest_of(crate::codec::enc_trade_details(self@)),
            r matches Err(e) ==> Some(e) == first_validation_error(self@),
    {
        if self.trading_entity.is_none() {
            return Err(TradeError::InvalidEntity(None));
        }
        if self.counter_party.is_none() {
            return Err(TradeError::InvalidEntity(None));
        }
        if self.direction.is_none() {
            return Err(TradeError::MissingDirection);
        }
        if self.notional_currency.is_none() {
            return Err(TradeError::InvalidCurrency);
        }
        if self.notional_amount == 0 {
            return Err(TradeError::ZeroNotionalAmount);
        }
        if self.underlying_currency.is_none() {
            return Err(TradeError::InvalidCurrency);
        }
        if self.underlying_amount == 0 {
            return Err(TradeError::ZeroUnderlyingAmount);
        }
        if self.trade_date.is_none() {
            return Err(TradeError::InvalidDate(DateField::TradeDate, None));
        }
        if self.value_date.is_none() {
            return Err(TradeError::InvalidDate(DateField::ValueDate, None));
        }
        if self.delivery_date.is_none() {
            return Err(TradeError::InvalidDate(DateField::DeliveryDate, self.trade_date));
        }
        if !self.validate_dates() {
            return Err(TradeError::Validation(ValidationError::DateValidation));
        }
        let contents = self.encode();
        let hash = crate::utils::sha256_digest(&contents);
        Ok((hash, contents))
    }
}

/// Assembles a record from decoded field values.
pub(crate) fn details_from_parts(
    trading_entity: Option<String>,
    counter_party: Option<String>,
    direction: Option<Direction>,
    notional_currency: Option<Currency>,
    notional_amount: u64,
    underlying_currency: Option<Currency>,
    underlying_amount: u64,
    trade_date: Option<TimeStamp>,
    value_date: Option<TimeStamp>,
    delivery_date: Option<TimeStamp>,
    strike: Option<u64>,
) -> (r: TradeDetails)
    ensures
        r@ == (TradeDetailsView {
            trading_entity: view_opt_string(trading_entity),
            counter_party: view_opt_string(counter_party),
            direction,
            notional_currency,
            notional_amount,
            underlying_currency,
            underlying_amount,
            trade_date,
            value_date,
            delivery_date,
            strike,
        }),
{
    TradeDetails {
        trading_entity,
        counter_party,
        direction,
        notional_currency,
        notional_amount,
        underlying_currency,
        underlying_amount,
        trade_date,
        value_date,
        delivery_date,
        strike,
    }
}

/// The first validation failure of a trade details record, in the order the
/// checks are made, or `None` when the record is admissible.
pub open spec fn first_validation_error(d: TradeDetailsView) -> Option<TradeError> {
    if d.trading_entity is None {
        Some(TradeError::InvalidEntity(None))
    } else if d.counter_party is None {
        Some(TradeError::InvalidEntity(None))
    } else if d.direction is None {
        Some(TradeError::MissingDirection)
    } else if d.notional_currency is None {
        Some(TradeError::InvalidCurrency)
    } else if d.notional_amount == 0 {
        Some(TradeError::ZeroNotionalAmount)
    } else if d.underlying_currency is None {
        Some(TradeError::InvalidCurrency)
    } else if d.underlying_amount == 0 {
        Some(TradeError::ZeroUnderlyingAmount)
    } else if d.trade_date is None {
        Some(TradeError::InvalidDate(DateField::TradeDate, None))
    } else if d.value_date is None {
        Some(TradeError::InvalidDate(DateField::ValueDate, None))
    } else if d.delivery_date is None {
        Some(TradeError::InvalidDate(DateField::DeliveryDate, d.trade_date))
    } else if !dates_valid(d) {
        Some(TradeError::Validation(ValidationError::DateValidation))
    } else {
        None
    }
}

} // verus!
