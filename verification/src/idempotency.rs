//! Reservations that keep an update from being handled twice.

use vstd::prelude::*;
use vstd::string::*;
use crate::commons_cache::Cache;
use crate::commons_cache;
use crate::config::Config;
use crate::numbers;
use crate::text;

verus! {

/// The time at which a reservation ends.
pub open spec fn expiry(now: i64, retention_seconds: i64) -> i64 {
    let kept = if retention_seconds > 1 {
        retention_seconds
    } else {
        1
    };
    if now + kept > i64::MAX {
        i64::MAX
    } else {
        (now + kept) as i64
    }
}

/// Computes the time at which a reservation ends.
pub fn expires_at(now: i64, retention_seconds: i64) -> (r: i64)
    ensures
        r == expiry(now, retention_seconds),
{
    let kept: i64 = if retention_seconds > 1 {
        retention_seconds
    } else {
        1
    };
    if now > i64::MAX - kept {
        i64::MAX
    } else {
        now + kept
    }
}

/// What is reserved after a request to reserve a text.
pub open spec fn reserved(
    seen: Map<Seq<char>, i64>,
    key: Seq<char>,
    now: i64,
    ends: i64,
) -> Map<Seq<char>, i64> {
    let live = commons_cache::at_least(seen, now);
    if live.dom().contains(key) {
        live
    } else {
        live.insert(key, ends)
    }
}

/// True where a text can be reserved: it was not, or its reservation has ended.
pub open spec fn free(seen: Map<Seq<char>, i64>, key: Seq<char>, now: i64) -> bool {
    !(seen.dom().contains(key) && seen[key] >= now)
}

/// Reserves a key in memory and returns false when it was already seen and not expired.
pub fn reserve_in_ram(seen: &mut Cache<i64>, key: &str, now: i64, ends: i64) -> (r: bool)
    requires
        old(seen).well_formed(),
    ensures
        final(seen).well_formed(),
        r == free(old(seen)@, key@, now),
        final(seen)@ == reserved(old(seen)@, key@, now, ends),
{
    seen.retain_at_least(now);
    if seen.get(key).is_some() {
        return false;
    }
    seen.put(key.to_owned(), ends);
    true
}

/// A text that was reserved stays reserved up to the end of its reservation, and can be reserved
/// again after it.
pub proof fn law_reservation_lasts(
    seen: Map<Seq<char>, i64>,
    key: Seq<char>,
    now: i64,
    ends: i64,
    later: i64,
)
    requires
        free(seen, key, now),
    ensures
        free(reserved(seen, key, now, ends), key, later) == (later > ends),
{
}

/// A request to reserve a text does not touch the live reservations of other texts.
pub proof fn law_reservations_are_independent(
    seen: Map<Seq<char>, i64>,
    key: Seq<char>,
    other: Seq<char>,
    now: i64,
    ends: i64,
)
    requires
        other != key,
    ensures
        free(reserved(seen, key, now, ends), other, now) == free(seen, other, now),
{
}

/// True of the message of a conditional-write failure of DynamoDB.
pub open spec fn says_condition_failed(message: Seq<char>) -> bool {
    text::holds(message, "ConditionalCheckFailedException"@)
}

/// Returns true for the message of a conditional-write failure of DynamoDB.
pub fn is_conditional_check_failed(message: &str) -> (r: bool)
    ensures
        r == says_condition_failed(message@),
{
    text::contains(message, "ConditionalCheckFailedException")
}

/// Reads the outcome of a conditional write: a failed condition says that the key was reserved
/// before, any other failure is one.
pub fn reservation_outcome(written: Result<(), String>) -> (r: Result<bool, String>)
    ensures
        match written {
            Ok(_) => r == Ok::<bool, String>(true),
            Err(message) => if says_condition_failed(message@) {
                r == Ok::<bool, String>(false)
            } else {
                r == Err::<bool, String>(message)
            },
        },
{
    match written {
        Ok(_) => Ok(true),
        Err(message) => if is_conditional_check_failed(message.as_str()) {
            Ok(false)
        } else {
            Err(message)
        },
    }
}

/// The condition under which a key is reserved.
pub const RESERVATION_CONDITION: &'static str =
    "attribute_not_exists(pk) OR expires_at < :now";

/// The names, types and values of the attributes of a reservation.
pub open spec fn reservation_attributes(key: Seq<char>, status: Seq<char>, expires_at: i64) -> Seq<
    (Seq<char>, Seq<char>, Seq<char>),
> {
    seq![
        ("pk"@, "S"@, key),
        ("sk"@, "S"@, "IDEMPOTENCY"@),
        ("status"@, "S"@, status),
        ("expires_at"@, "N"@, numbers::signed_numeral(expires_at as int)),
    ]
}

/// The values of attributes.
pub open spec fn attributes_view(v: Seq<(String, String, String)>) -> Seq<
    (Seq<char>, Seq<char>, Seq<char>),
> {
    Seq::new(v.len(), |i: int| (v[i].0@, v[i].1@, v[i].2@))
}

/// Lists the names, types and values of the attributes of a reservation.
pub fn reservation_item(key: &str, status: &str, expires_at: i64) -> (r: Vec<
    (String, String, String),
>)
    ensures
        attributes_view(r@) == reservation_attributes(key@, status@, expires_at),
{
    let mut item: Vec<(String, String, String)> = Vec::new();
    item.push(("pk".to_owned(), "S".to_owned(), key.to_owned()));
    item.push(("sk".to_owned(), "S".to_owned(), "IDEMPOTENCY".to_owned()));
    item.push(("status".to_owned(), "S".to_owned(), status.to_owned()));
    item.push(("expires_at".to_owned(), "N".to_owned(), numbers::signed_decimal(expires_at)));
    assert(attributes_view(item@) =~= reservation_attributes(key@, status@, expires_at));
    item
}

/// An item that is marked as done has the key and the expiry of its reservation.
pub proof fn law_done_keeps_reservation(key: Seq<char>, expires_at: i64)
    ensures
        reservation_attributes(key, "done"@, expires_at) == reservation_attributes(
            key,
            "processing"@,
            expires_at,
        ).update(2, ("status"@, "S"@, "done"@)),
{
}

/// Stores short-lived Telegram update reservations to suppress webhook retries.
#[derive(Debug)]
pub struct IdempotencyStore {
    /// Name of the table.
    pub table_name: Option<String>,
    /// Whether nothing is stored in the table.
    pub stateless_mode: bool,
    /// AWS region of the table.
    pub aws_region: String,
}

/// What is done to reserve a key.
#[derive(Debug)]
pub enum Reservation {
    /// Nothing more: the key was free in memory, or not.
    Decided(bool),
    /// An item is written, under the condition that the key is free now.
    Write {
        /// The item.
        item: Vec<(String, String, String)>,
        /// The time now.
        now: i64,
        /// When the reservation ends.
        reserved_until: i64,
    },
}

impl IdempotencyStore {
    /// Creates an idempotency store from runtime configuration.
    pub fn new(config: &Config) -> (r: Self)
        ensures
            r.table_name == config.dynamodb_table,
            r.stateless_mode == config.stateless_mode,
            r.aws_region == config.aws_region,
    {
        IdempotencyStore {
            table_name: text::clone_opt(&config.dynamodb_table),
            stateless_mode: config.stateless_mode,
            aws_region: config.aws_region.clone(),
        }
    }

    /// True where reservations go to the table.
    pub open spec fn stores(self, has_credentials: bool) -> bool {
        !self.stateless_mode && self.table_name is Some && has_credentials
    }

    /// Returns true when reservations go to the table.
    pub fn uses_table(&self, has_credentials: bool) -> (r: bool)
        ensures
            r == self.stores(has_credentials),
    {
        !self.stateless_mode && self.table_name.is_some() && has_credentials
    }

    /// Reserves a key: in memory, or by a write to the table.
    pub fn reserve(
        &self,
        seen: &mut Cache<i64>,
        key: &str,
        retention_seconds: i64,
        now: i64,
        has_credentials: bool,
    ) -> (r: Reservation)
        requires
            old(seen).well_formed(),
        ensures
            final(seen).well_formed(),
            match r {
                Reservation::Decided(reserved) => {
                    &&& !self.stores(has_credentials)
                    &&& reserved == free(old(seen)@, key@, now)
                    &&& final(seen)@ == self::reserved(
                        old(seen)@,
                        key@,
                        now,
                        expiry(now, retention_seconds),
                    )
                },
                Reservation::Write { item, now: at, reserved_until } => {
                    &&& self.stores(has_credentials)
                    &&& final(seen)@ == old(seen)@
                    &&& at == now
                    &&& reserved_until == expiry(now, retention_seconds)
                    &&& attributes_view(item@) == reservation_attributes(
                        key@,
                        "processing"@,
                        expiry(now, retention_seconds),
                    )
                },
            },
    {
        let ends: i64 = expires_at(now, retention_seconds);
        if self.uses_table(has_credentials) {
            Reservation::Write {
                item: reservation_item(key, "processing", ends),
                now,
                reserved_until: ends,
            }
        } else {
            Reservation::Decided(reserve_in_ram(seen, key, now, ends))
        }
    }

    /// Marks a reserved key as successfully processed while keeping the expiry of its reservation:
    /// the item to write, where reservations go to the table.
    pub fn mark_done(&self, key: &str, reserved_until: i64, has_credentials: bool) -> (r: Option<
        Vec<(String, String, String)>,
    >)
        ensures
            match r {
                Some(item) => self.stores(has_credentials) && attributes_view(item@)
                    == reservation_attributes(key@, "done"@, reserved_until),
                None => !self.stores(has_credentials),
            },
    {
        if self.uses_table(has_credentials) {
            Some(reservation_item(key, "done", reserved_until))
        } else {
            None
        }
    }
}

} // verus!
