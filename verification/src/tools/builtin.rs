//! The assistant's built-in tools that compute their answer.

use vstd::prelude::*;
use crate::decimal::{int_text, int_to_string};

verus! {

/// The weather report for `city`.
pub open spec fn weather_text(city: Seq<char>) -> Seq<char> {
    city + " today: Sunny, 25°C, humidity 60%"@
}

/// The confirmation of a reminder in `minutes` minutes.
pub open spec fn reminder_text(message: Seq<char>, minutes: int) -> Seq<char> {
    "Reminder set: '"@ + message + "' in "@ + int_text(minutes) + " minutes"@
}

/// Reports the weather for a city.
pub fn get_weather(city: String) -> (r: String)
    ensures
        r@ == weather_text(city@),
{
    let mut r = city;
    r.append(" today: Sunny, 25°C, humidity 60%");
    r
}

/// Sets a reminder for `message` in `minutes` minutes (none given: now).
pub fn set_reminder(message: String, minutes: Option<i32>) -> (r: String)
    ensures
        r@ == reminder_text(
            message@,
            match minutes {
                Some(m) => m as int,
                None => 0,
            },
        ),
{
    let mins: i32 = match minutes {
        Some(m) => m,
        None => 0,
    };
    let mut r = String::from_str("Reminder set: '");
    r.append(message.as_str());
    r.append("' in ");
    let n = int_to_string(mins as i64);
    r.append(n.as_str());
    r.append(" minutes");
    r
}

} // verus!
