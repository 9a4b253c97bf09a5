use vstd::prelude::*;

use crate::text::{blank_spec, concat, decimal, decimal_chars, is_blank, padded_decimal, zero_padded};

verus! {

pub const COLOR_BLUE: u32 = 0x3B82F6;
pub const COLOR_PURPLE: u32 = 0x8B5CF6;
pub const COLOR_GOLD: u32 = 0xF59E0B;
pub const COLOR_GREEN: u32 = 0x22C55E;
pub const COLOR_RED: u32 = 0xEF4444;

/// A Discord embed: title, description, side colour and inline fields.
#[derive(Clone, Debug, PartialEq, Eq)]
pub struct Embed {
    pub title: String,
    pub description: String,
    pub color: u32,
    pub fields: Vec<(String, String)>,
}

/// A devil fruit fished up, as read from the drop message.
#[derive(Clone, Debug, PartialEq, Eq)]
pub struct DropInfo {
    pub is_legendary: bool,
    pub name: Option<String>,
    pub text: String,
}

/// A devil fruit that spawned in the world, as read from the spawn message.
#[derive(Clone, Debug, PartialEq, Eq)]
pub struct SpawnInfo {
    pub name: Option<String>,
    pub location: Option<String>,
    pub text: String,
}

/// Runtime as hours, minutes and seconds, each at least two digits.
pub open spec fn runtime_spec(s: nat) -> Seq<char> {
    padded_decimal(s / 3600, 2) + ":"@ + padded_decimal((s % 3600) / 60, 2) + ":"@
        + padded_decimal(s % 60, 2)
}

/// Formats a runtime in seconds as `HH:MM:SS`.
pub fn fmt_runtime(s: u64) -> (r: String)
    ensures
        r@ == runtime_spec(s as nat),
{
    let h = zero_padded(s / 3600, 2);
    let m = zero_padded((s % 3600) / 60, 2);
    let sec = zero_padded(s % 60, 2);
    let a = concat(h.as_str(), ":");
    let b = concat(a.as_str(), m.as_str());
    let c = concat(b.as_str(), ":");
    concat(c.as_str(), sec.as_str())
}

/// Rust's integer division, which rounds toward zero.
pub open spec fn tdiv(a: int, b: int) -> int {
    if a >= 0 {
        a / b
    } else {
        -((-a) / b)
    }
}

/// Civil date of day `z` counted from 1970-01-01, by the days-to-civil
/// algorithm over 400-year eras of 146097 days, years starting in March.
pub open spec fn civil_spec(z0: int) -> (int, int, int) {
    let z = z0 + 719468;
    let era = tdiv(if z >= 0 {
        z
    } else {
        z - 146096
    }, 146097);
    let doe = z - era * 146097;
    let yoe = (doe - doe / 1460 + doe / 36524 - doe / 146096) / 365;
    let y = yoe + era * 400;
    let doy = doe - (365 * yoe + yoe / 4 - yoe / 100);
    let mp = (5 * doy + 2) / 153;
    let d = doy - (153 * mp + 2) / 5 + 1;
    let m = if mp < 10 {
        mp + 3
    } else {
        mp - 9
    };
    (if m <= 2 {
        y + 1
    } else {
        y
    }, m, d)
}

/// Year, month and day of day `z` counted from 1970-01-01.
pub fn civil_from_days(z: i64) -> (r: (i64, u32, u32))
    requires
        i64::MIN + 146096 <= z + 719468 <= i64::MAX,
    ensures
        (r.0 as int, r.1 as int, r.2 as int) == civil_spec(z as int),
        1 <= r.1 <= 12,
        1 <= r.2 <= 31,
        z >= 0 ==> r.0 >= 1970,
{
    let z = z + 719468;
    let era = (if z >= 0 {
        z
    } else {
        z - 146096
    }) / 146097;
    assert(0 <= z - era * 146097 <= 146096) by (nonlinear_arith)
        requires
            era == tdiv(if z >= 0 { z as int } else { z - 146096 }, 146097),
    ;
    let doe = (z - era * 146097) as u64;
    assert(doe - doe / 1460 + doe / 36524 - doe / 146096 >= 0) by (nonlinear_arith)
        requires
            doe <= 146096,
    ;
    let yoe = (doe - doe / 1460 + doe / 36524 - doe / 146096) / 365;
    assert(yoe <= 399) by (nonlinear_arith)
        requires
            doe <= 146096,
            yoe == (doe - doe / 1460 + doe / 36524 - doe / 146096) / 365,
    ;
    assert(0 <= doe - (365 * yoe + yoe / 4 - yoe / 100) <= 365) by (nonlinear_arith)
        requires
            doe <= 146096,
            yoe == (doe - doe / 1460 + doe / 36524 - doe / 146096) / 365,
    ;
    let y = yoe as i64 + era * 400;
    let doy = doe - (365 * yoe + yoe / 4 - yoe / 100);
    let mp = (5 * doy + 2) / 153;
    assert(mp <= 11);
    assert(1 <= doy - (153 * mp + 2) / 5 + 1 <= 31) by (nonlinear_arith)
        requires
            doy <= 365,
            mp == (5 * doy + 2) / 153,
    ;
    let d = (doy - (153 * mp + 2) / 5 + 1) as u32;
    let m = (if mp < 10 {
        mp + 3
    } else {
        mp - 9
    }) as u32;
    (if m <= 2 {
        y + 1
    } else {
        y
    }, m, d)
}

/// `YYYY-MM-DDTHH:MM:SSZ` for a time in seconds since 1970-01-01 UTC.
pub open spec fn timestamp_spec(secs: nat) -> Seq<char> {
    let (y, m, d) = civil_spec((secs / 86400) as int);
    let rem = secs % 86400;
    padded_decimal(y as nat, 4) + "-"@ + padded_decimal(m as nat, 2) + "-"@ + padded_decimal(
        d as nat,
        2,
    ) + "T"@ + padded_decimal(rem / 3600, 2) + ":"@ + padded_decimal((rem % 3600) / 60, 2) + ":"@
        + padded_decimal(rem % 60, 2) + "Z"@
}

/// Formats a UNIX time as an ISO-8601 UTC timestamp.
pub fn utc_timestamp(secs: u64) -> (r: String)
    ensures
        r@ == timestamp_spec(secs as nat),
{
    let days = secs / 86400;
    let rem = secs % 86400;
    let (y, m, d) = civil_from_days(days as i64);
    let parts = concat(zero_padded(y as u64, 4).as_str(), "-");
    let parts = concat(parts.as_str(), zero_padded(m as u64, 2).as_str());
    let parts = concat(parts.as_str(), "-");
    let parts = concat(parts.as_str(), zero_padded(d as u64, 2).as_str());
    let parts = concat(parts.as_str(), "T");
    let parts = concat(parts.as_str(), zero_padded(rem / 3600, 2).as_str());
    let parts = concat(parts.as_str(), ":");
    let parts = concat(parts.as_str(), zero_padded((rem % 3600) / 60, 2).as_str());
    let parts = concat(parts.as_str(), ":");
    let parts = concat(parts.as_str(), zero_padded(rem % 60, 2).as_str());
    concat(parts.as_str(), "Z")
}

/// Webhook notifications are sent when they are switched on and a URL is
/// set.
pub fn webhook_enabled(enabled: bool, url: &str) -> (b: bool)
    ensures
        b == (enabled && !blank_spec(url@)),
{
    enabled && !is_blank(url)
}

/// A test notification needs a URL.
pub fn check_webhook_url(url: &str) -> (r: Result<(), String>)
    ensures
        blank_spec(url@) ==> (r matches Err(e) && e@ == "Webhook URL is empty"@),
        !blank_spec(url@) ==> r is Ok,
{
    if is_blank(url) {
        return Err(String::from_str("Webhook URL is empty"));
    }
    Ok(())
}

/// The embed that confirms the webhook works.
pub fn connected_embed() -> (e: Embed)
    ensures
        e.title@ == "Webhook connected"@,
        e.description@ == "GPO Autofish can reach this channel."@,
        e.color == COLOR_GREEN,
        e.fields@.len() == 0,
{
    Embed {
        title: String::from_str("Webhook connected"),
        description: String::from_str("GPO Autofish can reach this channel."),
        color: COLOR_GREEN,
        fields: Vec::new(),
    }
}

/// The progress report: fish, fruits, runtime and the success text.
pub fn progress_embed(fish: u64, fruits: u64, runtime_s: u64, success: &str) -> (e: Embed)
    ensures
        e.title@ == "Fishing progress"@,
        e.description@ == Seq::<char>::empty(),
        e.color == COLOR_BLUE,
        e.fields@.len() == 4,
        e.fields@[0].0@ == "Fish"@ && e.fields@[0].1@ == decimal_chars(fish as nat),
        e.fields@[1].0@ == "Fruits"@ && e.fields@[1].1@ == decimal_chars(fruits as nat),
        e.fields@[2].0@ == "Runtime"@ && e.fields@[2].1@ == runtime_spec(runtime_s as nat),
        e.fields@[3].0@ == "Success"@ && e.fields@[3].1@ == success@,
{
    let mut fields: Vec<(String, String)> = Vec::new();
    fields.push((String::from_str("Fish"), decimal(fish)));
    fields.push((String::from_str("Fruits"), decimal(fruits)));
    fields.push((String::from_str("Runtime"), fmt_runtime(runtime_s)));
    fields.push((String::from_str("Success"), String::from_str(success)));
    proof {
        reveal_strlit("");
    }
    Embed {
        title: String::from_str("Fishing progress"),
        description: String::from_str(""),
        color: COLOR_BLUE,
        fields,
    }
}

pub open spec fn drop_description(name: Option<Seq<char>>, text: Seq<char>) -> Seq<char> {
    match name {
        Some(n) => "You fished up **"@ + n + "**."@,
        None => "You fished up a devil fruit. The name could not be read.\n`"@ + text + "`"@,
    }
}

/// The notification for a devil fruit caught while fishing: gold for a
/// legendary fruit, purple otherwise, naming the fruit when it was read and
/// quoting the raw text when not.
pub fn drop_embed(d: &DropInfo) -> (e: Embed)
    ensures
        e.title@ == (if d.is_legendary {
            "Legendary devil fruit caught"@
        } else {
            "Devil fruit caught"@
        }),
        e.color == (if d.is_legendary {
            COLOR_GOLD
        } else {
            COLOR_PURPLE
        }),
        e.description@ == drop_description(
            match d.name {
                Some(n) => Some(n@),
                None => None,
            },
            d.text@,
        ),
        e.fields@.len() == 0,
{
    let (title, color) = if d.is_legendary {
        (String::from_str("Legendary devil fruit caught"), COLOR_GOLD)
    } else {
        (String::from_str("Devil fruit caught"), COLOR_PURPLE)
    };
    let description = match &d.name {
        Some(n) => {
            let a = concat("You fished up **", n.as_str());
            concat(a.as_str(), "**.")
        },
        None => {
            let a = concat(
                "You fished up a devil fruit. The name could not be read.\n`",
                d.text.as_str(),
            );
            concat(a.as_str(), "`")
        },
    };
    Embed { title, description, color, fields: Vec::new() }
}

pub open spec fn spawn_at(location: Option<Seq<char>>) -> Seq<char> {
    match location {
        Some(l) => " at **"@ + l + "**"@,
        None => Seq::<char>::empty(),
    }
}

/// The notification for a devil fruit that spawned: purple with its name
/// when read, blue with the raw text when not; the place, when read, follows.
pub fn spawn_embed(info: &SpawnInfo) -> (e: Embed)
    ensures
        e.title@ == "Devil fruit spawned"@,
        e.fields@.len() == 0,
        ({
            let at = spawn_at(
                match info.location {
                    Some(l) => Some(l@),
                    None => None,
                },
            );
            match info.name {
                Some(n) => e.color == COLOR_PURPLE && e.description@ == "**"@ + n@
                    + "** has spawned"@ + at + "."@,
                None => e.color == COLOR_BLUE && e.description@ == "A devil fruit has spawned"@
                    + at + ". The name could not be read.\n`"@ + info.text@ + "`"@,
            }
        }),
{
    let at = match &info.location {
        Some(l) => {
            let a = concat(" at **", l.as_str());
            concat(a.as_str(), "**")
        },
        None => String::new(),
    };
    let (description, color) = match &info.name {
        Some(n) => {
            let a = concat("**", n.as_str());
            let a = concat(a.as_str(), "** has spawned");
            let a = concat(a.as_str(), at.as_str());
            (concat(a.as_str(), "."), COLOR_PURPLE)
        },
        None => {
            let a = concat("A devil fruit has spawned", at.as_str());
            let a = concat(a.as_str(), ". The name could not be read.\n`");
            let a = concat(a.as_str(), info.text.as_str());
            (concat(a.as_str(), "`"), COLOR_BLUE)
        },
    };
    Embed { title: String::from_str("Devil fruit spawned"), description, color, fields: Vec::new() }
}

/// The notification for a bait purchase.
pub fn purchase_embed(amount: u32) -> (e: Embed)
    ensures
        e.title@ == "Bait purchased"@,
        e.description@ == "Bought "@ + decimal_chars(amount as nat) + " bait."@,
        e.color == COLOR_GREEN,
        e.fields@.len() == 0,
{
    let a = concat("Bought ", decimal(amount as u64).as_str());
    Embed {
        title: String::from_str("Bait purchased"),
        description: concat(a.as_str(), " bait."),
        color: COLOR_GREEN,
        fields: Vec::new(),
    }
}

/// The notification for a watchdog recovery, sent only when recovery
/// alerts are switched on.
pub fn recovery_embed(alerts_on: bool, attempt: u32, reason: &str) -> (e: Option<Embed>)
    ensures
        !alerts_on ==> e is None,
        alerts_on ==> (e matches Some(x) && x.title@ == "Recovery"@ && x.description@ == reason@
            && x.color == COLOR_RED && x.fields@.len() == 1 && x.fields@[0].0@ == "Attempt"@
            && x.fields@[0].1@ == decimal_chars(attempt as nat)),
{
    if !alerts_on {
        return None;
    }
    let mut fields: Vec<(String, String)> = Vec::new();
    fields.push((String::from_str("Attempt"), decimal(attempt as u64)));
    Some(
        Embed {
            title: String::from_str("Recovery"),
            description: String::from_str(reason),
            color: COLOR_RED,
            fields,
        },
    )
}

/// Attempts made to deliver one notification.
pub const POST_ATTEMPTS: u32 = 3;

/// Seconds to wait after failed attempt `attempt` (from 0): one second,
/// doubling each time.
pub fn retry_delay_secs(attempt: u32) -> (s: u64)
    requires
        attempt < POST_ATTEMPTS,
    ensures
        s == (if attempt == 0 {
            1u64
        } else if attempt == 1 {
            2u64
        } else {
            4u64
        }),
{
    let mut s: u64 = 1;
    let mut i: u32 = 0;
    while i < attempt
        invariant
            i <= attempt < 3,
            s == (if i == 0 {
                1u64
            } else if i == 1 {
                2u64
            } else {
                4u64
            }),
        decreases attempt - i,
    {
        s = s * 2;
        i = i + 1;
    }
    s
}

/// What the delivery worker does after one attempt to post a notification.
#[derive(Clone, Copy, Debug, PartialEq, Eq, Structural)]
pub enum AfterPost {
    /// Delivered: go on to the next notification.
    Done,
    /// Failed: wait this many seconds, then try again.
    RetryAfter(u64),
    /// Failed for the last time: wait this many seconds, then give it up.
    GiveUpAfter(u64),
}

/// The worker's decision after attempt `attempt` (from 0): stop once it is
/// delivered; after a failure wait the retry delay, and try again unless all
/// attempts are spent.
pub fn after_post(attempt: u32, delivered: bool) -> (a: AfterPost)
    requires
        attempt < POST_ATTEMPTS,
    ensures
        delivered ==> a == AfterPost::Done,
        !delivered && attempt + 1 < POST_ATTEMPTS ==> a == AfterPost::RetryAfter(
            if attempt == 0 {
                1u64
            } else {
                2u64
            },
        ),
        !delivered && attempt + 1 == POST_ATTEMPTS ==> a == AfterPost::GiveUpAfter(4),
{
    if delivered {
        return AfterPost::Done;
    }
    let wait = retry_delay_secs(attempt);
    if attempt + 1 < POST_ATTEMPTS {
        AfterPost::RetryAfter(wait)
    } else {
        AfterPost::GiveUpAfter(wait)
    }
}

/// The day number, counted from 1970-01-01, of a proleptic Gregorian date:
/// whole 400-year eras of 146097 days, then years of 365 days with a leap
/// day every fourth year but not every hundredth, years starting in March.
pub open spec fn days_from_civil(y: int, m: int, d: int) -> int {
    let yy = if m <= 2 {
        y - 1
    } else {
        y
    };
    let era = if yy >= 0 {
        yy / 400
    } else {
        -((399 - yy) / 400)
    };
    let yoe = yy - era * 400;
    let mp = if m > 2 {
        m - 3
    } else {
        m + 9
    };
    let doy = (153 * mp + 2) / 5 + d - 1;
    let doe = yoe * 365 + yoe / 4 - yoe / 100 + doy;
    era * 146097 + doe - 719468
}

/// Reading back the day number of the date that `civil_from_days` gives
/// returns the day it started from.
pub proof fn lemma_civil_round_trip(z: int)
    ensures
        ({
            let (y, m, d) = civil_spec(z);
            days_from_civil(y, m, d) == z
        }),
{
    let zz = z + 719468;
    let era = tdiv(if zz >= 0 {
        zz
    } else {
        zz - 146096
    }, 146097);
    assert(0 <= zz - era * 146097 <= 146096) by (nonlinear_arith)
        requires
            era == tdiv(if zz >= 0 { zz } else { zz - 146096 }, 146097),
    ;
    let doe = zz - era * 146097;
    let yoe = (doe - doe / 1460 + doe / 36524 - doe / 146096) / 365;
    assert(0 <= yoe <= 399) by (nonlinear_arith)
        requires
            0 <= doe <= 146096,
            yoe == (doe - doe / 1460 + doe / 36524 - doe / 146096) / 365,
    ;
    let yy = yoe + era * 400;
    let e2 = if yy >= 0 {
        yy / 400
    } else {
        -((399 - yy) / 400)
    };
    assert(e2 == era) by (nonlinear_arith)
        requires
            yy == yoe + era * 400,
            0 <= yoe <= 399,
            e2 == (if yy >= 0 { yy / 400 } else { -((399 - yy) / 400) }),
    ;
}


proof fn lemma_last_day_of_year(doe: int)
    requires
        0 <= doe <= 146096,
    ensures
        ({
            let yoe = (doe - doe / 1460 + doe / 36524 - doe / 146096) / 365;
            let doy = doe - (365 * yoe + yoe / 4 - yoe / 100);
            doy == 365 ==> (yoe + 1) % 4 == 0 && ((yoe + 1) % 100 != 0 || yoe == 399)
        }),
{
    let yoe = (doe - doe / 1460 + doe / 36524 - doe / 146096) / 365;
    let doy = doe - (365 * yoe + yoe / 4 - yoe / 100);
    assert(doy == 365 ==> (yoe + 1) % 4 == 0 && ((yoe + 1) % 100 != 0 || yoe == 399)) by (nonlinear_arith)
        requires
            0 <= doe <= 146096,
            yoe == (doe - doe / 1460 + doe / 36524 - doe / 146096) / 365,
            doy == doe - (365 * yoe + yoe / 4 - yoe / 100),
    ;
}


/// Gregorian leap years: every fourth year, except centuries not divisible
/// by 400.
pub open spec fn is_leap(y: int) -> bool {
    y % 4 == 0 && (y % 100 != 0 || y % 400 == 0)
}

/// Days in month `m` of year `y`.
pub open spec fn month_len(y: int, m: int) -> int {
    if m == 2 {
        if is_leap(y) {
            29
        } else {
            28
        }
    } else if m == 4 || m == 6 || m == 9 || m == 11 {
        30
    } else {
        31
    }
}

/// Every day number names a real calendar date: a month from 1 to 12 and a
/// day within that month's length, February 29 only in leap years.
pub proof fn lemma_civil_date_valid(z: int)
    ensures
        ({
            let (y, m, d) = civil_spec(z);
            1 <= m <= 12 && 1 <= d <= month_len(y, m)
        }),
{
    let zz = z + 719468;
    let era = tdiv(if zz >= 0 {
        zz
    } else {
        zz - 146096
    }, 146097);
    assert(0 <= zz - era * 146097 <= 146096) by (nonlinear_arith)
        requires
            era == tdiv(if zz >= 0 { zz } else { zz - 146096 }, 146097),
    ;
    let doe = zz - era * 146097;
    let yoe = (doe - doe / 1460 + doe / 36524 - doe / 146096) / 365;
    assert(0 <= yoe <= 399 && 0 <= doe - (365 * yoe + yoe / 4 - yoe / 100) <= 365)
        by (nonlinear_arith)
        requires
            0 <= doe <= 146096,
            yoe == (doe - doe / 1460 + doe / 36524 - doe / 146096) / 365,
    ;
    let doy = doe - (365 * yoe + yoe / 4 - yoe / 100);
    let mp = (5 * doy + 2) / 153;
    let d = doy - (153 * mp + 2) / 5 + 1;
    let (y, m, dd) = civil_spec(z);
    assert(dd == d);
    assert(0 <= mp <= 11);
    assert(1 <= d <= (if mp == 11 {
        29int
    } else if mp == 1 || mp == 3 || mp == 6 || mp == 8 {
        30
    } else {
        31
    })) by (nonlinear_arith)
        requires
            0 <= doy <= 365,
            mp == (5 * doy + 2) / 153,
            d == doy - (153 * mp + 2) / 5 + 1,
    ;
    if mp == 11 && d == 29 {
        lemma_last_day_of_year(doe);
        let yy = yoe + era * 400 + 1;
        assert(y == yy);
        assert(is_leap(yy)) by (nonlinear_arith)
            requires
                yy == yoe + 1 + era * 400,
                0 <= yoe <= 399,
                (yoe + 1) % 4 == 0 && ((yoe + 1) % 100 != 0 || yoe == 399),
        ;
    }
}

} // verus!
