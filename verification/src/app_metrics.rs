//! Per-app delivery metrics and their stable wire labels.
//!
//! These records are stored and read back by other services, so the label
//! strings and error-type spellings must stay exactly as written; the
//! conversions here pin them down. The host's serialisation layer calls
//! these conversions and adds nothing of its own.

use vstd::prelude::*;
use vstd::string::StrSliceExecFns;
use vstd::string::StringExecFns;

use crate::strutil::{
    all_digits, dec_digits, digit_char, digits_val, is_prefix, parse_u64, starts_with_chars,
    str_eq, trim_spaces, trim_spec, u64_to_dec,
};

verus! {

/// The kind of work a metric row counts.
#[derive(Debug, Clone, Copy, PartialEq, Eq, Structural)]
pub enum AppMetricCategory {
    ProcessEvent,
    OnEvent,
    ScheduledTask,
    Webhook,
    ComposeWebhook,
}

/// The stable wire label of each category.
pub open spec fn category_label(c: AppMetricCategory) -> Seq<char> {
    match c {
        AppMetricCategory::ProcessEvent => "processEvent"@,
        AppMetricCategory::OnEvent => "onEvent"@,
        AppMetricCategory::ScheduledTask => "scheduledTask"@,
        AppMetricCategory::Webhook => "webhook"@,
        AppMetricCategory::ComposeWebhook => "composeWebhook"@,
    }
}

/// The wire label of a category.
pub fn category_to_str(c: AppMetricCategory) -> (r: &'static str)
    ensures
        r@ == category_label(c),
{
    match c {
        AppMetricCategory::ProcessEvent => "processEvent",
        AppMetricCategory::OnEvent => "onEvent",
        AppMetricCategory::ScheduledTask => "scheduledTask",
        AppMetricCategory::Webhook => "webhook",
        AppMetricCategory::ComposeWebhook => "composeWebhook",
    }
}

/// The category a wire label names, if any.
pub fn category_from_str(s: &str) -> (r: Option<AppMetricCategory>)
    ensures
        match r {
            Some(c) => category_label(c) == s@,
            None => {
                &&& s@ != "processEvent"@
                &&& s@ != "onEvent"@
                &&& s@ != "scheduledTask"@
                &&& s@ != "webhook"@
                &&& s@ != "composeWebhook"@
            },
        },
{
    if str_eq(s, "processEvent") {
        Some(AppMetricCategory::ProcessEvent)
    } else if str_eq(s, "onEvent") {
        Some(AppMetricCategory::OnEvent)
    } else if str_eq(s, "scheduledTask") {
        Some(AppMetricCategory::ScheduledTask)
    } else if str_eq(s, "webhook") {
        Some(AppMetricCategory::Webhook)
    } else if str_eq(s, "composeWebhook") {
        Some(AppMetricCategory::ComposeWebhook)
    } else {
        None
    }
}

/// How a delivery failed. Stored, so the spellings are stable.
#[derive(Debug, Clone, Copy, PartialEq, Eq, Structural)]
pub enum ErrorType {
    TimeoutError,
    ConnectionError,
    BadHttpStatus(u16),
    ParseError,
}

/// The stored spelling of each error type.
pub open spec fn error_type_label(e: ErrorType) -> Seq<char> {
    match e {
        ErrorType::ConnectionError => "Connection Error"@,
        ErrorType::TimeoutError => "Timeout Error"@,
        ErrorType::BadHttpStatus(status) => "Bad HTTP Status: "@ + dec_digits(status as int),
        ErrorType::ParseError => "Parse Error"@,
    }
}

/// The error type a stored string names: either spelling of the fixed
/// kinds, or the status prefix followed by a number that fits in a status
/// code.
pub open spec fn error_type_of(s: Seq<char>) -> Option<ErrorType> {
    if s == "Connection Error"@ || s == "ConnectionError"@ {
        Some(ErrorType::ConnectionError)
    } else if s == "Timeout Error"@ || s == "TimeoutError"@ {
        Some(ErrorType::TimeoutError)
    } else if is_prefix("Bad HTTP Status:"@, s) {
        let digits = trim_spec(s.skip("Bad HTTP Status:"@.len() as int));
        if digits.len() > 0 && all_digits(digits) && digits_val(digits) <= u16::MAX {
            Some(ErrorType::BadHttpStatus(digits_val(digits) as u16))
        } else {
            None
        }
    } else if s == "Parse Error"@ || s == "ParseError"@ {
        Some(ErrorType::ParseError)
    } else {
        None
    }
}

impl ErrorType {
    /// Parse a stored error-type string. Unknown strings and unparsable
    /// status numbers are rejected with a message.
    pub fn try_from(s: String) -> (r: Result<ErrorType, String>)
        ensures
            (match error_type_of(s@) {
                Some(e) => r == Ok::<ErrorType, String>(e),
                None => r is Err,
            }),
            (error_type_of(s@) is None && !is_prefix("Bad HTTP Status:"@, s@) ==> (
            r matches Err(m) && m@ == "Unknown ErrorType: "@ + s@)),
    {
        if str_eq(s.as_str(), "Connection Error") || str_eq(s.as_str(), "ConnectionError") {
            Ok(ErrorType::ConnectionError)
        } else if str_eq(s.as_str(), "Timeout Error") || str_eq(s.as_str(), "TimeoutError") {
            Ok(ErrorType::TimeoutError)
        } else if starts_with_chars(s.as_str(), "Bad HTTP Status:") {
            proof {
                reveal_strlit("Bad HTTP Status:");
            }
            let len = s.as_str().unicode_len();
            let rest = s.as_str().substring_char(16, len);
            let digits = trim_spaces(rest);
            assert(digits@ == trim_spec(s@.skip("Bad HTTP Status:"@.len() as int)));
            match parse_u64(digits.as_str()) {
                Some(v) => {
                    if v <= 65535 {
                        Ok(ErrorType::BadHttpStatus(v as u16))
                    } else {
                        Err(String::from_str("Failed to parse HTTP status"))
                    }
                },
                None => Err(String::from_str("Failed to parse HTTP status")),
            }
        } else if str_eq(s.as_str(), "Parse Error") || str_eq(s.as_str(), "ParseError") {
            Ok(ErrorType::ParseError)
        } else {
            let msg = String::from_str("Unknown ErrorType: ").concat(s.as_str());
            Err(msg)
        }
    }

    /// The stored spelling of this error type.
    pub fn into_string(self) -> (r: String)
        ensures
            r@ == error_type_label(self),
    {
        match self {
            ErrorType::ConnectionError => String::from_str("Connection Error"),
            ErrorType::TimeoutError => String::from_str("Timeout Error"),
            ErrorType::BadHttpStatus(status) => {
                String::from_str("Bad HTTP Status: ").concat(u64_to_dec(status as u64).as_str())
            },
            ErrorType::ParseError => String::from_str("Parse Error"),
        }
    }
}

/// The error payload attached to a failed delivery.
#[derive(Debug, Clone, PartialEq)]
pub struct Error {
    pub name: String,
    pub message: Option<String>,
    pub stack: Option<String>,
}

/// Wrapper matching the stored `error_details` shape.
#[derive(Debug, Clone, PartialEq)]
pub struct ErrorDetails {
    pub error: Error,
}

/// One stored metric row: successes, retries and failures of one app's
/// deliveries in one bucket.
#[derive(Debug, Clone, PartialEq)]
pub struct AppMetric {
    /// Milliseconds since the Unix epoch of the bucket timestamp.
    pub timestamp_ms: i64,
    pub team_id: u32,
    pub plugin_config_id: i32,
    pub job_id: Option<String>,
    pub category: AppMetricCategory,
    pub successes: u32,
    pub successes_on_retry: u32,
    pub failures: u32,
    /// The error's identifier, as the 128-bit value of its UUID.
    pub error_uuid: Option<u128>,
    pub error_type: Option<ErrorType>,
    pub error_details: Option<ErrorDetails>,
}

/// Parsing a rendered error type gives it back: the spellings written by
/// `into_string` are among those `try_from` accepts.
pub proof fn lemma_error_type_round_trip(e: ErrorType)
    ensures
        error_type_of(error_type_label(e)) == Some(e),
{
    reveal_strlit("Connection Error");
    reveal_strlit("ConnectionError");
    reveal_strlit("Timeout Error");
    reveal_strlit("TimeoutError");
    reveal_strlit("Parse Error");
    reveal_strlit("ParseError");
    reveal_strlit("Bad HTTP Status:");
    reveal_strlit("Bad HTTP Status: ");
    match e {
        ErrorType::BadHttpStatus(status) => {
            lemma_dec_digits_all_digits(status as int);
            let d = dec_digits(status as int);
            let label = "Bad HTTP Status: "@ + d;
            assert(label.take(16) =~= "Bad HTTP Status:"@);
            assert(is_prefix("Bad HTTP Status:"@, label));
            assert(label[0] == 'B');
            assert(label != "Connection Error"@);
            assert(label != "ConnectionError"@);
            assert(label != "Timeout Error"@);
            assert(label != "TimeoutError"@);
            assert(label.skip(16) =~= seq![' '] + d);
            lemma_trim_of_space_digits(d);
            lemma_digits_val_of_dec(status as int);
            assert(error_type_of(label) == Some(e));
        },
        _ => {},
    }
}

/// Every character of a decimal rendering is a digit.
proof fn lemma_dec_digits_all_digits(n: int)
    requires
        n >= 0,
    ensures
        all_digits(dec_digits(n)),
        dec_digits(n).len() > 0,
    decreases n,
{
    if n >= 10 {
        lemma_dec_digits_all_digits(n / 10);
    }
}

/// Trimming a leading space off digits leaves the digits.
proof fn lemma_trim_of_space_digits(d: Seq<char>)
    requires
        all_digits(d),
        d.len() > 0,
    ensures
        trim_spec(seq![' '] + d) == d,
{
    crate::strutil::lemma_trim_digits(seq![' '] + d, d);
}

/// Reading back a decimal rendering gives the number.
proof fn lemma_digits_val_of_dec(n: int)
    requires
        n >= 0,
    ensures
        digits_val(dec_digits(n)) == n,
    decreases n,
{
    if n < 10 {
        assert(dec_digits(n).drop_last() =~= Seq::<char>::empty());
        assert(digits_val(Seq::<char>::empty()) == 0);
        assert(dec_digits(n).last() == digit_char(n));
        assert(digit_char(n) as int - 48 == n);
    } else {
        lemma_digits_val_of_dec(n / 10);
        assert(dec_digits(n).drop_last() =~= dec_digits(n / 10));
        assert(dec_digits(n).last() == digit_char(n % 10));
        assert(digit_char(n % 10) as int - 48 == n % 10);
    }
}

} // verus!
