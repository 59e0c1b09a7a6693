//! The transition detector and its notification messages.
//!
//! A site's new probe outcome is compared against its most recent
//! persisted fact.  A site with no history counts as previously up, so a
//! brand-new site that fails its first probe is reported down at once.
//! When the `success` flag flips, a message naming the site and its
//! status code is produced for the notifier; otherwise nothing is sent.

use vstd::prelude::*;
use crate::model::SiteFactModel;
use vstd::string::StringExecFns;

verus! {

/// The direction of a detected state change.
#[derive(Clone, Copy, PartialEq, Eq, Structural, Debug)]
pub enum Transition {
    Up,
    Down,
}

/// Result classes 2xx and 3xx count as success; anything else, including
/// the transport-failure sentinel, counts as failure.
pub open spec fn is_success_code(code: int) -> bool {
    200 <= code < 400
}

/// Whether an HTTP status code counts as a successful outcome.
pub fn status_success(code: u16) -> (r: bool)
    ensures
        r == is_success_code(code as int),
{
    200 <= code && code < 400
}

/// The `success` of the most recent fact; a site with no history counts
/// as having been up.
pub open spec fn previous_success(prev: Option<SiteFactModel>) -> bool {
    match prev {
        None => true,
        Some(f) => f.success,
    }
}

/// The decision: `Up` when a previously failing site now succeeds, `Down`
/// when a previously succeeding site now fails, nothing otherwise.
pub open spec fn spec_transition(prev_success: bool, current_success: bool) -> Option<Transition> {
    if prev_success == current_success {
        None
    } else if current_success {
        Some(Transition::Up)
    } else {
        Some(Transition::Down)
    }
}

/// Compares the new outcome against the most recent persisted fact and
/// decides whether, and in which direction, to notify.  Exactly one
/// notification direction results from a flip of `success`; none when
/// the outcome repeats the previous state.
pub fn evaluate_transition(previous: Option<&SiteFactModel>, current_success: bool) -> (r: Option<
    Transition,
>)
    ensures
        r == spec_transition(
            match previous {
                None => true,
                Some(f) => f.success,
            },
            current_success,
        ),
{
    let prev_success = match previous {
        None => true,
        Some(f) => f.success,
    };
    if prev_success == current_success {
        None
    } else if current_success {
        Some(Transition::Up)
    } else {
        Some(Transition::Down)
    }
}

/// The character for one decimal digit.
pub open spec fn spec_digit_char(d: int) -> char {
    if d == 0 {
        '0'
    } else if d == 1 {
        '1'
    } else if d == 2 {
        '2'
    } else if d == 3 {
        '3'
    } else if d == 4 {
        '4'
    } else if d == 5 {
        '5'
    } else if d == 6 {
        '6'
    } else if d == 7 {
        '7'
    } else if d == 8 {
        '8'
    } else {
        '9'
    }
}

/// The decimal rendering of a non-negative number, most significant digit
/// first, with no leading zeros (a lone zero for 0).
pub open spec fn spec_decimal(n: int) -> Seq<char>
    decreases n,
{
    if n < 10 {
        seq![spec_digit_char(n)]
    } else {
        spec_decimal(n / 10).push(spec_digit_char(n % 10))
    }
}

/// The one-character string for a decimal digit.
fn digit_str(d: u16) -> (r: &'static str)
    requires
        d < 10,
    ensures
        r@ =~= seq![spec_digit_char(d as int)],
{
    proof {
        reveal_strlit("0");
        reveal_strlit("1");
        reveal_strlit("2");
        reveal_strlit("3");
        reveal_strlit("4");
        reveal_strlit("5");
        reveal_strlit("6");
        reveal_strlit("7");
        reveal_strlit("8");
        reveal_strlit("9");
    }
    match d {
        0 => "0",
        1 => "1",
        2 => "2",
        3 => "3",
        4 => "4",
        5 => "5",
        6 => "6",
        7 => "7",
        8 => "8",
        _ => "9",
    }
}

/// Appends the decimal rendering of `n` to `out`.
fn push_decimal(n: u16, out: &mut String)
    ensures
        final(out)@ == old(out)@ + spec_decimal(n as int),
    decreases n,
{
    if n >= 10 {
        push_decimal(n / 10, out);
    }
    let d = digit_str(n % 10);
    out.append(d);
}

/// The notification text: an up or down glyph, the site's display name,
/// the direction, and the status code in decimal.
pub open spec fn spec_message(name: Seq<char>, code: int, t: Transition) -> Seq<char> {
    match t {
        Transition::Up => "🟢 "@ + name + " up: "@ + spec_decimal(code),
        Transition::Down => "🔴 "@ + name + " down: "@ + spec_decimal(code),
    }
}

/// Builds the message sent to the notifier for a detected transition.
pub fn notification_message(name: &str, code: u16, t: Transition) -> (r: String)
    ensures
        r@ == spec_message(name@, code as int, t),
{
    let mut out = String::new();
    match t {
        Transition::Up => {
            out.append("🟢 ");
            out.append(name);
            out.append(" up: ");
        },
        Transition::Down => {
            out.append("🔴 ");
            out.append(name);
            out.append(" down: ");
        },
    }
    push_decimal(code, &mut out);
    out
}

/// Interprets the notifier transport's reply: an empty reply is success,
/// anything else is the delivery error text.  Delivery failures are
/// logged by the caller and never abort a cycle.
pub fn notify_reply_ok(reply: &str) -> (r: Result<(), String>)
    ensures
        r is Ok <==> reply@.len() == 0,
        r matches Err(e) ==> e@ == reply@,
{
    if reply.is_empty() {
        Ok(())
    } else {
        Err(reply.to_owned())
    }
}

} // verus!
