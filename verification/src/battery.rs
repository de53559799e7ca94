//! Snapshot of the wireless battery state of both keyboard halves.

use vstd::prelude::*;
use vstd::string::*;

use crate::text::{dec, digit_char, push_dec};

verus! {

/// Snapshot of wireless battery state.
#[derive(Debug, Clone, PartialEq, Eq)]
pub struct BatteryLevels {
    pub left: u8,
    pub right: u8,
    pub left_status: Option<u8>,
    pub right_status: Option<u8>,
}

/// The two-line key title: `L<left>%`, a newline, `R<right>%`.
pub open spec fn title_text(levels: BatteryLevels) -> Seq<char> {
    "L"@ + dec(levels.left as nat) + "%\nR"@ + dec(levels.right as nat) + "%"@
}

/// A side's status code in decimal, or `?` when it could not be read.
pub open spec fn status_label_text(status: Option<u8>) -> Seq<char> {
    match status {
        Some(s) => dec(s as nat),
        None => "?"@,
    }
}

/// The one-line description: `L<left>% (s<status>) R<right>% (s<status>)`.
pub open spec fn description_text(levels: BatteryLevels) -> Seq<char> {
    "L"@ + dec(levels.left as nat) + "% (s"@ + status_label_text(levels.left_status) + ") R"@
        + dec(levels.right as nat) + "% (s"@ + status_label_text(levels.right_status) + ")"@
}

impl BatteryLevels {
    /// Title suitable for a Stream Deck key (two lines).
    pub fn title(&self) -> (s: String)
        ensures
            s@ == title_text(*self),
    {
        let mut s = String::new();
        s.append("L");
        push_dec(&mut s, self.left as u64);
        s.append("%\nR");
        push_dec(&mut s, self.right as u64);
        s.append("%");
        s
    }

    /// One-line description with both status codes, as logs and the
    /// self-test print it.
    pub fn to_string(&self) -> (s: String)
        ensures
            s@ == description_text(*self),
    {
        let mut s = String::new();
        s.append("L");
        push_dec(&mut s, self.left as u64);
        s.append("% (s");
        let left_status = status_label(self.left_status);
        s.append(left_status.as_str());
        s.append(") R");
        push_dec(&mut s, self.right as u64);
        s.append("% (s");
        let right_status = status_label(self.right_status);
        s.append(right_status.as_str());
        s.append(")");
        s
    }
}

fn status_label(status: Option<u8>) -> (s: String)
    ensures
        s@ == status_label_text(status),
{
    let mut s = String::new();
    match status {
        Some(code) => push_dec(&mut s, code as u64),
        None => s.append("?"),
    }
    s
}

/// Assembles a snapshot from the four Focus reads: both levels were read,
/// and a status that could not be read is unknown.
pub fn levels_from_reads<E>(
    left: u8,
    right: u8,
    left_status: Result<u8, E>,
    right_status: Result<u8, E>,
) -> (levels: BatteryLevels)
    ensures
        levels.left == left,
        levels.right == right,
        levels.left_status == (match left_status {
            Ok(s) => Some(s),
            Err(_) => None,
        }),
        levels.right_status == (match right_status {
            Ok(s) => Some(s),
            Err(_) => None,
        }),
{
    let left_status = match left_status {
        Ok(s) => Some(s),
        Err(_) => None,
    };
    let right_status = match right_status {
        Ok(s) => Some(s),
        Err(_) => None,
    };
    BatteryLevels { left, right, left_status, right_status }
}

/// The printed code ends in the digit of its last place, so it is never
/// the `?` of an unread status.
proof fn lemma_dec_last_digit(n: nat)
    ensures
        dec(n).len() > 0,
        dec(n).last() == digit_char(n % 10),
    decreases n,
{
    if n >= 10 {
        lemma_dec_last_digit(n / 10);
    }
}

/// A status label is `?` exactly when the status could not be read; a code
/// that was read, `0` included, is printed in decimal.
pub proof fn lemma_status_label(status: Option<u8>)
    ensures
        (status_label_text(status) == "?"@) <==> status is None,
        forall|c: u8| status == Some(c) ==> status_label_text(status) == dec(c as nat),
{
    reveal_strlit("?");
    if let Some(c) = status {
        lemma_dec_last_digit(c as nat);
        assert(dec(c as nat).last() != '?');
        assert(dec(c as nat) != "?"@);
    }
}

/// The description line shows both levels and both status codes in
/// decimal, with `?` in place of a status that could not be read.
pub proof fn lemma_description_line(levels: BatteryLevels)
    ensures
        description_text(levels) == "L"@ + dec(levels.left as nat) + "% (s"@ + (match levels.left_status {
            Some(c) => dec(c as nat),
            None => "?"@,
        }) + ") R"@ + dec(levels.right as nat) + "% (s"@ + (match levels.right_status {
            Some(c) => dec(c as nat),
            None => "?"@,
        }) + ")"@,
{
    lemma_status_label(levels.left_status);
    lemma_status_label(levels.right_status);
}

} // verus!
