//! Muting, snoozing and scheduled sending: the checks on the times given,
//! when a mute or snooze is over, and what a batch of them reports.

use crate::query::opt_view;
use crate::text::str_eq;
use vstd::prelude::*;

verus! {

/// A muted thread as listed.
#[derive(Debug)]
pub struct MutedThreadInfo {
    pub thread_id: String,
    pub account_id: String,
    pub muted_until: Option<i64>,
    pub created_at: i64,
    pub subject: String,
    pub sender: String,
}

/// A snoozed thread as listed.
#[derive(Debug)]
pub struct SnoozedThreadInfo {
    pub thread_id: String,
    pub account_id: String,
    pub snoozed_until: i64,
    pub created_at: i64,
    pub subject: String,
    pub sender: String,
}

/// A scheduled send as listed.
#[derive(Debug)]
pub struct ScheduledSendInfo {
    pub id: i64,
    pub account_id: String,
    pub draft_id: String,
    pub thread_id: Option<String>,
    pub to_recipients: String,
    pub subject: String,
    pub send_at: i64,
    pub created_at: i64,
}

/// What a batch of thread operations reports.
#[derive(Debug)]
pub struct BatchResult {
    pub succeeded: usize,
    pub failed_ids: Vec<String>,
}

/// Accepts a mute end time only in the future; `None` mutes for good.
pub fn check_mute_until(muted_until: Option<i64>, now: i64) -> (r: Result<(), String>)
    ensures
        r is Ok <==> (muted_until matches Some(u) ==> u > now),
        r matches Err(e) ==> e@ == "muted_until must be in the future"@,
{
    match muted_until {
        Some(u) => if u <= now {
            Err("muted_until must be in the future".to_owned())
        } else {
            Ok(())
        },
        None => Ok(()),
    }
}

/// Accepts a snooze end time only in the future.
pub fn check_snooze_until(snoozed_until: i64, now: i64) -> (r: Result<(), String>)
    ensures
        r is Ok <==> snoozed_until > now,
        r matches Err(e) ==> e@ == "snoozed_until must be in the future"@,
{
    if snoozed_until <= now {
        Err("snoozed_until must be in the future".to_owned())
    } else {
        Ok(())
    }
}

/// Accepts a scheduled send time only in the future.
pub fn check_send_at(send_at: i64, now: i64) -> (r: Result<(), String>)
    ensures
        r is Ok <==> send_at > now,
        r matches Err(e) ==> e@ == "Scheduled time must be in the future"@,
{
    if send_at <= now {
        Err("Scheduled time must be in the future".to_owned())
    } else {
        Ok(())
    }
}

/// Whether a mute holds at `now`: for good, or until a later time.
pub open spec fn mute_active(muted_until: Option<i64>, now: i64) -> bool {
    match muted_until {
        Some(u) => u > now,
        None => true,
    }
}

/// Whether a timed mute is over at `now` (a mute for good never is).
pub open spec fn mute_expired(muted_until: Option<i64>, now: i64) -> bool {
    match muted_until {
        Some(u) => u <= now,
        None => false,
    }
}

/// Whether a thread muted until `muted_until` is muted at `now`.
pub fn is_muted_at(muted_until: Option<i64>, now: i64) -> (r: bool)
    ensures
        r == mute_active(muted_until, now),
{
    match muted_until {
        Some(u) => u > now,
        None => true,
    }
}

/// Whether a mute is over at `now` and its record is removed.
pub fn mute_is_over(muted_until: Option<i64>, now: i64) -> (r: bool)
    ensures
        r == mute_expired(muted_until, now),
{
    match muted_until {
        Some(u) => u <= now,
        None => false,
    }
}

/// Whether a snooze is over at `now` and the thread returns.
pub fn snooze_is_over(snoozed_until: i64, now: i64) -> (r: bool)
    ensures
        r == (snoozed_until <= now),
{
    snoozed_until <= now
}

/// A mute that is accepted at a time holds at that time and is not over;
/// at any time a mute is exactly one of holding or over.
pub proof fn law_mute_accepted_holds(muted_until: Option<i64>, now: i64, later: i64)
    ensures
        (muted_until matches Some(u) ==> u > now) ==> mute_active(muted_until, now) && !mute_expired(
            muted_until,
            now,
        ),
        mute_active(muted_until, later) != mute_expired(muted_until, later),
        muted_until is None ==> mute_active(muted_until, later),
{
}

/// How a scheduled send goes out.
#[derive(Debug, PartialEq, Eq)]
pub enum SendRoute {
    /// Built as a MIME message and sent over SMTP.
    Smtp,
    /// The Outlook draft is sent.
    OutlookDraft,
    /// The Gmail draft is sent.
    GmailDraft,
}

/// The route of a scheduled send for an account's provider.
pub fn send_route(provider_type: &str) -> (r: SendRoute)
    ensures
        r == if provider_type@ == "imap"@ {
            SendRoute::Smtp
        } else if provider_type@ == "outlook"@ {
            SendRoute::OutlookDraft
        } else {
            SendRoute::GmailDraft
        },
{
    if str_eq(provider_type, "imap") {
        SendRoute::Smtp
    } else if str_eq(provider_type, "outlook") {
        SendRoute::OutlookDraft
    } else {
        SendRoute::GmailDraft
    }
}

/// Whether a due scheduled send is removed after an attempt: always after a
/// success; after a failure only for Gmail, whose draft is used up by the
/// attempt; other providers keep it for a retry.
pub fn remove_after_attempt(sent: bool, provider_type: &str) -> (r: bool)
    ensures
        r == (sent || provider_type@ == "gmail"@),
{
    sent || str_eq(provider_type, "gmail")
}

/// Counts the outcomes of a batch, in order.
pub fn tally_batch(outcomes: &Vec<(String, bool)>) -> (r: BatchResult)
    ensures
        r.succeeded == outcomes@.filter(|o: (String, bool)| o.1).len(),
        r.failed_ids@.map_values(|s: String| s@) == outcomes@.filter(|o: (String, bool)| !o.1).map_values(
            |o: (String, bool)| o.0@,
        ),
        r.succeeded + r.failed_ids@.len() == outcomes@.len(),
{
    let ghost ok = |o: (String, bool)| o.1;
    let ghost bad = |o: (String, bool)| !o.1;
    let mut succeeded: usize = 0;
    let mut failed: Vec<String> = Vec::new();
    let mut i: usize = 0;
    while i < outcomes.len()
        invariant
            i <= outcomes@.len(),
            ok == (|o: (String, bool)| o.1),
            bad == (|o: (String, bool)| !o.1),
            succeeded == outcomes@.take(i as int).filter(ok).len(),
            failed@.map_values(|s: String| s@) == outcomes@.take(i as int).filter(bad).map_values(
                |o: (String, bool)| o.0@,
            ),
            succeeded + failed@.len() == i,
        decreases outcomes.len() - i,
    {
        proof {
            reveal_with_fuel(Seq::<_>::filter, 1);
            assert(outcomes@.take(i + 1).drop_last() =~= outcomes@.take(i as int));
        }
        let ghost prev = failed@.map_values(|s: String| s@);
        if outcomes[i].1 {
            succeeded = succeeded + 1;
            assert(outcomes@.take(i + 1).filter(bad) =~= outcomes@.take(i as int).filter(bad));
        } else {
            failed.push(outcomes[i].0.clone());
            assert(failed@.map_values(|s: String| s@) =~= prev.push(outcomes@[i as int].0@));
            assert(outcomes@.take(i + 1).filter(bad) =~= outcomes@.take(i as int).filter(bad).push(
                outcomes@[i as int],
            ));
            assert(outcomes@.take(i + 1).filter(ok) =~= outcomes@.take(i as int).filter(ok));
        }
        i = i + 1;
    }
    assert(outcomes@.take(outcomes@.len() as int) =~= outcomes@);
    BatchResult { succeeded, failed_ids: failed }
}

/// The subject shown for a thread without one.
pub fn subject_or_default(subject: &Option<String>) -> (r: String)
    ensures
        r@ == match opt_view(*subject) {
            Some(s) => s,
            None => "No Subject"@,
        },
{
    match subject {
        Some(s) => s.clone(),
        None => "No Subject".to_owned(),
    }
}

/// The sender shown for a thread without one.
pub fn sender_or_default(sender: &Option<String>) -> (r: String)
    ensures
        r@ == match opt_view(*sender) {
            Some(s) => s,
            None => "Unknown Sender"@,
        },
{
    match sender {
        Some(s) => s.clone(),
        None => "Unknown Sender".to_owned(),
    }
}

} // verus!
