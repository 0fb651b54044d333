use vstd::prelude::*;

verus! {

/// How many finished challenges are kept.
pub const HISTORY_LIMIT: usize = 100;

/// Most shots a stored result may claim.
pub const MAX_SHOTS: u32 = 100_000;

/// The integer part of a stored result's plausibility check: no more hits
/// than shots, a bounded shot count and a real timestamp.
pub open spec fn plausible_counts(hits: u32, shots: u32, timestamp: u64) -> bool {
    hits <= shots && shots <= MAX_SHOTS && timestamp > 0
}

/// The last `limit` entries of a history (all of it when shorter).
pub open spec fn last_entries<T>(history: Seq<T>, limit: nat) -> Seq<T> {
    if history.len() > limit {
        history.subrange(history.len() - limit, history.len() as int)
    } else {
        history
    }
}

/// The history after one entry is appended: the oldest entry makes room when
/// the limit is passed.
pub open spec fn appended<T>(history: Seq<T>, entry: T) -> Seq<T> {
    let pushed = history.push(entry);
    if pushed.len() > HISTORY_LIMIT {
        pushed.drop_first()
    } else {
        pushed
    }
}

pub fn counts_plausible(hits: u32, shots: u32, timestamp: u64) -> (r: bool)
    ensures
        r == plausible_counts(hits, shots, timestamp),
{
    hits <= shots && shots <= 100_000 && timestamp > 0
}

/// A result's counts are plausible exactly when it claims no more hits than
/// shots, at most [`MAX_SHOTS`] shots and a non-zero timestamp; so a perfect
/// run is plausible, and claiming fewer hits never makes a result
/// implausible.
pub proof fn lemma_plausible_counts(hits: u32, shots: u32, timestamp: u64)
    ensures
        plausible_counts(hits, shots, timestamp) <==> (hits <= shots && shots <= 100_000
            && timestamp > 0),
        0 < shots <= 100_000 && timestamp > 0 ==> plausible_counts(shots, shots, timestamp),
        shots <= 100_000 && timestamp > 0 ==> plausible_counts(0, shots, timestamp),
        forall|fewer: u32|
            fewer <= hits && #[trigger] plausible_counts(hits, shots, timestamp) ==> plausible_counts(
                fewer,
                shots,
                timestamp,
            ),
        hits > shots ==> !plausible_counts(hits, shots, timestamp),
{
}

/// Trims a loaded history to its most recent entries.
pub fn keep_recent<T>(history: &mut Vec<T>)
    ensures
        final(history)@ == last_entries(old(history)@, HISTORY_LIMIT as nat),
{
    let len = history.len();
    if len > 100 {
        let tail = history.split_off(len - 100);
        *history = tail;
    }
}

/// Appends a finished result, dropping the oldest one when the history is
/// over its limit.
pub fn push_recent<T>(history: &mut Vec<T>, entry: T)
    requires
        old(history)@.len() < usize::MAX,
    ensures
        final(history)@ == appended(old(history)@, entry),
{
    history.push(entry);
    if history.len() > 100 {
        history.remove(0);
    }
}

/// A history within its limit stays within it when a result is appended; the
/// new result is the most recent one and the older ones keep their order.
pub proof fn lemma_append_keeps_limit<T>(history: Seq<T>, entry: T)
    requires
        history.len() <= HISTORY_LIMIT,
    ensures
        appended(history, entry).len() <= HISTORY_LIMIT,
        appended(history, entry).last() == entry,
        appended(history, entry) == last_entries(history.push(entry), HISTORY_LIMIT as nat),
{
    let pushed = history.push(entry);
    if pushed.len() > HISTORY_LIMIT {
        assert(pushed.drop_first() =~= pushed.subrange(
            pushed.len() - HISTORY_LIMIT,
            pushed.len() as int,
        ));
    }
}

/// Trimming a loaded history keeps at most the limit and is idempotent; a
/// short history is kept whole.
pub proof fn lemma_keep_recent_bounded<T>(history: Seq<T>)
    ensures
        last_entries(history, HISTORY_LIMIT as nat).len() <= HISTORY_LIMIT,
        last_entries(last_entries(history, HISTORY_LIMIT as nat), HISTORY_LIMIT as nat)
            == last_entries(history, HISTORY_LIMIT as nat),
        history.len() <= HISTORY_LIMIT ==> last_entries(history, HISTORY_LIMIT as nat) == history,
{
}

/// How long ago a result was recorded, as the history screen words it.
#[derive(Clone, Copy, Debug, PartialEq, Eq, Structural)]
pub enum Age {
    JustNow,
    Minutes(u64),
    Hours(u64),
    Days(u64),
}

/// The age of a result recorded at `then`, seen at `now`; a timestamp in the
/// future counts as just now.
pub open spec fn age_of(now: u64, then: u64) -> Age {
    let age: int = if now >= then { now - then } else { 0 };
    if age < 60 {
        Age::JustNow
    } else if age < 3600 {
        Age::Minutes((age / 60) as u64)
    } else if age < 86400 {
        Age::Hours((age / 3600) as u64)
    } else {
        Age::Days((age / 86400) as u64)
    }
}

pub fn age(now: u64, then: u64) -> (r: Age)
    ensures
        r == age_of(now, then),
{
    let age = now.saturating_sub(then);
    if age < 60 {
        Age::JustNow
    } else if age < 3600 {
        Age::Minutes(age / 60)
    } else if age < 86400 {
        Age::Hours(age / 3600)
    } else {
        Age::Days(age / 86400)
    }
}

} // verus!
