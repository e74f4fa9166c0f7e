//! Deadlines.
use std::sync::atomic::AtomicBool;
use std::time::{Duration, Instant};

use vstd::prelude::*;

verus! {

/// `std::time::Instant`: a reading of the clock. Nothing is known of one but what comparing it
/// with another shows.
#[verifier::external_type_specification]
#[verifier::external_body]
pub struct ExInstant(Instant);

/// `Instant::now` reads the clock. What it reads is left open.
pub assume_specification[ Instant::now ]() -> Instant;

/// `Instant::checked_add` gives the instant `duration` later, or `None` where the clock cannot
/// count so far. Which instant that is, is left open: an instant has no value of its own.
pub assume_specification[ Instant::checked_add ](instant: &Instant, duration: Duration) -> Option<Instant>;

/// `Duration::from_millis` gives a span of time of that many milliseconds.
pub assume_specification[ Duration::from_millis ](millis: u64) -> Duration;

/// `Instant >= Instant` of the standard library: `a` is not before `b`. Which is the case, is left
/// open: an instant has no value of its own.
#[verifier::external_body]
fn not_before(a: Instant, b: Instant) -> bool {
    a >= b
}

/// A reading of the clock, compared with `deadline`, gives `r`. Only reading the clock and comparing
/// shows this.
pub closed spec fn clock_says(deadline: Instant, r: bool) -> bool {
    exists|now: Instant|
        call_ensures(Instant::now, (), now) && #[trigger] call_ensures(not_before, (now, deadline), r)
}

/// `now` is a reading of the clock, and adding `millis` milliseconds to it gives `t`.
pub closed spec fn counts_on(now: Instant, millis: u64, t: Option<Instant>) -> bool {
    &&& call_ensures(Instant::now, (), now)
    &&& exists|span: Duration|
        call_ensures(Duration::from_millis, (millis,), span) && #[trigger] call_ensures(
            Instant::checked_add,
            (&now, span),
            t,
        )
}

/// `r` is the earlier of `t` and `latest`, as comparing the two shows it.
pub closed spec fn earlier_of(t: Instant, latest: Instant, r: Instant) -> bool {
    ||| call_ensures(not_before, (t, latest), true) && r == latest
    ||| call_ensures(not_before, (t, latest), false) && r == t
}

/// `r` is `millis` milliseconds after a reading of the clock, but not after `latest`.
pub open spec fn is_soon(millis: u64, latest: Instant, r: Instant) -> bool {
    exists|now: Instant, t: Option<Instant>| #[trigger]
        counts_on(now, millis, t) && match t {
            Some(t) => earlier_of(t, latest, r),
            None => r == latest,
        }
}

/// `r` is `millis` milliseconds after a reading of the clock; that reading, where the clock cannot
/// count so far.
pub open spec fn is_after(millis: u64, r: Instant) -> bool {
    exists|now: Instant, t: Option<Instant>| #[trigger]
        counts_on(now, millis, t) && r == match t {
            Some(t) => t,
            None => now,
        }
}

/// No reading of the clock comes before `deadline`, nor before an instant that comes before it.
pub closed spec fn has_passed(deadline: Instant) -> bool {
    forall|t: Instant| t == deadline || call_ensures(not_before, (t, deadline), false) ==> !#[trigger] clock_says(t, false)
}

/// Where a deadline has passed, there is no time left until it, nor until an instant that is soon but
/// not after it.
pub proof fn lemma_has_passed(deadline: Instant, millis: u64, early: Instant)
    requires
        has_passed(deadline),
    ensures
        !clock_says(deadline, false),
        is_soon(millis, deadline, early) ==> !clock_says(early, false),
{
}

/// `deadline` has come.
pub(crate) fn has_come(deadline: Instant) -> (r: bool)
    ensures
        clock_says(deadline, r),
{
    let now = Instant::now();
    let r = not_before(now, deadline);
    assert(call_ensures(not_before, (now, deadline), r));
    r
}

/// The instant `millis` milliseconds from now, but none after `latest`.
pub(crate) fn soon(millis: u64, latest: Instant) -> (r: Instant)
    ensures
        is_soon(millis, latest, r),
{
    let now = Instant::now();
    let t = now.checked_add(Duration::from_millis(millis));
    assert(counts_on(now, millis, t));
    match t {
        Some(t) => if not_before(t, latest) {
            latest
        } else {
            t
        },
        None => latest,
    }
}

/// The instant `millis` milliseconds from now; now, where the clock cannot count so far.
pub(crate) fn after(millis: u64) -> (r: Instant)
    ensures
        is_after(millis, r),
{
    let now = Instant::now();
    let t = now.checked_add(Duration::from_millis(millis));
    assert(counts_on(now, millis, t));
    match t {
        Some(t) => t,
        None => now,
    }
}

/// Until when to go on: without limit; up to an instant; or as it is told, answer by answer, and no
/// further when there are no more answers.
#[derive(Copy, Clone)]
pub enum Deadline<'a> {
    Never,
    At(Instant),
    Told(&'a Vec<bool>),
}

impl<'a> Deadline<'a> {
    /// `r` may be the answer to whether the time is up, after `asked` answers that it was not: without
    /// a limit it never is, and for an instant a reading of the clock, compared with it, gives `r`.
    pub open spec fn says(self, asked: nat, r: bool) -> bool {
        match self {
            Deadline::Never => !r,
            Deadline::At(t) => clock_says(t, r),
            Deadline::Told(answers) => r == (asked < answers@.len() ==> answers@[asked as int]),
        }
    }

    /// The time is up, after `asked` answers that it was not.
    pub fn expired(self, asked: usize) -> (r: bool)
        ensures
            self.says(asked as nat, r),
    {
        match self {
            Deadline::Never => false,
            Deadline::At(t) => has_come(t),
            Deadline::Told(answers) => if asked < answers.len() {
                answers[asked]
            } else {
                true
            },
        }
    }
}

/// A deadline, and how often it was asked and there was time left.
pub struct Watch<'a> {
    pub deadline: Deadline<'a>,
    pub asked: usize,
    pub answers: Ghost<nat>,
}

impl<'a> Watch<'a> {
    /// The next of the answers that are told is the one that is due.
    pub open spec fn in_step(self) -> bool {
        self.deadline matches Deadline::Told(told) ==> self.asked == if self.answers@ < told@.len() {
            self.answers@ as int
        } else {
            told@.len() as int
        }
    }

    /// A watch that was not asked yet.
    pub fn new(deadline: Deadline<'a>) -> (w: Self)
        ensures
            w.in_step(),
            w.deadline == deadline,
            w.answers@ == 0,
    {
        Watch { deadline, asked: 0, answers: Ghost(0) }
    }

    /// The time is up.
    pub fn time_is_up(&mut self) -> (r: bool)
        requires
            old(self).in_step(),
        ensures
            final(self).in_step(),
            final(self).deadline == old(self).deadline,
            old(self).deadline.says(old(self).answers@, r),
            final(self).answers@ == if r {
                old(self).answers@
            } else {
                old(self).answers@ + 1
            },
    {
        let r = self.deadline.expired(self.asked);
        if !r {
            if let Deadline::Told(told) = self.deadline {
                if self.asked < told.len() {
                    self.asked = self.asked + 1;
                }
            }
            proof {
                self.answers@ = self.answers@ + 1;
            }
        }
        r
    }
}

/// From the answer number `before` to number `after` there was time left. Where it is not `stopped`,
/// these are `n` answers; else they are fewer, and the next one was that the time is up.
pub open spec fn keeps_asking(deadline: Deadline, before: nat, after: nat, n: nat, stopped: bool) -> bool {
    &&& forall|i: nat| before <= i < after ==> #[trigger] deadline.says(i, false)
    &&& if stopped {
        before <= after < before + n && deadline.says(after, true)
    } else {
        after == before + n
    }
}

/// The first `n` of `answers` are there, and all say that there is time left.
pub open spec fn lasts(answers: Seq<bool>, n: nat) -> bool {
    n <= answers.len() && forall|i: int| 0 <= i < n ==> !#[trigger] answers[i]
}

/// Who is told the time is stopped just when there is not time left for all answers.
pub proof fn lemma_told(answers: &Vec<bool>, after: nat, n: nat, stopped: bool)
    requires
        keeps_asking(Deadline::Told(answers), 0, after, n, stopped),
    ensures
        stopped <==> !lasts(answers@, n),
{
    let deadline = Deadline::Told(answers);
    if stopped {
        assert(deadline.says(after, true));
        if lasts(answers@, n) {
            assert(!answers@[after as int]);
        }
    } else {
        assert forall|i: int| 0 <= i < n implies i < answers@.len() && !#[trigger] answers@[i] by {
            assert(deadline.says(i as nat, false));
        }
        if n > 0 {
            assert(deadline.says((n - 1) as nat, false));
        }
    }
}

/// A relaxed load of `flag` gives `r`.
pub closed spec fn flag_says(flag: &AtomicBool, r: bool) -> bool {
    call_ensures(AtomicBool::load, (flag, std::sync::atomic::Ordering::Relaxed), r)
}

/// `flag` is set.
fn is_set(flag: &AtomicBool) -> (r: bool)
    ensures
        flag_says(flag, r),
{
    flag.load(std::sync::atomic::Ordering::Relaxed)
}

/// A flag that begins unset.
pub closed spec fn begins_unset(flag: &AtomicBool) -> bool {
    call_ensures(AtomicBool::new, (false,), *flag)
}

/// A flag that is not set.
pub(crate) fn unset() -> (r: AtomicBool)
    ensures
        begins_unset(&r),
{
    AtomicBool::new(false)
}

/// `r` says whether `deadline` has come or else `cancel` is set: the clock is read, and where the
/// deadline has not come, the flag is.
pub open spec fn limits_say(deadline: Instant, cancel: &AtomicBool, r: bool) -> bool {
    ||| clock_says(deadline, true) && r
    ||| clock_says(deadline, false) && flag_says(cancel, r)
}

/// When to break off a search: at an instant, or when `cancel` is set; or as it is told, answer by
/// answer, and at once when there are no more answers.
#[derive(Copy, Clone)]
pub enum Limits<'a> {
    Clock { deadline: Instant, cancel: &'a AtomicBool },
    Told(&'a Vec<bool>),
}

impl<'a> Limits<'a> {
    /// The search is to be broken off when it asks for the time after `asked` answers.
    pub fn expired(&self, asked: usize) -> (r: bool)
        ensures
            self matches Limits::Told(answers) ==> r == (asked < answers@.len() ==> answers@[asked as int]),
            self matches Limits::Clock { deadline, cancel } ==> limits_say(*deadline, cancel, r),
    {
        match self {
            Limits::Clock { deadline, cancel } => has_come(*deadline) || is_set(cancel),
            Limits::Told(answers) => if asked < answers.len() {
                answers[asked]
            } else {
                true
            },
        }
    }
}

} // verus!
