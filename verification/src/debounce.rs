//! Debouncing of a noisy digital source: three ways to read a level that can
//! be trusted. Each polls the source through a closure and gives up, with
//! `None`, when its budget of polls is spent.

use vstd::prelude::*;

verus! {

/// The time, in milliseconds, that [`debounce_countdown`] expects its timer
/// to be armed with.
pub const COUNTDOWN_MS: u32 = 10;

/// One poll: the level of the source and the time read after it.
#[derive(Clone, Copy, Debug, PartialEq, Eq)]
pub struct Reading {
    /// The level.
    pub level: bool,
    /// The time, in milliseconds, on a clock that wraps at 2^32.
    pub at: u32,
}

/// Milliseconds from `since` to `now` on a clock that wraps at 2^32.
pub open spec fn elapsed(since: u32, now: u32) -> int {
    if now >= since {
        now - since
    } else {
        now - since + 0x1_0000_0000
    }
}

/// The time of the reading with which the level of the last reading began:
/// the first of the run of equal levels that the readings end with.
pub open spec fn level_since(readings: Seq<Reading>) -> u32
    decreases readings.len(),
{
    if readings.len() <= 1 {
        readings[0].at
    } else if readings.last().level != readings[readings.len() - 2].level {
        readings.last().at
    } else {
        level_since(readings.drop_last())
    }
}

/// How long the level of the last reading has held at the last reading.
pub open spec fn held_for(readings: Seq<Reading>) -> int {
    elapsed(level_since(readings), readings.last().at)
}

/// What [`debounce`] returns on a sequence of readings: it read on for as
/// long as the level had held for less than `ms`, at most `max_polls` times
/// after the first reading, and returns the last level if that has held for
/// `ms`, else nothing.
pub open spec fn window_outcome(
    readings: Seq<Reading>,
    ms: u32,
    max_polls: int,
    outcome: Option<bool>,
) -> bool {
    &&& 1 <= readings.len() <= max_polls + 1
    &&& forall|k: int| 1 <= k < readings.len() ==> held_for(#[trigger] readings.take(k)) < ms
    &&& outcome == (if held_for(readings) >= ms {
        Some(readings.last().level)
    } else {
        None
    })
    &&& outcome.is_none() ==> readings.len() == max_polls + 1
}

/// Whether the source and the clock can have given the readings.
pub open spec fn read_from<I: Fn() -> bool, T: Fn() -> u32>(
    input: I,
    time: T,
    readings: Seq<Reading>,
) -> bool {
    forall|i: int|
        0 <= i < readings.len() ==> call_ensures(input, (), (#[trigger] readings[i]).level)
            && call_ensures(time, (), readings[i].at)
}

/// What [`debounce_wait`] returns on a sequence of levels: the last of them,
/// unless it had to stop after `max_polls` polls.
pub open spec fn wait_outcome(levels: Seq<bool>, max_polls: int, outcome: Option<bool>) -> bool {
    &&& 1 <= levels.len() <= max_polls + 1
    &&& outcome matches Some(level) ==> level == levels.last()
    &&& outcome.is_none() ==> levels.len() == max_polls + 1
}

/// The window of [`debounce`] after a reading.
#[derive(Clone, Copy, Debug, PartialEq, Eq)]
pub struct Window {
    /// The level of the reading.
    pub level: bool,
    /// The time of the reading with which that level began.
    pub since: u32,
    /// The level, if it has held for the settle time.
    pub settled: Option<bool>,
}

/// What a debounce loop does next.
#[derive(Clone, Copy, Debug, PartialEq, Eq)]
pub enum PollStep {
    /// It stops with this result.
    Done(Option<bool>),
    /// It polls the source once more.
    Poll,
}

/// What [`debounce_countdown`] does next.
#[derive(Clone, Copy, Debug, PartialEq, Eq, Structural)]
pub enum CountdownStep {
    /// It reads the source and returns the reading.
    ReadAndReturn,
    /// It stops without a reading.
    GiveUp,
    /// It asks the timer.
    AskAgain,
}

/// The window after a reading, given the level before it and the time since
/// which that level had held: a reading with another level starts the window
/// again at its own time, and the level is settled once the clock reads `ms`
/// more than at the start of the window.
pub open spec fn window_after(level: bool, since: u32, reading: Reading, ms: u32) -> Window {
    let start = if reading.level != level {
        reading.at
    } else {
        since
    };
    Window {
        level: reading.level,
        since: start,
        settled: if elapsed(start, reading.at) >= ms {
            Some(reading.level)
        } else {
            None
        },
    }
}

/// The window after a sequence of readings.
pub open spec fn window_of(readings: Seq<Reading>, ms: u32) -> Window {
    Window {
        level: readings.last().level,
        since: level_since(readings),
        settled: if held_for(readings) >= ms {
            Some(readings.last().level)
        } else {
            None
        },
    }
}

/// What [`debounce`] does with a window after `polls` of at most `max_polls`
/// polls: it stops with the level once that is settled, gives up when the
/// polls are spent, and polls again otherwise.
pub open spec fn window_next(window: Window, polls: int, max_polls: int) -> PollStep {
    match window.settled {
        Some(level) => PollStep::Done(Some(level)),
        None => if polls >= max_polls {
            PollStep::Done(None)
        } else {
            PollStep::Poll
        },
    }
}

/// What [`debounce_wait`] does after `wait` answered `go_on`, with `last` the
/// level read last and `polls` of at most `max_polls` polls made: it stops
/// with `last` on a no, gives up on a yes when the polls are spent, and polls
/// again otherwise.
pub open spec fn wait_next(last: bool, go_on: bool, polls: int, max_polls: int) -> PollStep {
    if !go_on {
        PollStep::Done(Some(last))
    } else if polls >= max_polls {
        PollStep::Done(None)
    } else {
        PollStep::Poll
    }
}

/// What [`debounce_countdown`] does after the timer answered `answer`, or
/// before it was asked at all, having asked `asked` of at most `max_polls`
/// times: on a yes it reads and returns, else it gives up when it may not ask
/// again, and asks again otherwise.
pub open spec fn countdown_next(answer: Option<bool>, asked: int, max_polls: int) -> CountdownStep {
    if answer == Some(true) {
        CountdownStep::ReadAndReturn
    } else if asked >= max_polls {
        CountdownStep::GiveUp
    } else {
        CountdownStep::AskAgain
    }
}

/// Computes [`window_after`]: takes one reading into the window.
pub fn window_step(level: bool, since: u32, reading: Reading, ms: u32) -> (next: Window)
    ensures
        next == window_after(level, since, reading, ms),
{
    let start: u32 = if reading.level != level {
        reading.at
    } else {
        since
    };
    let settled: Option<bool> = if reading.at.wrapping_sub(start) >= ms {
        Some(reading.level)
    } else {
        None
    };
    Window { level: reading.level, since: start, settled }
}

/// Computes [`window_next`].
pub fn window_verdict(window: Window, polls: usize, max_polls: usize) -> (next: PollStep)
    ensures
        next == window_next(window, polls as int, max_polls as int),
{
    match window.settled {
        Some(level) => PollStep::Done(Some(level)),
        None => if polls >= max_polls {
            PollStep::Done(None)
        } else {
            PollStep::Poll
        },
    }
}

/// Computes [`wait_next`].
pub fn wait_step(last: bool, go_on: bool, polls: usize, max_polls: usize) -> (next: PollStep)
    ensures
        next == wait_next(last, go_on, polls as int, max_polls as int),
{
    if !go_on {
        PollStep::Done(Some(last))
    } else if polls >= max_polls {
        PollStep::Done(None)
    } else {
        PollStep::Poll
    }
}

/// Computes [`countdown_next`].
pub fn countdown_step(answer: Option<bool>, asked: usize, max_polls: usize) -> (next:
    CountdownStep)
    ensures
        next == countdown_next(answer, asked as int, max_polls as int),
{
    match answer {
        Some(true) => CountdownStep::ReadAndReturn,
        _ => if asked >= max_polls {
            CountdownStep::GiveUp
        } else {
            CountdownStep::AskAgain
        },
    }
}

/// Polls the source until its level has held for `ms` milliseconds and
/// returns that level. After the first reading it polls at most `max_polls`
/// times; if the level has not held for `ms` by then, it returns `None`.
///
/// Every poll reads the level and then the time. Time is measured on a clock
/// that wraps at 2^32, so a roll-over of the clock is no fault. Every reading
/// goes through [`window_step`], and [`window_verdict`] decides after each
/// whether to stop; their contracts are exact.
///
/// A closure may answer differently at every call, and nothing can be said
/// of how often or in which order it was called. So what is proved here is
/// less than what the loop does: the result is [`window_outcome`] of some
/// sequence of readings that the source and the clock can give.
pub fn debounce(input: impl Fn() -> bool, time: impl Fn() -> u32, ms: u32, max_polls: usize) -> (r:
    Option<bool>)
    requires
        call_requires(input, ()),
        call_requires(time, ()),
    ensures
        exists|readings: Seq<Reading>|
            #[trigger] window_outcome(readings, ms, max_polls as int, r) && read_from(
                input,
                time,
                readings,
            ),
{
    let level: bool = input();
    let at: u32 = time();
    let first = Reading { level, at };
    let mut window: Window = window_step(level, at, first, ms);
    let mut polls: usize = 0;
    let ghost mut readings: Seq<Reading> = seq![first];
    loop
        invariant
            call_requires(input, ()),
            call_requires(time, ()),
            polls <= max_polls,
            readings.len() == polls + 1,
            read_from(input, time, readings),
            window == window_of(readings, ms),
            forall|k: int| 1 <= k < readings.len() ==> held_for(#[trigger] readings.take(k)) < ms,
        decreases max_polls - polls,
    {
        match window_verdict(window, polls, max_polls) {
            PollStep::Done(outcome) => {
                assert(window_outcome(readings, ms, max_polls as int, outcome));
                return outcome;
            },
            PollStep::Poll => {},
        }
        let level: bool = input();
        let at: u32 = time();
        let reading = Reading { level, at };
        proof {
            let before = readings;
            readings = readings.push(reading);
            assert(readings.drop_last() =~= before);
            assert forall|k: int| 1 <= k < readings.len() implies held_for(
                #[trigger] readings.take(k),
            ) < ms by {
                if k < before.len() {
                    assert(readings.take(k) =~= before.take(k));
                }
            }
        }
        window = window_step(window.level, window.since, reading, ms);
        polls += 1;
    }
}

/// Polls the source for as long as `wait` says to go on, and returns the
/// level read last. It polls at most `max_polls` times after the first
/// reading; if `wait` still says to go on then, it returns `None`.
///
/// [`wait_step`] decides after every answer of `wait` whether to stop; its
/// contract is exact.
///
/// A closure may answer differently at every call, and nothing can be said
/// of how often or in which order it was called. So what is proved here is
/// less than what the loop does: the result is [`wait_outcome`] of some
/// sequence of levels that the source can give, and `wait` can say no where
/// a level is returned and yes where none is.
pub fn debounce_wait(input: impl Fn() -> bool, wait: impl Fn() -> bool, max_polls: usize) -> (r:
    Option<bool>)
    requires
        call_requires(input, ()),
        call_requires(wait, ()),
    ensures
        exists|levels: Seq<bool>|
            {
                &&& #[trigger] wait_outcome(levels, max_polls as int, r)
                &&& forall|i: int| 0 <= i < levels.len() ==> call_ensures(input, (), levels[i])
            },
        r.is_some() ==> call_ensures(wait, (), false),
        r.is_none() ==> call_ensures(wait, (), true),
{
    let mut last_state: bool = input();
    let mut polls: usize = 0;
    let ghost mut levels: Seq<bool> = seq![last_state];
    loop
        invariant
            call_requires(input, ()),
            call_requires(wait, ()),
            polls <= max_polls,
            levels.len() == polls + 1,
            last_state == levels.last(),
            forall|i: int| 0 <= i < levels.len() ==> call_ensures(input, (), levels[i]),
        decreases max_polls - polls,
    {
        let go_on: bool = wait();
        match wait_step(last_state, go_on, polls, max_polls) {
            PollStep::Done(outcome) => {
                assert(wait_outcome(levels, max_polls as int, outcome));
                return outcome;
            },
            PollStep::Poll => {},
        }
        last_state = input();
        proof {
            levels = levels.push(last_state);
        }
        polls += 1;
    }
}

/// Reads the source once, has the timer armed through `start`, asks `expired`
/// until the timer has run out, and returns a second reading taken then. It
/// asks at most `max_polls` times; if the timer has not run out by then, it
/// returns `None` without a second reading.
///
/// [`countdown_step`] decides, before the first question and after every
/// answer, what to do next; its contract is exact.
///
/// A closure may answer differently at every call, and nothing can be said
/// of how often or in which order it was called. So what is proved here is
/// less than what the loop does: a level that is returned is one that the
/// source can give, and the timer can say yes where a level is returned and
/// no where none is, unless it was never asked.
pub fn debounce_countdown(
    input: impl Fn() -> bool,
    start: impl Fn() -> (),
    expired: impl Fn() -> bool,
    max_polls: usize,
) -> (r: Option<bool>)
    requires
        call_requires(input, ()),
        call_requires(start, ()),
        call_requires(expired, ()),
    ensures
        call_ensures(start, (), ()),
        r matches Some(level) ==> call_ensures(input, (), level) && call_ensures(
            expired,
            (),
            true,
        ),
        r.is_some() ==> max_polls > 0,
        r.is_none() ==> max_polls == 0 || call_ensures(expired, (), false),
{
    let _first: bool = input();
    start();
    let mut asked: usize = 0;
    let mut answer: Option<bool> = None;
    loop
        invariant
            call_requires(input, ()),
            call_requires(expired, ()),
            call_ensures(start, (), ()),
            asked <= max_polls,
            answer.is_none() <==> asked == 0,
            answer matches Some(said) ==> call_ensures(expired, (), said),
        decreases max_polls - asked,
    {
        match countdown_step(answer, asked, max_polls) {
            CountdownStep::ReadAndReturn => {
                return Some(input());
            },
            CountdownStep::GiveUp => {
                return None;
            },
            CountdownStep::AskAgain => {},
        }
        answer = Some(expired());
        asked += 1;
    }
}

/// The index of the reading with which the level of the last reading began.
pub open spec fn level_start(readings: Seq<Reading>) -> int
    decreases readings.len(),
{
    if readings.len() <= 1 {
        0
    } else if readings.last().level != readings[readings.len() - 2].level {
        readings.len() - 1
    } else {
        level_start(readings.drop_last())
    }
}

/// A level that [`debounce`] returns was stable: every reading from the one
/// at [`level_since`] to the last had that level, and the clock read at least
/// `ms` more at the last of them than at the first.
pub proof fn lemma_level_held(readings: Seq<Reading>, ms: u32, max_polls: int, level: bool)
    requires
        window_outcome(readings, ms, max_polls, Some(level)),
    ensures
        0 <= level_start(readings) < readings.len(),
        readings[level_start(readings)].at == level_since(readings),
        forall|i: int|
            level_start(readings) <= i < readings.len() ==> (#[trigger] readings[i]).level == level,
        elapsed(readings[level_start(readings)].at, readings.last().at) >= ms,
{
    lemma_level_run(readings);
}

/// The readings from [`level_start`] on have the level of the last reading.
proof fn lemma_level_run(readings: Seq<Reading>)
    requires
        readings.len() >= 1,
    ensures
        0 <= level_start(readings) < readings.len(),
        readings[level_start(readings)].at == level_since(readings),
        forall|i: int|
            level_start(readings) <= i < readings.len() ==> (#[trigger] readings[i]).level
                == readings.last().level,
    decreases readings.len(),
{
    if readings.len() > 1 && readings.last().level == readings[readings.len() - 2].level {
        let before = readings.drop_last();
        lemma_level_run(before);
        assert forall|i: int| level_start(readings) <= i < readings.len() implies (
        #[trigger] readings[i]).level == readings.last().level by {
            if i < before.len() {
                assert(before[i].level == before.last().level);
            }
        }
    }
}

/// What the steps of [`debounce`] come to on a sequence of readings, from
/// the window after reading number `polls` on: the result, and how many
/// polls were made after the first reading.
pub open spec fn window_run(
    readings: Seq<Reading>,
    window: Window,
    polls: int,
    max_polls: int,
    ms: u32,
) -> (Option<bool>, int)
    decreases max_polls - polls,
{
    match window_next(window, polls, max_polls) {
        PollStep::Done(outcome) => (outcome, polls),
        PollStep::Poll => window_run(
            readings,
            window_after(window.level, window.since, readings[polls + 1], ms),
            polls + 1,
            max_polls,
            ms,
        ),
    }
}

/// What the steps of [`debounce_wait`] come to on the levels of the source
/// and the answers of `wait`, from poll number `polls` on: the result, and
/// how many polls were made after the first reading.
pub open spec fn wait_run(levels: Seq<bool>, answers: Seq<bool>, polls: int, max_polls: int) -> (
    Option<bool>,
    int,
)
    decreases max_polls - polls,
{
    match wait_next(levels[polls], answers[polls], polls, max_polls) {
        PollStep::Done(outcome) => (outcome, polls),
        PollStep::Poll => wait_run(levels, answers, polls + 1, max_polls),
    }
}

/// What the steps of [`debounce_countdown`] come to on the answers of the
/// timer, having asked `asked` times: the last step, and how often the timer
/// was asked in all.
pub open spec fn countdown_run(answers: Seq<bool>, asked: int, max_polls: int) -> (
    CountdownStep,
    int,
)
    decreases max_polls - asked,
{
    let answer = if asked <= 0 {
        None
    } else {
        Some(answers[asked - 1])
    };
    match countdown_next(answer, asked, max_polls) {
        CountdownStep::AskAgain => countdown_run(answers, asked + 1, max_polls),
        step => (step, asked),
    }
}

/// Taking a reading into the window of a sequence gives the window of the
/// longer sequence, and the first reading taken into its own window gives
/// the window of that reading alone.
pub proof fn lemma_window_steps(readings: Seq<Reading>, reading: Reading, ms: u32)
    requires
        readings.len() >= 1,
    ensures
        window_after(
            window_of(readings, ms).level,
            window_of(readings, ms).since,
            reading,
            ms,
        ) == window_of(readings.push(reading), ms),
        window_after(reading.level, reading.at, reading, ms) == window_of(seq![reading], ms),
{
    assert(readings.push(reading).drop_last() =~= readings);
}

/// The steps of [`debounce`] stop at the first reading at which the level has
/// held for `ms`: where that is reading number `k` within the budget, they
/// poll exactly `k` times after the first reading and return the level of
/// that reading; where there is none within the budget, they poll
/// `max_polls` times and return nothing.
pub proof fn lemma_window_stops_when_settled(
    readings: Seq<Reading>,
    k: int,
    max_polls: int,
    ms: u32,
)
    requires
        0 <= k <= max_polls,
        k < readings.len(),
        forall|i: int| 0 <= i < k ==> held_for(#[trigger] readings.take(i + 1)) < ms,
    ensures
        held_for(readings.take(k + 1)) >= ms ==> window_run(
            readings,
            window_of(readings.take(1), ms),
            0,
            max_polls,
            ms,
        ) == (Some(readings[k].level), k),
        held_for(readings.take(k + 1)) < ms && k == max_polls ==> window_run(
            readings,
            window_of(readings.take(1), ms),
            0,
            max_polls,
            ms,
        ) == (None::<bool>, k),
{
    lemma_window_run_from(readings, 0, k, max_polls, ms);
}

/// [`lemma_window_stops_when_settled`], from reading number `from` on.
proof fn lemma_window_run_from(readings: Seq<Reading>, from: int, k: int, max_polls: int, ms: u32)
    requires
        0 <= from <= k <= max_polls,
        k < readings.len(),
        forall|i: int| 0 <= i < k ==> held_for(#[trigger] readings.take(i + 1)) < ms,
    ensures
        held_for(readings.take(k + 1)) >= ms ==> window_run(
            readings,
            window_of(readings.take(from + 1), ms),
            from,
            max_polls,
            ms,
        ) == (Some(readings[k].level), k),
        held_for(readings.take(k + 1)) < ms && k == max_polls ==> window_run(
            readings,
            window_of(readings.take(from + 1), ms),
            from,
            max_polls,
            ms,
        ) == (None::<bool>, k),
    decreases k - from,
{
    if from < k {
        lemma_window_steps(readings.take(from + 1), readings[from + 1], ms);
        assert(readings.take(from + 1).push(readings[from + 1]) =~= readings.take(from + 2));
        lemma_window_run_from(readings, from + 1, k, max_polls, ms);
    }
}

/// The steps of [`debounce_wait`] stop at the first no: where `wait` says yes
/// `k` times and then no, within the budget, they poll exactly `k` times
/// after the first reading and return the level read last; where `wait`
/// says yes throughout, they poll `max_polls` times and return nothing.
pub proof fn lemma_wait_stops_at_first_no(
    levels: Seq<bool>,
    answers: Seq<bool>,
    k: int,
    max_polls: int,
)
    requires
        0 <= k <= max_polls,
        k < levels.len(),
        k < answers.len(),
        forall|i: int| 0 <= i < k ==> answers[i],
    ensures
        !answers[k] ==> wait_run(levels, answers, 0, max_polls) == (Some(levels[k]), k),
        answers[k] && k == max_polls ==> wait_run(levels, answers, 0, max_polls) == (
            None::<bool>,
            k,
        ),
{
    lemma_wait_run_from(levels, answers, 0, k, max_polls);
}

/// [`lemma_wait_stops_at_first_no`], from poll number `from` on.
proof fn lemma_wait_run_from(
    levels: Seq<bool>,
    answers: Seq<bool>,
    from: int,
    k: int,
    max_polls: int,
)
    requires
        0 <= from <= k <= max_polls,
        k < levels.len(),
        k < answers.len(),
        forall|i: int| 0 <= i < k ==> answers[i],
    ensures
        !answers[k] ==> wait_run(levels, answers, from, max_polls) == (Some(levels[k]), k),
        answers[k] && k == max_polls ==> wait_run(levels, answers, from, max_polls) == (
            None::<bool>,
            k,
        ),
    decreases k - from,
{
    if from < k {
        lemma_wait_run_from(levels, answers, from + 1, k, max_polls);
    }
}

/// The steps of [`debounce_countdown`] stop at the first yes: where the timer
/// says no `k` times and then yes, within the budget, it is asked exactly
/// `k + 1` times and the source is read then; where it says no `max_polls`
/// times, it is asked that often and the source is not read again.
pub proof fn lemma_countdown_stops_at_first_yes(answers: Seq<bool>, k: int, max_polls: int)
    requires
        0 <= k <= max_polls,
        k < answers.len(),
        forall|i: int| 0 <= i < k ==> !answers[i],
    ensures
        k < max_polls && answers[k] ==> countdown_run(answers, 0, max_polls) == (
            CountdownStep::ReadAndReturn,
            k + 1,
        ),
        k == max_polls ==> countdown_run(answers, 0, max_polls) == (CountdownStep::GiveUp, k),
{
    lemma_countdown_run_from(answers, 0, k, max_polls);
}

/// [`lemma_countdown_stops_at_first_yes`], having asked `asked` times.
proof fn lemma_countdown_run_from(answers: Seq<bool>, asked: int, k: int, max_polls: int)
    requires
        0 <= asked <= k <= max_polls,
        k < answers.len(),
        forall|i: int| 0 <= i < k ==> !answers[i],
    ensures
        k < max_polls && answers[k] ==> countdown_run(answers, asked, max_polls) == (
            CountdownStep::ReadAndReturn,
            k + 1,
        ),
        k == max_polls ==> countdown_run(answers, asked, max_polls) == (CountdownStep::GiveUp, k),
    decreases k + 1 - asked,
{
    if asked < k {
        lemma_countdown_run_from(answers, asked + 1, k, max_polls);
    } else if k < max_polls && answers[k] {
        reveal_with_fuel(countdown_run, 2);
    }
}

} // verus!
