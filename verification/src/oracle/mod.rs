//! The oracle: a stronger model consulted under a daily cap.
use vstd::prelude::*;
use std::path::PathBuf;

verus! {

#[verifier::external_type_specification]
#[verifier::external_body]
pub struct ExIoError(std::io::Error);

/// How the oracle is reached and how often it may be asked.
#[derive(Debug, Clone)]
pub struct OracleConfig {
    pub model: String,
    pub daily_cap: u32,
    pub timeout_secs: u64,
    pub cap_state_path: PathBuf,
    /// The program to run in place of the default command-line client, when set.
    pub claude_path: Option<PathBuf>,
}

/// A consultant of last resort, asked at most `daily_cap` times a day.
pub struct Oracle {
    cfg: OracleConfig,
}

/// Why a consultation did not happen.
#[derive(Debug)]
pub enum OracleError {
    CapReached,
    Timeout,
    Proc(String),
    Io(std::io::Error),
}

/// The count of consultations on one day, as stored between runs.
#[derive(Debug)]
pub struct CapState {
    pub day: String,
    pub count: u32,
}

impl CapState {
    /// The state before any consultation: no day, no count.
    pub fn empty() -> (r: CapState)
        ensures
            r.day@ == Seq::<char>::empty(),
            r.count == 0,
    {
        CapState { day: String::new(), count: 0 }
    }
}

/// The day of a stored state; the empty text when none is stored.
pub open spec fn stored_day(stored: Option<CapState>) -> Seq<char> {
    match stored {
        Some(st) => st.day@,
        None => Seq::empty(),
    }
}

/// The count of a stored state; zero when none is stored.
pub open spec fn stored_count(stored: Option<CapState>) -> nat {
    match stored {
        Some(st) => st.count as nat,
        None => 0,
    }
}

/// The shape of a date as `%Y-%m-%d` writes it: at least ten characters, each a
/// digit, `-` or `+`.
pub open spec fn date_shaped(t: Seq<char>) -> bool {
    &&& t.len() >= 10
    &&& forall|i: int| 0 <= i < t.len() ==> ('0' <= #[trigger] t[i] <= '9' || t[i] == '-' || t[i] == '+')
}

/// `r` is the outcome of one more consultation on `today` under `cap`, from the stored
/// state `stored` (see `cap_step`): `CapReached` when the cap is spent, else the state
/// of `today` with the new count.
pub open spec fn cap_outcome(stored: Option<CapState>, today: Seq<char>, cap: nat, r: Result<CapState, OracleError>) -> bool {
    match cap_step(stored_day(stored), stored_count(stored), today, cap) {
        None => r matches Err(OracleError::CapReached),
        Some(c) => r matches Ok(s) && s.day@ == today && s.count == c,
    }
}

/// The count that a stored state holds for `today`: its count when it is of that
/// day, else zero.
pub open spec fn count_today(day: Seq<char>, count: nat, today: Seq<char>) -> nat {
    if day == today {
        count
    } else {
        0
    }
}

/// The count after one more consultation on `today`, or `None` when the cap is spent.
pub open spec fn cap_step(day: Seq<char>, count: nat, today: Seq<char>, cap: nat) -> Option<nat> {
    let c = count_today(day, count, today);
    if c >= cap {
        None
    } else {
        Some(c + 1)
    }
}

/// Accounts for one more consultation on `today` under `daily_cap`: a state of
/// another day starts again from zero; a spent cap refuses with `CapReached`;
/// otherwise the count of today goes up by one.
pub fn next_cap_state(stored: CapState, today: &str, daily_cap: u32) -> (r: Result<CapState, OracleError>)
    ensures
        match cap_step(stored.day@, stored.count as nat, today@, daily_cap as nat) {
            None => r matches Err(OracleError::CapReached),
            Some(c) => r matches Ok(s) && s.day@ == today@ && s.count == c,
        },
{
    let same_day = crate::text::str_eq(stored.day.as_str(), today);
    let count = if same_day { stored.count } else { 0 };
    if count >= daily_cap {
        return Err(OracleError::CapReached);
    }
    Ok(CapState { day: crate::text::owned(today), count: count + 1 })
}

/// The count after `n` consultations on `today`, starting from none; `None` once a
/// consultation is refused.
pub open spec fn counts_after(today: Seq<char>, cap: nat, n: nat) -> Option<nat>
    decreases n,
{
    if n == 0 {
        Some(0)
    } else {
        match counts_after(today, cap, (n - 1) as nat) {
            None => None,
            Some(c) => cap_step(today, c, today, cap),
        }
    }
}

/// On one day exactly `cap` consultations go through: the first `cap` succeed, each
/// raising the count by one, and every later one is refused.
pub proof fn daily_cap_admits_exactly_cap(today: Seq<char>, cap: nat, n: nat)
    ensures
        counts_after(today, cap, n) == if n <= cap {
            Some(n)
        } else {
            None::<nat>
        },
    decreases n,
{
    if n > 0 {
        daily_cap_admits_exactly_cap(today, cap, (n - 1) as nat);
    }
}

/// Today's date in UTC, from `chrono::Utc::now().format("%Y-%m-%d")`. Which day it is
/// depends on the clock, so only its shape is stated: chrono writes the year with at
/// least four digits (with a sign outside 0..=9999), then `-`, two digits of month,
/// `-`, two digits of day; so at least ten characters, each a digit, `-` or `+`.
#[verifier::external_body]
fn utc_today() -> (r: String)
    ensures
        date_shaped(r@),
{
    chrono::Utc::now().format("%Y-%m-%d").to_string()
}

impl Oracle {
    /// An oracle with the settings `cfg`.
    #[must_use]
    pub fn new(cfg: OracleConfig) -> (r: Self)
        ensures
            r.config() == cfg,
    {
        Self { cfg }
    }

    /// The settings of the oracle.
    pub closed spec fn config(&self) -> OracleConfig {
        self.cfg
    }

    /// The settings of the oracle.
    pub fn cfg(&self) -> (r: &OracleConfig)
        ensures
            *r == self.config(),
    {
        &self.cfg
    }

    /// Accounts for one consultation today against the stored state (`None` when
    /// none was stored or it could not be read, which counts as an empty state): for
    /// the day the clock gives, the result is what `next_cap_state` gives for that
    /// state, that day and `daily_cap` (see `cap_step`). Refuses with `CapReached`
    /// once `daily_cap` consultations have been made that day; otherwise gives the
    /// state to store, of that day, whose count is one more than that day's count so
    /// far.
    pub fn check_cap(&self, stored: Option<CapState>) -> (r: Result<CapState, OracleError>)
        ensures
            exists|today: Seq<char>|
                date_shaped(today) && #[trigger] cap_outcome(stored, today, self.config().daily_cap as nat, r),
            stored matches Some(st) && st.count < self.config().daily_cap ==> r is Ok,
            self.config().daily_cap == 0 ==> r is Err,
    {
        let state = match stored {
            Some(s) => s,
            None => CapState::empty(),
        };
        let today = utc_today();
        let r = next_cap_state(state, today.as_str(), self.cfg.daily_cap);
        assert(cap_outcome(stored, today@, self.config().daily_cap as nat, r));
        r
    }
}

} // verus!
