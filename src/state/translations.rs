//! Translation jobs, keyed by the input URN, and their progression.
use vstd::prelude::*;
use vstd::string::*;
use dashmap::DashMap;
use crate::keyed::{DeepCopy, filed_by_key};
use crate::stamps::now_millis;
use crate::text::{decimal, decimal_string};

verus! {

#[derive(Clone, Copy, Debug, PartialEq, Eq, Structural)]
pub enum TranslationStatus {
    Pending,
    InProgress,
    Success,
    Failed,
}

pub open spec fn status_name(s: TranslationStatus) -> Seq<char> {
    match s {
        TranslationStatus::Pending => "pending"@,
        TranslationStatus::InProgress => "inprogress"@,
        TranslationStatus::Success => "success"@,
        TranslationStatus::Failed => "failed"@,
    }
}

impl TranslationStatus {
    /// The status as it stands in a manifest.
    pub fn as_str(&self) -> (r: &'static str)
        ensures
            r@ == status_name(*self),
    {
        match self {
            TranslationStatus::Pending => "pending",
            TranslationStatus::InProgress => "inprogress",
            TranslationStatus::Success => "success",
            TranslationStatus::Failed => "failed",
        }
    }
}

pub struct TranslationJob {
    pub urn: String,
    pub status: TranslationStatus,
    pub progress: String,
    pub created_at: i64,
}

impl DeepCopy for TranslationJob {
    fn deep_copy(&self) -> (r: TranslationJob) {
        TranslationJob {
            urn: self.urn.clone(),
            status: self.status,
            progress: self.progress.clone(),
            created_at: self.created_at,
        }
    }
}

pub open spec fn by_urn() -> spec_fn(TranslationJob) -> Seq<char> {
    |j: TranslationJob| j.urn@
}

/// `s` without its trailing `%` signs.
pub open spec fn trim_percent(s: Seq<char>) -> Seq<char>
    decreases s.len(),
{
    if s.len() > 0 && s.last() == '%' { trim_percent(s.drop_last()) } else { s }
}

pub open spec fn is_digit(c: char) -> bool {
    '0' <= c && c <= '9'
}

pub open spec fn digits_value(s: Seq<char>) -> nat
    decreases s.len(),
{
    if s.len() == 0 {
        0
    } else {
        digits_value(s.drop_last()) * 10 + (s.last() as nat - '0' as nat) as nat
    }
}

/// What `str::parse::<u32>` gives: an optional `+`, then one or more ASCII
/// digits whose value fits in a `u32`.
pub open spec fn parse_u32(s: Seq<char>) -> Option<u32> {
    let d = unsigned_part(s);
    if d.len() > 0 && all_digits(d) && digits_value(d) <= u32::MAX {
        Some(digits_value(d) as u32)
    } else {
        None
    }
}

/// `s` without a leading `+`.
pub open spec fn unsigned_part(s: Seq<char>) -> Seq<char> {
    if s.len() > 0 && s[0] == '+' { s.drop_first() } else { s }
}

pub open spec fn all_digits(d: Seq<char>) -> bool {
    forall|i: int| 0 <= i < d.len() ==> is_digit(#[trigger] d[i])
}

/// The progress number that a job's progress text holds, 25 where it holds none.
pub open spec fn progress_number(progress: Seq<char>) -> u32 {
    match parse_u32(trim_percent(progress)) {
        Some(n) => n,
        None => 25,
    }
}

/// The next (status, progress) of a job: pending becomes in progress at 25%;
/// in progress advances by 25 points below 100 and succeeds from 100 on;
/// success and failure stay.
pub open spec fn next_step(status: TranslationStatus, progress: Seq<char>) -> (TranslationStatus, Seq<char>) {
    match status {
        TranslationStatus::Pending => (TranslationStatus::InProgress, "25%"@),
        TranslationStatus::InProgress => {
            let n = progress_number(progress);
            if n < 100 {
                (TranslationStatus::InProgress, decimal((n + 25) as nat) + "%"@)
            } else {
                (TranslationStatus::Success, "complete"@)
            }
        },
        _ => (status, progress),
    }
}

proof fn lemma_digits_value_grows(s: Seq<char>, t: Seq<char>)
    requires
        forall|i: int| 0 <= i < t.len() ==> is_digit(#[trigger] t[i]),
    ensures
        digits_value(s + t) >= digits_value(s),
    decreases t.len(),
{
    if t.len() > 0 {
        assert((s + t).drop_last() =~= s + t.drop_last());
        assert forall|i: int| 0 <= i < t.drop_last().len() implies is_digit(#[trigger] t.drop_last()[i]) by {
            assert(t.drop_last()[i] == t[i]);
        }
        lemma_digits_value_grows(s, t.drop_last());
    } else {
        assert(s + t =~= s);
    }
}

fn trimmed_len(s: &str) -> (r: usize)
    ensures
        r <= s@.len(),
        trim_percent(s@) == s@.subrange(0, r as int),
{
    let mut n = s.unicode_len();
    assert(s@.subrange(0, n as int) =~= s@);
    while n > 0 && s.get_char(n - 1) == '%'
        invariant
            n <= s@.len(),
            trim_percent(s@) == trim_percent(s@.subrange(0, n as int)),
        decreases n,
    {
        assert(s@.subrange(0, n as int).drop_last() =~= s@.subrange(0, n - 1));
        n = n - 1;
    }
    n
}

/// `str::parse::<u32>` on the part of `s` before its trailing `%` signs.
fn parse_progress(s: &str) -> (r: Option<u32>)
    ensures
        r == parse_u32(trim_percent(s@)),
{
    let end = trimmed_len(s);
    let t = s.substring_char(0, end);
    let ghost ts = t@;
    let mut start: usize = 0;
    if end > 0 && t.get_char(0) == '+' {
        start = 1;
    }
    let ghost d = unsigned_part(ts);
    assert(d =~= ts.subrange(start as int, end as int));
    if start == end {
        return None;
    }
    let mut value: u64 = 0;
    let mut i: usize = start;
    while i < end
        invariant
            start <= i <= end,
            end == ts.len(),
            ts == trim_percent(s@),
            d == unsigned_part(ts),
            d.len() > 0,
            t@ == ts,
            d == ts.subrange(start as int, end as int),
            forall|k: int| start <= k < i ==> is_digit(#[trigger] ts[k]),
            value == digits_value(ts.subrange(start as int, i as int)),
            value <= u32::MAX,
        decreases end - i,
    {
        let c = t.get_char(i);
        if c < '0' || c > '9' {
            proof {
                assert(d[i - start] == ts[i as int]);
                assert(!is_digit(d[i - start]));
                assert(!all_digits(d));
                assert(parse_u32(ts) is None);
            }
            return None;
        }
        let digit = (c as u32 - '0' as u32) as u64;
        proof {
            assert(ts.subrange(start as int, i + 1).drop_last() =~= ts.subrange(start as int, i as int));
        }
        value = value * 10 + digit;
        if value > 0xFFFF_FFFF {
            proof {
                assert(d.subrange(0, i + 1 - start) =~= ts.subrange(start as int, i + 1));
                lemma_overflowing_prefix(d, i + 1 - start);
                assert(parse_u32(ts) is None);
            }
            return None;
        }
        i = i + 1;
    }
    assert(ts.subrange(start as int, end as int) =~= d);
    Some(value as u32)
}

/// Once the digits read so far exceed `u32::MAX`, the number does not fit,
/// whatever follows.
proof fn lemma_overflowing_prefix(d: Seq<char>, n: int)
    requires
        0 < n <= d.len(),
        digits_value(d.subrange(0, n)) > u32::MAX,
    ensures
        !(all_digits(d) && digits_value(d) <= u32::MAX),
{
    let pre = d.subrange(0, n);
    let rest = d.subrange(n, d.len() as int);
    assert(pre + rest =~= d);
    if all_digits(d) {
        assert forall|k: int| 0 <= k < rest.len() implies is_digit(#[trigger] rest[k]) by {
            assert(rest[k] == d[k + n]);
        }
        lemma_digits_value_grows(pre, rest);
    }
}

/// URN to job.
pub type JobTable = DashMap<String, TranslationJob>;

/// What a job table holds.
pub uninterp spec fn job_entries(m: DashMap<String, TranslationJob>) -> Map<Seq<char>, TranslationJob>;

/// Relies on `DashMap::new`: a map with no entries.
#[verifier::external_body]
fn new_job_table() -> (r: JobTable)
    ensures
        job_entries(r).dom() == Set::<Seq<char>>::empty(),
{
    DashMap::new()
}

/// Relies on `DashMap::get`: the entry stored under the key, if any.
#[verifier::external_body]
fn job_at(m: &JobTable, urn: &str) -> (r: Option<TranslationJob>)
    ensures
        match r {
            Some(j) => job_entries(*m).contains_key(urn@) && job_entries(*m)[urn@] == j,
            None => !job_entries(*m).contains_key(urn@),
        },
{
    m.get(urn).map(|e| e.value().deep_copy())
}

/// Relies on `DashMap::insert`: the key now maps to the value, others are kept.
#[verifier::external_body]
fn store_job(m: &mut JobTable, urn: String, job: TranslationJob)
    ensures
        job_entries(*final(m)) == job_entries(*old(m)).insert(urn@, job),
{
    m.insert(urn, job);
}

pub struct TranslationState {
    jobs: JobTable,
}

impl TranslationState {
    /// URN to job.
    pub closed spec fn jobs(&self) -> Map<Seq<char>, TranslationJob> {
        job_entries(self.jobs)
    }

    pub closed spec fn wf(&self) -> bool {
        filed_by_key(self.jobs(), by_urn())
    }

    pub fn new() -> (r: TranslationState)
        ensures
            r.wf(),
            r.jobs() == Map::<Seq<char>, TranslationJob>::empty(),
    {
        let r = TranslationState { jobs: new_job_table() };
        assert(r.jobs() =~= Map::<Seq<char>, TranslationJob>::empty());
        r
    }

    /// Starts (or restarts) the job for `urn`, stamped with the current time.
    pub fn create_job(&mut self, urn: String) -> (r: TranslationJob)
        requires
            old(self).wf(),
        ensures
            final(self).wf(),
            r.urn@ == urn@,
            r.status == TranslationStatus::Pending,
            r.progress@ == "0%"@,
            final(self).jobs() == old(self).jobs().insert(urn@, r),
    {
        let now = now_millis();
        self.create_job_at(urn, now)
    }

    /// Starts (or restarts) the job for `urn`, created at `now`.
    pub fn create_job_at(&mut self, urn: String, now: i64) -> (r: TranslationJob)
        requires
            old(self).wf(),
        ensures
            final(self).wf(),
            r.urn@ == urn@,
            r.status == TranslationStatus::Pending,
            r.progress@ == "0%"@,
            r.created_at == now,
            final(self).jobs() == old(self).jobs().insert(urn@, r),
    {
        let job = TranslationJob {
            urn: urn.clone(),
            status: TranslationStatus::Pending,
            progress: String::from_str("0%"),
            created_at: now,
        };
        let r = job.deep_copy();
        self.put(urn, job);
        r
    }

    fn put(&mut self, urn: String, job: TranslationJob)
        requires
            old(self).wf(),
            job.urn@ == urn@,
        ensures
            final(self).wf(),
            final(self).jobs() == old(self).jobs().insert(urn@, job),
    {
        store_job(&mut self.jobs, urn, job);
    }

    /// The job for `urn`.
    pub fn get_job(&self, urn: &str) -> (r: Option<TranslationJob>)
        ensures
            match r {
                Some(j) => self.jobs().contains_key(urn@) && self.jobs()[urn@] == j,
                None => !self.jobs().contains_key(urn@),
            },
    {
        job_at(&self.jobs, urn)
    }

    /// Sets the status and progress of the job for `urn`; whether it exists.
    pub fn update_job_status(&mut self, urn: &str, status: TranslationStatus, progress: String) -> (r: bool)
        requires
            old(self).wf(),
        ensures
            final(self).wf(),
            r == old(self).jobs().contains_key(urn@),
            r ==> final(self).jobs().dom() == old(self).jobs().dom()
                && final(self).jobs()[urn@].urn == old(self).jobs()[urn@].urn
                && final(self).jobs()[urn@].created_at == old(self).jobs()[urn@].created_at
                && final(self).jobs()[urn@].status == status
                && final(self).jobs()[urn@].progress@ == progress@
                && forall|k: Seq<char>| k != urn@ ==> #[trigger] final(self).jobs().contains_key(k)
                    ==> final(self).jobs()[k] == old(self).jobs()[k],
            !r ==> final(self).jobs() == old(self).jobs(),
    {
        match job_at(&self.jobs, urn) {
            Some(j) => {
                let job = TranslationJob { urn: j.urn.clone(), status, progress, created_at: j.created_at };
                let key = j.urn.clone();
                let ghost pre = self.jobs();
                self.put(key, job);
                assert(self.jobs().dom() =~= pre.dom());
                true
            },
            None => false,
        }
    }

    /// Moves the job for `urn` one step along its lifecycle; a missing job is
    /// left alone.
    pub fn simulate_progress(&mut self, urn: &str)
        requires
            old(self).wf(),
        ensures
            final(self).wf(),
            old(self).jobs().contains_key(urn@) ==> {
                let j = old(self).jobs()[urn@];
                let (status, progress) = next_step(j.status, j.progress@);
                &&& final(self).jobs().dom() == old(self).jobs().dom()
                &&& final(self).jobs()[urn@].urn == j.urn
                &&& final(self).jobs()[urn@].created_at == j.created_at
                &&& final(self).jobs()[urn@].status == status
                &&& final(self).jobs()[urn@].progress@ == progress
                &&& forall|k: Seq<char>| k != urn@ ==> #[trigger] final(self).jobs().contains_key(k)
                    ==> final(self).jobs()[k] == old(self).jobs()[k]
            },
            !old(self).jobs().contains_key(urn@) ==> final(self).jobs() == old(self).jobs(),
    {
        let (status, progress) = match job_at(&self.jobs, urn) {
            Some(j) => match j.status {
                TranslationStatus::Pending => (TranslationStatus::InProgress, String::from_str("25%")),
                TranslationStatus::InProgress => {
                    let n = match parse_progress(j.progress.as_str()) {
                        Some(n) => n,
                        None => 25,
                    };
                    if n < 100 {
                        let mut p = decimal_string((n + 25) as u64);
                        p.append("%");
                        (TranslationStatus::InProgress, p)
                    } else {
                        (TranslationStatus::Success, String::from_str("complete"))
                    }
                },
                _ => return,
            },
            None => return,
        };
        self.update_job_status(urn, status, progress);
    }
}

} // verus!
