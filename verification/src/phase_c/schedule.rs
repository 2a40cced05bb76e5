//! Minimal cut-and-choose schedule.
//!
//! Selects check set `C` and evaluation set `E`, designates the Assert
//! instance `a ∈ E`, and verifies check / eval ciphertext commitments against
//! what the ciphertext store reports. The store's reads happen outside; the
//! functions here take what it returned, one result per instance read.

use crate::phase_c::ciphertext_store::{store_error_text, CiphertextMeta, StoreError};
use crate::text::{decimal, push_decimal};
use vstd::prelude::*;
use vstd::string::StringExecFns;

verus! {

/// Setup parameters: `n` garbled instances, of which `eval_count` are evaluated.
#[derive(Clone, Copy, Debug, PartialEq, Eq)]
pub struct CutAndChooseParams {
    /// Total garbled instances `n`.
    pub n: u32,
    /// Evaluation-set size `f`.
    pub eval_count: u32,
}

impl Default for CutAndChooseParams {
    /// `n = 3`, `eval_count = 1`.
    fn default() -> (p: Self)
        ensures
            p.n == 3,
            p.eval_count == 1,
    {
        CutAndChooseParams { n: 3, eval_count: 1 }
    }
}

/// Post-challenge partition of instances.
#[derive(Clone, Debug, PartialEq, Eq)]
pub struct CutAndChooseSchedule {
    pub n: u32,
    /// Check set `C` (sorted).
    pub check_set: Vec<u32>,
    /// Evaluation set `E` (sorted).
    pub eval_set: Vec<u32>,
    /// Assert evaluation instance `a ∈ E`.
    pub eval_instance: u32,
}

/// The mathematical content of a schedule.
pub struct ScheduleView {
    pub n: u32,
    pub check_set: Seq<u32>,
    pub eval_set: Seq<u32>,
    pub eval_instance: u32,
}

impl View for CutAndChooseSchedule {
    type V = ScheduleView;

    open spec fn view(&self) -> ScheduleView {
        ScheduleView {
            n: self.n,
            check_set: self.check_set@,
            eval_set: self.eval_set@,
            eval_instance: self.eval_instance,
        }
    }
}

/// Published commitment for one garbled instance.
#[derive(Clone, Copy, Debug, PartialEq, Eq)]
pub struct InstanceCommit {
    pub instance_id: u32,
    pub ciphertext_hash: [u8; 32],
}

/// Engine opens a check-set instance.
#[derive(Clone, Copy, Debug, PartialEq, Eq)]
pub struct CheckOpening {
    pub instance_id: u32,
    pub seed: u64,
}

#[derive(Debug, Clone, PartialEq, Eq)]
pub enum ScheduleError {
    BadParams(&'static str),
    BadSchedule(&'static str),
    MissingCommit(u32),
    CommitMismatch(u32),
    Store(StoreError),
    CheckNotInSet(u32),
    EvalInCheckSet(u32),
}

impl From<StoreError> for ScheduleError {
    fn from(e: StoreError) -> (r: Self) {
        ScheduleError::Store(e)
    }
}

impl vstd::std_specs::convert::FromSpecImpl<StoreError> for ScheduleError {
    open spec fn obeys_from_spec() -> bool {
        true
    }

    open spec fn from_spec(e: StoreError) -> ScheduleError {
        ScheduleError::Store(e)
    }
}

/// The message of a schedule error.
pub open spec fn schedule_error_text(e: ScheduleError) -> Seq<char> {
    match e {
        ScheduleError::BadParams(m) => "cut-and-choose params: "@ + m@,
        ScheduleError::BadSchedule(m) => "cut-and-choose schedule: "@ + m@,
        ScheduleError::MissingCommit(i) => "cut-and-choose: missing commit for instance "@
            + decimal(i as nat),
        ScheduleError::CommitMismatch(i) => "cut-and-choose: commit mismatch for instance "@
            + decimal(i as nat),
        ScheduleError::Store(e) => "cut-and-choose store: "@ + store_error_text(e),
        ScheduleError::CheckNotInSet(i) => "cut-and-choose: opening "@ + decimal(i as nat)
            + " not in check set"@,
        ScheduleError::EvalInCheckSet(i) => "cut-and-choose: eval instance "@ + decimal(i as nat)
            + " must not be opened as check"@,
    }
}

impl ScheduleError {
    /// The error's message.
    pub fn to_string(&self) -> (s: String)
        ensures
            s@ == schedule_error_text(*self),
    {
        match self {
            ScheduleError::BadParams(m) => {
                let mut s = String::from_str("cut-and-choose params: ");
                s.append(m);
                s
            },
            ScheduleError::BadSchedule(m) => {
                let mut s = String::from_str("cut-and-choose schedule: ");
                s.append(m);
                s
            },
            ScheduleError::MissingCommit(i) => {
                let mut s = String::from_str("cut-and-choose: missing commit for instance ");
                push_decimal(&mut s, *i as u64);
                s
            },
            ScheduleError::CommitMismatch(i) => {
                let mut s = String::from_str("cut-and-choose: commit mismatch for instance ");
                push_decimal(&mut s, *i as u64);
                s
            },
            ScheduleError::Store(e) => {
                let mut s = String::from_str("cut-and-choose store: ");
                s.append(e.to_string().as_str());
                s
            },
            ScheduleError::CheckNotInSet(i) => {
                let mut s = String::from_str("cut-and-choose: opening ");
                push_decimal(&mut s, *i as u64);
                s.append(" not in check set");
                s
            },
            ScheduleError::EvalInCheckSet(i) => {
                let mut s = String::from_str("cut-and-choose: eval instance ");
                push_decimal(&mut s, *i as u64);
                s.append(" must not be opened as check");
                s
            },
        }
    }
}

/// The outcome on parameters.
pub open spec fn params_check(p: CutAndChooseParams) -> Result<(), ScheduleError> {
    if p.n == 0 {
        Err(ScheduleError::BadParams("n == 0"))
    } else if p.eval_count == 0 || p.eval_count >= p.n {
        Err(ScheduleError::BadParams("need 0 < eval_count < n (at least one check instance)"))
    } else {
        Ok(())
    }
}

impl CutAndChooseParams {
    /// `n > 0` and `0 < eval_count < n` (at least one check instance).
    pub fn validate(self) -> (r: Result<(), ScheduleError>)
        ensures
            r == params_check(self),
    {
        if self.n == 0 {
            return Err(ScheduleError::BadParams("n == 0"));
        }
        if self.eval_count == 0 || self.eval_count >= self.n {
            return Err(
                ScheduleError::BadParams("need 0 < eval_count < n (at least one check instance)"),
            );
        }
        Ok(())
    }
}

/// The instances of `all` are exactly `0..n`.
pub open spec fn covers_range(all: Seq<u32>, n: u32) -> bool {
    forall|v: u32| all.contains(v) <==> v < n
}

/// The outcome on a schedule for given parameters.
pub open spec fn schedule_check(s: ScheduleView, p: CutAndChooseParams) -> Result<(), ScheduleError> {
    if params_check(p) is Err {
        params_check(p)
    } else if s.n != p.n {
        Err(ScheduleError::BadSchedule("n mismatch"))
    } else if s.eval_set.len() as u32 != p.eval_count {
        Err(ScheduleError::BadSchedule("eval_set size"))
    } else if s.check_set.len() as u32 != p.n - p.eval_count {
        Err(ScheduleError::BadSchedule("check_set size"))
    } else if !s.eval_set.contains(s.eval_instance) {
        Err(ScheduleError::BadSchedule("eval_instance ∉ E"))
    } else if !covers_range(s.check_set + s.eval_set, p.n) {
        Err(ScheduleError::BadSchedule("sets not a partition of 0..n"))
    } else {
        Ok(())
    }
}

/// Whether `x` occurs in `v`.
pub fn vec_contains(v: &Vec<u32>, x: u32) -> (r: bool)
    ensures
        r == v@.contains(x),
{
    let mut i: usize = 0;
    while i < v.len()
        invariant
            0 <= i <= v@.len(),
            forall|j: int| 0 <= j < i ==> v@[j] != x,
        decreases v@.len() - i,
    {
        if v[i] == x {
            proof {
                assert(v@[i as int] == x);
            }
            return true;
        }
        i = i + 1;
    }
    false
}

fn all_below(v: &Vec<u32>, n: u32) -> (r: bool)
    ensures
        r == (forall|j: int| 0 <= j < v@.len() ==> v@[j] < n),
{
    let mut i: usize = 0;
    while i < v.len()
        invariant
            0 <= i <= v@.len(),
            forall|j: int| 0 <= j < i ==> v@[j] < n,
        decreases v@.len() - i,
    {
        if v[i] >= n {
            return false;
        }
        i = i + 1;
    }
    true
}

fn covers(check: &Vec<u32>, eval: &Vec<u32>, n: u32) -> (r: bool)
    ensures
        r == covers_range(check@ + eval@, n),
{
    let ghost all = check@ + eval@;
    if !all_below(check, n) || !all_below(eval, n) {
        proof {
            if !all_below_spec(check@, n) {
                let j = choose|j: int| 0 <= j < check@.len() && !(check@[j] < n);
                assert(all[j] == check@[j]);
                assert(all.contains(check@[j]));
            } else {
                let j = choose|j: int| 0 <= j < eval@.len() && !(eval@[j] < n);
                assert(all[check@.len() + j] == eval@[j]);
                assert(all.contains(eval@[j]));
            }
        }
        return false;
    }
    let mut i: u32 = 0;
    while i < n
        invariant
            0 <= i <= n,
            all == check@ + eval@,
            forall|v: u32| v < i ==> all.contains(v),
        decreases n - i,
    {
        if !vec_contains(check, i) && !vec_contains(eval, i) {
            proof {
                if all.contains(i) {
                    let j = choose|j: int| 0 <= j < all.len() && all[j] == i;
                    if j < check@.len() {
                        assert(check@[j] == i);
                    } else {
                        assert(eval@[j - check@.len()] == i);
                    }
                }
            }
            return false;
        }
        proof {
            if check@.contains(i) {
                let j = choose|j: int| 0 <= j < check@.len() && check@[j] == i;
                assert(all[j] == i);
            } else {
                let j = choose|j: int| 0 <= j < eval@.len() && eval@[j] == i;
                assert(all[check@.len() + j] == i);
            }
        }
        i = i + 1;
    }
    proof {
        assert forall|v: u32| all.contains(v) implies v < n by {
            let j = choose|j: int| 0 <= j < all.len() && all[j] == v;
            if j < check@.len() {
                assert(check@[j] == v);
            } else {
                assert(eval@[j - check@.len()] == v);
            }
        }
    }
    true
}

/// Every entry of `v` is below `n`.
pub open spec fn all_below_spec(v: Seq<u32>, n: u32) -> bool {
    forall|j: int| 0 <= j < v.len() ==> v[j] < n
}

/// Check that a schedule is a partition of `0..n` into a check set of size
/// `n - eval_count` and an evaluation set of size `eval_count` holding the
/// Assert instance.
pub fn validate_schedule(schedule: &CutAndChooseSchedule, params: CutAndChooseParams) -> (r: Result<
    (),
    ScheduleError,
>)
    ensures
        r == schedule_check(schedule@, params),
{
    match params.validate() {
        Ok(()) => {},
        Err(e) => return Err(e),
    }
    if schedule.n != params.n {
        return Err(ScheduleError::BadSchedule("n mismatch"));
    }
    if schedule.eval_set.len() as u32 != params.eval_count {
        return Err(ScheduleError::BadSchedule("eval_set size"));
    }
    if schedule.check_set.len() as u32 != params.n - params.eval_count {
        return Err(ScheduleError::BadSchedule("check_set size"));
    }
    if !vec_contains(&schedule.eval_set, schedule.eval_instance) {
        return Err(ScheduleError::BadSchedule("eval_instance ∉ E"));
    }
    if !covers(&schedule.check_set, &schedule.eval_set, params.n) {
        return Err(ScheduleError::BadSchedule("sets not a partition of 0..n"));
    }
    Ok(())
}

/// `lo, lo+1, ..., hi-1`.
pub open spec fn range_seq(lo: u32, hi: u32) -> Seq<u32> {
    Seq::new((hi - lo) as nat, |i: int| (lo + i) as u32)
}

fn range_vec(lo: u32, hi: u32) -> (v: Vec<u32>)
    requires
        lo <= hi,
    ensures
        v@ == range_seq(lo, hi),
{
    let mut v: Vec<u32> = Vec::new();
    let mut x = lo;
    while x < hi
        invariant
            lo <= x <= hi,
            v@ == range_seq(lo, x),
        decreases hi - x,
    {
        v.push(x);
        x = x + 1;
        proof {
            assert(v@ =~= range_seq(lo, x));
        }
    }
    v
}

/// Deterministic schedule: evaluation set `{n-f, ..., n-1}`, check set
/// `{0, ..., n-f-1}`, Assert instance `n-f`.
pub fn fixed_schedule(params: CutAndChooseParams) -> (r: Result<CutAndChooseSchedule, ScheduleError>)
    ensures
        r is Err <==> params_check(params) is Err,
        r matches Err(e) ==> params_check(params) == Err::<(), ScheduleError>(e),
        r matches Ok(s) ==> {
            &&& s@.n == params.n
            &&& s@.eval_set == range_seq((params.n - params.eval_count) as u32, params.n)
            &&& s@.check_set == range_seq(0, (params.n - params.eval_count) as u32)
            &&& s@.eval_instance == params.n - params.eval_count
            &&& schedule_check(s@, params) is Ok
        },
{
    match params.validate() {
        Ok(()) => {},
        Err(e) => return Err(e),
    }
    let f = params.eval_count;
    let eval_set = range_vec(params.n - f, params.n);
    let check_set = range_vec(0, params.n - f);
    let eval_instance = eval_set[0];
    let schedule = CutAndChooseSchedule { n: params.n, check_set, eval_set, eval_instance };
    proof {
        let all = schedule@.check_set + schedule@.eval_set;
        let m = (params.n - f) as u32;
        assert forall|v: u32| all.contains(v) <==> v < params.n by {
            if v < params.n {
                if v < m {
                    assert(all[v as int] == v);
                } else {
                    assert(all[m + (v - m)] == v);
                }
            }
            if all.contains(v) {
                let j = choose|j: int| 0 <= j < all.len() && all[j] == v;
                if j < m {
                    assert(schedule@.check_set[j] == v);
                } else {
                    assert(schedule@.eval_set[j - m] == v);
                }
            }
        }
        assert(schedule@.eval_set[0] == eval_instance);
    }
    match validate_schedule(&schedule, params) {
        Ok(()) => {},
        Err(e) => return Err(e),
    }
    Ok(schedule)
}

/// The first published commit for an instance.
pub open spec fn first_commit(commits: Seq<InstanceCommit>, id: u32) -> Option<InstanceCommit>
    decreases commits.len(),
{
    if commits.len() == 0 {
        None
    } else if commits[0].instance_id == id {
        Some(commits[0])
    } else {
        first_commit(commits.drop_first(), id)
    }
}

/// The first published commit for an instance.
pub fn find_commit(commits: &[InstanceCommit], id: u32) -> (r: Option<InstanceCommit>)
    ensures
        r == first_commit(commits@, id),
{
    let mut i: usize = 0;
    proof {
        assert(commits@.skip(0) =~= commits@);
    }
    while i < commits.len()
        invariant
            0 <= i <= commits@.len(),
            first_commit(commits@, id) == first_commit(commits@.skip(i as int), id),
        decreases commits@.len() - i,
    {
        proof {
            assert(commits@.skip(i as int).drop_first() =~= commits@.skip(i + 1));
        }
        if commits[i].instance_id == id {
            return Some(commits[i]);
        }
        i = i + 1;
    }
    None
}

/// The outcome on one check opening, given what the store verified for it.
pub open spec fn opening_outcome(
    s: ScheduleView,
    commits: Seq<InstanceCommit>,
    op: CheckOpening,
    verified: Result<CiphertextMeta, StoreError>,
) -> Result<(), ScheduleError> {
    if s.eval_set.contains(op.instance_id) {
        Err(ScheduleError::EvalInCheckSet(op.instance_id))
    } else if !s.check_set.contains(op.instance_id) {
        Err(ScheduleError::CheckNotInSet(op.instance_id))
    } else {
        match first_commit(commits, op.instance_id) {
            None => Err(ScheduleError::MissingCommit(op.instance_id)),
            Some(c) => match verified {
                Err(e) => Err(ScheduleError::Store(e)),
                Ok(m) => if m.ciphertext_hash != c.ciphertext_hash || m.seed != op.seed {
                    Err(ScheduleError::CommitMismatch(op.instance_id))
                } else {
                    Ok(())
                },
            },
        }
    }
}

/// The outcomes on openings `k..`, stopping at the first failure.
pub open spec fn openings_outcome(
    s: ScheduleView,
    commits: Seq<InstanceCommit>,
    ops: Seq<CheckOpening>,
    verified: Seq<Result<CiphertextMeta, StoreError>>,
    k: int,
) -> Result<(), ScheduleError>
    decreases ops.len() - k,
{
    if k < 0 || k >= ops.len() {
        Ok(())
    } else {
        match opening_outcome(s, commits, ops[k], verified[k]) {
            Err(e) => Err(e),
            Ok(()) => openings_outcome(s, commits, ops, verified, k + 1),
        }
    }
}

/// Whether some opening opens instance `i`.
pub open spec fn opened(ops: Seq<CheckOpening>, i: u32) -> bool {
    exists|k: int| 0 <= k < ops.len() && ops[k].instance_id == i
}

/// The first check instance (from position `j`) that no opening opens.
pub open spec fn first_unopened(check: Seq<u32>, ops: Seq<CheckOpening>, j: int) -> Option<u32>
    decreases check.len() - j,
{
    if j < 0 || j >= check.len() {
        None
    } else if !opened(ops, check[j]) {
        Some(check[j])
    } else {
        first_unopened(check, ops, j + 1)
    }
}

/// The outcome of [`open_check_instances`].
pub open spec fn open_check_outcome(
    s: ScheduleView,
    commits: Seq<InstanceCommit>,
    ops: Seq<CheckOpening>,
    verified: Seq<Result<CiphertextMeta, StoreError>>,
) -> Result<(), ScheduleError> {
    if ops.len() != s.check_set.len() {
        Err(ScheduleError::BadSchedule("opening count ≠ |C|"))
    } else {
        match openings_outcome(s, commits, ops, verified, 0) {
            Err(e) => Err(e),
            Ok(()) => match first_unopened(s.check_set, ops, 0) {
                Some(i) => Err(ScheduleError::CheckNotInSet(i)),
                None => Ok(()),
            },
        }
    }
}

fn any_opens(ops: &[CheckOpening], i: u32) -> (r: bool)
    ensures
        r == opened(ops@, i),
{
    let mut k: usize = 0;
    while k < ops.len()
        invariant
            0 <= k <= ops@.len(),
            forall|j: int| 0 <= j < k ==> ops@[j].instance_id != i,
        decreases ops@.len() - k,
    {
        if ops[k].instance_id == i {
            return true;
        }
        k = k + 1;
    }
    false
}

/// Verify every check-set opening against the published commits and what the
/// store verified for its instance (`verified[k]` for `openings[k]`).
pub fn open_check_instances(
    schedule: &CutAndChooseSchedule,
    commits: &[InstanceCommit],
    openings: &[CheckOpening],
    verified: &Vec<Result<CiphertextMeta, StoreError>>,
) -> (r: Result<(), ScheduleError>)
    requires
        verified@.len() == openings@.len(),
    ensures
        r == open_check_outcome(schedule@, commits@, openings@, verified@),
{
    if openings.len() != schedule.check_set.len() {
        return Err(ScheduleError::BadSchedule("opening count ≠ |C|"));
    }
    let mut k: usize = 0;
    while k < openings.len()
        invariant
            0 <= k <= openings@.len(),
            verified@.len() == openings@.len(),
            openings@.len() == schedule.check_set@.len(),
            openings_outcome(schedule@, commits@, openings@, verified@, 0) == openings_outcome(
                schedule@,
                commits@,
                openings@,
                verified@,
                k as int,
            ),
        decreases openings@.len() - k,
    {
        let op = openings[k];
        if vec_contains(&schedule.eval_set, op.instance_id) {
            return Err(ScheduleError::EvalInCheckSet(op.instance_id));
        }
        if !vec_contains(&schedule.check_set, op.instance_id) {
            return Err(ScheduleError::CheckNotInSet(op.instance_id));
        }
        let commit = match find_commit(commits, op.instance_id) {
            Some(c) => c,
            None => return Err(ScheduleError::MissingCommit(op.instance_id)),
        };
        match &verified[k] {
            Err(e) => return Err(ScheduleError::Store(e.duplicate())),
            Ok(meta) => {
                if !crate::hashing::eq32(&meta.ciphertext_hash, &commit.ciphertext_hash) {
                    return Err(ScheduleError::CommitMismatch(op.instance_id));
                }
                if meta.seed != op.seed {
                    return Err(ScheduleError::CommitMismatch(op.instance_id));
                }
            },
        }
        k = k + 1;
    }
    let mut j: usize = 0;
    while j < schedule.check_set.len()
        invariant
            0 <= j <= schedule.check_set@.len(),
            openings@.len() == schedule.check_set@.len(),
            openings_outcome(schedule@, commits@, openings@, verified@, 0) is Ok,
            first_unopened(schedule.check_set@, openings@, 0) == first_unopened(
                schedule.check_set@,
                openings@,
                j as int,
            ),
        decreases schedule.check_set@.len() - j,
    {
        let i = schedule.check_set[j];
        if !any_opens(openings, i) {
            return Err(ScheduleError::CheckNotInSet(i));
        }
        j = j + 1;
    }
    Ok(())
}

/// The outcome of [`require_eval_committed`].
pub open spec fn eval_committed_outcome(
    s: ScheduleView,
    commits: Seq<InstanceCommit>,
    verified: Result<CiphertextMeta, StoreError>,
) -> Result<CiphertextMeta, ScheduleError> {
    match first_commit(commits, s.eval_instance) {
        None => Err(ScheduleError::MissingCommit(s.eval_instance)),
        Some(c) => match verified {
            Err(e) => Err(ScheduleError::Store(e)),
            Ok(m) => if m.ciphertext_hash != c.ciphertext_hash {
                Err(ScheduleError::CommitMismatch(s.eval_instance))
            } else {
                Ok(m)
            },
        },
    }
}

/// Confirm the evaluation instance's ciphertext is present and matches the
/// published commit (`verified` is what the store verified for it).
pub fn require_eval_committed(
    schedule: &CutAndChooseSchedule,
    commits: &[InstanceCommit],
    verified: Result<CiphertextMeta, StoreError>,
) -> (r: Result<CiphertextMeta, ScheduleError>)
    ensures
        r == eval_committed_outcome(schedule@, commits@, verified),
{
    let a = schedule.eval_instance;
    let commit = match find_commit(commits, a) {
        Some(c) => c,
        None => return Err(ScheduleError::MissingCommit(a)),
    };
    let meta = match verified {
        Ok(m) => m,
        Err(e) => return Err(ScheduleError::Store(e)),
    };
    if !crate::hashing::eq32(&meta.ciphertext_hash, &commit.ciphertext_hash) {
        return Err(ScheduleError::CommitMismatch(a));
    }
    Ok(meta)
}

/// The first failed load among `loaded[k..]`.
pub open spec fn first_load_error(loaded: Seq<Result<CiphertextMeta, StoreError>>, k: int) -> Option<
    StoreError,
>
    decreases loaded.len() - k,
{
    if k < 0 || k >= loaded.len() {
        None
    } else {
        match loaded[k] {
            Err(e) => Some(e),
            Ok(_) => first_load_error(loaded, k + 1),
        }
    }
}

/// Build the commit table `0..n` from the metadata the store loaded
/// (`loaded[i]` for instance `i`).
pub fn commits_from_store(n: u32, loaded: &Vec<Result<CiphertextMeta, StoreError>>) -> (r: Result<
    Vec<InstanceCommit>,
    ScheduleError,
>)
    requires
        loaded@.len() == n,
    ensures
        match first_load_error(loaded@, 0) {
            Some(e) => r == Err::<Vec<InstanceCommit>, ScheduleError>(ScheduleError::Store(e)),
            None => r is Ok && r->Ok_0@.len() == n && forall|i: int|
                0 <= i < n ==> #[trigger] r->Ok_0@[i] == (InstanceCommit {
                    instance_id: i as u32,
                    ciphertext_hash: loaded@[i]->Ok_0.ciphertext_hash,
                }),
        },
{
    let mut out: Vec<InstanceCommit> = Vec::new();
    let mut i: u32 = 0;
    while i < n
        invariant
            0 <= i <= n,
            loaded@.len() == n,
            first_load_error(loaded@, 0) == first_load_error(loaded@, i as int),
            out@.len() == i,
            forall|j: int|
                0 <= j < i ==> #[trigger] out@[j] == (InstanceCommit {
                    instance_id: j as u32,
                    ciphertext_hash: loaded@[j]->Ok_0.ciphertext_hash,
                }),
        decreases n - i,
    {
        match &loaded[i as usize] {
            Err(e) => return Err(ScheduleError::Store(e.duplicate())),
            Ok(meta) => {
                out.push(InstanceCommit { instance_id: i, ciphertext_hash: meta.ciphertext_hash });
            },
        }
        i = i + 1;
    }
    Ok(out)
}

/// Openings for the whole check set, with the seeds the store loaded
/// (`loaded[k]` for `check_set[k]`).
pub fn check_openings_from_store(
    schedule: &CutAndChooseSchedule,
    loaded: &Vec<Result<CiphertextMeta, StoreError>>,
) -> (r: Result<Vec<CheckOpening>, ScheduleError>)
    requires
        loaded@.len() == schedule.check_set@.len(),
    ensures
        match first_load_error(loaded@, 0) {
            Some(e) => r == Err::<Vec<CheckOpening>, ScheduleError>(ScheduleError::Store(e)),
            None => r is Ok && r->Ok_0@.len() == schedule.check_set@.len() && forall|k: int|
                0 <= k < schedule.check_set@.len() ==> #[trigger] r->Ok_0@[k] == (CheckOpening {
                    instance_id: schedule.check_set@[k],
                    seed: loaded@[k]->Ok_0.seed,
                }),
        },
{
    let mut out: Vec<CheckOpening> = Vec::new();
    let mut k: usize = 0;
    while k < schedule.check_set.len()
        invariant
            0 <= k <= schedule.check_set@.len(),
            loaded@.len() == schedule.check_set@.len(),
            first_load_error(loaded@, 0) == first_load_error(loaded@, k as int),
            out@.len() == k,
            forall|j: int|
                0 <= j < k ==> #[trigger] out@[j] == (CheckOpening {
                    instance_id: schedule.check_set@[j],
                    seed: loaded@[j]->Ok_0.seed,
                }),
        decreases schedule.check_set@.len() - k,
    {
        match &loaded[k] {
            Err(e) => return Err(ScheduleError::Store(e.duplicate())),
            Ok(meta) => {
                out.push(CheckOpening { instance_id: schedule.check_set[k], seed: meta.seed });
            },
        }
        k = k + 1;
    }
    Ok(out)
}

} // verus!

verus! {

/// `s` with positions `i` and `j` exchanged.
pub open spec fn seq_swap(s: Seq<u32>, i: int, j: int) -> Seq<u32> {
    s.update(i, s[j]).update(j, s[i])
}

/// Non-decreasing order.
pub open spec fn sorted(s: Seq<u32>) -> bool {
    forall|a: int, b: int| 0 <= a < b < s.len() ==> s[a] <= s[b]
}

/// Strictly ascending: sorted, with no value twice.
pub open spec fn ascending(s: Seq<u32>) -> bool {
    forall|a: int, b: int| 0 <= a < b < s.len() ==> s[a] < s[b]
}

/// The first `k` Fisher–Yates steps on `s`: step `t` (from 1) exchanges
/// position `len - t` with position `draws[t - 1]`.
pub open spec fn fisher_yates(s: Seq<u32>, draws: Seq<usize>, k: nat) -> Seq<u32>
    decreases k,
{
    if k == 0 {
        s
    } else {
        seq_swap(
            fisher_yates(s, draws, (k - 1) as nat),
            s.len() - k,
            draws[k - 1] as int,
        )
    }
}

/// The draws fit the shuffle of `0..n`: one per step, step `t` drawing from
/// `0..=n-t`.
pub open spec fn draws_fit(params: CutAndChooseParams, draws: Seq<usize>) -> bool {
    params_check(params) is Ok ==> {
        &&& draws.len() + 1 == params.n
        &&& forall|k: int| 0 <= k < draws.len() ==> #[trigger] draws[k] + k < params.n
    }
}

proof fn lemma_swap_multiset(s: Seq<u32>, i: int, j: int)
    requires
        0 <= i < s.len(),
        0 <= j < s.len(),
    ensures
        seq_swap(s, i, j).to_multiset() == s.to_multiset(),
        seq_swap(s, i, j).len() == s.len(),
{
    broadcast use vstd::seq_lib::to_multiset_update, vstd::seq_lib::to_multiset_contains;
    broadcast use vstd::multiset::group_multiset_axioms;

    let s1 = s.update(i, s[j]);
    assert(s.contains(s[i]));
    assert(s1.to_multiset() == s.to_multiset().insert(s[j]).remove(s[i]));
    assert(s1[j] == s[j]);
    assert(seq_swap(s, i, j).to_multiset() == s1.to_multiset().insert(s[i]).remove(s[j]));
    assert(s.to_multiset().count(s[i]) > 0);
    assert(seq_swap(s, i, j).to_multiset() =~= s.to_multiset());
}

fn swap_at(v: &mut Vec<u32>, i: usize, j: usize)
    requires
        i < old(v)@.len(),
        j < old(v)@.len(),
    ensures
        final(v)@ == seq_swap(old(v)@, i as int, j as int),
        final(v)@.to_multiset() == old(v)@.to_multiset(),
{
    let a = v[i];
    let b = v[j];
    v.set(i, b);
    v.set(j, a);
    proof {
        lemma_swap_multiset(old(v)@, i as int, j as int);
    }
}

/// Selection sort.
fn sort_u32(v: &mut Vec<u32>)
    ensures
        sorted(final(v)@),
        final(v)@.to_multiset() == old(v)@.to_multiset(),
        final(v)@.len() == old(v)@.len(),
{
    let n = v.len();
    let mut i: usize = 0;
    while i < n
        invariant
            n == v@.len(),
            0 <= i <= n,
            v@.to_multiset() == old(v)@.to_multiset(),
            forall|a: int, b: int| 0 <= a < b < i ==> v@[a] <= v@[b],
            forall|a: int, b: int| 0 <= a < i <= b < n ==> v@[a] <= v@[b],
        decreases n - i,
    {
        let mut m = i;
        let mut p = i + 1;
        while p < n
            invariant
                n == v@.len(),
                i < n,
                i <= m < n,
                i < p <= n,
                forall|k: int| i <= k < p ==> v@[m as int] <= v@[k],
            decreases n - p,
        {
            if v[p] < v[m] {
                m = p;
            }
            p = p + 1;
        }
        let ghost before = v@;
        swap_at(v, i, m);
        proof {
            assert forall|a: int, b: int| 0 <= a < i + 1 <= b < n implies v@[a] <= v@[b] by {
                if a < i {
                    assert(before[a] <= before[b]);
                    assert(before[a] <= before[i as int]);
                } else {
                    assert(before[m as int] <= before[b]);
                    assert(before[m as int] <= before[i as int]);
                }
            }
            assert forall|a: int, b: int| 0 <= a < b < i + 1 implies v@[a] <= v@[b] by {
                if b < i {
                    assert(before[a] <= before[b]);
                } else {
                    assert(before[a] <= before[m as int]);
                }
            }
        }
        i = i + 1;
    }
}

} // verus!

verus! {

proof fn lemma_fisher_yates_multiset(s: Seq<u32>, draws: Seq<usize>, k: nat)
    requires
        k < s.len(),
        k <= draws.len(),
        forall|t: int| 0 <= t < k ==> #[trigger] draws[t] + t + 1 <= s.len(),
    ensures
        fisher_yates(s, draws, k).to_multiset() == s.to_multiset(),
        fisher_yates(s, draws, k).len() == s.len(),
    decreases k,
{
    if k > 0 {
        lemma_fisher_yates_multiset(s, draws, (k - 1) as nat);
        assert(draws[k - 1] + (k - 1) + 1 <= s.len());
        lemma_swap_multiset(
            fisher_yates(s, draws, (k - 1) as nat),
            s.len() - k,
            draws[k - 1] as int,
        );
    }
}

/// Two sorted halves of a permutation of `0..n` have the halves' lengths and
/// hold no value twice.
proof fn lemma_sorted_halves_of_range(
    perm: Seq<u32>,
    n: u32,
    f: int,
    eval_set: Seq<u32>,
    check_set: Seq<u32>,
)
    requires
        0 <= f <= perm.len(),
        perm.to_multiset() == range_seq(0, n).to_multiset(),
        split_sorted_as(perm, f, eval_set, check_set),
    ensures
        eval_set.len() == f,
        check_set.len() == perm.len() - f,
        ascending(eval_set),
        ascending(check_set),
{
    broadcast use vstd::seq_lib::to_multiset_len;
    broadcast use vstd::seq_lib::lemma_multiset_commutative;
    broadcast use vstd::multiset::group_multiset_axioms;

    let range = range_seq(0, n);
    assert(range.no_duplicates()) by {
        assert forall|i: int, j: int|
            0 <= i < range.len() && 0 <= j < range.len() && i != j implies range[i] != range[j] by {
            assert(range[i] == i);
            assert(range[j] == j);
        }
    }
    range.lemma_multiset_has_no_duplicates();
    assert(perm.take(f) + perm.skip(f) =~= perm);
    assert(perm.take(f).to_multiset().len() == f);
    assert(perm.skip(f).to_multiset().len() == perm.len() - f);
    let mp = perm.to_multiset();
    assert(mp == eval_set.to_multiset().add(check_set.to_multiset()));
    assert forall|x: u32| eval_set.to_multiset().contains(x) implies eval_set.to_multiset().count(x)
        == 1 by {
        assert(mp.count(x) == eval_set.to_multiset().count(x) + check_set.to_multiset().count(x));
        assert(mp.contains(x));
    }
    assert forall|x: u32| check_set.to_multiset().contains(x) implies check_set.to_multiset().count(
        x,
    ) == 1 by {
        assert(mp.count(x) == eval_set.to_multiset().count(x) + check_set.to_multiset().count(x));
        assert(mp.contains(x));
    }
    eval_set.lemma_multiset_has_no_duplicates_conv();
    check_set.lemma_multiset_has_no_duplicates_conv();
    assert forall|a: int, b: int| 0 <= a < b < eval_set.len() implies eval_set[a] < eval_set[b] by {
        assert(eval_set[a] <= eval_set[b]);
        assert(eval_set[a] != eval_set[b]);
    }
    assert forall|a: int, b: int| 0 <= a < b < check_set.len() implies check_set[a]
        < check_set[b] by {
        assert(check_set[a] <= check_set[b]);
        assert(check_set[a] != check_set[b]);
    }
}

/// Split, sorted halves: evaluation set first.
pub open spec fn split_sorted_as(
    perm: Seq<u32>,
    f: int,
    eval_set: Seq<u32>,
    check_set: Seq<u32>,
) -> bool {
    &&& sorted(eval_set)
    &&& sorted(check_set)
    &&& eval_set.to_multiset() == perm.take(f).to_multiset()
    &&& check_set.to_multiset() == perm.skip(f).to_multiset()
}

/// The schedule that the Fisher–Yates shuffle of `0..n` under `draws`
/// gives: its first `eval_count` entries, sorted, are the evaluation set, the
/// rest, sorted, the check set, and the smallest evaluation instance is the
/// Assert instance.
pub fn schedule_from_draws(params: CutAndChooseParams, draws: &Vec<usize>) -> (r: Result<
    CutAndChooseSchedule,
    ScheduleError,
>)
    requires
        draws_fit(params, draws@),
    ensures
        r is Err <==> params_check(params) is Err,
        r matches Err(e) ==> params_check(params) == Err::<(), ScheduleError>(e),
        r matches Ok(s) ==> {
            &&& s@.n == params.n
            &&& split_sorted_as(
                fisher_yates(range_seq(0, params.n), draws@, draws@.len()),
                params.eval_count as int,
                s@.eval_set,
                s@.check_set,
            )
            &&& s@.eval_set.len() == params.eval_count
            &&& s@.check_set.len() == params.n - params.eval_count
            &&& ascending(s@.eval_set)
            &&& ascending(s@.check_set)
            &&& s@.eval_instance == s@.eval_set[0]
            &&& schedule_check(s@, params) is Ok
        },
{
    match params.validate() {
        Ok(()) => {},
        Err(e) => return Err(e),
    }
    let n = params.n as usize;
    let f = params.eval_count as usize;
    let mut idxs = range_vec(0, params.n);
    let ghost start = idxs@;
    let mut k: usize = 0;
    while k + 1 < n
        invariant
            n == params.n,
            n >= 1,
            draws@.len() + 1 == n,
            forall|t: int| 0 <= t < draws@.len() ==> #[trigger] draws@[t] + t < n,
            start == range_seq(0, params.n),
            0 <= k < n,
            idxs@ == fisher_yates(start, draws@, k as nat),
            idxs@.len() == n,
        decreases n - k,
    {
        let i = n - 1 - k;
        let j = draws[k];
        swap_at(&mut idxs, i, j);
        k = k + 1;
    }
    proof {
        lemma_fisher_yates_multiset(start, draws@, k as nat);
    }
    let ghost perm = idxs@;
    let mut eval_set: Vec<u32> = Vec::new();
    let mut check_set: Vec<u32> = Vec::new();
    let mut p: usize = 0;
    while p < n
        invariant
            n == idxs@.len(),
            perm == idxs@,
            f < n,
            0 <= p <= n,
            p <= f ==> eval_set@ == perm.take(p as int) && check_set@.len() == 0,
            p > f ==> eval_set@ == perm.take(f as int) && check_set@ == perm.subrange(
                f as int,
                p as int,
            ),
        decreases n - p,
    {
        if p < f {
            eval_set.push(idxs[p]);
            proof {
                assert(eval_set@ =~= perm.take(p + 1));
            }
        } else {
            check_set.push(idxs[p]);
            proof {
                assert(check_set@ =~= perm.subrange(f as int, p + 1));
            }
        }
        p = p + 1;
    }
    proof {
        assert(check_set@ =~= perm.skip(f as int));
    }
    let ghost eval0 = eval_set@;
    let ghost check0 = check_set@;
    sort_u32(&mut eval_set);
    sort_u32(&mut check_set);
    let eval_instance = eval_set[0];
    let schedule = CutAndChooseSchedule { n: params.n, check_set, eval_set, eval_instance };
    proof {
        broadcast use vstd::seq_lib::to_multiset_contains;
        broadcast use vstd::seq_lib::lemma_multiset_commutative;
        broadcast use vstd::multiset::group_multiset_axioms;

        let all = schedule@.check_set + schedule@.eval_set;
        let range = range_seq(0, params.n);
        assert(perm.take(f as int) + perm.skip(f as int) =~= perm);
        assert(all.to_multiset() =~= perm.to_multiset());
        assert(perm.to_multiset() == range.to_multiset());
        assert forall|v: u32| all.contains(v) <==> v < params.n by {
            assert(all.to_multiset().count(v) == range.to_multiset().count(v));
            if v < params.n {
                assert(range[v as int] == v);
            }
            if range.contains(v) {
                let j = choose|j: int| 0 <= j < range.len() && range[j] == v;
                assert(range[j] == j);
            }
        }
        assert(schedule@.eval_set.contains(eval_instance)) by {
            assert(schedule@.eval_set[0] == eval_instance);
        }
        lemma_sorted_halves_of_range(
            perm,
            params.n,
            f as int,
            schedule@.eval_set,
            schedule@.check_set,
        );
    }
    match validate_schedule(&schedule, params) {
        Ok(()) => {},
        Err(e) => return Err(e),
    }
    Ok(schedule)
}

} // verus!

verus! {

/// `rand::Rng::gen_range(0..=bound)` on the thread-local generator: a
/// uniformly drawn integer in `0..=bound`. Only the range is claimed.
#[verifier::external_body]
fn random_index_up_to(bound: usize) -> (j: usize)
    ensures
        j <= bound,
{
    rand::Rng::gen_range(&mut rand::thread_rng(), 0..=bound)
}

/// Sample a random schedule: shuffle `0..n` (Fisher–Yates), take the first
/// `eval_count` as the evaluation set and the rest as the check set.
pub fn sample_schedule(params: CutAndChooseParams) -> (r: Result<CutAndChooseSchedule, ScheduleError>)
    ensures
        r is Err <==> params_check(params) is Err,
        r matches Err(e) ==> params_check(params) == Err::<(), ScheduleError>(e),
        r matches Ok(s) ==> {
            &&& s@.n == params.n
            &&& s@.eval_set.len() == params.eval_count
            &&& s@.check_set.len() == params.n - params.eval_count
            &&& ascending(s@.eval_set)
            &&& ascending(s@.check_set)
            &&& s@.eval_instance == s@.eval_set[0]
            &&& schedule_check(s@, params) is Ok
        },
{
    match params.validate() {
        Ok(()) => {},
        Err(e) => return Err(e),
    }
    let n = params.n as usize;
    let mut draws: Vec<usize> = Vec::new();
    let mut k: usize = 0;
    while k + 1 < n
        invariant
            n == params.n,
            n >= 1,
            0 <= k < n,
            draws@.len() == k,
            forall|t: int| 0 <= t < k ==> #[trigger] draws@[t] + t < n,
        decreases n - k,
    {
        let j = random_index_up_to(n - 1 - k);
        let ghost prev = draws@;
        draws.push(j);
        proof {
            assert forall|t: int| 0 <= t < k + 1 implies #[trigger] draws@[t] + t < n by {
                if t < k {
                    assert(draws@[t] == prev[t]);
                }
            }
        }
        k = k + 1;
    }
    schedule_from_draws(params, &draws)
}

// ---------------------------------------------------------------------------
// Law: an honest store passes the cut-and-choose checks
// ---------------------------------------------------------------------------

/// The commit table of metadata `metas`, instance `i` at position `i`.
pub open spec fn commits_of(metas: Seq<CiphertextMeta>) -> Seq<InstanceCommit> {
    Seq::new(
        metas.len(),
        |i: int| InstanceCommit { instance_id: i as u32, ciphertext_hash: metas[i].ciphertext_hash },
    )
}

/// The openings of the check set with the seeds of `metas`.
pub open spec fn openings_of(s: ScheduleView, metas: Seq<CiphertextMeta>) -> Seq<CheckOpening> {
    Seq::new(
        s.check_set.len(),
        |k: int| CheckOpening { instance_id: s.check_set[k], seed: metas[s.check_set[k] as int].seed },
    )
}

/// What the store verifies for each check instance: its metadata.
pub open spec fn verified_of(s: ScheduleView, metas: Seq<CiphertextMeta>) -> Seq<
    Result<CiphertextMeta, StoreError>,
> {
    Seq::new(s.check_set.len(), |k: int| Ok(metas[s.check_set[k] as int]))
}

proof fn lemma_first_commit_indexed(commits: Seq<InstanceCommit>, base: int, id: u32)
    requires
        forall|i: int| 0 <= i < commits.len() ==> #[trigger] commits[i].instance_id == base + i,
        base <= id < base + commits.len(),
    ensures
        first_commit(commits, id) == Some(commits[id - base]),
    decreases commits.len(),
{
    if commits[0].instance_id != id {
        let rest = commits.drop_first();
        assert forall|i: int| 0 <= i < rest.len() implies #[trigger] rest[i].instance_id == (base
            + 1) + i by {
            assert(rest[i] == commits[i + 1]);
        }
        lemma_first_commit_indexed(rest, base + 1, id);
    }
}

/// A schedule that passes validation (with lengths below `2^32`) splits
/// `0..n` into disjoint check and evaluation sets.
proof fn lemma_schedule_disjoint(s: ScheduleView, p: CutAndChooseParams)
    requires
        schedule_check(s, p) is Ok,
        s.check_set.len() < 0x1_0000_0000,
        s.eval_set.len() < 0x1_0000_0000,
    ensures
        forall|i: int, j: int|
            0 <= i < s.check_set.len() && 0 <= j < s.eval_set.len() ==> s.check_set[i]
                != s.eval_set[j],
        forall|v: u32| s.check_set.contains(v) ==> v < p.n,
        s.eval_instance < p.n,
{
    let all = s.check_set + s.eval_set;
    let range = range_seq(0, p.n);
    assert(all.len() == p.n);
    assert(all.to_set() =~= range.to_set()) by {
        assert forall|v: u32| all.to_set().contains(v) <==> range.to_set().contains(v) by {
            if v < p.n {
                assert(range[v as int] == v);
            }
            if range.contains(v) {
                let j = choose|j: int| 0 <= j < range.len() && range[j] == v;
                assert(range[j] == j);
            }
        }
    }
    assert(range.no_duplicates()) by {
        assert forall|i: int, j: int| 0 <= i < range.len() && 0 <= j < range.len() && i != j
            implies range[i] != range[j] by {
            assert(range[i] == i);
            assert(range[j] == j);
        }
    }
    range.unique_seq_to_set();
    all.lemma_no_dup_set_cardinality();
    assert forall|i: int, j: int|
        0 <= i < s.check_set.len() && 0 <= j < s.eval_set.len() implies s.check_set[i]
        != s.eval_set[j] by {
        assert(all[i] == s.check_set[i]);
        assert(all[s.check_set.len() + j] == s.eval_set[j]);
    }
    assert forall|v: u32| s.check_set.contains(v) implies v < p.n by {
        let i = choose|i: int| 0 <= i < s.check_set.len() && s.check_set[i] == v;
        assert(all[i] == v);
        assert(all.contains(v));
    }
    let j = choose|j: int| 0 <= j < s.eval_set.len() && s.eval_set[j] == s.eval_instance;
    assert(all[s.check_set.len() + j] == s.eval_instance);
    assert(all.contains(s.eval_instance));
}

proof fn lemma_openings_pass(s: ScheduleView, p: CutAndChooseParams, metas: Seq<CiphertextMeta>, k: int)
    requires
        schedule_check(s, p) is Ok,
        metas.len() == p.n,
        0 <= k <= s.check_set.len(),
        forall|i: int, j: int|
            0 <= i < s.check_set.len() && 0 <= j < s.eval_set.len() ==> s.check_set[i]
                != s.eval_set[j],
        forall|v: u32| s.check_set.contains(v) ==> v < p.n,
    ensures
        openings_outcome(s, commits_of(metas), openings_of(s, metas), verified_of(s, metas), k)
            == Ok::<(), ScheduleError>(()),
    decreases s.check_set.len() - k,
{
    let commits = commits_of(metas);
    let ops = openings_of(s, metas);
    let verified = verified_of(s, metas);
    if k < s.check_set.len() {
        lemma_openings_pass(s, p, metas, k + 1);
        let id = s.check_set[k];
        assert(s.check_set.contains(id));
        assert forall|i: int| 0 <= i < commits.len() implies #[trigger] commits[i].instance_id
            == 0 + i by {
            assert(i < p.n);
        }
        lemma_first_commit_indexed(commits, 0, id);
        assert(!s.eval_set.contains(id)) by {
            if s.eval_set.contains(id) {
                let j = choose|j: int| 0 <= j < s.eval_set.len() && s.eval_set[j] == id;
                assert(s.check_set[k] != s.eval_set[j]);
            }
        }
        assert(ops[k] == (CheckOpening { instance_id: id, seed: metas[id as int].seed }));
        assert(opening_outcome(s, commits, ops[k], verified[k]) == Ok::<(), ScheduleError>(()));
    }
}

proof fn lemma_all_opened(s: ScheduleView, metas: Seq<CiphertextMeta>, j: int)
    requires
        0 <= j <= s.check_set.len(),
    ensures
        first_unopened(s.check_set, openings_of(s, metas), j) is None,
    decreases s.check_set.len() - j,
{
    if j < s.check_set.len() {
        lemma_all_opened(s, metas, j + 1);
        let ops = openings_of(s, metas);
        assert(ops[j].instance_id == s.check_set[j]);
        assert(opened(ops, s.check_set[j]));
    }
}

/// When the store holds, for every instance `i < n`, metadata whose hash was
/// published as instance `i`'s commit and whose seed the Engine opens, the
/// check-set openings pass and the evaluation instance is confirmed, for any
/// schedule that passes validation.
pub proof fn lemma_honest_store_passes_checks(
    s: ScheduleView,
    p: CutAndChooseParams,
    metas: Seq<CiphertextMeta>,
)
    requires
        schedule_check(s, p) is Ok,
        s.check_set.len() < 0x1_0000_0000,
        s.eval_set.len() < 0x1_0000_0000,
        metas.len() == p.n,
    ensures
        open_check_outcome(s, commits_of(metas), openings_of(s, metas), verified_of(s, metas))
            == Ok::<(), ScheduleError>(()),
        eval_committed_outcome(s, commits_of(metas), Ok(metas[s.eval_instance as int])) == Ok::<
            CiphertextMeta,
            ScheduleError,
        >(metas[s.eval_instance as int]),
{
    lemma_schedule_disjoint(s, p);
    let commits = commits_of(metas);
    let ops = openings_of(s, metas);
    let verified = verified_of(s, metas);
    assert forall|i: int| 0 <= i < commits.len() implies #[trigger] commits[i].instance_id == 0
        + i by {
        assert(i < p.n);
    }
    lemma_openings_pass(s, p, metas, 0);
    lemma_all_opened(s, metas, 0);
    lemma_first_commit_indexed(commits, 0, s.eval_instance);
}


// ---------------------------------------------------------------------------
// Law: accepted check openings agree with the store and the commits
// ---------------------------------------------------------------------------

proof fn lemma_openings_outcome_ok(
    s: ScheduleView,
    commits: Seq<InstanceCommit>,
    ops: Seq<CheckOpening>,
    verified: Seq<Result<CiphertextMeta, StoreError>>,
    k: int,
)
    requires
        0 <= k,
        openings_outcome(s, commits, ops, verified, k) is Ok,
    ensures
        forall|m: int|
            k <= m < ops.len() ==> #[trigger] opening_outcome(s, commits, ops[m], verified[m]) is Ok,
    decreases ops.len() - k,
{
    if k < ops.len() {
        lemma_openings_outcome_ok(s, commits, ops, verified, k + 1);
    }
}

proof fn lemma_first_unopened_none(check: Seq<u32>, ops: Seq<CheckOpening>, j: int)
    requires
        0 <= j,
        first_unopened(check, ops, j) is None,
    ensures
        forall|i: int| j <= i < check.len() ==> opened(ops, #[trigger] check[i]),
    decreases check.len() - j,
{
    if j < check.len() {
        lemma_first_unopened_none(check, ops, j + 1);
    }
}

/// Check openings are accepted only when there is one per check instance,
/// every check instance is opened and no evaluation instance is, and each
/// opening agrees with the store and the published commits: what the store
/// verified for opening `k` has the ciphertext hash of the first published
/// commit for that instance, and the opened seed.
pub proof fn lemma_accepted_openings_match_commits(
    s: ScheduleView,
    commits: Seq<InstanceCommit>,
    ops: Seq<CheckOpening>,
    verified: Seq<Result<CiphertextMeta, StoreError>>,
)
    requires
        verified.len() == ops.len(),
        open_check_outcome(s, commits, ops, verified) is Ok,
    ensures
        ops.len() == s.check_set.len(),
        forall|i: int| 0 <= i < s.check_set.len() ==> opened(ops, #[trigger] s.check_set[i]),
        forall|k: int|
            #![trigger ops[k]]
            0 <= k < ops.len() ==> {
                &&& s.check_set.contains(ops[k].instance_id)
                &&& !s.eval_set.contains(ops[k].instance_id)
                &&& first_commit(commits, ops[k].instance_id) is Some
                &&& verified[k] is Ok
                &&& verified[k]->Ok_0.ciphertext_hash == first_commit(
                    commits,
                    ops[k].instance_id,
                )->Some_0.ciphertext_hash
                &&& verified[k]->Ok_0.seed == ops[k].seed
            },
{
    lemma_openings_outcome_ok(s, commits, ops, verified, 0);
    lemma_first_unopened_none(s.check_set, ops, 0);
    assert forall|k: int| 0 <= k < ops.len() implies {
        &&& s.check_set.contains(ops[k].instance_id)
        &&& !s.eval_set.contains(ops[k].instance_id)
        &&& first_commit(commits, ops[k].instance_id) is Some
        &&& verified[k] is Ok
        &&& verified[k]->Ok_0.ciphertext_hash == first_commit(
            commits,
            ops[k].instance_id,
        )->Some_0.ciphertext_hash
        &&& verified[k]->Ok_0.seed == ops[k].seed
    } by {
        assert(opening_outcome(s, commits, ops[k], verified[k]) is Ok);
    }
}

} // verus!
