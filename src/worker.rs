//! The life of one job on the single worker lane: launch the runtime, wait
//! for it to exit, read back its results, then remove the scratch directory
//! and reply. The caller performs each action and feeds back the outcome.
use vstd::prelude::*;
use vstd::string::StringExecFns;
use crate::message::{CompareRequest, CompareResult, ExecuteResult, Request, Response};

verus! {

/// What kind of result a job is waiting for: one script, or the ids of the
/// compared scripts in request order.
pub enum JobKind {
    Execute,
    Compare(Vec<u16>),
}

/// Where a job stands.
pub enum JobStage {
    /// The archive is built; the runtime is being started.
    Launching,
    /// The runtime process is running.
    Running,
    /// The process has exited; its result file is being read.
    Harvesting,
    /// The scratch directory is gone and the reply was handed over.
    Finished,
}

pub struct Job {
    pub kind: JobKind,
    pub stage: JobStage,
}

/// The outcome of the step the caller performed last.
pub enum JobEvent {
    Launched,
    LaunchFailed(String),
    Exited,
    /// The decoded `execute.txt`, or why it could not be read or decoded.
    ExecuteHarvested(Result<ExecuteResult, String>),
    /// The decoded `compare.txt`, or why it could not be read or decoded.
    CompareHarvested(Result<Vec<CompareResult>, String>),
}

/// What the caller is to do next.
pub enum JobAction {
    /// Wait for the runtime process to exit.
    WaitForExit,
    /// Read and decode the result file named by `result_file_name`.
    ReadResults,
    /// Remove the scratch directory, then deliver this response.
    Finish(Response),
    /// The job is over: do nothing.
    Nothing,
}

/// The ids of a comparison's scripts, in order.
pub open spec fn item_ids(items: Seq<CompareRequest>) -> Seq<u16> {
    items.map_values(|c: CompareRequest| c.id)
}

/// How many times `v` occurs in `s`.
pub open spec fn count_of(s: Seq<u16>, v: u16) -> nat
    decreases s.len(),
{
    if s.len() == 0 {
        0
    } else {
        count_of(s.drop_last(), v) + if s.last() == v {
            1nat
        } else {
            0nat
        }
    }
}

/// The ids that the results carry, in order.
pub open spec fn result_ids(results: Seq<CompareResult>) -> Seq<u16> {
    results.map_values(|r: CompareResult| r.id)
}

/// Whether the results answer the scripts one for one, in any order: as
/// many results as scripts, and each id carried as often as it was asked.
pub open spec fn ids_match(ids: Seq<u16>, results: Seq<CompareResult>) -> bool {
    &&& results.len() == ids.len()
    &&& forall|v: u16| #[trigger] count_of(result_ids(results), v) == count_of(ids, v)
}

/// A value occurs at least once exactly when some position holds it.
pub proof fn lemma_count_pos(s: Seq<u16>, v: u16)
    ensures
        count_of(s, v) > 0 <==> exists|i: int| 0 <= i < s.len() && s[i] == v,
        count_of(s, v) <= s.len(),
    decreases s.len(),
{
    if s.len() > 0 {
        let t = s.drop_last();
        lemma_count_pos(t, v);
        if count_of(t, v) > 0 {
            let i = choose|i: int| 0 <= i < t.len() && t[i] == v;
            assert(s[i] == v);
        }
        if s.last() != v && exists|i: int| 0 <= i < s.len() && s[i] == v {
            let i = choose|i: int| 0 <= i < s.len() && s[i] == v;
            assert(t[i] == v);
        }
    }
}

fn count_in(s: &[u16], v: u16) -> (c: usize)
    ensures
        c == count_of(s@, v),
{
    let mut c: usize = 0;
    let mut i: usize = 0;
    while i < s.len()
        invariant
            i <= s@.len(),
            c == count_of(s@.subrange(0, i as int), v),
            c <= i,
        decreases s@.len() - i,
    {
        if s[i] == v {
            c = c + 1;
        }
        i = i + 1;
        assert(s@.subrange(0, i as int).drop_last() =~= s@.subrange(0, i - 1));
    }
    assert(s@.subrange(0, i as int) =~= s@);
    c
}

fn ids_of(results: &[CompareResult]) -> (r: Vec<u16>)
    ensures
        r@ == result_ids(results@),
{
    let mut r: Vec<u16> = Vec::new();
    let mut i: usize = 0;
    while i < results.len()
        invariant
            i <= results@.len(),
            r@ == result_ids(results@.subrange(0, i as int)),
        decreases results@.len() - i,
    {
        r.push(results[i].id);
        i = i + 1;
        assert(result_ids(results@.subrange(0, i as int)) =~= result_ids(
            results@.subrange(0, i - 1),
        ).push(results@[i - 1].id));
    }
    assert(results@.subrange(0, i as int) =~= results@);
    r
}

/// The response to an execute job, given what was read back.
pub open spec fn execute_response_spec(h: Result<ExecuteResult, String>) -> Response {
    match h {
        Ok(r) => Response::Execute(Ok(r)),
        Err(e) => Response::Error(e),
    }
}

/// The response to an execute job, given what was read back.
pub fn execute_response(h: Result<ExecuteResult, String>) -> (r: Response)
    ensures
        r == execute_response_spec(h),
{
    match h {
        Ok(res) => Response::Execute(Ok(res)),
        Err(e) => Response::Error(e),
    }
}

/// Whether the results answer the scripts one for one, in any order.
pub fn check_ids(ids: &[u16], results: &[CompareResult]) -> (r: bool)
    ensures
        r == ids_match(ids@, results@),
{
    if ids.len() != results.len() {
        return false;
    }
    let rids = ids_of(results);
    let mut k: usize = 0;
    while k < ids.len()
        invariant
            k <= ids@.len(),
            rids@ == result_ids(results@),
            forall|j: int| 0 <= j < k ==> #[trigger] count_of(rids@, ids@[j]) == count_of(ids@, ids@[j]),
        decreases ids@.len() - k,
    {
        let v = ids[k];
        if count_in(ids, v) != count_in(rids.as_slice(), v) {
            assert(count_of(result_ids(results@), v) != count_of(ids@, v));
            return false;
        }
        k = k + 1;
    }
    let mut m: usize = 0;
    while m < rids.len()
        invariant
            m <= rids@.len(),
            rids@ == result_ids(results@),
            forall|j: int| 0 <= j < ids@.len() ==> #[trigger] count_of(rids@, ids@[j]) == count_of(ids@, ids@[j]),
            forall|j: int| 0 <= j < m ==> #[trigger] count_of(rids@, rids@[j]) == count_of(ids@, rids@[j]),
        decreases rids@.len() - m,
    {
        let v = rids[m];
        if count_in(ids, v) != count_in(rids.as_slice(), v) {
            assert(count_of(result_ids(results@), v) != count_of(ids@, v));
            return false;
        }
        m = m + 1;
    }
    assert forall|v: u16| #[trigger] count_of(result_ids(results@), v) == count_of(ids@, v) by {
        lemma_count_pos(ids@, v);
        lemma_count_pos(rids@, v);
        if count_of(ids@, v) > 0 {
            let j = choose|j: int| 0 <= j < ids@.len() && ids@[j] == v;
            assert(count_of(rids@, ids@[j]) == count_of(ids@, ids@[j]));
        } else if count_of(rids@, v) > 0 {
            let j = choose|j: int| 0 <= j < rids@.len() && rids@[j] == v;
            assert(count_of(rids@, rids@[j]) == count_of(ids@, rids@[j]));
        }
    }
    true
}

/// The response to a compare job, given what was read back. Results are
/// accepted only when they answer the scripts one for one, in any order.
pub fn compare_response(ids: &[u16], h: Result<Vec<CompareResult>, String>) -> (r: Response)
    ensures
        compare_response_ok(ids@, h, r),
{
    match h {
        Ok(rs) => {
            if check_ids(ids, rs.as_slice()) {
                Response::Compare(Ok(rs))
            } else {
                Response::Error(String::from_str("result ids do not match the request"))
            }
        },
        Err(e) => Response::Error(e),
    }
}

/// The kind of job a request makes.
pub fn job_kind(r: &Request) -> (k: JobKind)
    ensures
        match r {
            Request::Execute(_) => k is Execute,
            Request::Compare(items) => k is Compare && k->Compare_0@ == item_ids(items@),
        },
{
    match r {
        Request::Execute(_) => JobKind::Execute,
        Request::Compare(items) => {
            let mut ids: Vec<u16> = Vec::new();
            let mut i: usize = 0;
            while i < items.len()
                invariant
                    i <= items@.len(),
                    ids@ == item_ids(items@.subrange(0, i as int)),
                decreases items@.len() - i,
            {
                ids.push(items[i].id);
                i = i + 1;
                assert(item_ids(items@.subrange(0, i as int)) =~= item_ids(
                    items@.subrange(0, i - 1),
                ).push(items@[i - 1].id));
            }
            assert(items@.subrange(0, i as int) =~= items@);
            JobKind::Compare(ids)
        },
    }
}

/// A job whose archive is built and whose runtime is about to be started.
pub fn new_job(r: &Request) -> (j: Job)
    ensures
        j.stage is Launching,
        match r {
            Request::Execute(_) => j.kind is Execute,
            Request::Compare(items) => j.kind is Compare && j.kind->Compare_0@ == item_ids(items@),
        },
{
    Job { kind: job_kind(r), stage: JobStage::Launching }
}

/// The text of the error a job replies with when an event comes out of turn.
pub open spec fn is_out_of_turn(r: Response) -> bool {
    r is Error && r->Error_0@ == "unexpected job event"@
}

/// Whether `r` is the response owed to a compare job of these ids, given
/// what was read back.
pub open spec fn compare_response_ok(ids: Seq<u16>, h: Result<Vec<CompareResult>, String>, r: Response) -> bool {
    match h {
        Ok(rs) => if ids_match(ids, rs@) {
            r == Response::Compare(Ok::<Vec<CompareResult>, String>(rs))
        } else {
            r is Error && r->Error_0@ == "result ids do not match the request"@
        },
        Err(e) => r == Response::Error(e),
    }
}

/// Whether `stage` and `action` are what a job of kind `kind` at stage
/// `from` moves to on event `e`.
pub open spec fn job_step_ok(kind: JobKind, from: JobStage, e: JobEvent, stage: JobStage, action: JobAction) -> bool {
    match (from, e) {
        (JobStage::Finished, _) => stage is Finished && action is Nothing,
        (JobStage::Launching, JobEvent::Launched) => stage is Running && action is WaitForExit,
        (JobStage::Launching, JobEvent::LaunchFailed(err)) => stage is Finished && action
            == JobAction::Finish(Response::Error(err)),
        (JobStage::Running, JobEvent::Exited) => stage is Harvesting && action is ReadResults,
        (JobStage::Harvesting, JobEvent::ExecuteHarvested(h)) => stage is Finished
            && action is Finish && match kind {
            JobKind::Execute => action->Finish_0 == execute_response_spec(h),
            JobKind::Compare(_) => is_out_of_turn(action->Finish_0),
        },
        (JobStage::Harvesting, JobEvent::CompareHarvested(h)) => stage is Finished
            && action is Finish && match kind {
            JobKind::Compare(ids) => compare_response_ok(ids@, h, action->Finish_0),
            JobKind::Execute => is_out_of_turn(action->Finish_0),
        },
        _ => stage is Finished && action is Finish && is_out_of_turn(action->Finish_0),
    }
}

fn out_of_turn() -> (r: Response)
    ensures
        is_out_of_turn(r),
{
    Response::Error(String::from_str("unexpected job event"))
}

/// Advances a job by one event.
pub fn job_step(job: &mut Job, e: JobEvent) -> (action: JobAction)
    ensures
        final(job).kind == old(job).kind,
        job_step_ok(old(job).kind, old(job).stage, e, final(job).stage, action),
{
    match (&job.stage, e) {
        (JobStage::Finished, _) => JobAction::Nothing,
        (JobStage::Launching, JobEvent::Launched) => {
            job.stage = JobStage::Running;
            JobAction::WaitForExit
        },
        (JobStage::Launching, JobEvent::LaunchFailed(err)) => {
            job.stage = JobStage::Finished;
            JobAction::Finish(Response::Error(err))
        },
        (JobStage::Running, JobEvent::Exited) => {
            job.stage = JobStage::Harvesting;
            JobAction::ReadResults
        },
        (JobStage::Harvesting, JobEvent::ExecuteHarvested(h)) => {
            job.stage = JobStage::Finished;
            match &job.kind {
                JobKind::Execute => JobAction::Finish(execute_response(h)),
                JobKind::Compare(_) => JobAction::Finish(out_of_turn()),
            }
        },
        (JobStage::Harvesting, JobEvent::CompareHarvested(h)) => {
            job.stage = JobStage::Finished;
            match &job.kind {
                JobKind::Compare(ids) => JobAction::Finish(compare_response(ids.as_slice(), h)),
                JobKind::Execute => JobAction::Finish(out_of_turn()),
            }
        },
        _ => {
            job.stage = JobStage::Finished;
            JobAction::Finish(out_of_turn())
        },
    }
}

/// A job that has not finished finishes exactly when its action is to remove
/// the scratch directory and reply; a finished job does nothing more. So on
/// every path (launch failure, harvest failure, success) the scratch
/// directory is removed, and only once.
pub proof fn lemma_cleanup_once(kind: JobKind, from: JobStage, e: JobEvent, stage: JobStage, action: JobAction)
    requires
        job_step_ok(kind, from, e, stage, action),
    ensures
        from is Finished ==> stage is Finished && action is Nothing,
        !(from is Finished) ==> (stage is Finished <==> action is Finish),
{
}

/// A launch failure, and any harvest of an execute job, each end the job with
/// the scratch directory removed and exactly one response.
pub proof fn lemma_paths_end_in_cleanup(
    err: String,
    h: Result<ExecuteResult, String>,
    stage1: JobStage,
    action1: JobAction,
    stage2: JobStage,
    action2: JobAction,
)
    requires
        job_step_ok(JobKind::Execute, JobStage::Launching, JobEvent::LaunchFailed(err), stage1, action1),
        job_step_ok(JobKind::Execute, JobStage::Harvesting, JobEvent::ExecuteHarvested(h), stage2, action2),
    ensures
        stage1 is Finished && action1 == JobAction::Finish(Response::Error(err)),
        stage2 is Finished && action2 == JobAction::Finish(execute_response_spec(h)),
{
}


/// The file in the scratch directory where the callback leaves the results
/// of a job of this kind.
pub fn result_file_name(kind: &JobKind) -> (r: &'static str)
    ensures
        kind is Execute ==> r@ == "execute.txt"@,
        kind is Compare ==> r@ == "compare.txt"@,
{
    match kind {
        JobKind::Execute => "execute.txt",
        JobKind::Compare(_) => "compare.txt",
    }
}


/// Whenever a compare job answers with results, there are as many results
/// as compared scripts and the ids map one for one: each id is carried by
/// as many results as scripts have it, every result's id is some script's,
/// and every script's id is carried by some result.
pub proof fn lemma_compare_results_answer_items(
    items: Seq<CompareRequest>,
    h: Result<Vec<CompareResult>, String>,
    r: Response,
)
    requires
        compare_response_ok(item_ids(items), h, r),
        r is Compare,
        r->Compare_0 is Ok,
    ensures
        r->Compare_0->Ok_0@.len() == items.len(),
        forall|v: u16| #[trigger] count_of(result_ids(r->Compare_0->Ok_0@), v) == count_of(item_ids(items), v),
        forall|j: int|
            0 <= j < r->Compare_0->Ok_0@.len() ==> #[trigger] item_ids(items).contains(
                r->Compare_0->Ok_0@[j].id,
            ),
        forall|i: int|
            0 <= i < items.len() ==> #[trigger] result_ids(r->Compare_0->Ok_0@).contains(
                items[i].id,
            ),
{
    let rs = r->Compare_0->Ok_0@;
    let ids = item_ids(items);
    let rids = result_ids(rs);
    assert forall|j: int| 0 <= j < rs.len() implies #[trigger] ids.contains(rs[j].id) by {
        let v = rs[j].id;
        assert(rids[j] == v);
        lemma_count_pos(rids, v);
        lemma_count_pos(ids, v);
        assert(count_of(rids, v) == count_of(ids, v));
        let i = choose|i: int| 0 <= i < ids.len() && ids[i] == v;
        assert(items[i].id == v);
    }
    assert forall|i: int| 0 <= i < items.len() implies #[trigger] rids.contains(items[i].id) by {
        let v = items[i].id;
        assert(ids[i] == v);
        lemma_count_pos(rids, v);
        lemma_count_pos(ids, v);
        assert(count_of(rids, v) == count_of(ids, v));
        let j = choose|j: int| 0 <= j < rids.len() && rids[j] == v;
        assert(rs[j].id == v);
    }
}

} // verus!
