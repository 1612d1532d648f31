//! The log of requests to be connected to a peer.
use vstd::prelude::*;

use crate::clock::{elapsed_secs, spec_elapsed_secs};

verus! {

/// Seconds within which a repeated request is not logged again.
pub const PUNCH_REQ_DEDUPE_SEC: u64 = 60;

/// How far back the log is searched for a repeated request.
pub const PUNCH_REQ_TAIL: usize = 30;

/// A peer at `from_ip` asked, at `tm`, to be connected to `to_id`, which was at `to_ip`.
pub struct PunchReq {
    pub tm: u64,
    pub from_ip: String,
    pub to_ip: String,
    pub to_id: String,
}

#[verifier::ext_equal]
pub struct PunchReqView {
    pub tm: u64,
    pub from_ip: Seq<char>,
    pub to_ip: Seq<char>,
    pub to_id: Seq<char>,
}

impl View for PunchReq {
    type V = PunchReqView;

    open spec fn view(&self) -> PunchReqView {
        PunchReqView {
            tm: self.tm,
            from_ip: self.from_ip@,
            to_ip: self.to_ip@,
            to_id: self.to_id@,
        }
    }
}

impl PunchReqView {
    /// It is a request from `from_ip` for `to_id`.
    pub open spec fn is(self, from_ip: Seq<char>, to_id: Seq<char>) -> bool {
        self.from_ip == from_ip && self.to_id == to_id
    }
}

/// Entry `i` is the latest request from `from_ip` for `to_id` in the part of the log that is
/// searched.
pub open spec fn is_latest(
    log: Seq<PunchReqView>,
    i: int,
    from_ip: Seq<char>,
    to_id: Seq<char>,
) -> bool {
    &&& 0 <= i < log.len()
    &&& log.len() - PUNCH_REQ_TAIL <= i
    &&& log[i].is(from_ip, to_id)
    &&& forall|j: int| i < j < log.len() ==> !(#[trigger] log[j]).is(from_ip, to_id)
}

/// The request repeats one that was logged a moment ago.
pub open spec fn is_repeated(
    log: Seq<PunchReqView>,
    from_ip: Seq<char>,
    to_id: Seq<char>,
    now: u64,
) -> bool {
    exists|i: int| #[trigger]
        is_latest(log, i, from_ip, to_id) && spec_elapsed_secs(now, log[i].tm)
            < PUNCH_REQ_DEDUPE_SEC
}

/// The log after a request: with one more entry, unless it is a repeated one.
pub open spec fn request_logged(log: Seq<PunchReqView>, req: PunchReqView) -> Seq<PunchReqView> {
    if is_repeated(log, req.from_ip, req.to_id, req.tm) {
        log
    } else {
        log.push(req)
    }
}

/// The requests, in the order in which they came.
pub struct PunchLog {
    pub entries: Vec<PunchReq>,
}

impl View for PunchLog {
    type V = Seq<PunchReqView>;

    open spec fn view(&self) -> Seq<PunchReqView> {
        self.entries@.map_values(|e: PunchReq| e@)
    }
}

impl PunchLog {
    pub fn new() -> (r: PunchLog)
        ensures
            r@ == Seq::<PunchReqView>::empty(),
    {
        let r = PunchLog { entries: Vec::new() };
        assert(r@ =~= Seq::<PunchReqView>::empty());
        r
    }

    /// Whether a request repeats one that was logged a moment ago.
    pub fn repeats(&self, from_ip: &String, to_id: &String, now: u64) -> (r: bool)
        ensures
            r == is_repeated(self@, from_ip@, to_id@, now),
    {
        let n: usize = self.entries.len();
        let mut i: usize = n;
        while i > 0 && n - i < PUNCH_REQ_TAIL
            invariant
                i <= n,
                n == self.entries@.len(),
                n - i <= PUNCH_REQ_TAIL,
                forall|j: int| i <= j < n ==> !(#[trigger] self@[j]).is(from_ip@, to_id@),
            decreases i,
        {
            i -= 1;
            let e = &self.entries[i];
            assert(self@[i as int] == e@);
            if e.from_ip == *from_ip && e.to_id == *to_id {
                let again = elapsed_secs(now, e.tm) < PUNCH_REQ_DEDUPE_SEC;
                proof {
                    assert(is_latest(self@, i as int, from_ip@, to_id@));
                    assert forall|k: int| #[trigger]
                        is_latest(self@, k, from_ip@, to_id@) implies k == i by {
                        if k < i {
                            assert(self@[i as int].is(from_ip@, to_id@));
                        }
                    }
                }
                return again;
            }
        }
        assert forall|k: int| !#[trigger] is_latest(self@, k, from_ip@, to_id@) by {
            if is_latest(self@, k, from_ip@, to_id@) {
                assert(self@[k].is(from_ip@, to_id@));
            }
        }
        false
    }

    /// Logs a request, unless it repeats one that was logged a moment ago.
    pub fn record(&mut self, req: PunchReq)
        ensures
            final(self)@ == request_logged(old(self)@, req@),
    {
        if !self.repeats(&req.from_ip, &req.to_id, req.tm) {
            let ghost before = self@;
            self.entries.push(req);
            assert(self@ =~= before.push(req@));
        }
    }
}

/// A request that is logged is not logged again within the minute.
pub proof fn law_repeated_request_is_logged_once(
    log: Seq<PunchReqView>,
    first: PunchReqView,
    again: PunchReqView,
)
    requires
        !is_repeated(log, first.from_ip, first.to_id, first.tm),
        again.is(first.from_ip, first.to_id),
        spec_elapsed_secs(again.tm, first.tm) < PUNCH_REQ_DEDUPE_SEC,
    ensures
        request_logged(request_logged(log, first), again) == request_logged(log, first),
{
    let l = log.push(first);
    assert(is_latest(l, log.len() as int, first.from_ip, first.to_id));
}

/// A request that no entry of the log resembles is logged, at the end.
pub proof fn law_new_request_is_logged(log: Seq<PunchReqView>, req: PunchReqView)
    requires
        forall|i: int| 0 <= i < log.len() ==> !(#[trigger] log[i]).is(req.from_ip, req.to_id),
    ensures
        request_logged(log, req) == log.push(req),
{
}

/// Of the last thirty requests, the latest one from the same IP for the same id decides: where it is
/// less than a minute old the request is not logged again, and otherwise it is.
pub proof fn law_latest_request_decides(log: Seq<PunchReqView>, i: int, req: PunchReqView)
    requires
        0 <= i < log.len(),
        log.len() - i <= 30,
        log[i].from_ip == req.from_ip,
        log[i].to_id == req.to_id,
        forall|j: int|
            i < j < log.len() ==> (#[trigger] log[j]).from_ip != req.from_ip || log[j].to_id
                != req.to_id,
    ensures
        req.tm - log[i].tm < 60_000_000_000 ==> request_logged(log, req) == log,
        req.tm - log[i].tm >= 60_000_000_000 ==> request_logged(log, req) == log.push(req),
{
    assert(is_latest(log, i, req.from_ip, req.to_id));
    assert forall|k: int| #[trigger] is_latest(log, k, req.from_ip, req.to_id) implies k == i by {
        if k < i {
            assert(log[i].is(req.from_ip, req.to_id));
        } else if i < k {
            assert(log[k].is(req.from_ip, req.to_id));
        }
    }
}

/// A request that none of the last thirty resembles is logged, at the end, whatever came before
/// them; and no request ever changes an earlier entry.
pub proof fn law_only_the_last_thirty_are_searched(log: Seq<PunchReqView>, req: PunchReqView)
    ensures
        (forall|j: int|
            0 <= j < log.len() && log.len() - j <= 30 ==> (#[trigger] log[j]).from_ip != req.from_ip
                || log[j].to_id != req.to_id) ==> request_logged(log, req) == log.push(req),
        request_logged(log, req).len() >= log.len(),
        request_logged(log, req).take(log.len() as int) == log,
{
    assert(log.push(req).take(log.len() as int) =~= log);
    assert(log.take(log.len() as int) =~= log);
    if is_repeated(log, req.from_ip, req.to_id, req.tm) {
        let i = choose|i: int| #[trigger]
            is_latest(log, i, req.from_ip, req.to_id) && spec_elapsed_secs(req.tm, log[i].tm) < 60;
        assert(log[i].is(req.from_ip, req.to_id));
    }
}

} // verus!
