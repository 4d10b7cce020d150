//! Leftovers: detecting an abnormal last exit or a port held by another
//! process, and the identity-checked cleanup of leftover service processes.
use vstd::prelude::*;

use crate::config::AppConfig;
use crate::logging::{NORMAL_SHUTDOWN_LINE, NORMAL_SHUTDOWN_MARK};
use crate::service::{
    first_pid, is_dsh_command, is_dsh_process, owns, owns_child, probe_hosts, probe_port,
    probe_result, ChildState,
};
use crate::text::{
    chars_of, contains, contains_str, decimal, decimal_exec, lemma_last_line_ends_with, lines,
    lines_exec, lowercase, match_at, push_all, push_str, string_of, trim, trim_ws,
};

verus! {

/// Leftover state, checked when the console loads.
pub struct StaleInfo {
    /// The service is not running and the log has no normal shutdown mark.
    pub abnormal_exit: bool,
    /// The port is held by a process that this application did not start.
    pub external_occupied: bool,
    /// Process listening on the port, when it is held.
    pub port_pid: Option<u32>,
}

/// How many lines at the end of the log are searched for the mark.
pub const RECENT_LINES: usize = 50;

/// The last `n` lines (all of them when there are fewer).
pub open spec fn last_lines(ls: Seq<Seq<char>>, n: nat) -> Seq<Seq<char>> {
    if ls.len() <= n {
        ls
    } else {
        ls.skip(ls.len() - n)
    }
}

/// One of the last fifty lines of the log holds the normal shutdown mark.
pub open spec fn recent_mark(log: Seq<char>) -> bool {
    let recent = last_lines(lines(log), RECENT_LINES as nat);
    exists|k: int| 0 <= k < recent.len() && contains(#[trigger] recent[k], NORMAL_SHUTDOWN_MARK@)
}

/// The last run ended abnormally: the port is free, the log has text and
/// none of its last fifty lines has the normal shutdown mark.
pub open spec fn abnormal_exit_of(log: Seq<char>, occupied: bool) -> bool {
    !occupied && trim(log).len() > 0 && !recent_mark(log)
}

/// Whether one of the last fifty lines of the log has the shutdown mark.
pub fn has_recent_mark(log: &str) -> (r: bool)
    ensures
        r == recent_mark(log@),
{
    let v = chars_of(log);
    let ls = lines_exec(&v);
    let ghost lv = lines(v@);
    let first: usize = if ls.len() <= RECENT_LINES {
        0
    } else {
        ls.len() - RECENT_LINES
    };
    let ghost recent = last_lines(lv, RECENT_LINES as nat);
    assert(recent == lv.skip(first as int));
    assert(recent.len() == lv.len() - first);
    let mut i: usize = first;
    while i < ls.len()
        invariant
            first <= i <= ls@.len(),
            ls@.len() == lv.len(),
            forall|k: int| 0 <= k < ls@.len() ==> #[trigger] ls@[k]@ == lv[k],
            recent == lv.skip(first as int),
            recent.len() == lv.len() - first,
            recent == last_lines(lines(log@), RECENT_LINES as nat),
            lv == lines(log@),
            forall|k: int| 0 <= k < i - first ==> !contains(#[trigger] recent[k], NORMAL_SHUTDOWN_MARK@),
        decreases ls.len() - i,
    {
        assert(recent[i - first] == lv[i as int]);
        if contains_str(&ls[i], NORMAL_SHUTDOWN_MARK) {
            assert(contains(recent[i - first], NORMAL_SHUTDOWN_MARK@));
            return true;
        }
        i = i + 1;
    }
    false
}

/// Leftover check. While this application runs the service there is
/// nothing to report; otherwise the log (`read_log`) and the port (`probe`,
/// then `pids` for its listener) are examined.
pub fn check_stale_info<L: Fn() -> String, P: Fn(&str, u16) -> bool, Q: Fn(u16) -> Vec<u32>>(
    cfg: &AppConfig,
    child: ChildState,
    read_log: &L,
    probe: &P,
    pids: &Q,
) -> (r: StaleInfo)
    requires
        call_requires(*read_log, ()),
        forall|s: &str, p: u16| call_requires(*probe, (s, p)),
        forall|p: u16| call_requires(*pids, (p,)),
    ensures
        owns(child) ==> !r.abnormal_exit && !r.external_occupied && r.port_pid is None,
        !owns(child) ==> exists|log: String, occupied: bool|
            #[trigger] call_ensures(*read_log, (), log) && #[trigger] probe_result(
                *probe,
                probe_hosts(cfg.web.host@),
                cfg.web.port,
                occupied,
            ) && r.abnormal_exit == abnormal_exit_of(log@, occupied) && r.external_occupied
                == occupied && if occupied {
                exists|v: Vec<u32>|
                    #[trigger] call_ensures(*pids, (cfg.web.port,), v) && r.port_pid == first_pid(
                        v@,
                    )
            } else {
                r.port_pid is None
            },
{
    if owns_child(child) {
        return StaleInfo { abnormal_exit: false, external_occupied: false, port_pid: None };
    }
    let log = read_log();
    let v = chars_of(log.as_str());
    let has_mark = has_recent_mark(log.as_str());
    let nonempty = trim_ws(&v).len() > 0;
    let occupied = probe_port(cfg, probe);
    let port_pid = if occupied {
        let ps = pids(cfg.web.port);
        if ps.len() > 0 {
            Some(ps[0])
        } else {
            None
        }
    } else {
        None
    };
    StaleInfo { abnormal_exit: !occupied && nonempty && !has_mark, external_occupied: occupied, port_pid }
}

/// A log that received the normal shutdown line has the mark on its last
/// line, so it is never read as an abnormal exit, whatever came before it.
pub proof fn lemma_shutdown_line_clears_abnormal(log: Seq<char>, occupied: bool)
    ensures
        recent_mark(log + NORMAL_SHUTDOWN_LINE@ + "\n"@),
        !abnormal_exit_of(log + NORMAL_SHUTDOWN_LINE@ + "\n"@, occupied),
{
    reveal_strlit("[dsh-desktop] --- normal shutdown ---");
    reveal_strlit("--- normal shutdown ---");
    reveal_strlit("\n");
    let t = NORMAL_SHUTDOWN_LINE@;
    assert("\n"@ == seq!['\n']);
    assert forall|k: int| 0 <= k < t.len() implies #[trigger] t[k] != '\n' by {}
    lemma_last_line_ends_with(log, t);
    let s = log + t + "\n"@;
    let ls = lines(s);
    let last = ls.last();
    let recent = last_lines(ls, RECENT_LINES as nat);
    let k = recent.len() - 1;
    assert(recent[k] == last);
    let i: int = last.len() - t.len() + 14;
    assert(last.subrange(last.len() - t.len(), last.len() as int) == t);
    let m = NORMAL_SHUTDOWN_MARK@;
    assert(t.len() == 14 + m.len());
    assert forall|j: int| 0 <= j < m.len() implies #[trigger] last.subrange(i, i + m.len())[j] == m[j] by {
        assert(t[14 + j] == m[j]);
        assert(last.subrange(last.len() - t.len(), last.len() as int)[14 + j] == t[14 + j]);
    }
    assert(last.subrange(i, i + m.len()) == m);
    assert(match_at(last, NORMAL_SHUTDOWN_MARK@, i));
    assert(contains(recent[k], NORMAL_SHUTDOWN_MARK@));
}

// ---------------------------------------------------------------- cleanup

/// Outcome of a cleanup request.
pub struct CleanResult {
    pub cleaned: bool,
    pub detail: String,
}

/// What the cleanup does next.
pub enum CleanPlan {
    /// Nothing to kill: the request ends with this answer.
    Done(Result<CleanResult, String>),
    /// Kill these confirmed `dsh web` processes (then wait, probe the port
    /// and report with [`clean_stale_finish`]).
    Kill(Vec<u32>),
}

/// Message when this application runs the service.
pub const CLEAN_OWNED: &'static str = "服务由本应用托管，无需清理";

/// Message when the port is free.
pub const CLEAN_PORT_FREE: &'static str = "未发现端口占用，无残留进程";

/// Message when no listener of the held port was found.
pub const CLEAN_NO_LISTENER: &'static str = "端口被占用但未定位到监听进程（可能是非 TCP 监听或权限受限）";

/// Message when the killed processes did not free the port.
pub const CLEAN_STILL_HELD: &'static str = "已结束 dsh 进程但端口仍被占用（可能还有其他进程绑定同一端口）";

/// Process ids joined by `, `.
pub open spec fn join_pids(ps: Seq<u32>) -> Seq<char>
    decreases ps.len(),
{
    if ps.len() == 0 {
        seq![]
    } else if ps.len() == 1 {
        decimal(ps[0] as nat)
    } else {
        decimal(ps[0] as nat) + ", "@ + join_pids(ps.drop_first())
    }
}

/// The process ids joined by `, `.
pub fn join_pids_exec(ps: &Vec<u32>) -> (r: Vec<char>)
    ensures
        r@ == join_pids(ps@),
    decreases ps@.len(),
{
    let mut i: usize = ps.len();
    let mut out: Vec<char> = Vec::new();
    assert(ps@.skip(ps@.len() as int).len() == 0);
    while i > 0
        invariant
            i <= ps@.len(),
            out@ == join_pids(ps@.skip(i as int)),
        decreases i,
    {
        let d = decimal_exec(ps[i - 1] as u64);
        let ghost tail = ps@.skip(i as int);
        let ghost s = ps@.skip(i - 1);
        assert(s[0] == ps@[i - 1]);
        assert(s.drop_first() == tail);
        if i == ps.len() {
            out = d;
        } else {
            let mut n = d;
            push_str(&mut n, ", ");
            push_all(&mut n, &out);
            out = n;
        }
        i = i - 1;
    }
    assert(ps@.skip(0) == ps@);
    out
}

/// The identity check: a process whose command line was read and is that of
/// the `dsh web` service.
pub open spec fn confirmed(cmdline: Option<String>) -> bool {
    cmdline matches Some(c) && is_dsh_command(lowercase(c@))
}

/// The confirmed ones among the listeners `ps`, whose command lines were read
/// as `outs`, in order.
pub open spec fn confirmed_pids(ps: Seq<u32>, outs: Seq<Option<String>>) -> Seq<u32>
    decreases ps.len(),
{
    if ps.len() == 0 || outs.len() == 0 {
        seq![]
    } else if confirmed(outs[0]) {
        seq![ps[0]] + confirmed_pids(ps.drop_first(), outs.drop_first())
    } else {
        confirmed_pids(ps.drop_first(), outs.drop_first())
    }
}

/// Each listener's command line was read with `cmdline`.
pub open spec fn read_each<C: Fn(u32) -> Option<String>>(
    cmdline: C,
    ps: Seq<u32>,
    outs: Seq<Option<String>>,
) -> bool {
    &&& outs.len() == ps.len()
    &&& forall|i: int| 0 <= i < ps.len() ==> call_ensures(cmdline, (ps[i],), #[trigger] outs[i])
}

/// Message when none of the listeners is a `dsh web` process.
pub open spec fn not_dsh_message(port: u16, ps: Seq<u32>) -> Seq<char> {
    "端口 "@ + decimal(port as nat) + " 的占用进程（PID "@ + join_pids(ps)
        + "）不是 dsh 服务，已中止清理以避免误杀"@
}

/// `r` is the answer `(cleaned, detail)`.
pub open spec fn answers(r: CleanPlan, cleaned: bool, detail: Seq<char>) -> bool {
    r matches CleanPlan::Done(Ok(c)) && c.cleaned == cleaned && c.detail@ == detail
}

/// Every confirmed process is one of the listeners, and its command line was
/// read as that of the `dsh web` service.
pub proof fn lemma_confirmed_are_dsh(ps: Seq<u32>, outs: Seq<Option<String>>)
    requires
        outs.len() == ps.len(),
    ensures
        forall|p: u32|
            #[trigger] confirmed_pids(ps, outs).contains(p) ==> exists|i: int|
                0 <= i < ps.len() && #[trigger] ps[i] == p && confirmed(outs[i]),
    decreases ps.len(),
{
    if ps.len() > 0 {
        let c = confirmed_pids(ps, outs);
        let t = ps.drop_first();
        let u = outs.drop_first();
        let rest = confirmed_pids(t, u);
        lemma_confirmed_are_dsh(t, u);
        assert forall|p: u32| #[trigger] c.contains(p) implies exists|i: int|
            0 <= i < ps.len() && #[trigger] ps[i] == p && confirmed(outs[i]) by {
            if confirmed(outs[0]) && p == ps[0] {
                assert(ps[0] == p);
            } else {
                if confirmed(outs[0]) {
                    let k = choose|k: int| 0 <= k < c.len() && c[k] == p;
                    assert(k != 0);
                    assert(c[k] == rest[k - 1]);
                    assert(rest.contains(p));
                } else {
                    assert(rest.contains(p));
                }
                let j = choose|j: int| 0 <= j < t.len() && #[trigger] t[j] == p && confirmed(u[j]);
                assert(ps[j + 1] == p);
                assert(outs[j + 1] == u[j]);
            }
        }
    }
}

/// Cleanup of a leftover service process: refused while this application
/// runs the service; otherwise the listeners of the held port (`pids`) are
/// identified by their command lines (`cmdline`), and only those confirmed
/// as `dsh web` are handed out for killing.
pub fn clean_stale_plan<P: Fn(&str, u16) -> bool, Q: Fn(u16) -> Vec<u32>, C: Fn(u32) -> Option<String>>(
    cfg: &AppConfig,
    child_present: bool,
    probe: &P,
    pids: &Q,
    cmdline: &C,
) -> (r: CleanPlan)
    requires
        forall|s: &str, p: u16| call_requires(*probe, (s, p)),
        forall|p: u16| call_requires(*pids, (p,)),
        forall|p: u32| call_requires(*cmdline, (p,)),
    ensures
        child_present ==> (r matches CleanPlan::Done(Err(m)) && m@ == CLEAN_OWNED@),
        !child_present ==> exists|occupied: bool|
            #[trigger] probe_result(*probe, probe_hosts(cfg.web.host@), cfg.web.port, occupied)
                && if !occupied {
                answers(r, false, CLEAN_PORT_FREE@)
            } else {
                exists|ps: Vec<u32>|
                    #[trigger] call_ensures(*pids, (cfg.web.port,), ps) && if ps@.len() == 0 {
                        answers(r, false, CLEAN_NO_LISTENER@)
                    } else {
                        exists|outs: Seq<Option<String>>|
                            #[trigger] read_each(*cmdline, ps@, outs) && if confirmed_pids(
                                ps@,
                                outs,
                            ).len() == 0 {
                                answers(r, false, not_dsh_message(cfg.web.port, ps@))
                            } else {
                                r matches CleanPlan::Kill(k) && k@ == confirmed_pids(ps@, outs)
                            }
                    }
            },
{
    if child_present {
        return CleanPlan::Done(Err(String::from_str(CLEAN_OWNED)));
    }
    let occupied = probe_port(cfg, probe);
    if !occupied {
        return CleanPlan::Done(
            Ok(CleanResult { cleaned: false, detail: String::from_str(CLEAN_PORT_FREE) }),
        );
    }
    let ps = pids(cfg.web.port);
    if ps.len() == 0 {
        return CleanPlan::Done(
            Ok(CleanResult { cleaned: false, detail: String::from_str(CLEAN_NO_LISTENER) }),
        );
    }
    let mut confirmed_list: Vec<u32> = Vec::new();
    let ghost mut outs: Seq<Option<String>> = seq![];
    let mut i: usize = 0;
    while i < ps.len()
        invariant
            i <= ps@.len(),
            forall|p: u32| call_requires(*cmdline, (p,)),
            outs.len() == i,
            forall|j: int| 0 <= j < i ==> call_ensures(*cmdline, (ps@[j],), #[trigger] outs[j]),
            confirmed_list@ == confirmed_pids(ps@.take(i as int), outs),
        decreases ps.len() - i,
    {
        let c = cmdline(ps[i]);
        let ok = match &c {
            Some(cl) => is_dsh_process(cl.as_str()),
            None => false,
        };
        proof {
            let outs2 = outs.push(c);
            let t = ps@.take(i + 1);
            lemma_confirmed_append(ps@.take(i as int), outs, ps@[i as int], c);
            assert(t == ps@.take(i as int).push(ps@[i as int]));
            outs = outs2;
        }
        if ok {
            confirmed_list.push(ps[i]);
        }
        i = i + 1;
    }
    assert(ps@.take(ps@.len() as int) == ps@);
    assert(read_each(*cmdline, ps@, outs));
    if confirmed_list.len() == 0 {
        let mut m = chars_of("端口 ");
        let d = decimal_exec(cfg.web.port as u64);
        push_all(&mut m, &d);
        push_str(&mut m, " 的占用进程（PID ");
        let j = join_pids_exec(&ps);
        push_all(&mut m, &j);
        push_str(&mut m, "）不是 dsh 服务，已中止清理以避免误杀");
        return CleanPlan::Done(Ok(CleanResult { cleaned: false, detail: string_of(&m) }));
    }
    CleanPlan::Kill(confirmed_list)
}

proof fn lemma_confirmed_append(ps: Seq<u32>, outs: Seq<Option<String>>, p: u32, o: Option<String>)
    requires
        outs.len() == ps.len(),
    ensures
        confirmed_pids(ps.push(p), outs.push(o)) == confirmed_pids(ps, outs) + if confirmed(o) {
            seq![p]
        } else {
            seq![]
        },
    decreases ps.len(),
{
    if ps.len() == 0 {
        assert(ps.push(p).drop_first().len() == 0);
        assert(outs.push(o).drop_first().len() == 0);
        assert(ps.push(p)[0] == p);
        assert(outs.push(o)[0] == o);
        assert(confirmed_pids(ps, outs) == Seq::<u32>::empty());
        if !confirmed(o) {
            assert(confirmed_pids(ps.push(p).drop_first(), outs.push(o).drop_first()) == Seq::<
                u32,
            >::empty());
        }
    } else {
        assert(ps.push(p).drop_first() == ps.drop_first().push(p));
        assert(outs.push(o).drop_first() == outs.drop_first().push(o));
        assert(ps.push(p)[0] == ps[0]);
        assert(outs.push(o)[0] == outs[0]);
        lemma_confirmed_append(ps.drop_first(), outs.drop_first(), p, o);
    }
}

/// Report after killing the confirmed processes: cleaned when the port is
/// free again.
pub fn clean_stale_finish(killed: &Vec<u32>, still_occupied: bool) -> (r: CleanResult)
    ensures
        still_occupied ==> !r.cleaned && r.detail@ == CLEAN_STILL_HELD@,
        !still_occupied ==> r.cleaned && r.detail@ == "已清理残留 dsh 进程: "@ + join_pids(killed@),
{
    if still_occupied {
        CleanResult { cleaned: false, detail: String::from_str(CLEAN_STILL_HELD) }
    } else {
        let mut m = chars_of("已清理残留 dsh 进程: ");
        let j = join_pids_exec(killed);
        push_all(&mut m, &j);
        CleanResult { cleaned: true, detail: string_of(&m) }
    }
}

} // verus!
