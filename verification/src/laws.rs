//! Properties that relate several operations of the library.
use vstd::prelude::*;

use crate::access::{AccessFailure, access_failure_report};
use crate::error::{IoFailureView, WebServerErrorView, error_text};
use crate::ip::{IpAddress, ip_display};
use crate::assets::{allowed_segment, allowed_segments, default_extension_set, is_static_extension, join_segments, sanitized, split_segments};
use crate::manager::{admitted, after_run, is_bind_failure, marked_starting, registry_wf, start_wait_outcome, starts_now};
use crate::runtime::TaskType;
use crate::server::{MAX_RETRY_ATTEMPTS, RETRY_DELAY_MS, ShutdownAction, ShutdownPhase, WebServerView, shutdown_step};
use crate::status::ServerStatus;
use crate::text::{decimal, digit_char, occurs_at};

verus! {

/// A retry scheduled at time `t`, while more than one attempt is left, is due
/// exactly from `t` plus the retry delay on.
pub proof fn law_retry_waits_for_delay(s: WebServerView, t: u64, now: u64)
    requires
        s.retry_count + 1 < MAX_RETRY_ATTEMPTS,
        t + RETRY_DELAY_MS <= u64::MAX,
    ensures
        s.retry_scheduled(t).retry_due(now) <==> now >= t + RETRY_DELAY_MS,
        s.retry_scheduled(t).status == ServerStatus::Retrying,
        s.retry_scheduled(t).retry_count == s.retry_count + 1,
{
}

/// No retry is ever due once `MAX_RETRY_ATTEMPTS` retries were scheduled, and
/// scheduling one more then makes the server fail with "Max retry attempts reached".
pub proof fn law_retries_are_bounded(s: WebServerView, t: u64, now: u64)
    requires
        s.retry_count >= MAX_RETRY_ATTEMPTS,
    ensures
        !s.retry_due(now),
        s.retry_scheduled(t).status == ServerStatus::Failed,
        s.retry_scheduled(t).last_error == Some("Max retry attempts reached"@),
        s.retry_scheduled(t).retry_count == s.retry_count,
{
}

/// After the retry counter is reset, a retry is due at once.
pub proof fn law_reset_retry_is_due(s: WebServerView, now: u64)
    ensures
        (WebServerView { retry_count: 0, next_retry_time: None, ..s }).retry_due(now),
{
}

/// A server whose shutdown was requested is never picked by the start pass; a
/// graceful shutdown request is seen as one.
pub proof fn law_no_restart_after_shutdown_request(s: WebServerView, now: u64)
    requires
        s.status.spec_shutdown_requested(),
    ensures
        !starts_now(s, now),
        ServerStatus::Shutdown.spec_shutdown_requested(),
        ServerStatus::ShuttingDown.spec_shutdown_requested(),
{
}

/// A server that has an accept-loop task is never picked by the start pass, so
/// a started server is not started twice.
pub proof fn law_no_second_accept_loop(s: WebServerView, now: u64)
    requires
        s.tasks.contains(TaskType::Server),
    ensures
        !starts_now(s, now),
{
}

/// A server waiting to start, without an accept loop, is picked by the start
/// pass; once its accept loop is attached it is not picked again. A server that
/// was stopped on request is never picked.
pub proof fn law_waiting_server_starts_once(s: WebServerView, now: u64)
    requires
        s.status == ServerStatus::Starting,
        !s.tasks.contains(TaskType::Server),
    ensures
        starts_now(s, now),
        marked_starting(s).status == ServerStatus::Starting,
        !starts_now(WebServerView { tasks: s.tasks.insert(TaskType::Server), ..marked_starting(s) }, now),
        !starts_now(s.stopped(), now),
{
}

/// The start pass picks only servers that wait to start: `Starting`, or
/// `Retrying` with the retry due, and without an accept loop. A server that is
/// running, stopped, shut down, shutting down or failed is never picked.
pub proof fn law_start_pass_picks_only_waiting_servers(s: WebServerView, now: u64)
    ensures
        starts_now(s, now) ==> {
            ||| s.status == ServerStatus::Starting
            ||| (s.status == ServerStatus::Retrying && s.retry_due(now))
        },
        starts_now(s, now) ==> !s.tasks.contains(TaskType::Server),
        s.status == ServerStatus::Failed ==> !starts_now(s, now),
        s.status == ServerStatus::Running ==> !starts_now(s, now),
        s.status == ServerStatus::Stopped ==> !starts_now(s, now),
        s.status == ServerStatus::Retrying && !s.retry_due(now) ==> !starts_now(s, now),
{
}

/// A stopped server has no task left, and stopping twice is stopping once.
pub proof fn law_stop_is_idempotent(s: WebServerView)
    ensures
        s.stopped().tasks == Set::<TaskType>::empty(),
        s.stopped().stopped() == s.stopped(),
{
}

/// The error text that a failed bind displays ("Failed to bind to …") counts as
/// a bind failure, so the server is retried rather than failed for good.
pub proof fn law_bind_failure_is_retried(s: WebServerView, rest: Seq<char>, now: u64)
    requires
        s.retry_count < MAX_RETRY_ATTEMPTS,
    ensures
        is_bind_failure("Failed to bind to "@ + rest),
        after_run(s, Some("Failed to bind to "@ + rest), now).status == ServerStatus::Retrying,
{
    let text = "Failed to bind to "@ + rest;
    reveal_strlit("Failed to bind to ");
    reveal_strlit("bind");
    assert(text.subrange(10, 14) =~= "bind"@);
    assert(occurs_at(text, "bind"@, 10));
}

/// Registering a server (what `WebServerManager::add_server` does: nothing on a
/// taken port, else the admitted server under its port) keeps every server under
/// its own port and within the retry limit, and the registry grows by one exactly
/// when the port was free.
pub proof fn law_add_server_keeps_registry(
    m: Map<u16, WebServerView>,
    server: WebServerView,
    bind_error: Option<Seq<char>>,
    now: u64,
)
    requires
        m.dom().finite(),
        registry_wf(m),
        server.retry_count <= MAX_RETRY_ATTEMPTS,
    ensures
        ({
            let after = if m.contains_key(server.port) {
                m
            } else {
                m.insert(server.port, admitted(server, bind_error, now))
            };
            &&& registry_wf(after)
            &&& after.len() == if m.contains_key(server.port) { m.len() } else { m.len() + 1 }
        }),
{
    if !m.contains_key(server.port) {
        let after = m.insert(server.port, admitted(server, bind_error, now));
        assert(after.dom() =~= m.dom().insert(server.port));
        assert forall|p: u16| #[trigger] after.contains_key(p) implies after[p].port == p
            && after[p].retry_count <= MAX_RETRY_ATTEMPTS by {
            if p != server.port {
                assert(m.contains_key(p));
            }
        }
    }
}

/// The text that a bind failure displays counts as a bind failure, so a server
/// whose accept loop ends with that error is retried while retries are left.
pub proof fn law_bind_failed_error_is_retried(ip: IpAddress, port: u16, source: IoFailureView, s: WebServerView, now: u64)
    requires
        s.retry_count < MAX_RETRY_ATTEMPTS,
    ensures
        is_bind_failure(error_text(WebServerErrorView::BindFailed { ip, port, source })),
        after_run(s, Some(error_text(WebServerErrorView::BindFailed { ip, port, source })), now).status
            == ServerStatus::Retrying,
{
    let rest = ip_display(ip) + seq![':'] + decimal(port as nat) + ": "@ + source.message;
    assert(error_text(WebServerErrorView::BindFailed { ip, port, source }) =~= "Failed to bind to "@ + rest);
    law_bind_failure_is_retried(s, rest, now);
}

/// An error text that mentions neither "already in use" nor "bind" leaves the
/// server failed, with the text recorded.
pub proof fn law_other_failure_is_final(s: WebServerView, text: Seq<char>, now: u64)
    requires
        !is_bind_failure(text),
    ensures
        after_run(s, Some(text), now).status == ServerStatus::Failed,
        after_run(s, Some(text), now).last_error == Some(text),
{
}

/// A server registered with a failed bind test waits for its first retry, one
/// retry delay after registration.
pub proof fn law_bind_test_failure_schedules_retry(s: WebServerView, error: Seq<char>, now: u64)
    requires
        s.retry_count < MAX_RETRY_ATTEMPTS,
        now + RETRY_DELAY_MS <= u64::MAX,
    ensures
        admitted(s, Some(error), now).status == ServerStatus::Retrying,
        admitted(s, Some(error), now).last_error == Some(error),
        admitted(s, Some(error), now).next_retry_time == Some((now + RETRY_DELAY_MS) as u64),
        admitted(s, None, now) == s,
{
}

/// Registering a server keeps every server under its own port, within the
/// retry bound.
pub proof fn law_registration_keeps_registry(m: Map<u16, WebServerView>, s: WebServerView, error: Option<Seq<char>>, now: u64)
    requires
        registry_wf(m),
        s.retry_count <= MAX_RETRY_ATTEMPTS,
    ensures
        registry_wf(m.insert(s.port, admitted(s, error, now))),
{
    let m2 = m.insert(s.port, admitted(s, error, now));
    assert forall|p: u16| #[trigger] m2.contains_key(p) implies m2[p].port == p && m2[p].retry_count <= MAX_RETRY_ATTEMPTS by {
        if p != s.port {
            assert(m.contains_key(p));
        }
    }
}

/// A graceful shutdown never reports success while a connection is open,
/// always finishes once its deadline has passed, and only waits while time is left.
pub proof fn law_graceful_shutdown_outcome(phase: ShutdownPhase, elapsed: u64, timeout: u64, running: bool, active: nat)
    ensures
        shutdown_step(phase, elapsed, timeout, running, active) == ShutdownAction::Finish(true) ==> active == 0,
        elapsed >= timeout ==> shutdown_step(phase, elapsed, timeout, running, active) is Finish,
        shutdown_step(phase, elapsed, timeout, running, active) is Sleep ==> elapsed < timeout,
        active == 0 && !running ==> shutdown_step(phase, elapsed, timeout, running, active) == ShutdownAction::Finish(true),
{
}

/// While connections are open and the deadline has not passed, a graceful
/// shutdown keeps waiting, whichever phase it is in; it never cuts open
/// connections early.
pub proof fn law_shutdown_waits_for_open_connections(phase: ShutdownPhase, elapsed: u64, timeout: u64, running: bool, active: nat)
    requires
        active > 0,
        elapsed < timeout,
    ensures
        shutdown_step(phase, elapsed, timeout, running, active) is Sleep,
        !running ==> shutdown_step(phase, elapsed, timeout, running, active) == ShutdownAction::Sleep(
            ShutdownPhase::AwaitConnections,
        ),
{
}

/// Waiting for a start succeeds exactly for a registered server that is
/// `Running`; a server in any other state never counts as started.
pub proof fn law_start_wait_succeeds_only_when_running(m: Map<u16, WebServerView>, port: u16, elapsed: u64, timeout: u64)
    ensures
        start_wait_outcome(m, port, elapsed, timeout) == Some(Ok::<(), WebServerErrorView>(()))
            <==> (m.contains_key(port) && m[port].status == ServerStatus::Running),
        m.contains_key(port) && m[port].status == ServerStatus::Retrying ==> start_wait_outcome(m, port, elapsed, timeout) matches Some(Err(_)),
{
}

/// Every failure to reach the ECS world is reported as a missing resource or as
/// a configuration error.
pub proof fn law_access_failures_are_resource_or_config(f: AccessFailure)
    ensures
        access_failure_report(f) is ResourceExhausted || access_failure_report(f) is ConfigError,
{
}

/// With no configured set, the default extensions are static assets and a file
/// without extension never is.
pub proof fn law_default_static_extensions()
    ensures
        is_static_extension(Some("css"@), None),
        is_static_extension(Some("png"@), None),
        !is_static_extension(None, None),
        !is_static_extension(None, Some(default_extension_set())),
{
    assert(default_extension_set().contains("css"@));
    assert(default_extension_set().contains("png"@));
}

/// An extension just added to a set is in it, one just removed is not, and a
/// cleared set holds none.
pub proof fn law_extension_set_updates(set: Set<Seq<char>>, e: Seq<char>)
    ensures
        set.insert(e).contains(e),
        !set.remove(e).contains(e),
        !Set::<Seq<char>>::empty().contains(e),
        set.insert(e).remove(e) == set.remove(e),
{
    assert(set.insert(e).remove(e) =~= set.remove(e));
}

/// An operation on one port leaves the server of every other port as it was,
/// and removing a port frees it for a new registration.
pub proof fn law_ports_are_independent(m: Map<u16, WebServerView>, p: u16, s: WebServerView, q: u16)
    requires
        p != q,
    ensures
        m.insert(p, s).contains_key(q) == m.contains_key(q),
        m.contains_key(q) ==> m.insert(p, s)[q] == m[q],
        m.remove(p).contains_key(q) == m.contains_key(q),
        m.contains_key(q) ==> m.remove(p)[q] == m[q],
        !m.remove(p).contains_key(p),
{
}

/// A number is written with at least one character, and only with decimal digits.
pub proof fn law_decimal_digits(n: nat)
    ensures
        decimal(n).len() >= 1,
        forall|i: int| 0 <= i < decimal(n).len() ==> '0' <= #[trigger] decimal(n)[i] <= '9',
    decreases n,
{
    if n >= 10 {
        law_decimal_digits(n / 10);
        assert forall|i: int| 0 <= i < decimal(n).len() implies '0' <= #[trigger] decimal(n)[i] <= '9' by {
            if i < decimal(n / 10).len() {
                assert(decimal(n)[i] == decimal(n / 10)[i]);
            } else {
                assert(decimal(n)[i] == digit_char(n % 10));
            }
        }
    }
}

/// Every segment of a path is free of `/`.
proof fn lemma_segments_have_no_slash(path: Seq<char>)
    ensures
        split_segments(path).len() >= 1,
        forall|i: int| 0 <= i < split_segments(path).len() ==> !(#[trigger] split_segments(path)[i]).contains('/'),
    decreases path.len(),
{
    if path.len() > 0 {
        let before = path.drop_last();
        lemma_segments_have_no_slash(before);
        let prev = split_segments(before);
        if path.last() != '/' {
            assert forall|i: int| 0 <= i < split_segments(path).len() implies !(#[trigger] split_segments(path)[i]).contains('/') by {
                if i == prev.len() - 1 {
                    let seg = prev.last().push(path.last());
                    if seg.contains('/') {
                        let k = choose|k: int| 0 <= k < seg.len() && seg[k] == '/';
                        if k < prev.last().len() {
                            assert(prev.last()[k] == '/');
                            assert(prev.last().contains('/'));
                        }
                    }
                }
            }
        } else {
            assert forall|i: int| 0 <= i < split_segments(path).len() implies !(#[trigger] split_segments(path)[i]).contains('/') by {
                if i < prev.len() {
                    assert(split_segments(path)[i] == prev[i]);
                }
            }
        }
    }
}

/// A text without `/` that follows a `/` becomes the last segment.
proof fn lemma_split_after_slash(a: Seq<char>, b: Seq<char>)
    requires
        !b.contains('/'),
    ensures
        split_segments(a + seq!['/'] + b) == split_segments(a).push(b),
    decreases b.len(),
{
    if b.len() == 0 {
        let s = a + seq!['/'];
        assert(a + seq!['/'] + b =~= s);
        assert(s.drop_last() =~= a);
        assert(s.len() > 0);
        assert(s.last() == '/');
        assert(b =~= Seq::<char>::empty());
        assert(split_segments(s) == split_segments(s.drop_last()).push(Seq::<char>::empty()));
    } else {
        let b2 = b.drop_last();
        assert(!b2.contains('/')) by {
            if b2.contains('/') {
                let k = choose|k: int| 0 <= k < b2.len() && b2[k] == '/';
                assert(b[k] == '/');
            }
        }
        lemma_split_after_slash(a, b2);
        let s = a + seq!['/'] + b;
        assert(s.drop_last() =~= a + seq!['/'] + b2);
        assert(s.last() == b.last());
        assert(b.last() != '/') by {
            assert(b[b.len() - 1] == b.last());
        }
        assert(b2.push(b.last()) =~= b);
        assert(split_segments(s) =~= split_segments(a).push(b));
    }
}

/// A text without `/` is a single segment.
proof fn lemma_split_single(b: Seq<char>)
    requires
        !b.contains('/'),
    ensures
        split_segments(b) == seq![b],
    decreases b.len(),
{
    if b.len() > 0 {
        let b2 = b.drop_last();
        assert(!b2.contains('/')) by {
            if b2.contains('/') {
                let k = choose|k: int| 0 <= k < b2.len() && b2[k] == '/';
                assert(b[k] == '/');
            }
        }
        lemma_split_single(b2);
        assert(b.last() != '/') by {
            assert(b[b.len() - 1] == b.last());
        }
        assert(b2.push(b.last()) =~= b);
        assert(split_segments(b) =~= seq![b]);
    } else {
        assert(b =~= Seq::<char>::empty());
    }
}

/// Joining segments without `/` and splitting the result gives them back.
proof fn lemma_split_join(segments: Seq<Seq<char>>)
    requires
        segments.len() >= 1,
        forall|i: int| 0 <= i < segments.len() ==> !(#[trigger] segments[i]).contains('/'),
    ensures
        split_segments(join_segments(segments)) == segments,
    decreases segments.len(),
{
    if segments.len() == 1 {
        lemma_split_single(segments[0]);
        assert(seq![segments[0]] =~= segments);
    } else {
        let front = segments.drop_last();
        assert forall|i: int| 0 <= i < front.len() implies !(#[trigger] front[i]).contains('/') by {
            assert(front[i] == segments[i]);
        }
        lemma_split_join(front);
        assert(!segments.last().contains('/')) by {
            assert(segments[segments.len() - 1] == segments.last());
        }
        lemma_split_after_slash(join_segments(front), segments.last());
        assert(front.push(segments.last()) =~= segments);
    }
}

/// A sanitized path has no `..` segment: it cannot climb above the directory
/// it starts from.
pub proof fn law_sanitized_path_stays_inside(path: Seq<char>)
    ensures
        forall|i: int| 0 <= i < split_segments(sanitized(path)).len() ==> allowed_segment(#[trigger] split_segments(sanitized(path))[i]),
{
    let segs = split_segments(path);
    let kept = segs.filter(allowed_segments());
    lemma_segments_have_no_slash(path);
    broadcast use vstd::seq_lib::group_filter_ensures;
    assert forall|i: int| 0 <= i < kept.len() implies !(#[trigger] kept[i]).contains('/') && allowed_segment(kept[i]) by {
        assert(allowed_segments()(kept[i]));
        assert(segs.contains(kept[i])) by {
            segs.lemma_filter_contains_rev(allowed_segments(), kept[i]);
        }
        let k = choose|k: int| 0 <= k < segs.len() && segs[k] == kept[i];
        assert(!segs[k].contains('/'));
    }
    if kept.len() == 0 {
        assert(sanitized(path) =~= Seq::<char>::empty());
        assert(split_segments(Seq::<char>::empty()) == seq![Seq::<char>::empty()]);
        reveal_strlit("..");
        assert(Seq::<char>::empty() != ".."@) by {
            assert(".."@.len() == 2);
        }
    } else {
        lemma_split_join(kept);
    }
}

} // verus!
