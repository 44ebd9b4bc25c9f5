//! What each call does to the entries of the consent freshness process, and
//! what it hands back, field by field.
use crate::conncheck;
use crate::consent::{Config, ConsentCheck, ConsentFreshness, ConsentFreshnessPoll};
use crate::consent::{ConsentView, Entry};
use crate::search;
use crate::time;
use crate::time::{Duration, Instant};
use vstd::prelude::*;

verus! {

/// A later point in time is reached exactly where the span and the sum fit, and
/// lies that many nanoseconds ahead.
pub proof fn law_instant_plus_duration(instant: Instant, duration: Duration)
    ensures
        time::reaches(instant, duration) <==> duration.nanos <= 0x7fff_ffff_ffff_ffff
            && instant.nanos + duration.nanos <= 0x7fff_ffff_ffff_ffff,
        time::reaches(instant, duration) ==> time::later(instant, duration).nanos
            == instant.nanos + duration.nanos,
{
}

/// The view shows every entry and the configuration.
pub proof fn law_process_is_seen_whole(process: ConsentFreshness)
    ensures
        process@.entries == process.entries@,
        process@.config == process.config,
{
}

/// The interval of a draw is the configured one times 0.8 to 1.2, in even steps
/// of the draw and cut to whole nanoseconds, but four seconds where that is
/// less.
pub proof fn law_interval_follows_the_draw(config: Config, draw: u32)
    ensures
        ({
            let r = config.interval_nanos(draw);
            let n = config.interval.nanos as int;
            &&& r >= 4_000_000_000
            &&& r > 4_000_000_000 ==> 0xa_0000_0000 * r <= n * (0x8_0000_0000 + 4 * draw)
            &&& n * (0x8_0000_0000 + 4 * draw) < 0xa_0000_0000 * (r + 1)
        }),
{
    let n = config.interval.nanos as int;
    let f = 0x2_0000_0000 + draw;
    let p = n * f;
    let scaled = p / 0x2_8000_0000;
    assert(p >= 0) by (nonlinear_arith)
        requires
            n >= 0,
            f >= 0,
            p == n * f,
    ;
    assert(n * (0x8_0000_0000 + 4 * draw) == 4 * p) by (nonlinear_arith)
        requires
            p == n * f,
            f == 0x2_0000_0000 + draw,
    ;
    assert(0x2_8000_0000 * scaled <= p < 0x2_8000_0000 * (scaled + 1));
    assert(config.interval_nanos(draw) == if scaled < 4_000_000_000 {
        4_000_000_000
    } else {
        scaled
    });
}

/// A check that is scheduled is due that interval later.
pub proof fn law_next_check_is_an_interval_away(config: Config, now: Instant, draw: u32)
    requires
        now.nanos + config.interval_nanos(draw) <= 0x7fff_ffff_ffff_ffff,
    ensures
        config.next_send(now, draw).nanos == now.nanos + config.interval_nanos(draw),
{
    law_interval_follows_the_draw(config, draw);
}

/// A check can be scheduled wherever six fifths of the interval, and four
/// seconds, are left, and every interval of less than 2^64 seconds can be
/// scaled.
pub proof fn law_scheduling_is_possible(config: Config, now: Instant)
    ensures
        config.interval.nanos < 0x1_0000_0000_0000_0000 * 1_000_000_000 ==> config.scalable(),
        ({
            let n = config.interval.nanos;
            &&& 6 * n <= 5 * 0x7fff_ffff_ffff_ffff
            &&& 5 * now.nanos + 6 * n <= 5 * 0x7fff_ffff_ffff_ffff
            &&& now.nanos + 4_000_000_000 <= 0x7fff_ffff_ffff_ffff
        }) ==> config.schedulable(now),
{
    let n = config.interval.nanos as int;
    assert(0x1_0000_0000_0000_0000 * 1_000_000_000 * 0x3_0000_0000 <= u128::MAX);
    if n < 0x1_0000_0000_0000_0000 * 1_000_000_000 {
        assert(n * 0x3_0000_0000 <= 0x1_0000_0000_0000_0000 * 1_000_000_000 * 0x3_0000_0000);
    }
    assert forall|draw: u32| true implies config.interval_nanos(draw) == 4_000_000_000 || 5
        * #[trigger] config.interval_nanos(draw) <= 6 * n by {
        let r = config.interval_nanos(draw);
        law_interval_follows_the_draw(config, draw);
        assert(n * (0x8_0000_0000 + 4 * draw) <= 0xc_0000_0000 * n) by (nonlinear_arith)
            requires
                n >= 0,
                draw <= 0xffff_ffff,
        ;
        assert(r == 4_000_000_000 || 5 * r <= 6 * n);
    }
}

/// A poll reports the first entry that has been revoked, whatever else is due,
/// and takes it out: the last entry moves into its place, and every other one
/// stays.
pub proof fn law_poll_reports_the_first_revoked(
    view: ConsentView,
    now: Instant,
    r: ConsentFreshnessPoll,
    i: int,
    j: int,
)
    requires
        view.answers(now, r),
        0 <= i < view.entries.len(),
        view.entries[i].revoked,
        forall|k: int| 0 <= k < i ==> !(#[trigger] view.entries[k]).revoked,
    ensures
        r == (ConsentFreshnessPoll::ConsentRevoked {
            stream_id: view.entries[i].stream_id,
            component_id: view.entries[i].component_id,
        }),
        view.polled().entries.len() == view.entries.len() - 1,
        0 <= j < view.entries.len() - 1 ==> view.polled().entries[j] == view.entries[if j == i {
            view.entries.len() - 1
        } else {
            j
        }],
        view.polled().config == view.config,
{
    search::lemma_first_found(view.entries, |e: Entry| e.revoked, i);
}

/// Where nothing has been revoked, a poll changes nothing.  It reports the first
/// entry whose timeout has run out or whose next check is due: expired where the
/// timeout has run out, and otherwise a check that is to be sent.
pub proof fn law_poll_reports_the_first_due(
    view: ConsentView,
    now: Instant,
    r: ConsentFreshnessPoll,
    i: int,
)
    requires
        view.answers(now, r),
        forall|k: int| 0 <= k < view.entries.len() ==> !(#[trigger] view.entries[k]).revoked,
        0 <= i < view.entries.len(),
        now.nanos >= view.entries[i].last_consent_received.nanos + view.config.timeout.nanos
            || now.nanos >= view.entries[i].next_send.nanos,
        forall|k: int|
            #![trigger view.entries[k]]
            0 <= k < i ==> now.nanos < view.entries[k].last_consent_received.nanos
                + view.config.timeout.nanos && now.nanos < view.entries[k].next_send.nanos,
    ensures
        view.polled() == view,
        now.nanos >= view.entries[i].last_consent_received.nanos + view.config.timeout.nanos ==> r
            == (ConsentFreshnessPoll::ConsentExpired {
            stream_id: view.entries[i].stream_id,
            component_id: view.entries[i].component_id,
        }),
        now.nanos < view.entries[i].last_consent_received.nanos + view.config.timeout.nanos ==> r
            == (ConsentFreshnessPoll::SendCheck {
            stream_id: view.entries[i].stream_id,
            component_id: view.entries[i].component_id,
        }),
{
    search::lemma_first_absent(view.entries, |e: Entry| e.revoked);
    search::lemma_first_found(view.entries, |e: Entry| e.due(view.config, now), i);
}

/// Where nothing has been revoked and nothing is due, a poll changes nothing and
/// says to wait: an hour if nothing is tracked, and otherwise until the least of
/// the times at which a timeout runs out or a check is due.
pub proof fn law_poll_waits_for_the_least(
    view: ConsentView,
    now: Instant,
    r: ConsentFreshnessPoll,
    j: int,
)
    requires
        view.answers(now, r),
        forall|k: int|
            #![trigger view.entries[k]]
            0 <= k < view.entries.len() ==> !view.entries[k].revoked && now.nanos
                < view.entries[k].last_consent_received.nanos + view.config.timeout.nanos
                && now.nanos < view.entries[k].next_send.nanos,
    ensures
        view.polled() == view,
        r is WaitUntil,
        view.entries.len() == 0 ==> r->0.nanos == now.nanos + 3_600_000_000_000,
        0 <= j < view.entries.len() ==> {
            &&& r->0.nanos <= view.entries[j].last_consent_received.nanos
                + view.config.timeout.nanos
            &&& r->0.nanos <= view.entries[j].next_send.nanos
        },
        view.entries.len() > 0 ==> exists|k: int|
            #![trigger view.entries[k]]
            0 <= k < view.entries.len() && (r->0.nanos
                == view.entries[k].last_consent_received.nanos + view.config.timeout.nanos
                || r->0.nanos == view.entries[k].next_send.nanos),
{
    search::lemma_first_absent(view.entries, |e: Entry| e.revoked);
    search::lemma_first_absent(view.entries, |e: Entry| e.due(view.config, now));
    if view.entries.len() > 0 {
        let k = choose|k: int|
            0 <= k < view.entries.len() && #[trigger] view.entries[k].wake(view.config)
                == r->0.nanos;
        assert(0 <= k < view.entries.len() && view.entries[k].wake(view.config) == r->0.nanos);
        if 0 <= j < view.entries.len() {
            assert(r->0.nanos <= view.entries[j].wake(view.config));
        }
    }
}

/// A poll can be made wherever something has been revoked, and wherever every
/// timeout and the idle hour end within the range of instants.
pub proof fn law_poll_is_possible(view: ConsentView, now: Instant, i: int)
    ensures
        0 <= i < view.entries.len() && view.entries[i].revoked ==> view.pollable(now),
        ({
            &&& view.config.timeout.nanos <= 0x7fff_ffff_ffff_ffff
            &&& forall|k: int|
                #![trigger view.entries[k]]
                0 <= k < view.entries.len() ==> view.entries[k].last_consent_received.nanos
                    + view.config.timeout.nanos <= 0x7fff_ffff_ffff_ffff
            &&& now.nanos + 3_600_000_000_000 <= 0x7fff_ffff_ffff_ffff
        }) ==> view.pollable(now),
{
    if 0 <= i < view.entries.len() && view.entries[i].revoked {
        search::lemma_first_exists(view.entries, |e: Entry| e.revoked, i);
    }
}

/// Starting appends the entry and keeps exactly the entries that have another
/// stream or another component, in their order.
pub proof fn law_start_appends(view: ConsentView, entry: Entry, e: Entry)
    ensures
        ({
            let after = view.started(entry);
            &&& after.entries.last() == entry
            &&& after.entries.drop_last() == view.stopped(
                entry.stream_id,
                entry.component_id,
            ).entries
            &&& after.config == view.config
            &&& after.entries.drop_last().contains(e) <==> view.entries.contains(e)
                && (e.stream_id != entry.stream_id || e.component_id != entry.component_id)
        }),
{
    let rest = view.stopped(entry.stream_id, entry.component_id);
    assert(view.started(entry).entries.drop_last() =~= rest.entries);
    law_stop_keeps_the_others(view, entry.stream_id, entry.component_id, e);
}

/// Stopping keeps exactly the entries that have another stream or another
/// component, each as often as before and in the same order.
pub proof fn law_stop_keeps_the_others(
    view: ConsentView,
    stream_id: usize,
    component_id: usize,
    e: Entry,
)
    ensures
        ({
            let after = view.stopped(stream_id, component_id);
            &&& after.entries == view.entries.filter(
                |e: Entry| e.stream_id != stream_id || e.component_id != component_id,
            )
            &&& after.config == view.config
            &&& after.entries.contains(e) <==> view.entries.contains(e) && (e.stream_id
                != stream_id || e.component_id != component_id)
        }),
{
    let other = |e: Entry| e.stream_id != stream_id || e.component_id != component_id;
    assert(other =~= (|e: Entry| !e.tracks(stream_id, component_id)));
    search::lemma_filtered(view.entries, other, e);
}

/// Stopping several components of a stream keeps exactly the entries of the
/// others.
pub proof fn law_stop_all_keeps_the_others(
    view: ConsentView,
    stream_id: usize,
    component_ids: Seq<usize>,
    e: Entry,
)
    ensures
        ({
            let after = view.stopped_all(stream_id, component_ids);
            &&& after.config == view.config
            &&& after.entries.contains(e) <==> view.entries.contains(e) && !(e.stream_id
                == stream_id && component_ids.contains(e.component_id))
            &&& after.entries == view.entries.filter(
                |e: Entry| !(e.stream_id == stream_id && component_ids.contains(e.component_id)),
            )
        }),
{
    let other = |e: Entry| !(e.stream_id == stream_id && component_ids.contains(e.component_id));
    assert(other =~= (|e: Entry|
        e.stream_id != stream_id || !component_ids.contains(e.component_id)));
    search::lemma_filtered(view.entries, other, e);
}

/// A check is built exactly where the component is tracked and the user name,
/// the fragment of the peer, a colon and the local fragment, has no more than
/// 513 bytes.  Then the first entry of the component is scheduled anew and
/// nothing else changes; where no check is built, nothing changes at all.
pub proof fn law_check_is_built_for_a_tracked_component(
    view: ConsentView,
    stream_id: usize,
    component_id: usize,
    next_send: Instant,
    r: Option<ConsentCheck>,
    i: int,
    j: int,
)
    requires
        view.builds(stream_id, component_id, r),
        0 <= i < view.entries.len(),
        view.entries[i].stream_id == stream_id,
        view.entries[i].component_id == component_id,
        forall|k: int|
            #![trigger view.entries[k]]
            0 <= k < i ==> view.entries[k].stream_id != stream_id || view.entries[k].component_id
                != component_id,
    ensures
        ({
            let e = view.entries[i];
            let name = vstd::utf8::encode_utf8(
                e.remote_creds.ufrag@ + seq![':'] + e.local_creds.ufrag@,
            );
            let after = view.checked(stream_id, component_id, next_send);
            &&& r is Some <==> name.len() <= 513
            &&& r is None ==> after == view
            &&& after.config == view.config
            &&& after.entries.len() == view.entries.len()
            &&& 0 <= j < view.entries.len() && j != i ==> after.entries[j] == view.entries[j]
            &&& r is Some ==> after.entries[i] == (Entry { next_send, ..e })
        }),
{
    search::lemma_first_found(
        view.entries,
        |e: Entry| e.tracks(stream_id, component_id),
        i,
    );
}

/// Where a component is not tracked, no check is built and nothing changes.
pub proof fn law_no_check_for_an_untracked_component(
    view: ConsentView,
    stream_id: usize,
    component_id: usize,
    next_send: Instant,
    r: Option<ConsentCheck>,
)
    requires
        view.builds(stream_id, component_id, r),
        forall|k: int|
            #![trigger view.entries[k]]
            0 <= k < view.entries.len() ==> view.entries[k].stream_id != stream_id
                || view.entries[k].component_id != component_id,
    ensures
        r is None,
        view.checked(stream_id, component_id, next_send) == view,
{
    search::lemma_first_absent(view.entries, |e: Entry| e.tracks(stream_id, component_id));
}

/// A check goes from the local candidate to the address of the first entry of
/// the component, and says of it exactly its priority, its role, its tie breaker
/// and its credentials, without a nomination.
pub proof fn law_check_speaks_for_its_entry(
    view: ConsentView,
    stream_id: usize,
    component_id: usize,
    check: ConsentCheck,
    i: int,
)
    requires
        view.builds(stream_id, component_id, Some(check)),
        0 <= i < view.entries.len(),
        view.entries[i].stream_id == stream_id,
        view.entries[i].component_id == component_id,
        forall|k: int|
            #![trigger view.entries[k]]
            0 <= k < i ==> view.entries[k].stream_id != stream_id || view.entries[k].component_id
                != component_id,
    ensures
        check.local == view.entries[i].local,
        check.to == view.entries[i].to,
        conncheck::is_check(
            check.msg@,
            conncheck::CheckParameters {
                priority: view.entries[i].local_priority,
                nominate: false,
                controlling: view.entries[i].controlling,
                tie_breaker: view.entries[i].tie_breaker,
                local_credentials: view.entries[i].local_creds,
                remote_credentials: view.entries[i].remote_creds,
            },
        ),
{
    search::lemma_first_found(
        view.entries,
        |e: Entry| e.tracks(stream_id, component_id),
        i,
    );
}

/// A response sets when consent was last received, and when the next check is
/// due, of the first entry that has the component id, and changes nothing else
/// of it and no other entry.
pub proof fn law_response_changes_one_entry(
    view: ConsentView,
    component_id: usize,
    now: Instant,
    next_send: Instant,
    i: int,
    j: int,
)
    requires
        0 <= i < view.entries.len(),
        view.entries[i].component_id == component_id,
        forall|k: int|
            0 <= k < i ==> (#[trigger] view.entries[k]).component_id != component_id,
    ensures
        ({
            let after = view.refreshed(component_id, now, next_send);
            &&& after.config == view.config
            &&& after.entries.len() == view.entries.len()
            &&& 0 <= j < view.entries.len() && j != i ==> after.entries[j] == view.entries[j]
            &&& after.entries[i] == (Entry {
                last_consent_received: now,
                next_send,
                ..view.entries[i]
            })
        }),
{
    search::lemma_first_found(view.entries, |e: Entry| e.component_id == component_id, i);
}

/// A response for a component id that no entry has changes nothing.
pub proof fn law_stray_response_changes_nothing(
    view: ConsentView,
    component_id: usize,
    now: Instant,
    next_send: Instant,
)
    requires
        forall|k: int|
            0 <= k < view.entries.len() ==> (#[trigger] view.entries[k]).component_id
                != component_id,
    ensures
        view.refreshed(component_id, now, next_send) == view,
{
    search::lemma_first_absent(view.entries, |e: Entry| e.component_id == component_id);
}

/// A revocation marks the first entry that has the stream and the component, and
/// changes nothing else of it and no other entry.
pub proof fn law_revocation_marks_one_entry(
    view: ConsentView,
    stream_id: usize,
    component_id: usize,
    i: int,
    j: int,
)
    requires
        0 <= i < view.entries.len(),
        view.entries[i].stream_id == stream_id,
        view.entries[i].component_id == component_id,
        forall|k: int|
            #![trigger view.entries[k]]
            0 <= k < i ==> view.entries[k].stream_id != stream_id || view.entries[k].component_id
                != component_id,
    ensures
        ({
            let after = view.revoked(stream_id, component_id);
            &&& after.config == view.config
            &&& after.entries.len() == view.entries.len()
            &&& 0 <= j < view.entries.len() && j != i ==> after.entries[j] == view.entries[j]
            &&& after.entries[i] == (Entry { revoked: true, ..view.entries[i] })
        }),
{
    search::lemma_first_found(
        view.entries,
        |e: Entry| e.tracks(stream_id, component_id),
        i,
    );
}

/// A revocation leaves every entry of another stream or of another component as
/// it was, and changes nothing at all where the component is not tracked.
pub proof fn law_revocation_leaves_the_others(
    view: ConsentView,
    stream_id: usize,
    component_id: usize,
    j: int,
)
    requires
        0 <= j < view.entries.len(),
        view.entries[j].stream_id != stream_id || view.entries[j].component_id != component_id,
    ensures
        view.revoked(stream_id, component_id).entries.len() == view.entries.len(),
        view.revoked(stream_id, component_id).entries[j] == view.entries[j],
        (forall|k: int|
            #![trigger view.entries[k]]
            0 <= k < view.entries.len() ==> view.entries[k].stream_id != stream_id
                || view.entries[k].component_id != component_id) ==> view.revoked(
            stream_id,
            component_id,
        ) == view,
{
    search::lemma_first(view.entries, |e: Entry| e.tracks(stream_id, component_id));
}

} // verus!
