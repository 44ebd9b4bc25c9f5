//! What holds of the consent freshness process over several calls.
use crate::consent::{Config, ConsentCheck, ConsentFreshnessPoll, ConsentView, Entry};
use crate::consent::{MINIMUM_CONSENT_INTERVAL, NANOS_PER_SEC};
use crate::search;
use crate::time::Instant;
use vstd::prelude::*;

verus! {

/// Whether no two entries belong to the same component.
pub open spec fn distinct(view: ConsentView) -> bool {
    forall|i: int, j: int|
        #![trigger view.entries[i], view.entries[j]]
        0 <= i < j < view.entries.len() ==> !view.entries[i].tracks(
            view.entries[j].stream_id,
            view.entries[j].component_id,
        )
}

/// Whether an answer is about the given component.
pub open spec fn names(r: ConsentFreshnessPoll, stream_id: usize, component_id: usize) -> bool {
    match r {
        ConsentFreshnessPoll::WaitUntil(_) => false,
        ConsentFreshnessPoll::SendCheck { stream_id: s, component_id: c } => s == stream_id && c
            == component_id,
        ConsentFreshnessPoll::ConsentExpired { stream_id: s, component_id: c } => s == stream_id
            && c == component_id,
        ConsentFreshnessPoll::ConsentRevoked { stream_id: s, component_id: c } => s == stream_id
            && c == component_id,
    }
}

/// A call that changes the process.
pub enum Call {
    Start(Entry),
    Stop { stream_id: usize, component_id: usize },
    StopAll { stream_id: usize, component_ids: Seq<usize> },
    Close,
    Check { stream_id: usize, component_id: usize, next_send: Instant },
    Response { component_id: usize, now: Instant, next_send: Instant },
    Revoke { stream_id: usize, component_id: usize },
    Poll,
    SetConfig(Config),
}

/// The process after a call.
pub open spec fn after_call(view: ConsentView, call: Call) -> ConsentView {
    match call {
        Call::Start(entry) => view.started(entry),
        Call::Stop { stream_id, component_id } => view.stopped(stream_id, component_id),
        Call::StopAll { stream_id, component_ids } => view.stopped_all(stream_id, component_ids),
        Call::Close => ConsentView { entries: Seq::empty(), ..view },
        Call::Check { stream_id, component_id, next_send } => view.checked(
            stream_id,
            component_id,
            next_send,
        ),
        Call::Response { component_id, now, next_send } => view.refreshed(
            component_id,
            now,
            next_send,
        ),
        Call::Revoke { stream_id, component_id } => view.revoked(stream_id, component_id),
        Call::Poll => view.polled(),
        Call::SetConfig(config) => ConsentView { config, ..view },
    }
}

/// The process after a sequence of calls.
pub open spec fn after_calls(view: ConsentView, calls: Seq<Call>) -> ConsentView
    decreases calls.len(),
{
    if calls.len() == 0 {
        view
    } else {
        after_call(after_calls(view, calls.drop_last()), calls.last())
    }
}

/// The randomised interval is no shorter than four seconds, no shorter than
/// four fifths of the configured interval and, unless it is four seconds, no
/// longer than six fifths of it.
pub proof fn law_interval_is_within_bounds(config: Config, draw: u32)
    ensures
        config.interval_nanos(draw) >= MINIMUM_CONSENT_INTERVAL * NANOS_PER_SEC,
        config.interval_nanos(draw) >= config.interval.nanos * 4 / 5,
        5 * config.interval_nanos(draw) <= 6 * config.interval.nanos || config.interval_nanos(draw)
            == MINIMUM_CONSENT_INTERVAL * NANOS_PER_SEC,
{
    let n = config.interval.nanos as int;
    let f = 0x2_0000_0000 + draw;
    assert(0x2_0000_0000 * n <= n * f <= 0x3_0000_0000 * n) by (nonlinear_arith)
        requires
            0x2_0000_0000 <= f <= 0x3_0000_0000,
            0 <= n,
    ;
}

/// A check that is scheduled is due strictly later.
pub proof fn law_scheduled_check_lies_ahead(config: Config, now: Instant, draw: u32)
    requires
        config.schedulable(now),
    ensures
        config.next_send(now, draw).nanos == now.nanos + config.interval_nanos(draw),
        config.next_send(now, draw).nanos >= now.nanos + MINIMUM_CONSENT_INTERVAL * NANOS_PER_SEC,
{
    law_interval_is_within_bounds(config, draw);
}

/// The entries that pass a test.
spec fn kept(view: ConsentView, keep: spec_fn(Entry) -> bool) -> ConsentView {
    ConsentView { entries: view.entries.filter(keep), ..view }
}

/// An entry that is kept is one that was there before and passes the test.
proof fn lemma_kept(view: ConsentView, keep: spec_fn(Entry) -> bool)
    ensures
        forall|i: int|
            #![trigger kept(view, keep).entries[i]]
            0 <= i < kept(view, keep).entries.len() ==> {
                let e = kept(view, keep).entries[i];
                keep(e) && view.entries.contains(e)
            },
        distinct(view) ==> distinct(kept(view, keep)),
    decreases view.entries.len(),
{
    reveal(Seq::filter);
    if view.entries.len() > 0 {
        let shorter = ConsentView { entries: view.entries.drop_last(), ..view };
        lemma_kept(shorter, keep);
        let few = kept(shorter, keep).entries;
        let all = kept(view, keep).entries;
        let last = view.entries.last();
        assert(all == if keep(last) {
            few.push(last)
        } else {
            few
        });
        assert forall|i: int| #![trigger all[i]] 0 <= i < all.len() implies keep(all[i])
            && view.entries.contains(all[i]) by {
            if i < few.len() {
                assert(few[i] == all[i]);
                let k = choose|k: int|
                    0 <= k < shorter.entries.len() && shorter.entries[k] == few[i];
                assert(view.entries[k] == all[i]);
            } else {
                assert(view.entries[view.entries.len() - 1] == all[i]);
            }
        }
        if distinct(view) {
            assert(distinct(shorter)) by {
                assert forall|i: int, j: int|
                    #![trigger shorter.entries[i], shorter.entries[j]]
                    0 <= i < j < shorter.entries.len() implies !shorter.entries[i].tracks(
                    shorter.entries[j].stream_id,
                    shorter.entries[j].component_id,
                ) by {
                    assert(shorter.entries[i] == view.entries[i]);
                    assert(shorter.entries[j] == view.entries[j]);
                }
            }
            assert forall|i: int, j: int|
                #![trigger all[i], all[j]]
                0 <= i < j < all.len() implies !all[i].tracks(
                all[j].stream_id,
                all[j].component_id,
            ) by {
                assert(all[i] == few[i]);
                if j < few.len() {
                    assert(all[j] == few[j]);
                } else {
                    let k = choose|k: int|
                        0 <= k < shorter.entries.len() && shorter.entries[k] == few[i];
                    assert(view.entries[k] == all[i]);
                    assert(view.entries[view.entries.len() - 1] == all[j]);
                }
            }
        }
    }
}

/// An entry that `stopped` keeps is one that was there before, for another
/// component.
proof fn lemma_stopped(view: ConsentView, stream_id: usize, component_id: usize)
    ensures
        forall|i: int|
            #![trigger view.stopped(stream_id, component_id).entries[i]]
            0 <= i < view.stopped(stream_id, component_id).entries.len() ==> {
                let e = view.stopped(stream_id, component_id).entries[i];
                !e.tracks(stream_id, component_id) && view.entries.contains(e)
            },
        distinct(view) ==> distinct(view.stopped(stream_id, component_id)),
{
    let keep = |e: Entry| !e.tracks(stream_id, component_id);
    lemma_kept(view, keep);
    assert(kept(view, keep) == view.stopped(stream_id, component_id));
}

/// Once stopped, a component is not tracked.
pub proof fn law_stop_ends_tracking(view: ConsentView, stream_id: usize, component_id: usize)
    ensures
        view.stopped(stream_id, component_id).first_tracking(stream_id, component_id) is None,
{
    lemma_stopped(view, stream_id, component_id);
    search::lemma_first_absent(
        view.stopped(stream_id, component_id).entries,
        |e: Entry| e.tracks(stream_id, component_id),
    );
}

/// Stopping a component that is not tracked changes nothing.
pub proof fn law_stop_of_untracked_changes_nothing(
    view: ConsentView,
    stream_id: usize,
    component_id: usize,
)
    requires
        view.first_tracking(stream_id, component_id) is None,
    ensures
        view.stopped(stream_id, component_id) == view,
{
    let keep = |e: Entry| !e.tracks(stream_id, component_id);
    search::lemma_first(view.entries, |e: Entry| e.tracks(stream_id, component_id));
    assert forall|i: int| #![trigger view.entries[i]] 0 <= i < view.entries.len() implies keep(
        view.entries[i],
    ) by {}
    search::lemma_filter_all(view.entries, keep);
}

/// Stopping a component undoes starting it, up to what stopping alone does.
pub proof fn law_stop_undoes_start(view: ConsentView, entry: Entry)
    ensures
        view.started(entry).stopped(entry.stream_id, entry.component_id) == view.stopped(
            entry.stream_id,
            entry.component_id,
        ),
{
    let rest = view.stopped(entry.stream_id, entry.component_id);
    law_stop_ends_tracking(view, entry.stream_id, entry.component_id);
    law_stop_of_untracked_changes_nothing(rest, entry.stream_id, entry.component_id);
    reveal(Seq::filter);
    assert(rest.entries.push(entry).drop_last() =~= rest.entries);
}

/// Starting a component tracks it exactly once, with the given state, and in
/// place of what was tracked for it before.
pub proof fn law_start_tracks_once(view: ConsentView, entry: Entry)
    ensures
        ({
            let after = view.started(entry);
            let last = after.entries.len() - 1;
            &&& after.entries[last] == entry
            &&& after.first_tracking(entry.stream_id, entry.component_id) == Some(last)
            &&& forall|i: int|
                #![trigger after.entries[i]]
                0 <= i < last ==> !after.entries[i].tracks(entry.stream_id, entry.component_id)
        }),
{
    let after = view.started(entry);
    let rest = view.stopped(entry.stream_id, entry.component_id);
    let last = after.entries.len() - 1;
    lemma_stopped(view, entry.stream_id, entry.component_id);
    assert forall|i: int| #![trigger after.entries[i]] 0 <= i < last implies !after.entries[i].tracks(
        entry.stream_id,
        entry.component_id,
    ) by {
        assert(after.entries[i] == rest.entries[i]);
    }
    search::lemma_first_found(
        after.entries,
        |e: Entry| e.tracks(entry.stream_id, entry.component_id),
        last,
    );
}

/// No operation makes two entries belong to the same component.
pub proof fn law_components_stay_distinct(
    view: ConsentView,
    entry: Entry,
    stream_id: usize,
    component_id: usize,
    component_ids: Seq<usize>,
    now: Instant,
    next_send: Instant,
    config: Config,
)
    requires
        distinct(view),
    ensures
        distinct(ConsentView { entries: Seq::empty(), ..view }),
        distinct(ConsentView { config, ..view }),
        distinct(view.started(entry)),
        distinct(view.stopped(stream_id, component_id)),
        distinct(view.stopped_all(stream_id, component_ids)),
        distinct(view.checked(stream_id, component_id, next_send)),
        distinct(view.refreshed(component_id, now, next_send)),
        distinct(view.revoked(stream_id, component_id)),
        distinct(view.polled()),
{
    lemma_stopped(view, stream_id, component_id);
    lemma_stopped(view, entry.stream_id, entry.component_id);
    lemma_kept(
        view,
        |e: Entry| e.stream_id != stream_id || !component_ids.contains(e.component_id),
    );
    law_start_tracks_once(view, entry);
    let rest = view.stopped(entry.stream_id, entry.component_id);
    let after = view.started(entry);
    assert forall|i: int, j: int|
        #![trigger after.entries[i], after.entries[j]]
        0 <= i < j < after.entries.len() implies !after.entries[i].tracks(
        after.entries[j].stream_id,
        after.entries[j].component_id,
    ) by {
        assert(after.entries[i] == rest.entries[i]);
        if j < rest.entries.len() {
            assert(after.entries[j] == rest.entries[j]);
        }
    }
    search::lemma_first(view.entries, |e: Entry| e.tracks(stream_id, component_id));
    search::lemma_first(view.entries, |e: Entry| e.component_id == component_id);
    search::lemma_first(view.entries, |e: Entry| e.revoked);
}

/// Whatever is called, and however often, no two entries of a process belong to
/// the same component.
pub proof fn law_components_are_always_distinct(config: Config, calls: Seq<Call>)
    ensures
        distinct(after_calls(ConsentView { entries: Seq::empty(), config }, calls)),
    decreases calls.len(),
{
    if calls.len() > 0 {
        let before = after_calls(
            ConsentView { entries: Seq::empty(), config },
            calls.drop_last(),
        );
        law_components_are_always_distinct(config, calls.drop_last());
        lemma_call_keeps_distinct(before, calls.last());
    }
}

/// A call keeps the entries distinct.
proof fn lemma_call_keeps_distinct(view: ConsentView, call: Call)
    requires
        distinct(view),
    ensures
        distinct(after_call(view, call)),
{
    let entry = match call {
        Call::Start(entry) => entry,
        _ => arbitrary(),
    };
    let (stream_id, component_id) = match call {
        Call::Stop { stream_id, component_id } => (stream_id, component_id),
        Call::Check { stream_id, component_id, .. } => (stream_id, component_id),
        Call::Response { component_id, .. } => (0, component_id),
        Call::Revoke { stream_id, component_id } => (stream_id, component_id),
        Call::StopAll { stream_id, .. } => (stream_id, 0),
        _ => (0, 0),
    };
    let component_ids = match call {
        Call::StopAll { component_ids, .. } => component_ids,
        _ => Seq::empty(),
    };
    let now = match call {
        Call::Response { now, .. } => now,
        _ => arbitrary(),
    };
    let next_send = match call {
        Call::Check { next_send, .. } => next_send,
        Call::Response { next_send, .. } => next_send,
        _ => arbitrary(),
    };
    let config = match call {
        Call::SetConfig(config) => config,
        _ => view.config,
    };
    law_components_stay_distinct(
        view,
        entry,
        stream_id,
        component_id,
        component_ids,
        now,
        next_send,
        config,
    );
}

/// Stopping takes one entry away where the component is tracked, and none
/// where it is not.
proof fn lemma_stopped_length(view: ConsentView, stream_id: usize, component_id: usize)
    requires
        distinct(view),
    ensures
        view.stopped(stream_id, component_id).entries.len() == if view.first_tracking(
            stream_id,
            component_id,
        ) is Some {
            view.entries.len() - 1
        } else {
            view.entries.len() as int
        },
    decreases view.entries.len(),
{
    let tracks = |e: Entry| e.tracks(stream_id, component_id);
    reveal(Seq::filter);
    search::lemma_first(view.entries, tracks);
    if view.entries.len() > 0 {
        let shorter = ConsentView { entries: view.entries.drop_last(), ..view };
        let last = view.entries.len() - 1;
        assert forall|i: int, j: int|
            #![trigger shorter.entries[i], shorter.entries[j]]
            0 <= i < j < shorter.entries.len() implies !shorter.entries[i].tracks(
            shorter.entries[j].stream_id,
            shorter.entries[j].component_id,
        ) by {
            assert(shorter.entries[i] == view.entries[i]);
            assert(shorter.entries[j] == view.entries[j]);
        }
        lemma_stopped_length(shorter, stream_id, component_id);
        search::lemma_first(shorter.entries, tracks);
        if tracks(view.entries[last]) {
            search::lemma_first_exists(view.entries, tracks, last);
            if let Some(k) = shorter.first_tracking(stream_id, component_id) {
                assert(view.entries[k] == shorter.entries[k]);
                assert(!view.entries[k].tracks(
                    view.entries[last].stream_id,
                    view.entries[last].component_id,
                ));
            }
        } else if let Some(k) = view.first_tracking(stream_id, component_id) {
            assert(shorter.entries[k] == view.entries[k]);
            search::lemma_first_exists(shorter.entries, tracks, k);
        } else if let Some(k) = shorter.first_tracking(stream_id, component_id) {
            assert(view.entries[k] == shorter.entries[k]);
        }
    }
}

/// Starting a tracked component replaces its entry, so that nothing of what was
/// known before is left, and starting another one adds exactly one entry.
pub proof fn law_start_replaces(view: ConsentView, entry: Entry, e: Entry)
    requires
        distinct(view),
    ensures
        view.started(entry).entries.len() == if view.first_tracking(
            entry.stream_id,
            entry.component_id,
        ) is Some {
            view.entries.len()
        } else {
            view.entries.len() + 1
        },
        view.started(entry).entries.contains(e) && e.tracks(entry.stream_id, entry.component_id)
            ==> e == entry,
{
    let after = view.started(entry);
    lemma_stopped_length(view, entry.stream_id, entry.component_id);
    law_start_tracks_once(view, entry);
    if after.entries.contains(e) {
        let k = after.entries.index_of(e);
        assert(after.entries[k] == e);
    }
}

/// A poll never speaks of a component that is not tracked.
pub proof fn law_untracked_component_is_silent(
    view: ConsentView,
    stream_id: usize,
    component_id: usize,
    now: Instant,
    r: ConsentFreshnessPoll,
)
    requires
        view.first_tracking(stream_id, component_id) is None,
        view.answers(now, r),
    ensures
        !names(r, stream_id, component_id),
{
    search::lemma_first(view.entries, |e: Entry| e.tracks(stream_id, component_id));
    search::lemma_first(view.entries, |e: Entry| e.revoked);
    search::lemma_first(view.entries, |e: Entry| e.due(view.config, now));
}

/// Once consent has been revoked for a tracked component, every poll reports a
/// revocation, and it reports this one if there is no other.
pub proof fn law_revocation_is_reported(
    view: ConsentView,
    stream_id: usize,
    component_id: usize,
    now: Instant,
    r: ConsentFreshnessPoll,
)
    requires
        view.first_tracking(stream_id, component_id) is Some,
        view.revoked(stream_id, component_id).answers(now, r),
    ensures
        r is ConsentRevoked,
        view.first_revoked() is None ==> r == (ConsentFreshnessPoll::ConsentRevoked {
            stream_id,
            component_id,
        }),
{
    let tracks = |e: Entry| e.tracks(stream_id, component_id);
    let revoked = |e: Entry| e.revoked;
    let after = view.revoked(stream_id, component_id);
    search::lemma_first(view.entries, tracks);
    let i = view.first_tracking(stream_id, component_id)->0;
    assert(after.entries[i].revoked);
    search::lemma_first_exists(after.entries, revoked, i);
    let k = after.first_revoked()->0;
    if view.first_revoked() is None {
        search::lemma_first(view.entries, revoked);
        if k < i {
            assert(after.entries[k] == view.entries[k]);
        }
    }
}

/// Neither a check that is built nor a response takes a revocation back: the
/// first one stays where it is, for the same component.
pub proof fn law_revocation_stays_pending(
    view: ConsentView,
    stream_id: usize,
    component_id: usize,
    now: Instant,
    next_send: Instant,
)
    requires
        view.first_revoked() is Some,
    ensures
        ({
            let i = view.first_revoked()->0;
            let checked = view.checked(stream_id, component_id, next_send);
            let refreshed = view.refreshed(component_id, now, next_send);
            &&& 0 <= i < view.entries.len()
            &&& checked.first_revoked() == view.first_revoked()
            &&& checked.entries[i].tracks(view.entries[i].stream_id, view.entries[i].component_id)
            &&& refreshed.first_revoked() == view.first_revoked()
            &&& refreshed.entries[i].tracks(
                view.entries[i].stream_id,
                view.entries[i].component_id,
            )
        }),
{
    let revoked = |e: Entry| e.revoked;
    let checked = view.checked(stream_id, component_id, next_send);
    let refreshed = view.refreshed(component_id, now, next_send);
    search::lemma_first(view.entries, revoked);
    search::lemma_first(view.entries, |e: Entry| e.tracks(stream_id, component_id));
    search::lemma_first(view.entries, |e: Entry| e.component_id == component_id);
    let i = view.first_revoked()->0;
    assert forall|j: int| #![trigger checked.entries[j]] 0 <= j < i implies !revoked(
        checked.entries[j],
    ) by {
        assert(!revoked(view.entries[j]));
    }
    search::lemma_first_found(checked.entries, revoked, i);
    assert forall|j: int| #![trigger refreshed.entries[j]] 0 <= j < i implies !revoked(
        refreshed.entries[j],
    ) by {
        assert(!revoked(view.entries[j]));
    }
    search::lemma_first_found(refreshed.entries, revoked, i);
}

/// Whether every call builds a check or takes note of a response.
pub open spec fn checks_and_responses(calls: Seq<Call>) -> bool {
    forall|i: int|
        0 <= i < calls.len() ==> (#[trigger] calls[i] is Check || calls[i] is Response)
}

/// Checks and responses, however many, leave the first revocation where it is,
/// for the same component, and the entries distinct.
proof fn lemma_revocation_stays_pending(view: ConsentView, calls: Seq<Call>)
    requires
        view.first_revoked() is Some,
        checks_and_responses(calls),
    ensures
        ({
            let i = view.first_revoked()->0;
            let after = after_calls(view, calls);
            &&& after.first_revoked() == view.first_revoked()
            &&& after.entries[i].tracks(view.entries[i].stream_id, view.entries[i].component_id)
            &&& distinct(view) ==> distinct(after)
        }),
    decreases calls.len(),
{
    if calls.len() > 0 {
        let fewer = calls.drop_last();
        assert forall|i: int| 0 <= i < fewer.len() implies (#[trigger] fewer[i] is Check
            || fewer[i] is Response) by {
            assert(calls[i] == fewer[i]);
        }
        lemma_revocation_stays_pending(view, fewer);
        let before = after_calls(view, fewer);
        let call = calls[calls.len() - 1];
        match call {
            Call::Check { stream_id, component_id, next_send } => {
                law_revocation_stays_pending(
                    before,
                    stream_id,
                    component_id,
                    next_send,
                    next_send,
                );
            },
            Call::Response { component_id, now, next_send } => {
                law_revocation_stays_pending(before, 0, component_id, now, next_send);
            },
            _ => {},
        }
        if distinct(view) {
            lemma_call_keeps_distinct(before, call);
        }
    }
}

/// A component whose revocation a poll reports is not tracked afterwards.
proof fn lemma_polled_revocation(
    view: ConsentView,
    stream_id: usize,
    component_id: usize,
    now: Instant,
)
    requires
        distinct(view),
        view.answers(now, ConsentFreshnessPoll::ConsentRevoked { stream_id, component_id }),
    ensures
        view.polled().first_tracking(stream_id, component_id) is None,
{
    let tracks = |e: Entry| e.tracks(stream_id, component_id);
    search::lemma_first(view.entries, |e: Entry| e.revoked);
    search::lemma_first(view.entries, |e: Entry| e.due(view.config, now));
    let k = view.first_revoked()->0;
    let after = view.polled();
    assert forall|j: int| #![trigger after.entries[j]] 0 <= j < after.entries.len() implies !tracks(
        after.entries[j],
    ) by {
        let source = if j == k {
            view.entries.len() - 1
        } else {
            j
        };
        assert(after.entries[j] == view.entries[source]);
        assert(source != k);
        if source < k {
            assert(!view.entries[source].tracks(
                view.entries[k].stream_id,
                view.entries[k].component_id,
            ));
        } else {
            assert(!view.entries[k].tracks(
                view.entries[source].stream_id,
                view.entries[source].component_id,
            ));
        }
    }
    search::lemma_first_absent(after.entries, tracks);
}

/// Once consent has been revoked for a tracked component, and for no other, the
/// next poll can be made at any time and reports it, whatever checks are built
/// and whatever responses arrive before.  After that poll the component is not
/// tracked any more, so that no check is built for it.
pub proof fn law_revocation_outlasts_checks_and_responses(
    view: ConsentView,
    stream_id: usize,
    component_id: usize,
    calls: Seq<Call>,
    now: Instant,
    r: ConsentFreshnessPoll,
    check: Option<ConsentCheck>,
)
    requires
        distinct(view),
        view.first_tracking(stream_id, component_id) is Some,
        view.first_revoked() is None,
        checks_and_responses(calls),
    ensures
        ({
            let after = after_calls(view.revoked(stream_id, component_id), calls);
            &&& after.pollable(now)
            &&& after.answers(now, r) <==> r == (ConsentFreshnessPoll::ConsentRevoked {
                stream_id,
                component_id,
            })
            &&& after.polled().first_tracking(stream_id, component_id) is None
            &&& after.polled().builds(stream_id, component_id, check) ==> check is None
        }),
{
    let tracks = |e: Entry| e.tracks(stream_id, component_id);
    let revoked = |e: Entry| e.revoked;
    let pending = view.revoked(stream_id, component_id);
    search::lemma_first(view.entries, tracks);
    search::lemma_first(view.entries, revoked);
    let i = view.first_tracking(stream_id, component_id)->0;
    assert forall|j: int| #![trigger pending.entries[j]] 0 <= j < i implies !revoked(
        pending.entries[j],
    ) by {
        assert(!revoked(view.entries[j]));
    }
    search::lemma_first_found(pending.entries, revoked, i);
    lemma_call_keeps_distinct(view, Call::Revoke { stream_id, component_id });
    lemma_revocation_stays_pending(pending, calls);
    let after = after_calls(pending, calls);
    let answer = ConsentFreshnessPoll::ConsentRevoked { stream_id, component_id };
    assert(after.answers(now, answer));
    lemma_polled_revocation(after, stream_id, component_id, now);
}

/// The poll that reports a revocation ends the tracking of the component, and
/// no poll after it speaks of the component.
pub proof fn law_reported_revocation_ends_tracking(
    view: ConsentView,
    stream_id: usize,
    component_id: usize,
    now: Instant,
    later: Instant,
    r: ConsentFreshnessPoll,
)
    requires
        distinct(view),
        view.answers(now, ConsentFreshnessPoll::ConsentRevoked { stream_id, component_id }),
        view.polled().answers(later, r),
    ensures
        view.polled().first_tracking(stream_id, component_id) is None,
        !names(r, stream_id, component_id),
{
    lemma_polled_revocation(view, stream_id, component_id, now);
    law_untracked_component_is_silent(view.polled(), stream_id, component_id, later, r);
}

/// A poll that reports anything but a revocation changes nothing.
pub proof fn law_only_revocation_changes_the_process(
    view: ConsentView,
    now: Instant,
    r: ConsentFreshnessPoll,
)
    requires
        view.answers(now, r),
        r !is ConsentRevoked,
    ensures
        view.polled() == view,
{
}

/// Without a response within the timeout consent expires: the poll reports it,
/// unless a revocation or something due for an earlier entry comes first.
pub proof fn law_silence_expires_consent(
    view: ConsentView,
    index: int,
    now: Instant,
    r: ConsentFreshnessPoll,
)
    requires
        0 <= index < view.entries.len(),
        view.entries[index].expired(view.config, now),
        view.first_revoked() is None,
        view.answers(now, r),
    ensures
        r !is WaitUntil,
        (forall|j: int|
            #![trigger view.entries[j]]
            0 <= j < index ==> !view.entries[j].due(view.config, now)) ==> r == (
        ConsentFreshnessPoll::ConsentExpired {
            stream_id: view.entries[index].stream_id,
            component_id: view.entries[index].component_id,
        }),
{
    search::lemma_first_exists(view.entries, |e: Entry| e.due(view.config, now), index);
}

/// A response keeps consent alive for the whole timeout: no poll before its end
/// reports that the consent of the component has expired.
pub proof fn law_response_refreshes_consent(
    view: ConsentView,
    component_id: usize,
    received: Instant,
    next_send: Instant,
    now: Instant,
    r: ConsentFreshnessPoll,
)
    requires
        distinct(view),
        view.first_component(component_id) is Some,
        now.nanos < received.nanos + view.config.timeout.nanos,
        view.refreshed(component_id, received, next_send).answers(now, r),
    ensures
        r != (ConsentFreshnessPoll::ConsentExpired {
            stream_id: view.entries[view.first_component(component_id)->0].stream_id,
            component_id,
        }),
{
    let after = view.refreshed(component_id, received, next_send);
    search::lemma_first(view.entries, |e: Entry| e.component_id == component_id);
    let i = view.first_component(component_id)->0;
    search::lemma_first(after.entries, |e: Entry| e.revoked);
    search::lemma_first(after.entries, |e: Entry| e.due(after.config, now));
    if let Some(k) = after.first_due(now) {
        if k < i {
            assert(!view.entries[k].tracks(view.entries[i].stream_id, component_id));
        } else if i < k {
            assert(!view.entries[i].tracks(
                view.entries[k].stream_id,
                view.entries[k].component_id,
            ));
        }
    }
}

/// Once its check has been built, a component is not asked for another one
/// until the next check is due, and what is due for the others stays as it
/// was.
pub proof fn law_built_check_is_not_asked_for_again(
    view: ConsentView,
    stream_id: usize,
    component_id: usize,
    next_send: Instant,
    now: Instant,
    r: ConsentFreshnessPoll,
)
    requires
        distinct(view),
        view.first_checkable(stream_id, component_id) is Some,
        now.nanos < next_send.nanos,
        view.checked(stream_id, component_id, next_send).answers(now, r),
    ensures
        r != (ConsentFreshnessPoll::SendCheck { stream_id, component_id }),
        ({
            let after = view.checked(stream_id, component_id, next_send);
            let i = view.first_checkable(stream_id, component_id)->0;
            &&& after.entries.len() == view.entries.len()
            &&& after.entries[i].due(view.config, now) == view.entries[i].expired(view.config, now)
            &&& forall|j: int|
                #![trigger after.entries[j]]
                0 <= j < view.entries.len() && j != i ==> after.entries[j] == view.entries[j]
        }),
{
    let after = view.checked(stream_id, component_id, next_send);
    search::lemma_first(view.entries, |e: Entry| e.tracks(stream_id, component_id));
    let i = view.first_checkable(stream_id, component_id)->0;
    search::lemma_first(after.entries, |e: Entry| e.revoked);
    search::lemma_first(after.entries, |e: Entry| e.due(after.config, now));
    if let Some(k) = after.first_due(now) {
        if k < i {
            assert(!view.entries[k].tracks(stream_id, component_id));
        } else if i < k {
            assert(!view.entries[i].tracks(
                view.entries[k].stream_id,
                view.entries[k].component_id,
            ));
        }
    }
}

/// Where something is tracked and a poll says to wait, the wait ends later than
/// `now`; every poll before its end gives the same answer, and every poll from
/// its end on asks for something.
pub proof fn law_wait_is_exact(
    view: ConsentView,
    now: Instant,
    wait: Instant,
    other: Instant,
    r: ConsentFreshnessPoll,
)
    requires
        view.entries.len() > 0,
        view.answers(now, ConsentFreshnessPoll::WaitUntil(wait)),
        view.answers(other, r),
    ensures
        now.nanos < wait.nanos,
        other.nanos < wait.nanos ==> r == ConsentFreshnessPoll::WaitUntil(wait),
        other.nanos >= wait.nanos ==> r !is WaitUntil,
{
    search::lemma_first(view.entries, |e: Entry| e.due(view.config, now));
    search::lemma_first(view.entries, |e: Entry| e.due(view.config, other));
    assert(view.earliest(wait));
    let i = choose|i: int|
        0 <= i < view.entries.len() && #[trigger] view.entries[i].wake(view.config) == wait.nanos;
    assert(!view.entries[i].due(view.config, now));
    if other.nanos < wait.nanos {
        assert forall|j: int| #![trigger view.entries[j]] 0 <= j < view.entries.len() implies !view.entries[j].due(
            view.config,
            other,
        ) by {
            assert(wait.nanos <= view.entries[j].wake(view.config));
        }
        if let ConsentFreshnessPoll::WaitUntil(again) = r {
            let k = choose|k: int|
                0 <= k < view.entries.len() && #[trigger] view.entries[k].wake(view.config)
                    == again.nanos;
            assert(wait.nanos <= view.entries[k].wake(view.config));
            assert(again.nanos <= view.entries[i].wake(view.config));
        }
    } else {
        assert(view.entries[i].due(view.config, other));
    }
}

} // verus!
