//! What holds of the hub across its functions.
use vstd::prelude::*;

use crate::address;
use crate::auth;
use crate::handlers;
use crate::model;
use crate::playlist;
use crate::probe;
use crate::registry;
use crate::reply;
use crate::session;
use crate::text;
use crate::transcode;

verus! {

/// The name and value of a cookie, which a browser sends back: what stands
/// before the first semicolon.
pub open spec fn cookie_pair(cookie: Seq<char>) -> Seq<char> {
    match text::leftmost(cookie, ";"@) {
        Some(end) => cookie.take(end),
        None => cookie,
    }
}

/// A request that sends back the cookie of a login counts as logged in,
/// whatever other cookies stand before and behind it.
pub proof fn login_opens_a_session(before: Seq<char>, behind: Seq<char>)
    ensures
        session::opens_session(Some(before + cookie_pair(auth::login_cookie()) + behind)),
{
    let cookie = auth::login_cookie();
    let mark = session::session_mark();
    reveal_strlit("login_session=true; Path=/; HttpOnly; SameSite=Lax");
    reveal_strlit("login_session=true");
    reveal_strlit(";");
    assert(text::is_leftmost(cookie, ";"@, 18)) by {
        assert(cookie.subrange(18, 19) =~= ";"@);
        assert forall|earlier: int| earlier < 18 implies !text::occurs_at(
            cookie,
            ";"@,
            earlier,
        ) by {
            if text::occurs_at(cookie, ";"@, earlier) {
                assert(cookie.subrange(earlier, earlier + 1)[0] == ';');
                assert(cookie[earlier] == ';');
            }
        }
    }
    text::leftmost_is_unique(cookie, ";"@, 18);
    assert(cookie.take(18) =~= mark);
    let sent = before + cookie_pair(cookie) + behind;
    assert(sent.subrange(before.len() as int, (before.len() + mark.len()) as int) =~= mark);
    assert(text::occurs_at(sent, mark, before.len() as int));
}

/// A request that sends back the cookie of a logout does not count as logged
/// in.
pub proof fn logout_ends_the_session()
    ensures
        !session::opens_session(Some(cookie_pair(auth::logout_cookie()))),
{
    let cookie = auth::logout_cookie();
    reveal_strlit(
        "login_session=; Path=/; HttpOnly; SameSite=Lax; Max-Age=0; Expires=Thu, 01 Jan 1970 00:00:00 GMT",
    );
    reveal_strlit("login_session=true");
    reveal_strlit(";");
    assert(text::is_leftmost(cookie, ";"@, 14)) by {
        assert(cookie.subrange(14, 15) =~= ";"@);
        assert forall|earlier: int| earlier < 14 implies !text::occurs_at(
            cookie,
            ";"@,
            earlier,
        ) by {
            if text::occurs_at(cookie, ";"@, earlier) {
                assert(cookie.subrange(earlier, earlier + 1)[0] == ';');
                assert(cookie[earlier] == ';');
            }
        }
    }
    text::leftmost_is_unique(cookie, ";"@, 14);
}

/// A request without a cookie does not count as logged in.
pub proof fn no_cookie_no_session(fields: Map<Seq<char>, Seq<Seq<u8>>>)
    requires
        !fields.contains_key("cookie"@),
    ensures
        !session::logged_in(fields),
{
}

/// A session is opened for the kept password only: any other, and any unknown
/// name, is refused without a cookie.
pub proof fn only_the_password_opens_a_session(stored: Option<Seq<char>>, pass: Seq<char>)
    ensures
        auth::login_answer(stored, pass).set_cookie is Some <==> stored == Some(pass),
        auth::login_answer(stored, pass).status == reply::OK <==> stored == Some(pass),
        auth::login_answer(stored, pass).status == reply::UNAUTHORIZED <==> stored != Some(pass),
{
}

/// The accounts that are kept once a request to set one up was carried out.
pub open spec fn accounts_after(
    accounts: Map<Seq<char>, Seq<char>>,
    step: auth::InitView,
) -> Map<Seq<char>, Seq<char>> {
    match step {
        auth::InitView::Refuse(_) => accounts,
        auth::InitView::Store { user, pass, .. } => accounts.insert(user, pass),
    }
}

/// The password that is kept under a name.
pub open spec fn password_of(
    accounts: Map<Seq<char>, Seq<char>>,
    user: Seq<char>,
) -> Option<Seq<char>> {
    if accounts.contains_key(user) {
        Some(accounts[user])
    } else {
        None
    }
}

/// An account can be set up once: clients are told that there is none before
/// and that there is one after, and from then on every request is refused and
/// changes nothing.
pub proof fn an_account_is_set_up_once(
    first: auth::CredentialsView,
    second: auth::CredentialsView,
)
    ensures
        ({
            let none = Map::<Seq<char>, Seq<char>>::empty();
            let kept = accounts_after(none, auth::init_step(0, first));
            let again = auth::init_step(kept.len() as u64, second);
            &&& auth::status_answer(0).body == reply::BodyView::Initialized(false)
            &&& kept.len() == 1
            &&& auth::status_answer(kept.len() as u64).body == reply::BodyView::Initialized(true)
            &&& again == auth::InitView::Refuse(
                reply::bare(reply::FORBIDDEN, reply::BodyView::Empty),
            )
            &&& accounts_after(kept, again) == kept
        }),
{
}

/// A login succeeds exactly with the name and the password of the account that
/// was set up.
pub proof fn the_account_can_log_in(first: auth::CredentialsView, later: auth::CredentialsView)
    ensures
        ({
            let none = Map::<Seq<char>, Seq<char>>::empty();
            let kept = accounts_after(none, auth::init_step(0, first));
            let (user, pass) = auth::claim_of(later);
            auth::login_answer(password_of(kept, user), pass).status == reply::OK
                <==> auth::claim_of(later) == auth::account_of(first)
        }),
{
}

/// What a client is shown of a stream that it added is what the list shows of
/// it from then on.
pub proof fn an_added_stream_is_listed<C>(
    streams: handlers::Streams<C>,
    config: model::ConfigView,
    now: u64,
)
    requires
        now >= registry::BACKDATE,
    ensures
        ({
            let after = streams.insert(config.id, registry::standby(config, now));
            &&& after.contains_key(config.id)
            &&& registry::response_of(config.id, after[config.id]) == handlers::added_response(
                config,
            )
        }),
{
}

/// A list shows a stream exactly if it is known, and shows it as it is.
pub proof fn a_list_is_complete<C>(
    shown: Seq<model::ResponseView>,
    streams: handlers::Streams<C>,
    id: Seq<char>,
)
    requires
        registry::lists(shown, streams),
    ensures
        streams.contains_key(id) <==> shown.contains(registry::response_of(id, streams[id])),
{
    let ids = shown.map_values(|response: model::ResponseView| response.id);
    if streams.contains_key(id) {
        assert(ids.contains(id));
        let i = choose|i: int| 0 <= i < ids.len() && ids[i] == id;
        assert(shown[i].id == id);
        assert(shown[i] == registry::response_of(id, streams[id]));
    }
    if shown.contains(registry::response_of(id, streams[id])) {
        let i = choose|i: int|
            0 <= i < shown.len() && shown[i] == registry::response_of(id, streams[id]);
        assert(ids[i] == id);
    }
}

/// A deleted stream cannot be started, stopped or woken.
pub proof fn a_deleted_stream_is_gone<C>(
    streams: handlers::Streams<C>,
    id: Seq<char>,
    file: Seq<char>,
    base_dir: Seq<char>,
)
    ensures
        ({
            let after = streams.remove(id);
            &&& handlers::start_step(true, after, id, base_dir) == handlers::StartView::Done(
                reply::bare(reply::NOT_FOUND, reply::BodyView::Empty),
            )
            &&& handlers::stop_step(true, after, id, base_dir) == handlers::StopView::<C>::Done(
                reply::bare(reply::OK, reply::BodyView::Text("Not Running"@)),
            )
            &&& !handlers::wakes(after, id, file)
        }),
{
}

/// The streams once the process of `id` was started on request.
pub open spec fn started<C>(
    streams: handlers::Streams<C>,
    id: Seq<char>,
    child: C,
    now: u64,
) -> handlers::Streams<C> {
    registry::touched(registry::attached(streams, id, child), id, now)
}

/// A stream that was started is shown as running, is not started again, and
/// is not woken by a player.
pub proof fn a_started_stream_runs<C>(
    streams: handlers::Streams<C>,
    id: Seq<char>,
    child: C,
    now: u64,
    file: Seq<char>,
    base_dir: Seq<char>,
)
    requires
        streams.contains_key(id),
    ensures
        ({
            let after = started(streams, id, child, now);
            &&& registry::response_of(id, after[id]).status == "Running"@
            &&& handlers::start_step(true, after, id, base_dir) == handlers::StartView::Done(
                reply::bare(reply::OK, reply::BodyView::Text("Already Running"@)),
            )
            &&& !handlers::wakes(after, id, file)
        }),
{
}

/// To stop a stream that was started hands out the very process and the
/// directory that it writes to; a second request finds nothing running, and
/// what is left of the start is the time of the last read.
pub proof fn stopping_undoes_starting<C>(
    streams: handlers::Streams<C>,
    id: Seq<char>,
    child: C,
    now: u64,
    base_dir: Seq<char>,
)
    requires
        streams.contains_key(id),
        streams[id].child is None,
    ensures
        ({
            let running = started(streams, id, child, now);
            let after = registry::detached(running, id);
            &&& handlers::stop_step(true, running, id, base_dir) == handlers::StopView::Kill {
                child,
                dir: transcode::job_for(
                    streams[id].url,
                    id,
                    base_dir,
                    streams[id].proxy,
                ).output_dir,
                reply: reply::bare(reply::OK, reply::BodyView::Text("Stopped"@)),
            }
            &&& handlers::stop_step(true, after, id, base_dir) == handlers::StopView::<C>::Done(
                reply::bare(reply::OK, reply::BodyView::Text("Not Running"@)),
            )
            &&& after == registry::touched(streams, id, now)
        }),
{
    assert(registry::detached(started(streams, id, child, now), id) =~= registry::touched(
        streams,
        id,
        now,
    ));
}

/// What is done to one stream leaves every other as it is.
pub proof fn other_streams_stay<C>(
    streams: handlers::Streams<C>,
    config: model::ConfigView,
    id: Seq<char>,
    other: Seq<char>,
    child: C,
    now: u64,
)
    requires
        other != id,
        other != config.id,
        streams.contains_key(other),
    ensures
        registry::touched(streams, id, now).contains_key(other),
        registry::touched(streams, id, now)[other] == streams[other],
        registry::attached(streams, id, child).contains_key(other),
        registry::attached(streams, id, child)[other] == streams[other],
        registry::detached(streams, id).contains_key(other),
        registry::detached(streams, id)[other] == streams[other],
        streams.remove(id).contains_key(other),
        streams.remove(id)[other] == streams[other],
        streams.insert(config.id, registry::standby(config, now)).contains_key(other),
        streams.insert(config.id, registry::standby(config, now))[other] == streams[other],
{
}

/// A request without a session is refused, starts nothing and stops nothing.
pub proof fn strangers_are_refused<C>(
    streams: handlers::Streams<C>,
    id: Seq<char>,
    base_dir: Seq<char>,
)
    ensures
        handlers::start_step(false, streams, id, base_dir) == handlers::StartView::Done(
            handlers::bare_refusal(),
        ),
        handlers::stop_step(false, streams, id, base_dir) == handlers::StopView::<C>::Done(
            handlers::bare_refusal(),
        ),
        handlers::streams_after_stop(false, streams, id) == streams,
        handlers::bare_refusal().status == reply::UNAUTHORIZED,
        handlers::refusal_in_words().status == reply::UNAUTHORIZED,
{
}

/// A stream that was read at most the limit ago is not idle, nor is one that
/// does not run.
pub proof fn a_read_stream_is_not_idle<C>(
    streams: handlers::Streams<C>,
    id: Seq<char>,
    read_at: u64,
    now: u64,
)
    requires
        streams.contains_key(id),
        now <= read_at + registry::IDLE_LIMIT,
    ensures
        !registry::is_idle(registry::touched(streams, id, read_at)[id], now),
        !registry::is_idle(registry::detached(streams, id)[id], now),
{
}

/// The streams once each of `ids` was looked at for being idle, the i-th at
/// the i-th of `times`.
pub open spec fn swept<C>(
    streams: handlers::Streams<C>,
    ids: Seq<Seq<char>>,
    times: Seq<u64>,
) -> handlers::Streams<C>
    decreases ids.len(),
{
    if ids.len() == 0 {
        streams
    } else {
        looked_at(
            swept(streams, ids.drop_last(), times.drop_last()),
            ids.last(),
            times.last(),
        )
    }
}

/// Looking for idle streams forgets none, and of those that it has not looked
/// at it changes nothing.
proof fn sweep_keeps_the_rest<C>(
    streams: handlers::Streams<C>,
    ids: Seq<Seq<char>>,
    times: Seq<u64>,
    id: Seq<char>,
)
    requires
        ids.len() == times.len(),
        streams.contains_key(id),
    ensures
        swept(streams, ids, times).contains_key(id),
        swept(streams, ids, times)[id] == streams[id] || swept(streams, ids, times)[id]
            == (registry::EntryView { child: None, ..streams[id] }),
        !ids.contains(id) ==> swept(streams, ids, times)[id] == streams[id],
    decreases ids.len(),
{
    if ids.len() > 0 {
        sweep_keeps_the_rest(streams, ids.drop_last(), times.drop_last(), id);
        assert(ids.drop_last().contains(id) ==> ids.contains(id)) by {
            if ids.drop_last().contains(id) {
                let i = choose|i: int| 0 <= i < ids.len() - 1 && ids.drop_last()[i] == id;
                assert(ids[i] == id);
            }
        }
        assert(ids.last() == id ==> ids.contains(id)) by {
            assert(ids[ids.len() - 1] == ids.last());
        }
    }
}

/// A sweep over all streams stops exactly those that are idle when they are
/// looked at, and keeps everything else that is known of every stream.
pub proof fn a_sweep_stops_the_idle<C>(
    streams: handlers::Streams<C>,
    ids: Seq<Seq<char>>,
    times: Seq<u64>,
    i: int,
)
    requires
        registry::enumerates(ids, streams),
        ids.len() == times.len(),
        0 <= i < ids.len(),
    ensures
        swept(streams, ids, times).contains_key(ids[i]),
        swept(streams, ids, times)[ids[i]] == (if registry::is_idle(streams[ids[i]], times[i]) {
            registry::EntryView { child: None, ..streams[ids[i]] }
        } else {
            streams[ids[i]]
        }),
{
    assert(ids.contains(ids[i]));
    sweep_of_distinct(streams, ids, times, i);
}

proof fn sweep_of_distinct<C>(
    streams: handlers::Streams<C>,
    ids: Seq<Seq<char>>,
    times: Seq<u64>,
    i: int,
)
    requires
        ids.no_duplicates(),
        ids.len() == times.len(),
        0 <= i < ids.len(),
        streams.contains_key(ids[i]),
    ensures
        swept(streams, ids, times).contains_key(ids[i]),
        swept(streams, ids, times)[ids[i]] == (if registry::is_idle(streams[ids[i]], times[i]) {
            registry::EntryView { child: None, ..streams[ids[i]] }
        } else {
            streams[ids[i]]
        }),
    decreases ids.len(),
{
    let last = ids.len() - 1;
    if i < last {
        assert(ids.drop_last()[i] == ids[i]);
        assert(times.drop_last()[i] == times[i]);
        sweep_of_distinct(streams, ids.drop_last(), times.drop_last(), i);
        assert(ids[last] != ids[i]);
    } else {
        assert(!ids.drop_last().contains(ids[i])) by {
            if ids.drop_last().contains(ids[i]) {
                let j = choose|j: int| 0 <= j < last && ids.drop_last()[j] == ids[i];
                assert(ids[j] == ids[i]);
            }
        }
        sweep_keeps_the_rest(streams, ids.drop_last(), times.drop_last(), ids[i]);
    }
}

/// The time between two sweeps, in nanoseconds.
pub open spec fn cleanup_period() -> int {
    handlers::CLEANUP_SECONDS * 1_000_000_000
}

/// When the sweep `k` comes, counted from one, where the wait for the first
/// begins at `start` and the sweeps themselves take no time.
pub open spec fn sweep_time(start: u64, k: nat) -> int {
    start + k * cleanup_period()
}

/// The streams after `k` sweeps over `ids`, where nothing else happens.
pub open spec fn after_sweeps<C>(
    streams: handlers::Streams<C>,
    ids: Seq<Seq<char>>,
    start: u64,
    k: nat,
) -> handlers::Streams<C>
    decreases k,
{
    if k == 0 {
        streams
    } else {
        swept(
            after_sweeps(streams, ids, start, (k - 1) as nat),
            ids,
            Seq::new(ids.len(), |i: int| sweep_time(start, k) as u64),
        )
    }
}

proof fn sweeps_keep_the_rest<C>(
    streams: handlers::Streams<C>,
    ids: Seq<Seq<char>>,
    start: u64,
    k: nat,
    id: Seq<char>,
)
    requires
        streams.contains_key(id),
    ensures
        after_sweeps(streams, ids, start, k).contains_key(id),
        after_sweeps(streams, ids, start, k)[id] == streams[id] || after_sweeps(
            streams,
            ids,
            start,
            k,
        )[id] == (registry::EntryView { child: None, ..streams[id] }),
    decreases k,
{
    if k > 0 {
        sweeps_keep_the_rest(streams, ids, start, (k - 1) as nat, id);
        sweep_keeps_the_rest(
            after_sweeps(streams, ids, start, (k - 1) as nat),
            ids,
            Seq::new(ids.len(), |i: int| sweep_time(start, k) as u64),
            id,
        );
    }
}

/// A sweep that comes after the limit has passed stops a stream that was not
/// read since; the stream stays known.
pub proof fn a_late_sweep_stops_an_unread_stream<C>(
    streams: handlers::Streams<C>,
    ids: Seq<Seq<char>>,
    times: Seq<u64>,
    i: int,
)
    requires
        registry::enumerates(ids, streams),
        ids.len() == times.len(),
        0 <= i < ids.len(),
        times[i] > streams[ids[i]].last_access + registry::IDLE_LIMIT,
    ensures
        swept(streams, ids, times).contains_key(ids[i]),
        swept(streams, ids, times)[ids[i]].child is None,
        registry::response_of(ids[i], swept(streams, ids, times)[ids[i]]).status == "Standby"@,
{
    a_sweep_stops_the_idle(streams, ids, times, i);
}

/// A running stream that nobody reads is stopped within the limit and one
/// period of cleaning: by then a sweep has come after which it does not run,
/// is shown so, and is still known.
pub proof fn an_unread_stream_is_stopped_in_time<C>(
    streams: handlers::Streams<C>,
    ids: Seq<Seq<char>>,
    id: Seq<char>,
    start: u64,
) -> (k: nat)
    requires
        registry::enumerates(ids, streams),
        streams.contains_key(id),
        start <= streams[id].last_access,
        streams[id].last_access + registry::IDLE_LIMIT + cleanup_period() <= u64::MAX,
    ensures
        k >= 1,
        streams[id].last_access + registry::IDLE_LIMIT < sweep_time(start, k),
        sweep_time(start, k) <= streams[id].last_access + registry::IDLE_LIMIT + cleanup_period(),
        after_sweeps(streams, ids, start, k).contains_key(id),
        after_sweeps(streams, ids, start, k)[id].child is None,
        registry::response_of(id, after_sweeps(streams, ids, start, k)[id]).status == "Standby"@,
{
    let limit = streams[id].last_access + registry::IDLE_LIMIT;
    let wait = limit - start;
    let k = (wait / 10_000_000_000 + 1) as nat;
    assert(wait / 10_000_000_000 >= 0 && wait - 10_000_000_000 < (wait / 10_000_000_000)
        * 10_000_000_000 && (wait / 10_000_000_000) * 10_000_000_000 <= wait) by (nonlinear_arith)
        requires
            wait >= 0,
    ;
    assert(cleanup_period() == 10_000_000_000);
    assert(k * cleanup_period() == (wait / 10_000_000_000) * 10_000_000_000 + 10_000_000_000)
        by (nonlinear_arith)
        requires
            k == wait / 10_000_000_000 + 1,
            cleanup_period() == 10_000_000_000,
    ;
    let earlier = after_sweeps(streams, ids, start, (k - 1) as nat);
    let times = Seq::new(ids.len(), |i: int| sweep_time(start, k) as u64);
    sweeps_keep_the_rest(streams, ids, start, (k - 1) as nat, id);
    assert(ids.contains(id));
    let i = choose|i: int| 0 <= i < ids.len() && ids[i] == id;
    sweep_of_distinct(earlier, ids, times, i);
    k
}

/// The row `i` could be read and holds the stream `id`.
pub open spec fn row_holds(rows: Seq<handlers::Row>, id: Seq<char>, i: int) -> bool {
    &&& 0 <= i < rows.len()
    &&& rows[i].config is Some
    &&& rows[i].config->0.id@ == id
}

/// The streams that are known once rows were loaded into an empty registry.
pub open spec fn restored<C>(rows: Seq<handlers::Row>) -> handlers::Streams<C> {
    handlers::loaded(Map::<Seq<char>, registry::EntryView<C>>::empty(), rows)
}

/// After the hub starts, a stream is known exactly if it stands in the
/// database, and none runs.
pub proof fn loading_restores_the_streams<C>(rows: Seq<handlers::Row>, id: Seq<char>)
    ensures
        restored::<C>(rows).contains_key(id) <==> exists|i: int| row_holds(rows, id, i),
        restored::<C>(rows).contains_key(id) ==> restored::<C>(rows)[id].child is None,
    decreases rows.len(),
{
    if rows.len() > 0 {
        let last = rows.len() - 1;
        let fewer = rows.drop_last();
        loading_restores_the_streams::<C>(fewer, id);
        if restored::<C>(rows).contains_key(id) {
            if restored::<C>(fewer).contains_key(id) {
                let i = choose|i: int| row_holds(fewer, id, i);
                assert(row_holds(rows, id, i));
            } else {
                assert(row_holds(rows, id, last));
            }
        }
        if exists|i: int| row_holds(rows, id, i) {
            let i = choose|i: int| row_holds(rows, id, i);
            if i < last {
                assert(row_holds(fewer, id, i));
            }
        }
    }
}

/// Where several rows hold one stream, the last of them counts.
pub proof fn the_last_row_counts<C>(rows: Seq<handlers::Row>, id: Seq<char>, i: int)
    requires
        row_holds(rows, id, i),
        forall|j: int| i < j ==> !row_holds(rows, id, j),
    ensures
        restored::<C>(rows).contains_key(id),
        restored::<C>(rows)[id] == registry::standby::<C>(rows[i].config->0@, rows[i].read_at),
    decreases rows.len(),
{
    let last = rows.len() - 1;
    if i < last {
        let fewer = rows.drop_last();
        assert(row_holds(fewer, id, i));
        assert forall|j: int| i < j implies !row_holds(fewer, id, j) by {
            assert(!row_holds(rows, id, j));
        }
        the_last_row_counts::<C>(fewer, id, i);
        assert(!row_holds(rows, id, last));
    }
}

/// A stream that was added is shown after a restart as it was shown when it
/// was added, where the row `i` is the last to hold it and holds it as it was
/// kept.
pub proof fn a_stream_survives_a_restart<C>(
    rows: Seq<handlers::Row>,
    config: model::ConfigView,
    i: int,
)
    requires
        row_holds(rows, config.id, i),
        rows[i].config->0@ == config,
        forall|j: int| i < j ==> !row_holds(rows, config.id, j),
    ensures
        restored::<C>(rows).contains_key(config.id),
        registry::response_of(config.id, restored::<C>(rows)[config.id])
            == handlers::added_response(config),
{
    the_last_row_counts::<C>(rows, config.id, i);
}

/// What the hub knows: the rows of its database and the streams in memory.
pub struct Hub<C> {
    pub table: handlers::Table,
    pub streams: handlers::Streams<C>,
}

/// What can happen to the hub. `open` tells whether the client has an open
/// session.
pub enum Event<C> {
    /// A stream is added: the client's request, the id that was drawn and what
    /// the probe said.
    Add {
        open: bool,
        payload: model::ConfigView,
        id: Seq<char>,
        metadata: model::MetadataView,
        now: u64,
    },
    /// A stream is deleted.
    Delete { open: bool, id: Seq<char> },
    /// A stream is started on request.
    Start { open: bool, id: Seq<char>, child: C, now: u64 },
    /// A stream is stopped on request.
    Stop { open: bool, id: Seq<char> },
    /// A file of a stream is read.
    Read { id: Seq<char>, now: u64 },
    /// The process of a stream that a player woke runs.
    Wake { id: Seq<char>, child: C },
    /// A stream is looked at for being idle.
    Look { id: Seq<char>, now: u64 },
}

/// The streams once `id` was looked at for being idle.
pub open spec fn looked_at<C>(
    streams: handlers::Streams<C>,
    id: Seq<char>,
    now: u64,
) -> handlers::Streams<C> {
    if streams.contains_key(id) && registry::is_idle(streams[id], now) {
        registry::detached(streams, id)
    } else {
        streams
    }
}

/// The hub after an event.
pub open spec fn after<C>(hub: Hub<C>, event: Event<C>) -> Hub<C> {
    match event {
        Event::Add { open, payload, id, metadata, now } => if open {
            let config = handlers::completed(payload, id, metadata);
            Hub {
                table: handlers::table_with(hub.table, config),
                streams: hub.streams.insert(config.id, registry::standby(config, now)),
            }
        } else {
            hub
        },
        Event::Delete { open, id } => if open {
            Hub {
                table: handlers::table_without(hub.table, id),
                streams: hub.streams.remove(id),
            }
        } else {
            hub
        },
        Event::Start { open, id, child, now } => if open {
            Hub { streams: started(hub.streams, id, child, now), ..hub }
        } else {
            hub
        },
        Event::Stop { open, id } => Hub {
            streams: handlers::streams_after_stop(open, hub.streams, id),
            ..hub
        },
        Event::Read { id, now } => Hub { streams: registry::touched(hub.streams, id, now), ..hub },
        Event::Wake { id, child } => Hub {
            streams: registry::attached(hub.streams, id, child),
            ..hub
        },
        Event::Look { id, now } => Hub { streams: looked_at(hub.streams, id, now), ..hub },
    }
}

/// The hub after events, one after the other.
pub open spec fn after_all<C>(hub: Hub<C>, events: Seq<Event<C>>) -> Hub<C>
    decreases events.len(),
{
    if events.len() == 0 {
        hub
    } else {
        after(after_all(hub, events.drop_last()), events.last())
    }
}

/// A hub without streams.
pub open spec fn empty_hub<C>() -> Hub<C> {
    Hub { table: Map::empty(), streams: Map::empty() }
}

/// The name, the address, the proxy and the metadata of a stream in memory are
/// those of its row.
pub open spec fn same_stream<C>(
    config: model::ConfigView,
    entry: registry::EntryView<C>,
) -> bool {
    &&& entry.name == config.name
    &&& entry.url == config.url
    &&& entry.proxy == config.proxy
    &&& entry.metadata == config.metadata
}

/// The database and the memory name the same streams and say the same of them,
/// and every row carries its key as the id of its stream.
pub open spec fn in_step<C>(hub: Hub<C>) -> bool {
    &&& hub.table.dom() == hub.streams.dom()
    &&& forall|key: Seq<char>| #[trigger]
        hub.table.contains_key(key) ==> hub.table[key].id == key && same_stream(
            hub.table[key],
            hub.streams[key],
        )
}

/// Every event, admitted or refused, keeps the database and the memory in
/// step.
pub proof fn events_keep_the_hub_in_step<C>(hub: Hub<C>, event: Event<C>)
    requires
        in_step(hub),
    ensures
        in_step(after(hub, event)),
{
    let next = after(hub, event);
    assert forall|key: Seq<char>| hub.table.contains_key(key) == hub.streams.contains_key(key) by {
        assert(hub.table.dom().contains(key) == hub.streams.dom().contains(key));
    }
    assert(next.table.dom() =~= next.streams.dom());
    assert forall|key: Seq<char>| #[trigger] next.table.contains_key(key) implies next.table[key].id
        == key && same_stream(next.table[key], next.streams[key]) by {
        if hub.table.contains_key(key) {
            assert(same_stream(hub.table[key], hub.streams[key]));
        }
    }
}

/// Whatever happened to a hub that began without streams, its database and its
/// memory are in step.
pub proof fn the_hub_is_always_in_step<C>(events: Seq<Event<C>>)
    ensures
        in_step(after_all(empty_hub::<C>(), events)),
    decreases events.len(),
{
    if events.len() == 0 {
        assert(empty_hub::<C>().table.dom() =~= empty_hub::<C>().streams.dom());
    } else {
        the_hub_is_always_in_step::<C>(events.drop_last());
        events_keep_the_hub_in_step(
            after_all(empty_hub::<C>(), events.drop_last()),
            events.last(),
        );
    }
}

/// `rows` are the rows of `table` as they are read again: every row can be
/// read and holds what was written, in some order.
pub open spec fn reads_back(rows: Seq<handlers::Row>, table: handlers::Table) -> bool {
    &&& forall|i: int|
        0 <= i < rows.len() ==> {
            &&& (#[trigger] rows[i]).config is Some
            &&& table.contains_key(rows[i].config->0.id@)
            &&& table[rows[i].config->0.id@] == rows[i].config->0@
        }
    &&& forall|key: Seq<char>| #[trigger]
        table.contains_key(key) ==> exists|i: int| row_holds(rows, key, i)
}

/// A stream that is known after loading is one that some row holds.
proof fn restored_from_a_row<C>(rows: Seq<handlers::Row>, id: Seq<char>)
    requires
        restored::<C>(rows).contains_key(id),
    ensures
        exists|i: int|
            row_holds(rows, id, i) && restored::<C>(rows)[id] == registry::standby::<C>(
                rows[i].config->0@,
                rows[i].read_at,
            ),
    decreases rows.len(),
{
    let last = rows.len() - 1;
    if rows.len() > 0 {
        if row_holds(rows, id, last) {
            assert(restored::<C>(rows)[id] == registry::standby::<C>(
                rows[last].config->0@,
                rows[last].read_at,
            ));
        } else {
            let fewer = rows.drop_last();
            restored_from_a_row::<C>(fewer, id);
            let i = choose|i: int|
                row_holds(fewer, id, i) && restored::<C>(fewer)[id] == registry::standby::<C>(
                    fewer[i].config->0@,
                    fewer[i].read_at,
                );
            assert(row_holds(rows, id, i));
        }
    }
}

/// What was added and not deleted is there again after a restart, and nothing
/// else: whatever happened before, the same streams are known, with the same
/// name, address, proxy and metadata, and none runs.
pub proof fn a_restart_keeps_the_streams<C>(events: Seq<Event<C>>, rows: Seq<handlers::Row>)
    requires
        reads_back(rows, after_all(empty_hub::<C>(), events).table),
    ensures
        ({
            let before = after_all(empty_hub::<C>(), events);
            let again = restored::<C>(rows);
            &&& again.dom() == before.streams.dom()
            &&& in_step(Hub { table: before.table, streams: again })
            &&& forall|id: Seq<char>| #[trigger]
                again.contains_key(id) ==> {
                    &&& again[id].name == before.streams[id].name
                    &&& again[id].url == before.streams[id].url
                    &&& again[id].proxy == before.streams[id].proxy
                    &&& again[id].metadata == before.streams[id].metadata
                    &&& again[id].child is None
                }
        }),
{
    let before = after_all(empty_hub::<C>(), events);
    let again = restored::<C>(rows);
    the_hub_is_always_in_step::<C>(events);
    assert forall|id: Seq<char>| #[trigger] again.contains_key(id) implies {
        &&& before.table.contains_key(id)
        &&& same_stream(before.table[id], again[id])
        &&& again[id].child is None
    } by {
        restored_from_a_row::<C>(rows, id);
        let i = choose|i: int|
            row_holds(rows, id, i) && again[id] == registry::standby::<C>(
                rows[i].config->0@,
                rows[i].read_at,
            );
        assert(rows[i].config is Some);
    }
    assert forall|id: Seq<char>| #[trigger] before.table.contains_key(id) implies
        again.contains_key(id) by {
        loading_restores_the_streams::<C>(rows, id);
    }
    assert(again.dom() =~= before.table.dom());
}

/// To add a stream under a new id and to delete it leaves the database and the
/// memory as they were.
pub proof fn deleting_undoes_adding<C>(
    hub: Hub<C>,
    payload: model::ConfigView,
    id: Seq<char>,
    metadata: model::MetadataView,
    now: u64,
)
    requires
        !hub.table.contains_key(id),
        !hub.streams.contains_key(id),
    ensures
        after(
            after(hub, Event::Add { open: true, payload, id, metadata, now }),
            Event::Delete { open: true, id },
        ) == hub,
{
    let end = after(
        after(hub, Event::Add { open: true, payload, id, metadata, now }),
        Event::Delete { open: true, id },
    );
    assert(end.table =~= hub.table);
    assert(end.streams =~= hub.streams);
}

/// `configs` are the streams of `table`, in some order.
pub open spec fn holds_rows(configs: Seq<model::ConfigView>, table: handlers::Table) -> bool {
    &&& forall|i: int|
        0 <= i < configs.len() ==> table.contains_key((#[trigger] configs[i]).id)
            && table[configs[i].id] == configs[i]
    &&& forall|key: Seq<char>| #[trigger]
        table.contains_key(key) ==> exists|i: int|
            0 <= i < configs.len() && (#[trigger] configs[i]).id == key
}

/// Whatever happened before, once a stream is deleted neither the database nor
/// the memory holds it, no list shows it, no playlist is made of it, and a
/// request to start it finds nothing.
pub proof fn a_deleted_stream_is_named_nowhere<C>(
    hub: Hub<C>,
    id: Seq<char>,
    shown: Seq<model::ResponseView>,
    configs: Seq<model::ConfigView>,
    base_dir: Seq<char>,
)
    requires
        registry::lists(shown, after(hub, Event::Delete { open: true, id }).streams),
        holds_rows(configs, after(hub, Event::Delete { open: true, id }).table),
    ensures
        ({
            let end = after(hub, Event::Delete { open: true, id });
            &&& !end.table.contains_key(id)
            &&& !end.streams.contains_key(id)
            &&& forall|i: int| 0 <= i < shown.len() ==> (#[trigger] shown[i]).id != id
            &&& forall|i: int| 0 <= i < configs.len() ==> (#[trigger] configs[i]).id != id
            &&& handlers::start_step(true, end.streams, id, base_dir)
                == handlers::StartView::Done(
                reply::bare(reply::NOT_FOUND, reply::BodyView::Empty),
            )
        }),
{
    let end = after(hub, Event::Delete { open: true, id });
    let ids = shown.map_values(|response: model::ResponseView| response.id);
    assert forall|i: int| 0 <= i < shown.len() implies (#[trigger] shown[i]).id != id by {
        assert(ids[i] == shown[i].id);
        assert(ids.contains(ids[i]));
        assert(end.streams.contains_key(ids[i]));
    }
}

/// While the database and the memory are in step, the list and the playlist
/// name the same streams.
pub proof fn list_and_playlist_agree<C>(
    hub: Hub<C>,
    shown: Seq<model::ResponseView>,
    configs: Seq<model::ConfigView>,
    id: Seq<char>,
)
    requires
        in_step(hub),
        registry::lists(shown, hub.streams),
        holds_rows(configs, hub.table),
    ensures
        (exists|i: int| 0 <= i < shown.len() && (#[trigger] shown[i]).id == id) <==> (exists|
            i: int,
        |
            0 <= i < configs.len() && (#[trigger] configs[i]).id == id),
{
    let ids = shown.map_values(|response: model::ResponseView| response.id);
    assert(hub.table.dom().contains(id) == hub.streams.dom().contains(id));
    if exists|i: int| 0 <= i < shown.len() && (#[trigger] shown[i]).id == id {
        let i = choose|i: int| 0 <= i < shown.len() && (#[trigger] shown[i]).id == id;
        assert(ids[i] == id);
        assert(ids.contains(id));
        assert(hub.streams.contains_key(id));
        assert(hub.table.contains_key(id));
    }
    if exists|i: int| 0 <= i < configs.len() && (#[trigger] configs[i]).id == id {
        let i = choose|i: int| 0 <= i < configs.len() && (#[trigger] configs[i]).id == id;
        assert(hub.table.contains_key(configs[i].id));
        assert(hub.streams.contains_key(id));
        assert(ids.contains(id));
        let j = choose|j: int| 0 <= j < ids.len() && ids[j] == id;
        assert(shown[j].id == id);
    }
}

/// The playlist leads every player to the address that clients are shown for
/// the stream.
pub proof fn the_playlist_leads_to_the_streams(
    configs: Seq<model::ConfigView>,
    host: Seq<char>,
    i: int,
)
    requires
        0 <= i < configs.len(),
    ensures
        text::has_part(
            playlist::playlist_text(configs, host),
            "http://"@ + host + model::playlist_path(configs[i].id),
        ),
    decreases configs.len(),
{
    let whole = playlist::playlist_text(configs, host);
    let address = "http://"@ + host + model::playlist_path(configs[i].id);
    let rest = playlist::playlist_text(configs.drop_last(), host);
    let item = playlist::playlist_item(configs.last(), host);
    if i < configs.len() - 1 {
        the_playlist_leads_to_the_streams(configs.drop_last(), host, i);
        assert(text::has_part(rest, address));
        let at = choose|at: int| text::occurs_at(rest, address, at);
        assert(whole.subrange(at, at + address.len()) =~= rest.subrange(at, at + address.len()));
        assert(text::occurs_at(whole, address, at));
    } else {
        let config = configs.last();
        reveal_strlit("\nhttp://");
        reveal_strlit("http://");
        reveal_strlit("/index.m3u8\n");
        reveal_strlit("/index.m3u8");
        let head = "#EXTINF:-1 tvg-id=\""@ + config.id + "\","@ + config.name;
        assert("\nhttp://"@ =~= seq!['\n'] + "http://"@);
        assert("/index.m3u8\n"@ =~= "/index.m3u8"@.push('\n'));
        assert(item =~= head + seq!['\n'] + address + seq!['\n']);
        let at: int = rest.len() + head.len() + 1int;
        assert(whole.subrange(at, at + address.len()) =~= address);
        assert(text::occurs_at(whole, address, at));
    }
}

/// The last stream with a picture of known width says what is shown of the
/// picture.
pub proof fn the_last_picture_counts(streams: Seq<probe::ElementaryView>, i: int)
    requires
        0 <= i < streams.len(),
        probe::shows_picture(streams[i]),
        forall|j: int| i < j < streams.len() ==> !probe::shows_picture(#[trigger] streams[j]),
    ensures
        probe::summary_of(streams).resolution == probe::resolution_text(
            streams[i].width,
            streams[i].height,
        ),
        probe::summary_of(streams).video_codec == streams[i].codec,
    decreases streams.len(),
{
    if i < streams.len() - 1 {
        assert(!probe::shows_picture(streams[streams.len() - 1]));
        the_last_picture_counts(streams.drop_last(), i);
    }
}

/// The last stream with sound says what is shown of the sound.
pub proof fn the_last_sound_counts(streams: Seq<probe::ElementaryView>, i: int)
    requires
        0 <= i < streams.len(),
        probe::carries_sound(streams[i]),
        forall|j: int| i < j < streams.len() ==> !probe::carries_sound(#[trigger] streams[j]),
    ensures
        probe::summary_of(streams).audio_codec == streams[i].codec,
        probe::summary_of(streams).channels == probe::channels_text(streams[i].channels),
    decreases streams.len(),
{
    reveal_strlit("video");
    reveal_strlit("audio");
    assert("video"@[0] != "audio"@[0]);
    if i < streams.len() - 1 {
        assert(!probe::carries_sound(streams[streams.len() - 1]));
        the_last_sound_counts(streams.drop_last(), i);
    }
}

/// Where no stream has a picture, or none has sound, what is shown of it is
/// that it is unknown.
pub proof fn without_streams_all_is_unknown(streams: Seq<probe::ElementaryView>)
    ensures
        (forall|j: int| 0 <= j < streams.len() ==> !probe::shows_picture(#[trigger] streams[j]))
            ==> {
            &&& probe::summary_of(streams).resolution == probe::unknown_metadata().resolution
            &&& probe::summary_of(streams).video_codec == probe::unknown_metadata().video_codec
        },
        (forall|j: int| 0 <= j < streams.len() ==> !probe::carries_sound(#[trigger] streams[j]))
            ==> {
            &&& probe::summary_of(streams).audio_codec == probe::unknown_metadata().audio_codec
            &&& probe::summary_of(streams).channels == probe::unknown_metadata().channels
        },
    decreases streams.len(),
{
    if streams.len() > 0 {
        without_streams_all_is_unknown(streams.drop_last());
        assert(streams.last() == streams[streams.len() - 1]);
        assert forall|j: int| 0 <= j < streams.len() - 1 implies #[trigger] streams.drop_last()[j]
            == streams[j] by {}
    }
}

/// The referring page is a beginning of the address, and where the address
/// has a path it ends with the slash before it.
pub proof fn the_referer_begins_the_address(url: Seq<char>)
    ensures
        text::begins_with(url, transcode::referer_of(url)),
        transcode::referer_of(url).len() < url.len() && text::has_part(url, "://"@)
            ==> transcode::referer_of(url).last() == '/',
        !text::has_part(url, "://"@) ==> transcode::referer_of(url) == Seq::<char>::empty(),
{
    reveal_strlit("");
    reveal_strlit("://");
    reveal_strlit("/");
    assert(""@ =~= Seq::<char>::empty());
    match text::leftmost(url, "://"@) {
        None => {},
        Some(scheme) => {
            leftmost_occurs(url, "://"@);
            let rest = url.skip(scheme + 3);
            match text::leftmost(rest, "/"@) {
                None => {},
                Some(slash) => {
                    leftmost_occurs(rest, "/"@);
                    assert(rest.subrange(slash, slash + 1)[0] == '/');
                },
            }
        },
    }
}

/// Where a pattern occurs, its leftmost position is one at which it occurs.
proof fn leftmost_occurs(chars: Seq<char>, pattern: Seq<char>)
    requires
        text::has_part(chars, pattern),
    ensures
        text::leftmost(chars, pattern) is Some,
        text::is_leftmost(chars, pattern, text::leftmost(chars, pattern)->0),
{
    let at = choose|at: int| text::occurs_at(chars, pattern, at);
    first_occurrence(chars, pattern, at);
    let first = choose|first: int| text::is_leftmost(chars, pattern, first);
    text::leftmost_is_unique(chars, pattern, first);
}

proof fn first_occurrence(chars: Seq<char>, pattern: Seq<char>, at: int)
    requires
        text::occurs_at(chars, pattern, at),
    ensures
        exists|first: int| text::is_leftmost(chars, pattern, first),
    decreases at,
{
    if exists|earlier: int| earlier < at && text::occurs_at(chars, pattern, earlier) {
        let earlier = choose|earlier: int|
            earlier < at && text::occurs_at(chars, pattern, earlier);
        first_occurrence(chars, pattern, earlier);
    } else {
        assert(text::is_leftmost(chars, pattern, at));
    }
}

/// `ffmpeg` reads the source and writes the playlist into its directory, which
/// is the one that is removed when the stream is stopped.
pub proof fn ffmpeg_writes_into_its_directory(
    url: Seq<char>,
    id: Seq<char>,
    base_dir: Seq<char>,
    proxy: Seq<char>,
)
    ensures
        transcode::job_for(url, id, base_dir, proxy).output_dir == transcode::stream_dir(
            base_dir,
            id,
        ),
        transcode::job_for(url, id, base_dir, proxy).args.last() == transcode::stream_dir(
            base_dir,
            id,
        ) + "/index.m3u8"@,
        exists|i: int|
            0 <= i < transcode::job_for(url, id, base_dir, proxy).args.len() - 1
                && #[trigger] transcode::job_for(url, id, base_dir, proxy).args[i] == "-i"@
                && transcode::job_for(url, id, base_dir, proxy).args[i + 1] == url,
{
    let lower = text::lowercase(url);
    let head = transcode::basic_args(url) + transcode::input_args() + transcode::protocol_args(
        lower,
    );
    let args = transcode::job_for(url, id, base_dir, proxy).args;
    let i = head.len() as int;
    assert(args =~= head + seq!["-i"@, url] + transcode::output_args(
        transcode::stream_dir(base_dir, id),
    ));
    assert(args[i] == "-i"@);
    assert(args[i + 1] == url);
}

/// Private networks and RTP sources are never reached through the proxy, nor
/// is an address that holds `172.16.`; every other source is, where one is
/// given.
pub proof fn the_proxy_is_for_the_outside(
    url: Seq<char>,
    id: Seq<char>,
    base_dir: Seq<char>,
    proxy: Seq<char>,
)
    ensures
        ({
            let lower = text::lowercase(url);
            transcode::job_for(url, id, base_dir, proxy).env.len() > 0 <==> {
                &&& proxy.len() > 0
                &&& !text::has_part(lower, "172.16."@)
                &&& !text::begins_with(lower, "rtp://"@)
                &&& !address::is_private_host(address::host_of(lower))
            }
        }),
        forall|i: int|
            0 <= i < transcode::job_for(url, id, base_dir, proxy).env.len() ==> (
            #[trigger] transcode::job_for(url, id, base_dir, proxy).env[i]).1 == proxy,
{
}

/// An address with the numbers of a private network as its host is never
/// reached through the proxy, whatever its scheme, its port and its path.
pub proof fn private_networks_are_reached_directly(
    scheme: Seq<char>,
    a: nat,
    b: nat,
    c: nat,
    d: nat,
    port: Seq<char>,
    rest: Seq<char>,
    proxy: Seq<char>,
)
    requires
        address::private_numbers(a, b, c, d),
        !scheme.contains(':'),
        forall|i: int|
            0 <= i < port.len() ==> #[trigger] port[i] != '/' && port[i] != '?' && port[i] != '#'
                && port[i] != '@',
        port.len() > 0 ==> port[0] == ':',
        rest.len() > 0 ==> rest[0] == '/' || rest[0] == '?' || rest[0] == '#',
    ensures
        transcode::job_env(
            scheme + "://"@ + address::dotted(a, b, c, d) + port + rest,
            proxy,
        ).len() == 0,
{
    let name = address::dotted(a, b, c, d);
    address::dotted_is_plain(a, b, c, d);
    address::host_of_plain_address(scheme, name, port, rest);
    assert(address::is_private_host(name));
}

/// Addresses that are the same in lower case are treated as one kind of
/// source.
pub proof fn case_does_not_matter(a: Seq<char>, b: Seq<char>, proxy: Seq<char>)
    requires
        text::lowercase(a) == text::lowercase(b),
    ensures
        transcode::protocol_args(text::lowercase(a)) == transcode::protocol_args(
            text::lowercase(b),
        ),
        transcode::job_env(text::lowercase(a), proxy) == transcode::job_env(
            text::lowercase(b),
            proxy,
        ),
{
}

} // verus!
