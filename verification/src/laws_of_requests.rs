//! What holds of how requests are answered and of what they change.
use vstd::prelude::*;

use crate::auth;
use crate::handlers;
use crate::ids;
use crate::json;
use crate::laws;
use crate::laws_of_sources;
use crate::laws_of_text;
use crate::model;
use crate::playlist;
use crate::probe;
use crate::registry;
use crate::reply;
use crate::session;
use crate::site;
use crate::text;
use crate::transcode;

use axum::http::HeaderMap;

verus! {

/// What a player is sent is what the file holds, byte for byte, whatever its
/// name; a playlist and a segment differ in their type only.
pub proof fn what_the_file_holds_is_sent(file: Seq<char>, content: Seq<u8>)
    ensures
        handlers::media_answer(file, Some(content)).status == 200,
        handlers::media_answer(file, Some(content)).body == reply::BodyView::Bytes(content),
        handlers::media_answer(file, Some(content)).set_cookie is None,
        (".m3u8"@).is_suffix_of(file) ==> handlers::media_answer(file, Some(content)).content_type
            == Some("application/x-mpegurl"@),
        !(".m3u8"@).is_suffix_of(file) ==> handlers::media_answer(file, Some(content)).content_type
            == Some("video/MP2T"@),
{
}

/// Two files with the same content are sent alike, but for their type; two
/// files with different contents never are.
pub proof fn contents_are_kept_apart(
    file: Seq<char>,
    other: Seq<char>,
    content: Seq<u8>,
    different: Seq<u8>,
)
    ensures
        handlers::media_answer(file, Some(content)).body == handlers::media_answer(
            other,
            Some(content),
        ).body,
        content != different ==> handlers::media_answer(file, Some(content)).body
            != handlers::media_answer(other, Some(different)).body,
        handlers::media_answer(file, Some(content)) != handlers::media_answer(file, None),
{
}

/// A file that is not there is answered so, whatever its name: the stream may
/// still be loading.
pub proof fn a_missing_file_is_not_found(file: Seq<char>)
    ensures
        handlers::media_answer(file, None) == (reply::ReplyView {
            status: 404,
            set_cookie: None,
            content_type: None,
            body: reply::BodyView::Text("Loading..."@),
        }),
{
}

/// A known stream that does not run is started with its own address and its
/// own proxy, into its own directory: a request gives the run that a player
/// gives who asks for a playlist of the stream.
pub proof fn a_request_and_a_player_start_the_same_run<C>(
    streams: handlers::Streams<C>,
    id: Seq<char>,
    entry: registry::EntryView<C>,
    pre: Seq<char>,
    base_dir: Seq<char>,
)
    requires
        streams.contains_key(id),
        streams[id] == entry,
        entry.child is None,
    ensures
        handlers::wakes(streams, id, pre + ".m3u8"@),
        handlers::start_step(true, streams, id, base_dir) == handlers::StartView::Spawn(
            transcode::job_for(entry.url, id, base_dir, entry.proxy),
        ),
{
    assert((".m3u8"@).is_suffix_of(pre + ".m3u8"@)) by {
        assert((pre + ".m3u8"@).subrange(pre.len() as int, (pre + ".m3u8"@).len() as int)
            =~= ".m3u8"@);
    }
}

/// A stream at a host that has a name is started through the proxy that was
/// given for it.
pub proof fn a_stream_is_started_through_its_proxy<C>(
    streams: handlers::Streams<C>,
    id: Seq<char>,
    base_dir: Seq<char>,
    scheme: Seq<char>,
    user: Seq<char>,
    host: Seq<char>,
    at: int,
    port: Seq<char>,
    rest: Seq<char>,
)
    requires
        streams.contains_key(id),
        streams[id].child is None,
        streams[id].proxy.len() > 0,
        laws_of_sources::is_address(streams[id].url, scheme, user, host, port, rest),
        0 <= at < host.len(),
        !('0' <= host[at] && host[at] <= '9'),
        host[at] != '.',
        !text::has_part(text::lowercase(streams[id].url), "172.16."@),
        !("rtp://"@).is_prefix_of(text::lowercase(streams[id].url)),
    ensures
        handlers::start_step(true, streams, id, base_dir) matches handlers::StartView::Spawn(job)
            && job.env == seq![
            ("all_proxy"@, streams[id].proxy),
            ("http_proxy"@, streams[id].proxy),
            ("https_proxy"@, streams[id].proxy),
        ],
{
    laws_of_sources::named_hosts_are_reached_through_the_proxy(
        streams[id].url,
        scheme,
        user,
        host,
        at,
        port,
        rest,
        id,
        base_dir,
        streams[id].proxy,
    );
}

/// A stream is started from its own address, and writes into its own
/// directory: where two streams are started, each run reads the source of its
/// own stream.
pub proof fn a_stream_is_started_from_its_own_address<C>(
    streams: handlers::Streams<C>,
    id: Seq<char>,
    base_dir: Seq<char>,
)
    requires
        streams.contains_key(id),
        streams[id].child is None,
    ensures
        handlers::start_step(true, streams, id, base_dir) matches handlers::StartView::Spawn(job)
            && {
            &&& job.args.len() >= 17
            &&& job.args[job.args.len() - 17] == "-i"@
            &&& job.args[job.args.len() - 16] == streams[id].url
            &&& job.args.last() == base_dir + "/"@ + id + "/index.m3u8"@
            &&& job.output_dir == base_dir + "/"@ + id
        },
{
    laws_of_sources::every_run_ends_alike(streams[id].url, id, base_dir, streams[id].proxy);
}

/// What is started depends on nothing but the stream that is asked for.
pub proof fn other_streams_do_not_matter_to_a_start<C>(
    streams: handlers::Streams<C>,
    others: handlers::Streams<C>,
    id: Seq<char>,
    open: bool,
    base_dir: Seq<char>,
)
    requires
        streams.contains_key(id) == others.contains_key(id),
        streams.contains_key(id) ==> streams[id] == others[id],
    ensures
        handlers::start_step(open, streams, id, base_dir) == handlers::start_step(
            open,
            others,
            id,
            base_dir,
        ),
{
}

/// A request to start a stream that runs, that is not known, or without a
/// session starts nothing, and is answered so.
pub proof fn a_start_is_answered<C>(
    streams: handlers::Streams<C>,
    id: Seq<char>,
    base_dir: Seq<char>,
)
    ensures
        handlers::start_step(false, streams, id, base_dir) == handlers::StartView::Done(
            (reply::ReplyView {
                status: 401,
                set_cookie: None,
                content_type: None,
                body: reply::BodyView::Empty,
            }),
        ),
        !streams.contains_key(id) ==> handlers::start_step(true, streams, id, base_dir)
            == handlers::StartView::Done(
            (reply::ReplyView {
                status: 404,
                set_cookie: None,
                content_type: None,
                body: reply::BodyView::Empty,
            }),
        ),
        streams.contains_key(id) && streams[id].child is Some ==> handlers::start_step(
            true,
            streams,
            id,
            base_dir,
        ) == handlers::StartView::Done(
            (reply::ReplyView {
                status: 200,
                set_cookie: None,
                content_type: None,
                body: reply::BodyView::Text("Already Running"@),
            }),
        ),
        handlers::started_answer(true) == (reply::ReplyView {
            status: 200,
            set_cookie: None,
            content_type: None,
            body: reply::BodyView::Text("Started"@),
        }),
        handlers::started_answer(false) == (reply::ReplyView {
            status: 404,
            set_cookie: None,
            content_type: None,
            body: reply::BodyView::Empty,
        }),
{
}

/// Only a request for a playlist wakes a stream, and only one that is known
/// and does not run.
pub proof fn only_playlists_wake_streams<C>(
    streams: handlers::Streams<C>,
    id: Seq<char>,
    file: Seq<char>,
)
    ensures
        handlers::wakes(streams, id, file) <==> {
            &&& (".m3u8"@).is_suffix_of(file)
            &&& streams.contains_key(id)
            &&& streams[id].child is None
        },
{
}

/// To stop a running stream hands out its process and its directory, and from
/// then on it does not run; nothing else of it changes, and no other stream. A
/// stream that does not run or is not known is left as it is.
pub proof fn a_stop_ends_the_process<C>(
    streams: handlers::Streams<C>,
    id: Seq<char>,
    other: Seq<char>,
    base_dir: Seq<char>,
)
    requires
        other != id,
    ensures
        handlers::stop_step(false, streams, id, base_dir) == handlers::StopView::<C>::Done(
            (reply::ReplyView {
                status: 401,
                set_cookie: None,
                content_type: None,
                body: reply::BodyView::Empty,
            }),
        ),
        handlers::streams_after_stop(false, streams, id) == streams,
        ({
            let after = handlers::streams_after_stop(true, streams, id);
            &&& after.contains_key(other) == streams.contains_key(other)
            &&& streams.contains_key(other) ==> after[other] == streams[other]
            &&& after.contains_key(id) == streams.contains_key(id)
            &&& streams.contains_key(id) ==> {
                &&& after[id].child is None
                &&& after[id].name == streams[id].name
                &&& after[id].url == streams[id].url
                &&& after[id].last_access == streams[id].last_access
                &&& after[id].metadata == streams[id].metadata
                &&& after[id].proxy == streams[id].proxy
            }
        }),
        streams.contains_key(id) && streams[id].child is Some ==> handlers::stop_step(
            true,
            streams,
            id,
            base_dir,
        ) == (handlers::StopView::Kill {
            child: streams[id].child->0,
            dir: base_dir + "/"@ + id,
            reply: reply::ReplyView {
                status: 200,
                set_cookie: None,
                content_type: None,
                body: reply::BodyView::Text("Stopped"@),
            },
        }),
        !(streams.contains_key(id) && streams[id].child is Some) ==> handlers::stop_step(
            true,
            streams,
            id,
            base_dir,
        ) == handlers::StopView::<C>::Done(
            (reply::ReplyView {
                status: 200,
                set_cookie: None,
                content_type: None,
                body: reply::BodyView::Text("Not Running"@),
            }),
        ),
{
}

/// A stream is shown with its own name, address and metadata, where its
/// playlist is, and whether it runs.
pub proof fn a_stream_is_shown_as_it_is<C>(id: Seq<char>, entry: registry::EntryView<C>)
    ensures
        registry::response_of(id, entry).id == id,
        registry::response_of(id, entry).name == entry.name,
        registry::response_of(id, entry).url == entry.url,
        registry::response_of(id, entry).m3u8_url == "/live/"@ + id + "/index.m3u8"@,
        entry.child is Some ==> registry::response_of(id, entry).status == "Running"@,
        entry.child is None ==> registry::response_of(id, entry).status == "Standby"@,
        registry::response_of(id, entry).metadata == entry.metadata,
        registry::response_of(id, entry).metadata.resolution == entry.metadata.resolution,
        registry::response_of(id, entry).metadata.video_codec == entry.metadata.video_codec,
        registry::response_of(id, entry).metadata.audio_codec == entry.metadata.audio_codec,
        registry::response_of(id, entry).metadata.channels == entry.metadata.channels,
{
}

/// A client that added a stream is shown it as it is kept, not running.
pub proof fn an_added_stream_is_shown_as_it_is_kept(config: model::ConfigView)
    ensures
        handlers::added_response(config).id == config.id,
        handlers::added_response(config).name == config.name,
        handlers::added_response(config).url == config.url,
        handlers::added_response(config).m3u8_url == "/live/"@ + config.id + "/index.m3u8"@,
        handlers::added_response(config).status == "Standby"@,
        handlers::added_response(config).metadata == config.metadata,
        handlers::added_response(config).metadata.video_codec == config.metadata.video_codec,
        handlers::added_response(config).metadata.audio_codec == config.metadata.audio_codec,
{
}

/// Whatever happened to the hub, a list shows every stream of the database
/// once, with the name, the address and the metadata of its row, where its
/// playlist is, and whether it runs.
pub proof fn a_list_shows_the_rows<C>(
    events: Seq<laws::Event<C>>,
    shown: Seq<model::ResponseView>,
    id: Seq<char>,
) -> (i: int)
    requires
        registry::lists(shown, laws::after_all(laws::empty_hub::<C>(), events).streams),
        laws::after_all(laws::empty_hub::<C>(), events).table.contains_key(id),
    ensures
        ({
            let hub = laws::after_all(laws::empty_hub::<C>(), events);
            let row = hub.table[id];
            &&& 0 <= i < shown.len()
            &&& shown[i].id == id
            &&& shown[i].name == row.name
            &&& shown[i].url == row.url
            &&& shown[i].metadata == row.metadata
            &&& shown[i].m3u8_url == "/live/"@ + id + "/index.m3u8"@
            &&& shown[i].status == (if hub.streams[id].child is Some {
                "Running"@
            } else {
                "Standby"@
            })
            &&& forall|j: int| 0 <= j < shown.len() && j != i ==> (#[trigger] shown[j]).id != id
        }),
{
    let hub = laws::after_all(laws::empty_hub::<C>(), events);
    laws::the_hub_is_always_in_step::<C>(events);
    assert(hub.table.dom().contains(id) == hub.streams.dom().contains(id));
    assert(hub.streams.contains_key(id));
    let ids = shown.map_values(|response: model::ResponseView| response.id);
    assert(ids.contains(id));
    let i = choose|i: int| 0 <= i < ids.len() && ids[i] == id;
    assert(shown[i].id == id);
    assert(shown[i] == registry::response_of(id, hub.streams[id]));
    assert(laws::same_stream(hub.table[id], hub.streams[id]));
    assert forall|j: int| 0 <= j < shown.len() && j != i implies (#[trigger] shown[j]).id != id by {
        assert(ids[j] != ids[i]);
    }
    i
}

/// A list shows no stream that is not known.
pub proof fn a_list_shows_known_streams_only<C>(
    shown: Seq<model::ResponseView>,
    streams: handlers::Streams<C>,
    i: int,
)
    requires
        registry::lists(shown, streams),
        0 <= i < shown.len(),
    ensures
        streams.contains_key(shown[i].id),
        shown[i].name == streams[shown[i].id].name,
        shown[i].url == streams[shown[i].id].url,
        shown[i].metadata == streams[shown[i].id].metadata,
{
    let ids = shown.map_values(|response: model::ResponseView| response.id);
    assert(ids[i] == shown[i].id);
    assert(ids.contains(shown[i].id));
}

/// What a client added is what every list shows from then on, as long as it is
/// not deleted or replaced: the name and the address that the client sent, and
/// what the probe said.
pub proof fn a_list_shows_what_was_added<C>(
    hub: laws::Hub<C>,
    payload: model::ConfigView,
    id: Seq<char>,
    metadata: model::MetadataView,
    now: u64,
    shown: Seq<model::ResponseView>,
) -> (i: int)
    requires
        registry::lists(
            shown,
            laws::after(
                hub,
                laws::Event::Add { open: true, payload, id, metadata, now },
            ).streams,
        ),
    ensures
        0 <= i < shown.len(),
        shown[i] == (model::ResponseView {
            id,
            name: payload.name,
            url: payload.url,
            m3u8_url: "/live/"@ + id + "/index.m3u8"@,
            status: "Standby"@,
            metadata,
        }),
{
    let streams = laws::after(
        hub,
        laws::Event::Add { open: true, payload, id, metadata, now },
    ).streams;
    let ids = shown.map_values(|response: model::ResponseView| response.id);
    assert(streams.contains_key(id));
    assert(ids.contains(id));
    let i = choose|i: int| 0 <= i < ids.len() && ids[i] == id;
    assert(shown[i].id == id);
    assert(shown[i] == registry::response_of(id, streams[id]));
    i
}

/// A list of ids names every known stream, and each once.
pub proof fn ids_name_every_stream_once<C>(
    names: Seq<Seq<char>>,
    streams: handlers::Streams<C>,
    id: Seq<char>,
    i: int,
    j: int,
)
    requires
        registry::enumerates(names, streams),
    ensures
        streams.contains_key(id) <==> names.contains(id),
        0 <= i < j < names.len() ==> names[i] != names[j],
{
}

/// A client with a session is sent the list, and any other is refused in
/// words.
pub proof fn a_list_is_for_clients_with_a_session<C>(
    answer: reply::ReplyView,
    streams: handlers::Streams<C>,
)
    ensures
        handlers::answers_list(answer, true, streams) <==> {
            &&& answer.status == 200
            &&& answer.set_cookie is None
            &&& answer.content_type is None
            &&& answer.body matches reply::BodyView::Streams(shown) && registry::lists(
                shown,
                streams,
            )
        },
        handlers::answers_list(answer, false, streams) <==> answer == (reply::ReplyView {
            status: 401,
            set_cookie: None,
            content_type: None,
            body: reply::BodyView::Text("Unauthorized"@),
        }),
        handlers::bare_refusal() == (reply::ReplyView {
            status: 401,
            set_cookie: None,
            content_type: None,
            body: reply::BodyView::Empty,
        }),
        handlers::refusal_in_words() == (reply::ReplyView {
            status: 401,
            set_cookie: None,
            content_type: None,
            body: reply::BodyView::Text("Unauthorized"@),
        }),
{
}

/// A request to add a stream is refused without a session; with one, the
/// source that the client named is probed, through the proxy that the client
/// named, and the stream gets an id of six small letters.
pub proof fn an_added_stream_is_probed(
    step: handlers::AddStep,
    open: bool,
    payload: model::ConfigView,
)
    requires
        handlers::answers_add(step, open, payload),
    ensures
        step is Probe <==> open,
        match step {
            handlers::AddStep::Refuse(refusal) => refusal@ == (reply::ReplyView {
                status: 401,
                set_cookie: None,
                content_type: None,
                body: reply::BodyView::Text("Unauthorized"@),
            }),
            handlers::AddStep::Probe { id, job } => {
                &&& id@.len() == 6
                &&& forall|i: int| 0 <= i < 6 ==> 97 <= (#[trigger] id@[i]) as int <= 122
                &&& job.args@.len() == 14
                &&& job.args@[13]@ == payload.url
                &&& payload.proxy.len() == 0 ==> job.env@.len() == 0
                &&& payload.proxy.len() > 0 ==> {
                    &&& job.env@.len() == 1
                    &&& job.env@[0].0@ == "all_proxy"@
                    &&& job.env@[0].1@ == payload.proxy
                }
            },
        },
{
    match step {
        handlers::AddStep::Refuse(_) => {},
        handlers::AddStep::Probe { id, job } => {
            laws_of_text::ids_are_six_small_letters(id@);
            assert(text::texts(job.args@).len() == job.args@.len());
            assert(text::texts(job.args@)[13] == job.args@[13]@);
            assert(text::settings(job.env@).len() == job.env@.len());
            if payload.proxy.len() > 0 {
                assert(text::settings(job.env@)[0] == (job.env@[0].0@, job.env@[0].1@));
            }
        },
    }
}

/// A stream is kept with the name, the address and the proxy that the client
/// sent, and with the id and the metadata that the hub found, whatever the
/// client sent in their place.
pub proof fn a_stream_is_kept_as_it_was_sent(
    payload: model::ConfigView,
    id: Seq<char>,
    metadata: model::MetadataView,
    other_id: Seq<char>,
    other_metadata: model::MetadataView,
)
    ensures
        handlers::completed(payload, id, metadata).name == payload.name,
        handlers::completed(payload, id, metadata).url == payload.url,
        handlers::completed(payload, id, metadata).proxy == payload.proxy,
        handlers::completed(payload, id, metadata).id == id,
        handlers::completed(payload, id, metadata).metadata == metadata,
        handlers::completed(
            model::ConfigView { id: other_id, metadata: other_metadata, ..payload },
            id,
            metadata,
        ) == handlers::completed(payload, id, metadata),
{
}

/// A row that was written is read back under its id until it is removed, and
/// no other row is touched.
pub proof fn rows_are_read_back(
    table: handlers::Table,
    config: model::ConfigView,
    other: Seq<char>,
)
    requires
        other != config.id,
    ensures
        handlers::table_with(table, config).contains_key(config.id),
        handlers::table_with(table, config)[config.id] == config,
        handlers::table_with(table, config).contains_key(other) == table.contains_key(other),
        table.contains_key(other) ==> handlers::table_with(table, config)[other] == table[other],
        !handlers::table_without(table, config.id).contains_key(config.id),
        handlers::table_without(table, config.id).contains_key(other) == table.contains_key(other),
        table.contains_key(other) ==> handlers::table_without(table, config.id)[other]
            == table[other],
{
}

/// A new stream in memory is its row, does not run, and counts as last read
/// two minutes before it came.
pub proof fn a_new_stream_is_its_row<C>(config: model::ConfigView, now: u64)
    requires
        now >= 120_000_000_000,
    ensures
        registry::standby::<C>(config, now).name == config.name,
        registry::standby::<C>(config, now).url == config.url,
        registry::standby::<C>(config, now).proxy == config.proxy,
        registry::standby::<C>(config, now).metadata == config.metadata,
        registry::standby::<C>(config, now).child is None,
        registry::standby::<C>(config, now).last_access + 120_000_000_000 == now,
        registry::BACKDATE == 120_000_000_000,
{
}

/// To read a stream changes when it was last read; to start it, its process;
/// to stop it, that it has none. Each changes nothing else of the stream, and
/// nothing of an unknown one.
pub proof fn one_thing_changes_at_a_time<C>(
    streams: handlers::Streams<C>,
    id: Seq<char>,
    child: C,
    now: u64,
)
    ensures
        !streams.contains_key(id) ==> {
            &&& registry::touched(streams, id, now) == streams
            &&& registry::attached(streams, id, child) == streams
            &&& registry::detached(streams, id) == streams
            &&& registry::child_of(streams, id) is None
        },
        streams.contains_key(id) ==> {
            let known = streams[id];
            &&& registry::touched(streams, id, now) == streams.insert(
                id,
                registry::EntryView {
                    name: known.name,
                    url: known.url,
                    child: known.child,
                    last_access: now,
                    metadata: known.metadata,
                    proxy: known.proxy,
                },
            )
            &&& registry::attached(streams, id, child) == streams.insert(
                id,
                registry::EntryView {
                    name: known.name,
                    url: known.url,
                    child: Some(child),
                    last_access: known.last_access,
                    metadata: known.metadata,
                    proxy: known.proxy,
                },
            )
            &&& registry::detached(streams, id) == streams.insert(
                id,
                registry::EntryView {
                    name: known.name,
                    url: known.url,
                    child: None,
                    last_access: known.last_access,
                    metadata: known.metadata,
                    proxy: known.proxy,
                },
            )
            &&& registry::child_of(streams, id) == known.child
        },
{
}

/// A stream is idle exactly if it runs and was last read more than a minute
/// ago.
pub proof fn idle_is_a_minute_without_a_read<C>(entry: registry::EntryView<C>, now: u64)
    ensures
        registry::is_idle(entry, now) <==> entry.child is Some && now > entry.last_access
            + 60_000_000_000,
        registry::IDLE_LIMIT == 60_000_000_000,
{
}

/// Rows come on top of what is known: a stream that no row holds stays as it
/// is.
pub proof fn rows_leave_other_streams<C>(
    streams: handlers::Streams<C>,
    rows: Seq<handlers::Row>,
    id: Seq<char>,
)
    requires
        forall|i: int| !laws::row_holds(rows, id, i),
    ensures
        handlers::loaded(streams, rows).contains_key(id) == streams.contains_key(id),
        streams.contains_key(id) ==> handlers::loaded(streams, rows)[id] == streams[id],
    decreases rows.len(),
{
    if rows.len() > 0 {
        let fewer = rows.drop_last();
        assert forall|i: int| !laws::row_holds(fewer, id, i) by {
            assert(!laws::row_holds(rows, id, i));
        }
        rows_leave_other_streams(streams, fewer, id);
        assert(!laws::row_holds(rows, id, rows.len() - 1));
    }
}

/// The last row that holds a stream says what is known of it, in place of all
/// that was known before; it does not run, and counts as last read two minutes
/// before its row was.
pub proof fn the_last_row_is_the_stream<C>(
    streams: handlers::Streams<C>,
    rows: Seq<handlers::Row>,
    id: Seq<char>,
    i: int,
)
    requires
        laws::row_holds(rows, id, i),
        forall|j: int| i < j ==> !laws::row_holds(rows, id, j),
        rows[i].read_at >= 120_000_000_000,
    ensures
        ({
            let after = handlers::loaded(streams, rows);
            let row = rows[i].config->0@;
            &&& after.contains_key(id)
            &&& after[id].name == row.name
            &&& after[id].url == row.url
            &&& after[id].proxy == row.proxy
            &&& after[id].metadata == row.metadata
            &&& after[id].child is None
            &&& after[id].last_access + 120_000_000_000 == rows[i].read_at
        }),
    decreases rows.len(),
{
    let last = rows.len() - 1;
    if i < last {
        let fewer = rows.drop_last();
        assert(laws::row_holds(fewer, id, i));
        assert forall|j: int| i < j implies !laws::row_holds(fewer, id, j) by {
            assert(!laws::row_holds(rows, id, j));
        }
        the_last_row_is_the_stream(streams, fewer, id, i);
        assert(!laws::row_holds(rows, id, last));
    }
}

/// A cookie opens a session exactly if it holds the mark, wherever it does.
pub proof fn a_session_is_told_by_its_mark(cookie: Seq<char>, before: Seq<char>, behind: Seq<char>)
    ensures
        session::opens_session(Some(before + "login_session=true"@ + behind)),
        session::opens_session(Some(cookie)) <==> text::has_part(cookie, "login_session=true"@),
        !session::opens_session(None),
{
    laws_of_text::a_part_is_found(before, "login_session=true"@, behind);
}

/// The first cookie header decides whether a request counts as logged in: it
/// must be visible text, character for byte, and hold the mark.
pub proof fn the_first_cookie_header_decides(fields: Map<Seq<char>, Seq<Seq<u8>>>)
    ensures
        !fields.contains_key("cookie"@) ==> !session::logged_in(fields),
        fields.contains_key("cookie"@) ==> {
            let first = fields["cookie"@][0];
            session::logged_in(fields) <==> {
                &&& forall|i: int|
                    0 <= i < first.len() ==> 32 <= #[trigger] first[i] <= 126 || first[i] == 9
                &&& text::has_part(
                    Seq::new(first.len(), |i: int| first[i] as char),
                    "login_session=true"@,
                )
            }
        },
{
    if fields.contains_key("cookie"@) {
        let first = fields["cookie"@][0];
        assert(first.map_values(|byte: u8| byte as char) =~= Seq::new(
            first.len(),
            |i: int| first[i] as char,
        ));
        assert((forall|i: int| 0 <= i < first.len() ==> session::is_visible(#[trigger] first[i]))
            <==> (forall|i: int|
            0 <= i < first.len() ==> 32 <= #[trigger] first[i] <= 126 || first[i] == 9));
    }
}

/// A request is admitted exactly if its first cookie header is visible text
/// that holds the mark.
pub proof fn a_request_is_admitted_by_its_cookie(headers: HeaderMap)
    ensures
        handlers::admitted(headers) <==> {
            let fields = session::header_fields(headers);
            let first = fields["cookie"@][0];
            &&& fields.contains_key("cookie"@)
            &&& forall|i: int|
                0 <= i < first.len() ==> 32 <= #[trigger] first[i] <= 126 || first[i] == 9
            &&& text::has_part(
                Seq::new(first.len(), |i: int| first[i] as char),
                "login_session=true"@,
            )
        },
{
    the_first_cookie_header_decides(session::header_fields(headers));
}

/// The credentials of a request are the texts that its document gives as a
/// name and as a password; what is no text, and what is no object, gives none.
pub proof fn credentials_are_texts(
    fields: Map<Seq<char>, json::JsonView>,
    other: json::JsonView,
    chars: Seq<char>,
)
    requires
        !(other is Fields),
    ensures
        auth::credentials_in(json::JsonView::Fields(fields)).username == Some(chars) <==> {
            &&& fields.contains_key("username"@)
            &&& fields["username"@] == json::JsonView::Text(chars)
        },
        auth::credentials_in(json::JsonView::Fields(fields)).password == Some(chars) <==> {
            &&& fields.contains_key("password"@)
            &&& fields["password"@] == json::JsonView::Text(chars)
        },
        auth::credentials_in(other).username is None,
        auth::credentials_in(other).password is None,
{
}

/// The account that is set up is named as the client says, else `admin`, with
/// the password that the client says, else an empty one; a login stands for
/// what it says, and for nothing where it is silent.
pub proof fn accounts_are_named_as_asked(credentials: auth::CredentialsView)
    ensures
        auth::account_of(credentials).0 == (match credentials.username {
            Some(given) => given,
            None => "admin"@,
        }),
        auth::claim_of(credentials).0 == (match credentials.username {
            Some(given) => given,
            None => Seq::empty(),
        }),
        auth::account_of(credentials).1 == (match credentials.password {
            Some(given) => given,
            None => Seq::empty(),
        }),
        auth::claim_of(credentials).1 == auth::account_of(credentials).1,
{
    reveal_strlit("");
    assert(""@ =~= Seq::<char>::empty());
}

/// An account is kept exactly where there was none, under the name and with
/// the password that was asked for; any further one is forbidden.
pub proof fn an_account_is_kept_as_asked(accounts: u64, credentials: auth::CredentialsView)
    ensures
        accounts == 0 ==> auth::init_step(accounts, credentials) == (auth::InitView::Store {
            user: auth::account_of(credentials).0,
            pass: auth::account_of(credentials).1,
            reply: reply::ReplyView {
                status: 200,
                set_cookie: None,
                content_type: None,
                body: reply::BodyView::Empty,
            },
        }),
        accounts > 0 ==> auth::init_step(accounts, credentials) == auth::InitView::Refuse(
            (reply::ReplyView {
                status: 403,
                set_cookie: None,
                content_type: None,
                body: reply::BodyView::Empty,
            }),
        ),
        auth::status_answer(accounts) == (reply::ReplyView {
            status: 200,
            set_cookie: None,
            content_type: None,
            body: reply::BodyView::Initialized(accounts != 0),
        }),
{
}

/// Who set up an account under a name logs in with the very same document, and
/// the cookie of the answer opens a session.
pub proof fn the_same_document_logs_in(fields: Map<Seq<char>, json::JsonView>, user: Seq<char>)
    requires
        fields.contains_key("username"@),
        fields["username"@] == json::JsonView::Text(user),
    ensures
        ({
            let credentials = auth::credentials_in(json::JsonView::Fields(fields));
            let none = Map::<Seq<char>, Seq<char>>::empty();
            let kept = laws::accounts_after(none, auth::init_step(0, credentials));
            let (name, pass) = auth::claim_of(credentials);
            let answer = auth::login_answer(laws::password_of(kept, name), pass);
            &&& name == user
            &&& answer.status == 200
            &&& answer.set_cookie matches Some(cookie) && session::opens_session(
                Some(laws::cookie_pair(cookie)),
            )
        }),
{
    let empty = Seq::<char>::empty();
    laws::login_opens_a_session(empty, empty);
    assert(empty + laws::cookie_pair(auth::login_cookie()) + empty =~= laws::cookie_pair(
        auth::login_cookie(),
    ));
}

/// A login is answered by the password that is kept, and by nothing else; a
/// logout always takes the cookie away.
pub proof fn logins_and_logouts_are_answered(stored: Option<Seq<char>>, pass: Seq<char>)
    ensures
        auth::login_answer(Some(pass), pass) == (reply::ReplyView {
            status: 200,
            set_cookie: Some("login_session=true; Path=/; HttpOnly; SameSite=Lax"@),
            content_type: None,
            body: reply::BodyView::Text("Success"@),
        }),
        stored != Some(pass) ==> auth::login_answer(stored, pass) == (reply::ReplyView {
            status: 401,
            set_cookie: None,
            content_type: None,
            body: reply::BodyView::Text("Fail"@),
        }),
        auth::logout_answer() == (reply::ReplyView {
            status: 200,
            set_cookie: Some(
                "login_session=; Path=/; HttpOnly; SameSite=Lax; Max-Age=0; Expires=Thu, 01 Jan 1970 00:00:00 GMT"@,
            ),
            content_type: None,
            body: reply::BodyView::Untyped("Logged out"@),
        }),
{
}

/// A playlist grows by two lines with every stream: its id and its name, and
/// where the host that was asked offers it.
pub proof fn a_playlist_grows_by_two_lines(
    configs: Seq<model::ConfigView>,
    config: model::ConfigView,
    host: Seq<char>,
)
    ensures
        playlist::playlist_text(Seq::empty(), host) == "#EXTM3U\n"@,
        playlist::playlist_text(configs.push(config), host) == playlist::playlist_text(
            configs,
            host,
        ) + ("#EXTINF:-1 tvg-id=\""@ + config.id + "\","@ + config.name + "\n"@) + ("http://"@
            + host + "/live/"@ + config.id + "/index.m3u8"@ + "\n"@),
{
    reveal_strlit("\n");
    reveal_strlit("http://");
    reveal_strlit("\nhttp://");
    reveal_strlit("/index.m3u8");
    reveal_strlit("/index.m3u8\n");
    let longer = configs.push(config);
    assert(longer.drop_last() =~= configs);
    assert("\nhttp://"@ =~= "\n"@ + "http://"@);
    assert("/index.m3u8\n"@ =~= "/index.m3u8"@ + "\n"@);
    assert(playlist::playlist_text(longer, host) =~= playlist::playlist_text(configs, host) + (
    "#EXTINF:-1 tvg-id=\""@ + config.id + "\","@ + config.name + "\n"@) + ("http://"@ + host
        + "/live/"@ + config.id + "/index.m3u8"@ + "\n"@));
}

/// A request for the playlist is always answered with it, as a playlist.
pub proof fn the_playlist_is_sent(configs: Seq<model::ConfigView>, host: Seq<char>)
    ensures
        playlist::playlist_answer(configs, host) == (reply::ReplyView {
            status: 200,
            set_cookie: None,
            content_type: Some("application/x-mpegurl"@),
            body: reply::BodyView::Text(playlist::playlist_text(configs, host)),
        }),
{
}

/// A playlist of two lists of streams is that of the first and what the second
/// adds, whatever came before.
pub proof fn playlists_can_be_joined(
    first: Seq<model::ConfigView>,
    second: Seq<model::ConfigView>,
    host: Seq<char>,
)
    ensures
        playlist::playlist_text(first + second, host) == playlist::playlist_text(first, host)
            + playlist::playlist_text(second, host).skip("#EXTM3U\n"@.len() as int),
        ("#EXTM3U\n"@).is_prefix_of(playlist::playlist_text(second, host)),
    decreases second.len(),
{
    let title = "#EXTM3U\n"@;
    let whole = playlist::playlist_text(second, host);
    if second.len() == 0 {
        assert(first + second =~= first);
        assert(whole.skip(title.len() as int) =~= Seq::<char>::empty());
        assert(playlist::playlist_text(first, host) + Seq::<char>::empty()
            =~= playlist::playlist_text(first, host));
    } else {
        let fewer = second.drop_last();
        let item = playlist::playlist_item(second.last(), host);
        playlists_can_be_joined(first, fewer, host);
        let less = playlist::playlist_text(fewer, host);
        assert((first + second).drop_last() =~= first + fewer);
        assert(whole == less + item);
        assert(whole.skip(title.len() as int) =~= less.skip(title.len() as int) + item);
        assert(playlist::playlist_text(first + second, host) =~= playlist::playlist_text(first, host)
            + whole.skip(title.len() as int));
        assert(title.is_prefix_of(whole)) by {
            assert(whole.subrange(0, title.len() as int) =~= less.subrange(
                0,
                title.len() as int,
            ));
        }
    }
}

/// The files of all streams stand in shared memory where the machine has it,
/// else in the working directory.
pub proof fn files_stand_in_shared_memory()
    ensures
        site::root_dir(true) == "/dev/shm"@ + "/stream_hub"@,
        site::root_dir(false) == "./temp_streams"@ + "/stream_hub"@,
        site::PORT == 3000,
{
}

/// The hub waits at most three seconds for the playlist of a stream that was
/// just started, looks for idle streams every ten seconds, and sends its list
/// every two.
pub proof fn the_hub_keeps_its_times()
    ensures
        handlers::PLAYLIST_TRIES * handlers::PLAYLIST_WAIT == 3000,
        handlers::PLAYLIST_WAIT == 200,
        handlers::CLEANUP_SECONDS == 10,
        handlers::EVENT_SECONDS == 2,
        ids::ID_LENGTH == 6,
        probe::PROBE_SECONDS == 20,
{
}

} // verus!
