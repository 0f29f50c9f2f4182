//! The requests on streams. Each is answered in one step, or in steps between
//! which the program runs a process or reaches the database.
use vstd::prelude::*;

use crate::ids;
use crate::model;
use crate::probe;
use crate::registry;
use crate::reply;
use crate::session;
use crate::text;
use crate::transcode;

use crate::model::{StreamConfig, StreamMetadata, StreamResponse};
use crate::probe::ProbeJob;
use crate::registry::Registry;
use crate::reply::{Body, Reply};
use crate::transcode::FfmpegJob;
use axum::http::HeaderMap;

verus! {

/// How often the list of streams is sent to a client that follows it, in
/// seconds.
pub const EVENT_SECONDS: u64 = 2;

/// How often idle streams are looked for, in seconds.
pub const CLEANUP_SECONDS: u64 = 10;

/// How often the playlist of a stream that was just started is looked for.
pub const PLAYLIST_TRIES: u32 = 15;

/// The time between two looks, in milliseconds.
pub const PLAYLIST_WAIT: u64 = 200;

/// The streams of a registry, by their ids.
pub type Streams<C> = Map<Seq<char>, registry::EntryView<C>>;

/// The request carries an open session.
pub open spec fn admitted(headers: HeaderMap) -> bool {
    session::logged_in(session::header_fields(headers))
}

/// The refusal of a request without a session, in words.
pub open spec fn refusal_in_words() -> reply::ReplyView {
    reply::bare(reply::UNAUTHORIZED, reply::BodyView::Text("Unauthorized"@))
}

/// The refusal of a request without a session, as a bare code.
pub open spec fn bare_refusal() -> reply::ReplyView {
    reply::bare(reply::UNAUTHORIZED, reply::BodyView::Empty)
}

/// Whether a client may follow the list of streams, given whether it has an
/// open session: the refusal, if not.
pub fn sse_request(open: bool) -> (refusal: Option<Reply>)
    ensures
        match refusal {
            Some(reply) => !open && reply@ == bare_refusal(),
            None => open,
        },
{
    if open {
        None
    } else {
        Some(reply::status_only(reply::UNAUTHORIZED))
    }
}

/// Whether a client may follow the list of streams: the refusal, if not.
pub fn sse_handler(headers: &HeaderMap) -> (refusal: Option<Reply>)
    ensures
        match refusal {
            Some(reply) => !admitted(*headers) && reply@ == bare_refusal(),
            None => admitted(*headers),
        },
{
    sse_request(session::is_authenticated(headers))
}

/// What a client that follows the list of streams is sent: all streams, and
/// none while the registry is held by another request.
pub fn sse_event<C>(registry: Option<&Registry<C>>) -> (shown: Vec<StreamResponse>)
    ensures
        match registry {
            Some(free) => registry::lists(registry::response_views(shown@), free@),
            None => shown@.len() == 0,
        },
{
    match registry {
        Some(free) => free.list(),
        None => Vec::new(),
    }
}

/// `reply` answers a request for the list of `streams` from a client that has
/// an open session or not.
pub open spec fn answers_list<C>(reply: reply::ReplyView, open: bool, streams: Streams<C>) -> bool {
    if open {
        &&& reply == reply::bare(reply::OK, reply.body)
        &&& reply.body is Streams
        &&& registry::lists(reply.body->Streams_0, streams)
    } else {
        reply == refusal_in_words()
    }
}

/// What a request for the list of streams is answered, given whether the
/// client has an open session.
pub fn list_request<C>(open: bool, registry: &Registry<C>) -> (reply: Reply)
    ensures
        answers_list(reply@, open, registry@),
{
    if open {
        Reply {
            status: reply::OK,
            set_cookie: None,
            content_type: None,
            body: Body::Streams(registry.list()),
        }
    } else {
        reply::text_reply(reply::UNAUTHORIZED, "Unauthorized")
    }
}

/// What a request for the list of streams is answered.
pub fn list_handler<C>(headers: &HeaderMap, registry: &Registry<C>) -> (reply: Reply)
    ensures
        answers_list(reply@, admitted(*headers), registry@),
{
    list_request(session::is_authenticated(headers), registry)
}

/// What is to be done with a request to add a stream: refuse, or probe the
/// source and go on with the id that the stream gets.
pub enum AddStep {
    Refuse(Reply),
    Probe { id: String, job: ProbeJob },
}

/// `step` is what is to be done with a request to add the stream `payload`
/// from a client that has an open session or not.
pub open spec fn answers_add(step: AddStep, open: bool, payload: model::ConfigView) -> bool {
    match step {
        AddStep::Refuse(reply) => !open && reply@ == refusal_in_words(),
        AddStep::Probe { id, job } => {
            &&& open
            &&& ids::is_stream_id(id@)
            &&& text::texts(job.args@) == probe::probe_args(payload.url)
            &&& text::settings(job.env@) == probe::probe_env(payload.proxy)
        },
    }
}

/// What is to be done with a request to add a stream, given whether the client
/// has an open session. The id is random.
pub fn add_request(open: bool, payload: &StreamConfig) -> (step: AddStep)
    ensures
        answers_add(step, open, payload@),
{
    if open {
        AddStep::Probe {
            id: ids::new_stream_id(),
            job: probe::probe_job(payload.url.as_str(), payload.proxy.as_str()),
        }
    } else {
        AddStep::Refuse(reply::text_reply(reply::UNAUTHORIZED, "Unauthorized"))
    }
}

/// What is to be done with a request to add a stream.
pub fn add_handler(headers: &HeaderMap, payload: &StreamConfig) -> (step: AddStep)
    ensures
        answers_add(step, admitted(*headers), payload@),
{
    add_request(session::is_authenticated(headers), payload)
}

/// A stream as it is kept: with its own id and what is known of its source in
/// place of what the client sent.
pub open spec fn completed(
    payload: model::ConfigView,
    id: Seq<char>,
    metadata: model::MetadataView,
) -> model::ConfigView {
    model::ConfigView { id, metadata, ..payload }
}

/// A stream as it is kept.
pub fn complete(payload: StreamConfig, id: String, metadata: StreamMetadata) -> (config:
    StreamConfig)
    ensures
        config@ == completed(payload@, id@, metadata@),
{
    StreamConfig { id, name: payload.name, url: payload.url, proxy: payload.proxy, metadata }
}

/// A row to write into the database.
pub struct NewRow {
    pub key: String,
    pub config: StreamConfig,
}

/// The rows of the database, by their keys.
pub type Table = Map<Seq<char>, model::ConfigView>;

/// The rows once a stream was added: it stands under its own id.
pub open spec fn table_with(table: Table, config: model::ConfigView) -> Table {
    table.insert(config.id, config)
}

/// The rows once the stream `id` was deleted.
pub open spec fn table_without(table: Table, id: Seq<char>) -> Table {
    table.remove(id)
}

/// The row to write into the database once a source was probed; `None` stands
/// for a probe that failed or did not end in time.
pub fn add_probed(payload: StreamConfig, id: String, output: Option<&[u8]>) -> (row: NewRow)
    ensures
        row.config@ == completed(
            payload@,
            id@,
            probe::output_metadata(
                match output {
                    Some(bytes) => Some(bytes@),
                    None => None,
                },
            ),
        ),
        row.key@ == row.config@.id,
        forall|table: Table|
            #[trigger] table_with(table, row.config@) == table.insert(row.key@, row.config@),
{
    NewRow { key: id.clone(), config: complete(payload, id, probe::get_stream_metadata(output)) }
}

/// What a client is shown of a stream that it added.
pub open spec fn added_response(config: model::ConfigView) -> model::ResponseView {
    model::ResponseView {
        id: config.id,
        name: config.name,
        url: config.url,
        m3u8_url: model::playlist_path(config.id),
        status: "Standby"@,
        metadata: config.metadata,
    }
}

/// Takes a stream that was added to the database into the registry, and
/// answers the request.
pub fn add_stored<C>(registry: &mut Registry<C>, config: StreamConfig, now: u64) -> (reply: Reply)
    requires
        now >= registry::BACKDATE,
    ensures
        final(registry)@ == old(registry)@.insert(config.id@, registry::standby(config@, now)),
        reply@ == reply::bare(reply::OK, reply::BodyView::Stream(added_response(config@))),
{
    registry.insert(&config, now);
    Reply {
        status: reply::OK,
        set_cookie: None,
        content_type: None,
        body: Body::Stream(
            StreamResponse {
                m3u8_url: model::m3u8_url(config.id.as_str()),
                id: config.id,
                name: config.name,
                url: config.url,
                status: model::status_text(false),
                metadata: config.metadata,
            },
        ),
    }
}

/// What is to be done with a request to start a stream: reply, or run
/// `ffmpeg` first.
pub enum StartStep {
    Done(Reply),
    Spawn(FfmpegJob),
}

/// The content of a [`StartStep`].
pub enum StartView {
    Done(reply::ReplyView),
    Spawn(transcode::JobView),
}

impl View for StartStep {
    type V = StartView;

    open spec fn view(&self) -> StartView {
        match self {
            StartStep::Done(reply) => StartView::Done(reply@),
            StartStep::Spawn(job) => StartView::Spawn(job@),
        }
    }
}

/// What is to be done with a request to start the stream `id`.
pub open spec fn start_step<C>(
    open: bool,
    streams: Streams<C>,
    id: Seq<char>,
    base_dir: Seq<char>,
) -> StartView {
    if !open {
        StartView::Done(bare_refusal())
    } else if !streams.contains_key(id) {
        StartView::Done(reply::bare(reply::NOT_FOUND, reply::BodyView::Empty))
    } else if streams[id].child is Some {
        StartView::Done(reply::bare(reply::OK, reply::BodyView::Text("Already Running"@)))
    } else {
        StartView::Spawn(
            transcode::job_for(streams[id].url, id, base_dir, streams[id].proxy),
        )
    }
}

/// What is to be done with a request to start the stream `id`, given whether
/// the client has an open session.
pub fn start_request<C>(open: bool, registry: &Registry<C>, id: &str, base_dir: &str) -> (step:
    StartStep)
    ensures
        step@ == start_step(open, registry@, id@, base_dir@),
{
    if !open {
        return StartStep::Done(reply::status_only(reply::UNAUTHORIZED));
    }
    match registry.get(id) {
        Some(entry) => if entry.child.is_some() {
            StartStep::Done(reply::text_reply(reply::OK, "Already Running"))
        } else {
            StartStep::Spawn(
                transcode::spawn_ffmpeg(entry.url.as_str(), id, base_dir, entry.proxy.as_str()),
            )
        },
        None => StartStep::Done(reply::status_only(reply::NOT_FOUND)),
    }
}

/// What is to be done with a request to start the stream `id`.
pub fn start_stream_handler<C>(
    headers: &HeaderMap,
    registry: &Registry<C>,
    id: &str,
    base_dir: &str,
) -> (step: StartStep)
    ensures
        step@ == start_step(admitted(*headers), registry@, id@, base_dir@),
{
    start_request(session::is_authenticated(headers), registry, id, base_dir)
}

/// What a request to start a stream is answered once its process runs.
pub open spec fn started_answer(known: bool) -> reply::ReplyView {
    if known {
        reply::bare(reply::OK, reply::BodyView::Text("Started"@))
    } else {
        reply::bare(reply::NOT_FOUND, reply::BodyView::Empty)
    }
}

/// Notes that the process `child` of the stream `id` runs, and answers the
/// request. Where the stream was deleted meanwhile, the process is dropped.
pub fn start_spawned<C>(registry: &mut Registry<C>, id: &str, child: C, now: u64) -> (reply: Reply)
    ensures
        final(registry)@ == registry::touched(
            registry::attached(old(registry)@, id@, child),
            id@,
            now,
        ),
        reply@ == started_answer(old(registry)@.contains_key(id@)),
{
    if registry.attach(id, child) {
        registry.touch(id, now);
        reply::text_reply(reply::OK, "Started")
    } else {
        reply::status_only(reply::NOT_FOUND)
    }
}

/// What is to be done with a request to stop a stream: reply, or kill the
/// process and remove the directory first.
pub enum StopStep<C> {
    Done(Reply),
    Kill { child: C, dir: String, reply: Reply },
}

/// The content of a [`StopStep`].
pub enum StopView<C> {
    Done(reply::ReplyView),
    Kill { child: C, dir: Seq<char>, reply: reply::ReplyView },
}

impl<C> View for StopStep<C> {
    type V = StopView<C>;

    open spec fn view(&self) -> StopView<C> {
        match self {
            StopStep::Done(reply) => StopView::Done(reply@),
            StopStep::Kill { child, dir, reply } => StopView::Kill {
                child: *child,
                dir: dir@,
                reply: reply@,
            },
        }
    }
}

/// What is to be done with a request to stop the stream `id`.
pub open spec fn stop_step<C>(
    open: bool,
    streams: Streams<C>,
    id: Seq<char>,
    base_dir: Seq<char>,
) -> StopView<C> {
    if !open {
        StopView::Done(bare_refusal())
    } else {
        match registry::child_of(streams, id) {
            Some(child) => StopView::Kill {
                child,
                dir: transcode::stream_dir(base_dir, id),
                reply: reply::bare(reply::OK, reply::BodyView::Text("Stopped"@)),
            },
            None => StopView::Done(reply::bare(reply::OK, reply::BodyView::Text("Not Running"@))),
        }
    }
}

/// The streams once a request to stop the stream `id` was looked at.
pub open spec fn streams_after_stop<C>(open: bool, streams: Streams<C>, id: Seq<char>) -> Streams<
    C,
> {
    if open {
        registry::detached(streams, id)
    } else {
        streams
    }
}

/// What is to be done with a request to stop the stream `id`, given whether
/// the client has an open session. The stream no longer counts as running
/// then.
pub fn stop_request<C>(open: bool, registry: &mut Registry<C>, id: &str, base_dir: &str) -> (step:
    StopStep<C>)
    ensures
        step@ == stop_step(open, old(registry)@, id@, base_dir@),
        final(registry)@ == streams_after_stop(open, old(registry)@, id@),
{
    if !open {
        return StopStep::Done(reply::status_only(reply::UNAUTHORIZED));
    }
    match registry.detach(id) {
        Some(child) => StopStep::Kill {
            child,
            dir: transcode::output_dir(base_dir, id),
            reply: reply::text_reply(reply::OK, "Stopped"),
        },
        None => StopStep::Done(reply::text_reply(reply::OK, "Not Running")),
    }
}

/// What is to be done with a request to stop the stream `id`, which no longer
/// counts as running then.
pub fn stop_stream_handler<C>(
    headers: &HeaderMap,
    registry: &mut Registry<C>,
    id: &str,
    base_dir: &str,
) -> (step: StopStep<C>)
    ensures
        step@ == stop_step(admitted(*headers), old(registry)@, id@, base_dir@),
        final(registry)@ == streams_after_stop(admitted(*headers), old(registry)@, id@),
{
    stop_request(session::is_authenticated(headers), registry, id, base_dir)
}

/// What is to be done with a request to delete a stream: refuse, or remove
/// the row with this key from the database.
pub enum DeleteStep {
    Refuse(Reply),
    RemoveRow(String),
}

/// What is to be done with a request to delete the stream `id`, given whether
/// the client has an open session.
pub fn delete_request(open: bool, id: &str) -> (step: DeleteStep)
    ensures
        match step {
            DeleteStep::Refuse(reply) => !open && reply@ == refusal_in_words(),
            DeleteStep::RemoveRow(key) => {
                &&& open
                &&& key@ == id@
                &&& forall|table: Table|
                    #[trigger] table_without(table, id@) == table.remove(key@)
            },
        },
{
    if open {
        DeleteStep::RemoveRow(id.to_owned())
    } else {
        DeleteStep::Refuse(reply::text_reply(reply::UNAUTHORIZED, "Unauthorized"))
    }
}

/// What is to be done with a request to delete the stream `id`.
pub fn stop_handler(headers: &HeaderMap, id: &str) -> (step: DeleteStep)
    ensures
        match step {
            DeleteStep::Refuse(reply) => !admitted(*headers) && reply@ == refusal_in_words(),
            DeleteStep::RemoveRow(key) => {
                &&& admitted(*headers)
                &&& key@ == id@
                &&& forall|table: Table|
                    #[trigger] table_without(table, id@) == table.remove(key@)
            },
        },
{
    delete_request(session::is_authenticated(headers), id)
}

/// Forgets a stream whose row was removed, hands out its process, which is to
/// be killed, and answers the request.
pub fn stop_removed<C>(registry: &mut Registry<C>, id: &str) -> (outcome: (Option<C>, Reply))
    ensures
        final(registry)@ == old(registry)@.remove(id@),
        outcome.0 == registry::child_of(old(registry)@, id@),
        outcome.1@ == reply::bare(reply::OK, reply::BodyView::Deleted),
{
    let child = match registry.remove(id) {
        Some(entry) => entry.child,
        None => None,
    };
    let reply = Reply {
        status: reply::OK,
        set_cookie: None,
        content_type: None,
        body: Body::Deleted,
    };
    (child, reply)
}

/// A row of the database: the stream that stands in it, if it could be read,
/// and the time at which it was read.
pub struct Row {
    pub config: Option<StreamConfig>,
    pub read_at: u64,
}

/// The streams once some rows were loaded, one after the other: a row that
/// could not be read is passed over, one with a known id replaces that stream.
pub open spec fn loaded<C>(streams: Streams<C>, rows: Seq<Row>) -> Streams<C>
    decreases rows.len(),
{
    if rows.len() == 0 {
        streams
    } else {
        let before = loaded(streams, rows.drop_last());
        match rows.last().config {
            Some(config) => before.insert(
                config.id@,
                registry::standby(config@, rows.last().read_at),
            ),
            None => before,
        }
    }
}

/// Takes the streams of the database into the registry.
pub fn load_configs_to_memory<C>(registry: &mut Registry<C>, rows: &Vec<Row>)
    requires
        forall|i: int| 0 <= i < rows@.len() ==> (#[trigger] rows@[i]).read_at >= registry::BACKDATE,
    ensures
        final(registry)@ == loaded(old(registry)@, rows@),
{
    let ghost start = registry@;
    let mut i: usize = 0;
    assert(rows@.take(0) == Seq::<Row>::empty());
    while i < rows.len()
        invariant
            i <= rows.len(),
            registry@ == loaded(start, rows@.take(i as int)),
            forall|j: int|
                0 <= j < rows@.len() ==> (#[trigger] rows@[j]).read_at >= registry::BACKDATE,
        decreases rows.len() - i,
    {
        let row = &rows[i];
        assert(rows@.take(i + 1).drop_last() == rows@.take(i as int));
        assert(rows@.take(i + 1).last() == *row);
        match &row.config {
            Some(config) => {
                registry.insert(config, row.read_at);
            },
            None => {},
        }
        i += 1;
    }
    assert(rows@.take(rows.len() as int) == rows@);
}

/// The request for `file` starts the stream `id`: it is for a playlist, and
/// the stream is known and does not run.
pub open spec fn wakes<C>(streams: Streams<C>, id: Seq<char>, file: Seq<char>) -> bool {
    &&& text::finishes_with(file, ".m3u8"@)
    &&& streams.contains_key(id)
    &&& streams[id].child is None
}

/// Notes that the stream `id` is read, and tells which run of `ffmpeg` the
/// request for `file` needs first, if it needs one.
pub fn stream_handler<C>(
    registry: &mut Registry<C>,
    id: &str,
    file: &str,
    base_dir: &str,
    now: u64,
) -> (job: Option<FfmpegJob>)
    ensures
        final(registry)@ == registry::touched(old(registry)@, id@, now),
        match job {
            Some(run) => wakes(old(registry)@, id@, file@) && run@ == transcode::job_for(
                old(registry)@[id@].url,
                id@,
                base_dir@,
                old(registry)@[id@].proxy,
            ),
            None => !wakes(old(registry)@, id@, file@),
        },
{
    let job = match registry.get(id) {
        Some(entry) => if text::ends_with(file, ".m3u8") && entry.child.is_none() {
            Some(transcode::spawn_ffmpeg(entry.url.as_str(), id, base_dir, entry.proxy.as_str()))
        } else {
            None
        },
        None => None,
    };
    registry.touch(id, now);
    job
}

/// Notes that the process `child` of the stream `id` runs. Where the stream
/// was deleted meanwhile, the process is dropped.
pub fn stream_spawned<C>(registry: &mut Registry<C>, id: &str, child: C)
    ensures
        final(registry)@ == registry::attached(old(registry)@, id@, child),
{
    registry.attach(id, child);
}

/// The parts of the path under which a file of the stream `id` stands. How
/// parts are joined to a path, the machine decides.
pub fn media_parts(base_dir: &str, id: &str, file: &str) -> (parts: Vec<String>)
    ensures
        text::texts(parts@) == seq![base_dir@, id@, file@],
{
    let mut parts: Vec<String> = Vec::new();
    text::push_word(&mut parts, base_dir);
    text::push_word(&mut parts, id);
    text::push_word(&mut parts, file);
    assert(text::texts(parts@) =~= seq![base_dir@, id@, file@]);
    parts
}

/// The parts of the path under which the playlist of the stream `id` stands.
pub fn playlist_parts(base_dir: &str, id: &str) -> (parts: Vec<String>)
    ensures
        text::texts(parts@) == seq![base_dir@, id@, "index.m3u8"@],
{
    media_parts(base_dir, id, "index.m3u8")
}

/// Whether to wait and look again for a playlist, after `looks` looks before
/// this one, where this one found it or not.
pub fn playlist_wait(looks: u32, present: bool) -> (wait: bool)
    ensures
        wait == (looks < PLAYLIST_TRIES && !present),
{
    looks < PLAYLIST_TRIES && !present
}

/// The type of a file of a stream.
pub open spec fn media_type(file: Seq<char>) -> Seq<char> {
    if text::finishes_with(file, ".m3u8"@) {
        "application/x-mpegurl"@
    } else {
        "video/MP2T"@
    }
}

/// What a request for a file of a stream is answered, where `bytes` is what
/// the file holds, if it could be read.
pub open spec fn media_answer(file: Seq<char>, bytes: Option<Seq<u8>>) -> reply::ReplyView {
    match bytes {
        Some(content) => reply::ReplyView {
            status: reply::OK,
            set_cookie: None,
            content_type: Some(media_type(file)),
            body: reply::BodyView::Bytes(content),
        },
        None => reply::bare(reply::NOT_FOUND, reply::BodyView::Text("Loading..."@)),
    }
}

/// What a request for a file of a stream is answered, where `bytes` is what
/// the file holds, if it could be read.
pub fn stream_reply(file: &str, bytes: Option<Vec<u8>>) -> (reply: Reply)
    ensures
        reply@ == media_answer(
            file@,
            match bytes {
                Some(content) => Some(content@),
                None => None,
            },
        ),
{
    match bytes {
        Some(content) => Reply {
            status: reply::OK,
            set_cookie: None,
            content_type: Some(
                if text::ends_with(file, ".m3u8") {
                    "application/x-mpegurl".to_owned()
                } else {
                    "video/MP2T".to_owned()
                },
            ),
            body: Body::Bytes(content),
        },
        None => reply::text_reply(reply::NOT_FOUND, "Loading..."),
    }
}

/// Stops the stream `id` if it is idle: hands out its process, which is to be
/// killed, and its directory, which is to be removed.
pub fn idle_cleanup<C>(registry: &mut Registry<C>, id: &str, base_dir: &str, now: u64) -> (stopped:
    Option<(C, String)>)
    ensures
        match stopped {
            Some((child, dir)) => {
                &&& old(registry)@.contains_key(id@)
                &&& registry::is_idle(old(registry)@[id@], now)
                &&& old(registry)@[id@].child == Some(child)
                &&& dir@ == transcode::stream_dir(base_dir@, id@)
                &&& final(registry)@ == registry::detached(old(registry)@, id@)
            },
            None => {
                &&& !(old(registry)@.contains_key(id@) && registry::is_idle(
                    old(registry)@[id@],
                    now,
                ))
                &&& final(registry)@ == old(registry)@
            },
        },
{
    match registry.expire(id, now) {
        Some(child) => Some((child, transcode::output_dir(base_dir, id))),
        None => None,
    }
}

} // verus!
