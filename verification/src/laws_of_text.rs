//! What holds of searching in texts, of numbers in decimal, of JSON documents,
//! and of how the values of the library are seen in contracts.
use vstd::prelude::*;

use crate::auth;
use crate::handlers;
use crate::ids;
use crate::json;
use crate::model;
use crate::playlist;
use crate::probe;
use crate::registry;
use crate::reply;
use crate::text;
use crate::transcode;

verus! {

/// A part is found wherever it stands.
pub proof fn a_part_is_found(before: Seq<char>, part: Seq<char>, behind: Seq<char>)
    ensures
        text::has_part(before + part + behind, part),
{
    let at = before.len() as int;
    assert((before + part + behind).subrange(at, at + part.len()) =~= part);
    assert(text::occurs_at(before + part + behind, part, at));
}

/// A part that is found stands in the text: the text is what comes before it,
/// the part, and what comes behind it.
pub proof fn a_found_part_is_there(chars: Seq<char>, part: Seq<char>) -> (around: (
    Seq<char>,
    Seq<char>,
))
    requires
        text::has_part(chars, part),
    ensures
        chars == around.0 + part + around.1,
{
    let at = choose|at: int| text::occurs_at(chars, part, at);
    let before = chars.take(at);
    let behind = chars.skip(at + part.len());
    assert(chars =~= before + chars.subrange(at, at + part.len()) + behind);
    (before, behind)
}

/// A text begins, or ends, with a part exactly if its first, or last,
/// characters are that part.
pub proof fn beginnings_and_ends(chars: Seq<char>, part: Seq<char>)
    ensures
        text::begins_with(chars, part) <==> chars.len() >= part.len() && chars.take(
            part.len() as int,
        ) == part,
        text::finishes_with(chars, part) <==> chars.len() >= part.len() && chars.skip(
            chars.len() - part.len(),
        ) == part,
{
}

/// The leftmost position of a part is the number of characters before it,
/// where it does not stand earlier.
pub proof fn the_leftmost_part_comes_first(before: Seq<char>, part: Seq<char>, behind: Seq<char>)
    requires
        part.len() > 0,
        !text::has_part((before + part).drop_last(), part),
    ensures
        text::leftmost(before + part + behind, part) == Some(before.len() as int),
{
    let chars = before + part + behind;
    let shorter = (before + part).drop_last();
    let at = before.len() as int;
    assert(chars.subrange(at, at + part.len()) =~= part);
    assert forall|earlier: int| earlier < at implies !text::occurs_at(chars, part, earlier) by {
        if text::occurs_at(chars, part, earlier) {
            assert(shorter.subrange(earlier, earlier + part.len()) =~= chars.subrange(
                earlier,
                earlier + part.len(),
            ));
            assert(text::occurs_at(shorter, part, earlier));
        }
    }
    text::leftmost_is_unique(chars, part, at);
}

/// A text that does not hold a part has no position of it.
pub proof fn without_a_part_there_is_no_position(chars: Seq<char>, part: Seq<char>)
    ensures
        text::leftmost(chars, part) is Some <==> text::has_part(chars, part),
{
}

/// A text is cut before the first stop, and not at all where it has none.
pub proof fn texts_are_cut_before_the_first_stop(
    head: Seq<char>,
    rest: Seq<char>,
    stops: Seq<char>,
)
    requires
        forall|i: int| 0 <= i < head.len() ==> !stops.contains(#[trigger] head[i]),
    ensures
        text::before_any(head, stops) == head,
        rest.len() > 0 && stops.contains(rest[0]) ==> text::before_any(head + rest, stops) == head,
{
    text::stop_is_first(head, stops, 0, head.len() as int);
    assert(head.take(head.len() as int) =~= head);
    if rest.len() > 0 && stops.contains(rest[0]) {
        let whole = head + rest;
        assert forall|i: int| 0 <= i < head.len() implies !stops.contains(#[trigger] whole[i]) by {
            assert(whole[i] == head[i]);
        }
        text::stop_is_first(whole, stops, 0, head.len() as int);
        assert(whole.take(head.len() as int) =~= head);
    }
}

/// What stands behind the last mark is kept, and all of a text without one.
pub proof fn texts_are_kept_behind_the_last_mark(head: Seq<char>, mark: char, tail: Seq<char>)
    requires
        !tail.contains(mark),
    ensures
        text::behind_last(tail, mark) == tail,
        text::behind_last(head + seq![mark] + tail, mark) == tail,
{
    assert forall|i: int| 0 <= i < tail.len() implies #[trigger] tail[i] != mark by {
        assert(tail.contains(tail[i]));
    }
    text::no_mark_before(tail, mark, tail.len() as int);
    assert(tail.skip(0) =~= tail);
    let whole = head + seq![mark] + tail;
    last_mark_is_found(whole, mark, head.len() as int + 1, whole.len() as int);
    assert(whole.skip(head.len() as int + 1) =~= tail);
}

proof fn last_mark_is_found(chars: Seq<char>, mark: char, start: int, end: int)
    requires
        0 < start <= end <= chars.len(),
        chars[start - 1] == mark,
        forall|i: int| start <= i < end ==> #[trigger] chars[i] != mark,
    ensures
        text::behind_last_from(chars, mark, end) == start,
    decreases end,
{
    if start < end {
        last_mark_is_found(chars, mark, start, end - 1);
    }
}

/// A number is written digit by digit: a small one as its digit, a larger one
/// as the number without its last digit, and that digit; a negative one with a
/// minus sign before it.
pub proof fn numbers_are_written_in_decimal(n: nat)
    ensures
        n < 10 ==> text::natural_text(n) == seq![('0' as nat + n) as char],
        n >= 10 ==> text::natural_text(n) == text::natural_text(n / 10) + text::natural_text(
            n % 10,
        ),
        text::decimal_text(n as int) == text::natural_text(n),
        n > 0 ==> text::decimal_text(-n) == seq!['-'] + text::natural_text(n),
{
    if n >= 10 {
        assert(text::natural_text(n % 10) == seq![text::digit(n % 10)]);
        assert(text::natural_text(n) =~= text::natural_text(n / 10) + text::natural_text(n % 10));
    }
}

/// The letters of an id are the small Latin letters, each once, in their
/// order, and an id has six of them.
pub proof fn ids_are_six_small_letters(id: Seq<char>)
    ensures
        ids::is_stream_id(id) <==> id.len() == 6 && (forall|i: int|
            0 <= i < id.len() ==> 97 <= (#[trigger] id[i]) as int <= 122),
        ids::small_letters().len() == 26,
        forall|i: int|
            0 <= i < 26 ==> (#[trigger] ids::small_letters()[i]) as int == 97 + i,
{
}

/// A field of an object is what stands under its name; what is no object, and
/// an object without that field, has null there.
pub proof fn fields_stand_under_their_names(
    fields: Map<Seq<char>, json::JsonView>,
    key: Seq<char>,
    other: json::JsonView,
)
    requires
        !(other is Fields),
    ensures
        fields.contains_key(key) ==> json::field_of(json::JsonView::Fields(fields), key)
            == fields[key],
        !fields.contains_key(key) ==> json::field_of(json::JsonView::Fields(fields), key)
            == json::JsonView::Null,
        json::field_of(other, key) == json::JsonView::Null,
{
}

/// Only a text is read as a text, and only an integer as an integer.
pub proof fn documents_are_read_as_what_they_are(
    document: json::JsonView,
    chars: Seq<char>,
    number: i64,
)
    ensures
        json::text_of(document) == Some(chars) <==> document == json::JsonView::Text(chars),
        json::integer_of(document) == Some(number) <==> document == json::JsonView::Number(
            Some(number),
        ),
        json::text_of(document) is Some <==> document is Text,
{
}

/// The words of a list, and its settings, are seen one by one, in their order.
pub proof fn lists_are_seen_item_by_item(
    words: Seq<String>,
    pairs: Seq<(String, String)>,
    responses: Seq<model::StreamResponse>,
    configs: Seq<model::StreamConfig>,
    streams: Seq<probe::ElementaryStream>,
    i: int,
)
    ensures
        text::texts(words).len() == words.len(),
        0 <= i < words.len() ==> text::texts(words)[i] == words[i]@,
        text::settings(pairs).len() == pairs.len(),
        0 <= i < pairs.len() ==> text::settings(pairs)[i].0 == pairs[i].0@,
        0 <= i < pairs.len() ==> text::settings(pairs)[i].1 == pairs[i].1@,
        registry::response_views(responses).len() == responses.len(),
        0 <= i < responses.len() ==> registry::response_views(responses)[i] == responses[i]@,
        playlist::config_views(configs).len() == configs.len(),
        0 <= i < configs.len() ==> playlist::config_views(configs)[i] == configs[i]@,
        probe::elementary_views(streams).len() == streams.len(),
        0 <= i < streams.len() ==> probe::elementary_views(streams)[i] == streams[i]@,
{
}

/// What is seen of the metadata of a stream are its own fields.
pub proof fn metadata_is_seen_as_it_is(metadata: model::StreamMetadata)
    ensures
        metadata@.resolution == metadata.resolution@,
        metadata@.video_codec == metadata.video_codec@,
        metadata@.audio_codec == metadata.audio_codec@,
        metadata@.channels == metadata.channels@,
{
}

/// What is seen of a stream as it is kept are its own fields.
pub proof fn streams_are_seen_as_they_are_kept(config: model::StreamConfig)
    ensures
        config@.id == config.id@,
        config@.name == config.name@,
        config@.url == config.url@,
        config@.proxy == config.proxy@,
        config@.metadata == config.metadata@,
{
}

/// What is seen of a stream as it is shown are its own fields.
pub proof fn streams_are_seen_as_they_are_shown(response: model::StreamResponse)
    ensures
        response@.id == response.id@,
        response@.name == response.name@,
        response@.url == response.url@,
        response@.m3u8_url == response.m3u8_url@,
        response@.status == response.status@,
        response@.metadata == response.metadata@,
{
}

/// What is seen of a stream in memory are its own fields.
pub proof fn streams_are_seen_as_they_are_known<C>(entry: registry::Entry<C>)
    ensures
        entry@.name == entry.name@,
        entry@.url == entry.url@,
        entry@.child == entry.child,
        entry@.last_access == entry.last_access,
        entry@.metadata == entry.metadata@,
        entry@.proxy == entry.proxy@,
{
}

/// What is seen of an elementary stream and of a run are their own fields.
pub proof fn runs_are_seen_as_they_are(
    stream: probe::ElementaryStream,
    job: transcode::FfmpegJob,
)
    ensures
        stream@.kind == stream.kind@,
        stream@.codec == stream.codec@,
        stream@.width == stream.width,
        stream@.height == stream.height,
        stream@.channels == stream.channels,
        job@.output_dir == job.output_dir@,
        job@.args == text::texts(job.args@),
        job@.env == text::settings(job.env@),
{
}

/// What is seen of a reply are its own fields, and of its body its own
/// content.
pub proof fn replies_are_seen_as_they_are(reply: reply::Reply)
    ensures
        reply@.status == reply.status,
        reply@.set_cookie is Some <==> reply.set_cookie is Some,
        reply.set_cookie matches Some(cookie) ==> reply@.set_cookie == Some(cookie@),
        reply@.content_type is Some <==> reply.content_type is Some,
        reply.content_type matches Some(kind) ==> reply@.content_type == Some(kind@),
        match reply.body {
            reply::Body::Empty => reply@.body == reply::BodyView::Empty,
            reply::Body::Text(chars) => reply@.body == reply::BodyView::Text(chars@),
            reply::Body::Untyped(chars) => reply@.body == reply::BodyView::Untyped(chars@),
            reply::Body::Html(chars) => reply@.body == reply::BodyView::Html(chars@),
            reply::Body::Bytes(bytes) => reply@.body == reply::BodyView::Bytes(bytes@),
            reply::Body::Initialized(ready) => reply@.body == reply::BodyView::Initialized(ready),
            reply::Body::Deleted => reply@.body == reply::BodyView::Deleted,
            reply::Body::Stream(stream) => reply@.body == reply::BodyView::Stream(stream@),
            reply::Body::Streams(streams) => reply@.body == reply::BodyView::Streams(
                registry::response_views(streams@),
            ),
        },
{
}

/// What is seen of credentials are the name and the password that were given,
/// and of a step to set up an account what is to be done.
pub proof fn credentials_are_seen_as_they_are(
    credentials: auth::Credentials,
    step: auth::InitStep,
)
    ensures
        match credentials.username {
            Some(given) => credentials@.username == Some(given@),
            None => credentials@.username is None,
        },
        match credentials.password {
            Some(given) => credentials@.password == Some(given@),
            None => credentials@.password is None,
        },
        match step {
            auth::InitStep::Refuse(reply) => step@ == auth::InitView::Refuse(reply@),
            auth::InitStep::Store { user, pass, reply } => step@ == (auth::InitView::Store {
                user: user@,
                pass: pass@,
                reply: reply@,
            }),
        },
{
}

/// What is seen of a step to start or to stop a stream is what is to be done.
pub proof fn steps_are_seen_as_they_are<C>(
    start: handlers::StartStep,
    stop: handlers::StopStep<C>,
)
    ensures
        match start {
            handlers::StartStep::Done(reply) => start@ == handlers::StartView::Done(reply@),
            handlers::StartStep::Spawn(job) => start@ == handlers::StartView::Spawn(job@),
        },
        match stop {
            handlers::StopStep::Done(reply) => stop@ == handlers::StopView::<C>::Done(reply@),
            handlers::StopStep::Kill { child, dir, reply } => stop@ == handlers::StopView::Kill {
                child,
                dir: dir@,
                reply: reply@,
            },
        },
{
}

} // verus!
