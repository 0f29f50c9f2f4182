//! The playlist of all streams, for players.
use vstd::prelude::*;

use crate::model;
use crate::reply;

use crate::model::StreamConfig;
use crate::reply::{Body, Reply};

verus! {

/// The two lines of one stream, as offered by `host`.
pub open spec fn playlist_item(config: model::ConfigView, host: Seq<char>) -> Seq<char> {
    "#EXTINF:-1 tvg-id=\""@ + config.id + "\","@ + config.name + "\nhttp://"@ + host + "/live/"@
        + config.id + "/index.m3u8\n"@
}

/// The playlist of some streams, in their order.
pub open spec fn playlist_text(configs: Seq<model::ConfigView>, host: Seq<char>) -> Seq<char>
    decreases configs.len(),
{
    if configs.len() == 0 {
        "#EXTM3U\n"@
    } else {
        playlist_text(configs.drop_last(), host) + playlist_item(configs.last(), host)
    }
}

/// The views of a list of streams.
pub open spec fn config_views(configs: Seq<StreamConfig>) -> Seq<model::ConfigView> {
    configs.map_values(|config: StreamConfig| config@)
}

/// What a request for the playlist is answered.
pub open spec fn playlist_answer(
    configs: Seq<model::ConfigView>,
    host: Seq<char>,
) -> reply::ReplyView {
    reply::ReplyView {
        status: reply::OK,
        set_cookie: None,
        content_type: Some("application/x-mpegurl"@),
        body: reply::BodyView::Text(playlist_text(configs, host)),
    }
}

fn item(config: &StreamConfig, host: &str) -> (lines: String)
    ensures
        lines@ == playlist_item(config@, host@),
{
    "#EXTINF:-1 tvg-id=\"".to_owned().concat(config.id.as_str()).concat("\",").concat(
        config.name.as_str(),
    ).concat("\nhttp://").concat(host).concat("/live/").concat(config.id.as_str()).concat(
        "/index.m3u8\n",
    )
}

/// What a request for the playlist is answered, where `configs` are kept.
pub fn playlist_handler(configs: &Vec<StreamConfig>, host: &str) -> (reply: Reply)
    ensures
        reply@ == playlist_answer(config_views(configs@), host@),
{
    let ghost views = config_views(configs@);
    let mut lines = "#EXTM3U\n".to_owned();
    let mut i: usize = 0;
    while i < configs.len()
        invariant
            i <= configs.len(),
            views == config_views(configs@),
            lines@ == playlist_text(views.take(i as int), host@),
        decreases configs.len() - i,
    {
        lines.append(item(&configs[i], host).as_str());
        assert(views.take(i + 1).drop_last() == views.take(i as int));
        assert(views.take(i + 1).last() == configs[i as int]@);
        i += 1;
    }
    assert(views.take(configs.len() as int) == views);
    Reply {
        status: reply::OK,
        set_cookie: None,
        content_type: Some("application/x-mpegurl".to_owned()),
        body: Body::Text(lines),
    }
}

} // verus!
