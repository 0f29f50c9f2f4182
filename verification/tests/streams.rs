use std::collections::BTreeMap;

use axum::http::header::COOKIE;
use axum::http::{HeaderMap, HeaderValue};
use stream_hub::handlers::{self, AddStep, DeleteStep, Row, StartStep, StopStep};
use stream_hub::ids;
use stream_hub::model::{self, StreamConfig, StreamMetadata};
use stream_hub::playlist;
use stream_hub::registry::{Registry, BACKDATE, IDLE_LIMIT};
use stream_hub::reply::{Body, Reply};
use stream_hub::site;

const BASE: &str = "/dev/shm/stream_hub";

fn visitor() -> HeaderMap {
    HeaderMap::new()
}

fn admin() -> HeaderMap {
    let mut headers = HeaderMap::new();
    headers.insert(COOKIE, HeaderValue::from_static("login_session=true"));
    headers
}

fn config(id: &str, name: &str, url: &str) -> StreamConfig {
    StreamConfig {
        id: id.to_string(),
        name: name.to_string(),
        url: url.to_string(),
        ..StreamConfig::default()
    }
}

fn text_of(reply: &Reply) -> &str {
    match &reply.body {
        Body::Text(text) => text,
        _ => panic!("no text"),
    }
}

fn one_stream() -> Registry<u32> {
    let mut registry = Registry::new();
    registry.insert(&config("abcdef", "News", "http://host/x.m3u8"), BACKDATE);
    registry
}

#[test]
fn a_new_registry_is_empty() {
    let registry: Registry<u32> = Registry::new();
    assert!(registry.get("a").is_none());
    assert!(registry.ids().is_empty());
    assert!(registry.list().is_empty());
}

#[test]
fn inserting_replaces_and_removing_forgets() {
    let mut registry = one_stream();
    assert!(registry.attach("abcdef", 4));
    registry.insert(&config("b", "Two", "u2"), BACKDATE + 5);
    registry.insert(&config("abcdef", "Sport", "u3"), BACKDATE + 9);
    let entry = registry.get("abcdef").unwrap();
    assert_eq!((entry.name.as_str(), entry.url.as_str()), ("Sport", "u3"));
    assert_eq!((entry.child, entry.last_access), (None, 9));
    let mut ids = registry.ids();
    ids.sort();
    assert_eq!(ids, vec!["abcdef", "b"]);
    assert_eq!(registry.remove("abcdef").unwrap().name, "Sport");
    assert!(registry.remove("abcdef").is_none());
    assert_eq!(registry.ids(), vec!["b"]);
    assert_eq!(registry.get("b").unwrap().last_access, 5);
}

#[test]
fn strangers_are_refused_everywhere() {
    let headers = visitor();
    let mut registry = one_stream();
    registry.attach("abcdef", 7);
    let reply = handlers::sse_handler(&headers).unwrap();
    assert_eq!(reply.status, 401);
    assert!(matches!(reply.body, Body::Empty));
    let reply = handlers::list_handler(&headers, &registry);
    assert_eq!((reply.status, text_of(&reply)), (401, "Unauthorized"));
    match handlers::add_handler(&headers, &config("", "n", "u")) {
        AddStep::Refuse(reply) => assert_eq!((reply.status, text_of(&reply)), (401, "Unauthorized")),
        AddStep::Probe { .. } => panic!("admitted"),
    }
    match handlers::start_stream_handler(&headers, &registry, "abcdef", BASE) {
        StartStep::Done(reply) => {
            assert_eq!(reply.status, 401);
            assert!(matches!(reply.body, Body::Empty));
        }
        StartStep::Spawn(_) => panic!("admitted"),
    }
    match handlers::stop_stream_handler(&headers, &mut registry, "abcdef", BASE) {
        StopStep::Done(reply) => {
            assert_eq!(reply.status, 401);
            assert!(matches!(reply.body, Body::Empty));
        }
        StopStep::Kill { .. } => panic!("admitted"),
    }
    assert_eq!(registry.get("abcdef").unwrap().child, Some(7));
    match handlers::stop_handler(&headers, "abcdef") {
        DeleteStep::Refuse(reply) => {
            assert_eq!((reply.status, text_of(&reply)), (401, "Unauthorized"))
        }
        DeleteStep::RemoveRow(_) => panic!("admitted"),
    }
}

#[test]
fn ids_are_six_small_letters() {
    let mut seen = Vec::new();
    for _ in 0..50 {
        let id = ids::new_stream_id();
        assert_eq!(id.len(), 6);
        assert!(id.chars().all(|c| c.is_ascii_lowercase()));
        seen.push(id);
    }
    seen.sort();
    seen.dedup();
    assert!(seen.len() > 1);
}

#[test]
fn ids_are_drawn_from_all_letters() {
    let letters: String = ids::letters().iter().collect();
    assert_eq!(letters, "abcdefghijklmnopqrstuvwxyz");
}

#[test]
fn a_stream_is_added() {
    let mut payload = config("mine", "News", "http://host/x");
    payload.proxy = "socks5://p".to_string();
    payload.metadata.resolution = "mine".to_string();
    let (id, job) = match handlers::add_handler(&admin(), &payload) {
        AddStep::Probe { id, job } => (id, job),
        AddStep::Refuse(_) => panic!("refused"),
    };
    assert_eq!(id.len(), 6);
    assert_eq!(job.args.last().unwrap(), "http://host/x");
    assert_eq!(job.env.len(), 1);
    let output = br#"{"streams":[{"codec_type":"video","codec_name":"h264","width":1280,"height":720}]}"#;
    let row = handlers::add_probed(payload, id.clone(), Some(output));
    assert_eq!(row.key, id);
    let stored = row.config;
    assert_eq!(stored.id, id);
    assert_eq!((stored.name.as_str(), stored.proxy.as_str()), ("News", "socks5://p"));
    assert_eq!(stored.metadata.resolution, "720p (1280x720)");
    assert_eq!(stored.metadata.audio_codec, "未知");

    let mut registry: Registry<u32> = Registry::new();
    let reply = handlers::add_stored(&mut registry, stored, BACKDATE + 3);
    assert_eq!(reply.status, 200);
    let shown = match reply.body {
        Body::Stream(shown) => shown,
        _ => panic!("no stream"),
    };
    assert_eq!(shown.m3u8_url, format!("/live/{}/index.m3u8", id));
    assert_eq!(shown.status, "Standby");
    let entry = registry.get(&id).unwrap();
    assert_eq!((entry.proxy.as_str(), entry.last_access), ("socks5://p", 3));
    let listed = registry.list();
    assert_eq!(listed.len(), 1);
    assert_eq!(format!("{:?}", listed[0]), format!("{:?}", shown));
    let (child, reply) = handlers::stop_removed(&mut registry, &id);
    assert!(child.is_none() && registry.ids().is_empty());
    assert!(matches!(reply.body, Body::Deleted));
}

#[test]
fn a_failed_probe_still_adds() {
    let stored = handlers::add_probed(config("", "n", "u"), "abcdef".to_string(), None).config;
    assert_eq!(stored.metadata.resolution, "检测失败");
    let metadata = StreamMetadata { resolution: "r".to_string(), ..StreamMetadata::default() };
    let stored = handlers::complete(stored, "ghijkl".to_string(), metadata);
    assert_eq!((stored.id.as_str(), stored.metadata.resolution.as_str()), ("ghijkl", "r"));
    assert_eq!(stored.metadata.channels, "");
}

#[test]
fn lists_show_what_runs() {
    let mut registry = one_stream();
    registry.insert(&config("b", "Two", "u2"), BACKDATE);
    registry.attach("b", 1);
    let reply = handlers::list_handler(&admin(), &registry);
    assert_eq!(reply.status, 200);
    let mut list = match reply.body {
        Body::Streams(list) => list,
        _ => panic!("no list"),
    };
    list.sort_by(|x, y| x.id.cmp(&y.id));
    assert_eq!(list.len(), 2);
    assert_eq!((list[0].id.as_str(), list[0].status.as_str()), ("abcdef", "Standby"));
    assert_eq!((list[1].name.as_str(), list[1].status.as_str()), ("Two", "Running"));
    assert_eq!(list[1].url, "u2");
    assert!(handlers::sse_handler(&admin()).is_none());
    assert_eq!(handlers::sse_event(Some(&registry)).len(), 2);
    assert!(handlers::sse_event::<u32>(None).is_empty());
}

#[test]
fn starting_and_stopping() {
    let headers = admin();
    let mut registry = one_stream();
    let job = match handlers::start_stream_handler(&headers, &registry, "abcdef", BASE) {
        StartStep::Spawn(job) => job,
        StartStep::Done(_) => panic!("not spawned"),
    };
    assert_eq!(job.output_dir, "/dev/shm/stream_hub/abcdef");
    assert!(job.args.iter().any(|arg| arg == "http://host/x.m3u8"));
    let reply = handlers::start_spawned(&mut registry, "abcdef", 77, 500);
    assert_eq!((reply.status, text_of(&reply)), (200, "Started"));
    assert_eq!(registry.get("abcdef").unwrap().last_access, 500);
    match handlers::start_stream_handler(&headers, &registry, "abcdef", BASE) {
        StartStep::Done(reply) => {
            assert_eq!((reply.status, text_of(&reply)), (200, "Already Running"))
        }
        StartStep::Spawn(_) => panic!("spawned twice"),
    }
    match handlers::stop_stream_handler(&headers, &mut registry, "abcdef", BASE) {
        StopStep::Kill { child, dir, reply } => {
            assert_eq!((child, dir.as_str()), (77, "/dev/shm/stream_hub/abcdef"));
            assert_eq!((reply.status, text_of(&reply)), (200, "Stopped"));
        }
        StopStep::Done(_) => panic!("not stopped"),
    }
    match handlers::stop_stream_handler(&headers, &mut registry, "abcdef", BASE) {
        StopStep::Done(reply) => assert_eq!((reply.status, text_of(&reply)), (200, "Not Running")),
        StopStep::Kill { .. } => panic!("stopped twice"),
    }
    assert_eq!(registry.get("abcdef").unwrap().last_access, 500);
}

#[test]
fn unknown_streams() {
    let headers = admin();
    let mut registry = one_stream();
    match handlers::start_stream_handler(&headers, &registry, "zzzzzz", BASE) {
        StartStep::Done(reply) => {
            assert_eq!(reply.status, 404);
            assert!(matches!(reply.body, Body::Empty));
        }
        StartStep::Spawn(_) => panic!("spawned"),
    }
    let reply = handlers::start_spawned(&mut registry, "zzzzzz", 1, 5);
    assert_eq!(reply.status, 404);
    match handlers::stop_stream_handler(&headers, &mut registry, "zzzzzz", BASE) {
        StopStep::Done(reply) => assert_eq!(text_of(&reply), "Not Running"),
        StopStep::Kill { .. } => panic!("killed"),
    }
    assert!(handlers::stream_handler(&mut registry, "zzzzzz", "index.m3u8", BASE, 5).is_none());
    handlers::stream_spawned(&mut registry, "zzzzzz", 1);
    assert_eq!(registry.ids(), vec!["abcdef"]);
    assert_eq!(registry.get("abcdef").unwrap().child, None);
}

#[test]
fn deleting_a_running_stream() {
    let mut registry = one_stream();
    registry.attach("abcdef", 9);
    match handlers::stop_handler(&admin(), "abcdef") {
        DeleteStep::RemoveRow(key) => assert_eq!(key, "abcdef"),
        DeleteStep::Refuse(_) => panic!("refused"),
    }
    let (child, reply) = handlers::stop_removed(&mut registry, "abcdef");
    assert_eq!((child, reply.status), (Some(9), 200));
    assert!(registry.get("abcdef").is_none());
    let (child, reply) = handlers::stop_removed(&mut registry, "abcdef");
    assert_eq!((child, reply.status), (None, 200));
}

#[test]
fn a_player_wakes_a_stream() {
    let mut registry = one_stream();
    assert!(handlers::stream_handler(&mut registry, "abcdef", "seg_1.ts", BASE, 40).is_none());
    assert_eq!(registry.get("abcdef").unwrap().last_access, 40);
    let job = handlers::stream_handler(&mut registry, "abcdef", "index.m3u8", BASE, 50).unwrap();
    assert_eq!(job.args.last().unwrap(), "/dev/shm/stream_hub/abcdef/index.m3u8");
    assert_eq!(registry.get("abcdef").unwrap().last_access, 50);
    handlers::stream_spawned(&mut registry, "abcdef", 3);
    assert_eq!(registry.get("abcdef").unwrap().child, Some(3));
    assert!(handlers::stream_handler(&mut registry, "abcdef", "index.m3u8", BASE, 60).is_none());
}

#[test]
fn waiting_for_a_playlist() {
    assert!(handlers::playlist_wait(0, false));
    assert!(handlers::playlist_wait(14, false));
    assert!(!handlers::playlist_wait(15, false));
    assert!(!handlers::playlist_wait(0, true));
    assert_eq!(u64::from(handlers::PLAYLIST_TRIES) * handlers::PLAYLIST_WAIT, 3000);
}

#[test]
fn files_of_a_stream() {
    assert_eq!(handlers::media_parts(BASE, "abcdef", "seg_1.ts"), vec![BASE, "abcdef", "seg_1.ts"]);
    assert_eq!(handlers::playlist_parts(BASE, "abcdef"), vec![BASE, "abcdef", "index.m3u8"]);
    let reply = handlers::stream_reply("index.m3u8", Some(vec![1, 2]));
    assert_eq!((reply.status, reply.content_type.as_deref()), (200, Some("application/x-mpegurl")));
    assert!(matches!(reply.body, Body::Bytes(bytes) if bytes == vec![1, 2]));
    let reply = handlers::stream_reply("seg_3.ts", Some(Vec::new()));
    assert_eq!(reply.content_type.as_deref(), Some("video/MP2T"));
    let reply = handlers::stream_reply("index.m3u8", None);
    assert_eq!((reply.status, text_of(&reply)), (404, "Loading..."));
    assert!(reply.content_type.is_none());
}

#[test]
fn idle_streams_are_stopped() {
    let mut registry = one_stream();
    registry.insert(&config("b", "Two", "u2"), BACKDATE);
    let late = 1_000_000_000_000;
    assert!(handlers::idle_cleanup(&mut registry, "abcdef", BASE, late).is_none());
    handlers::start_spawned(&mut registry, "abcdef", 5, 1000);
    assert!(handlers::idle_cleanup(&mut registry, "abcdef", BASE, 10).is_none());
    assert!(handlers::idle_cleanup(&mut registry, "abcdef", BASE, 1000 + IDLE_LIMIT).is_none());
    let stopped = handlers::idle_cleanup(&mut registry, "abcdef", BASE, 1001 + IDLE_LIMIT);
    assert_eq!(stopped, Some((5, "/dev/shm/stream_hub/abcdef".to_string())));
    assert_eq!(registry.get("abcdef").unwrap().child, None);
    assert!(handlers::idle_cleanup(&mut registry, "abcdef", BASE, late).is_none());
    assert!(handlers::idle_cleanup(&mut registry, "unknown", BASE, late).is_none());
    assert_eq!(registry.ids().len(), 2);
}

#[test]
fn a_sweep_stops_only_the_idle() {
    let mut registry: Registry<u32> = Registry::new();
    for (id, child, read_at) in [("a", 1, 0), ("b", 2, 10), ("c", 3, 0)] {
        registry.insert(&config(id, id, id), BACKDATE);
        handlers::start_spawned(&mut registry, id, child, read_at);
    }
    let mut stopped = Vec::new();
    for id in registry.ids() {
        if let Some((child, _)) = handlers::idle_cleanup(&mut registry, &id, BASE, IDLE_LIMIT + 5) {
            stopped.push(child);
        }
    }
    stopped.sort();
    assert_eq!(stopped, vec![1, 3]);
    assert_eq!(registry.get("b").unwrap().child, Some(2));
}

#[test]
fn rows_are_loaded() {
    let mut registry: Registry<u32> = Registry::new();
    let rows = vec![
        Row { config: Some(config("a", "old", "u1")), read_at: BACKDATE },
        Row { config: None, read_at: BACKDATE },
        Row { config: Some(config("b", "Two", "u2")), read_at: BACKDATE + 1 },
        Row { config: Some(config("a", "new", "u3")), read_at: BACKDATE + 2 },
    ];
    handlers::load_configs_to_memory(&mut registry, &rows);
    let mut ids = registry.ids();
    ids.sort();
    assert_eq!(ids, vec!["a", "b"]);
    let entry = registry.get("a").unwrap();
    assert_eq!((entry.name.as_str(), entry.last_access, entry.child), ("new", 2, None));
}

#[test]
fn playlist_of_all_streams() {
    let configs = vec![config("aaaaaa", "One", "u1"), config("bbbbbb", "二", "u2")];
    let reply = playlist::playlist_handler(&configs, "hub:3000");
    assert_eq!((reply.status, reply.content_type.as_deref()), (200, Some("application/x-mpegurl")));
    assert_eq!(
        text_of(&reply),
        "#EXTM3U\n#EXTINF:-1 tvg-id=\"aaaaaa\",One\nhttp://hub:3000/live/aaaaaa/index.m3u8\n#EXTINF:-1 tvg-id=\"bbbbbb\",二\nhttp://hub:3000/live/bbbbbb/index.m3u8\n"
    );
    assert!(text_of(&reply).contains(&format!("http://hub:3000{}", model::m3u8_url("bbbbbb"))));
    let reply = playlist::playlist_handler(&Vec::new(), "h");
    assert_eq!(text_of(&reply), "#EXTM3U\n");
}

#[test]
fn the_site() {
    assert_eq!(site::hls_dir(true), "/dev/shm/stream_hub");
    assert_eq!(site::hls_dir(false), "./temp_streams/stream_hub");
    assert_eq!(site::PORT, 3000);
    assert_eq!(site::get_local_ip(None), "127.0.0.1");
    assert_eq!(site::get_local_ip(Some("10.0.0.2".to_string())), "10.0.0.2");
    let reply = site::ui_handler(Some("<p>".to_string()));
    assert!(reply.status == 200 && matches!(reply.body, Body::Html(page) if page == "<p>"));
    let reply = site::ui_handler(None);
    assert_eq!((reply.status, text_of(&reply)), (500, "index.html missing"));
}

#[test]
fn a_stream_is_the_same_after_a_restart() {
    let kept = handlers::add_probed(config("", "News", "u"), "abcdef".to_string(), None).config;
    let mut registry: Registry<u32> = Registry::new();
    let added = match handlers::add_stored(&mut registry, kept.clone(), BACKDATE).body {
        Body::Stream(shown) => shown,
        _ => panic!("no stream"),
    };
    let mut restarted: Registry<u32> = Registry::new();
    let rows = vec![Row { config: Some(kept), read_at: BACKDATE + 7 }];
    handlers::load_configs_to_memory(&mut restarted, &rows);
    assert_eq!(format!("{:?}", restarted.list()), format!("{:?}", vec![added]));
}

#[test]
fn other_streams_stay_as_they_are() {
    let mut registry = one_stream();
    registry.insert(&config("b", "Two", "u2"), BACKDATE + 1);
    registry.attach("b", 2);
    registry.touch("abcdef", 9);
    registry.attach("abcdef", 1);
    assert_eq!(registry.detach("abcdef"), Some(1));
    registry.remove("abcdef");
    let entry = registry.get("b").unwrap();
    assert_eq!((entry.name.as_str(), entry.child, entry.last_access), ("Two", Some(2), 1));
}

/// The rows of a database, as the program keeps them.
fn add(table: &mut BTreeMap<String, StreamConfig>, registry: &mut Registry<u32>, name: &str) -> String {
    let payload = config("theirs", name, &format!("http://host/{}", name));
    let id = match handlers::add_handler(&admin(), &payload) {
        AddStep::Probe { id, .. } => id,
        AddStep::Refuse(_) => panic!("refused"),
    };
    let row = handlers::add_probed(payload, id.clone(), None);
    table.insert(row.key, row.config.clone());
    handlers::add_stored(registry, row.config, BACKDATE);
    id
}

fn remove(table: &mut BTreeMap<String, StreamConfig>, registry: &mut Registry<u32>, id: &str) {
    match handlers::stop_handler(&admin(), id) {
        DeleteStep::RemoveRow(key) => table.remove(&key),
        DeleteStep::Refuse(_) => panic!("refused"),
    };
    handlers::stop_removed(registry, id);
}

fn sorted_ids(registry: &Registry<u32>) -> Vec<String> {
    let mut ids = registry.ids();
    ids.sort();
    ids
}

#[test]
fn database_and_memory_stay_in_step() {
    let mut table = BTreeMap::new();
    let mut registry: Registry<u32> = Registry::new();
    let first = add(&mut table, &mut registry, "One");
    let second = add(&mut table, &mut registry, "Two");
    handlers::start_spawned(&mut registry, &first, 1, 5);
    remove(&mut table, &mut registry, &second);
    let third = add(&mut table, &mut registry, "Three");
    assert_eq!(table.keys().cloned().collect::<Vec<_>>(), sorted_ids(&registry));
    for (key, row) in &table {
        let entry = registry.get(key).unwrap();
        assert_eq!((&row.id, &row.name, &row.url), (key, &entry.name, &entry.url));
    }

    let rows: Vec<Row> = table
        .values()
        .map(|row| Row { config: Some(row.clone()), read_at: BACKDATE + 1 })
        .collect();
    let mut restarted: Registry<u32> = Registry::new();
    handlers::load_configs_to_memory(&mut restarted, &rows);
    assert_eq!(sorted_ids(&restarted), sorted_ids(&registry));
    assert_eq!(restarted.get(&first).unwrap().name, "One");
    assert_eq!(restarted.get(&first).unwrap().child, None);
    assert_eq!(restarted.get(&third).unwrap().url, "http://host/Three");
}

#[test]
fn a_deleted_stream_is_nowhere() {
    let mut table = BTreeMap::new();
    let mut registry: Registry<u32> = Registry::new();
    let first = add(&mut table, &mut registry, "One");
    let rows_before = format!("{:?}", table);
    let list_before = format!("{:?}", registry.list());
    let second = add(&mut table, &mut registry, "Two");
    remove(&mut table, &mut registry, &second);
    assert_eq!(format!("{:?}", table), rows_before);
    assert_eq!(format!("{:?}", registry.list()), list_before);
    let configs: Vec<StreamConfig> = table.values().cloned().collect();
    let reply = playlist::playlist_handler(&configs, "hub");
    assert!(text_of(&reply).contains(&first));
    assert!(!text_of(&reply).contains(&format!("tvg-id=\"{}\"", second)));
    match handlers::start_stream_handler(&admin(), &registry, &second, BASE) {
        StartStep::Done(reply) => assert_eq!(reply.status, 404),
        StartStep::Spawn(_) => panic!("spawned"),
    }
}

#[test]
fn an_unread_stream_is_stopped_within_seventy_seconds() {
    let second: u64 = 1_000_000_000;
    let mut registry = one_stream();
    let read_at = 124 * second;
    handlers::start_spawned(&mut registry, "abcdef", 5, read_at);
    let mut now = 120 * second;
    let mut stopped = None;
    while stopped.is_none() {
        now += handlers::CLEANUP_SECONDS * second;
        stopped = handlers::idle_cleanup(&mut registry, "abcdef", BASE, now);
    }
    assert_eq!(now, 190 * second);
    assert!(now > read_at + IDLE_LIMIT && now <= read_at + 70 * second);
    assert_eq!(registry.list()[0].status, "Standby");
}
