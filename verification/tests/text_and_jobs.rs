use stream_hub::{address, probe, text, transcode};

fn pairs(list: &[(String, String)]) -> Vec<(&str, &str)> {
    list.iter().map(|pair| (pair.0.as_str(), pair.1.as_str())).collect()
}

fn argument_after<'a>(args: &'a [String], name: &str) -> &'a str {
    let at = args.iter().position(|arg| arg == name).unwrap();
    &args[at + 1]
}

#[test]
fn searching_counts_characters() {
    assert_eq!(text::find("流媒体://主机/路", "://"), Some(3));
    assert_eq!(text::find("aaab", "ab"), Some(2));
    assert_eq!(text::find("abab", "ab"), Some(0));
    assert_eq!(text::find("abc", ""), Some(0));
    assert_eq!(text::find("ab", "abc"), None);
    assert_eq!(text::find("", "a"), None);
    assert!(text::contains("x.m3u8?y", ".m3u8"));
    assert!(!text::contains("x.m3u", ".m3u8"));
    assert!(text::starts_with("rtsp://a", "rtsp://"));
    assert!(!text::starts_with("a rtsp://", "rtsp://"));
    assert!(text::ends_with("index.m3u8", ".m3u8"));
    assert!(!text::ends_with("index.m3u8.ts", ".m3u8"));
    assert!(text::same("a", "a"));
    assert!(!text::same("a", "A"));
}

#[test]
fn decimal_numbers() {
    assert_eq!(text::decimal(0), "0");
    assert_eq!(text::decimal(7), "7");
    assert_eq!(text::decimal(10), "10");
    assert_eq!(text::decimal(-1080), "-1080");
    assert_eq!(text::decimal(i64::MAX), "9223372036854775807");
    assert_eq!(text::decimal(i64::MIN), "-9223372036854775808");
}

#[test]
fn referer_of_addresses() {
    assert_eq!(transcode::referer("http://host:80/a/b.m3u8"), "http://host:80/");
    assert_eq!(transcode::referer("http://host"), "http://host");
    assert_eq!(transcode::referer("http://host/"), "http://host/");
    assert_eq!(transcode::referer("file.mp4"), "");
    assert_eq!(transcode::referer("http://主机/路/x"), "http://主机/");
    assert_eq!(transcode::referer("a://b://c/d"), "a://b:/");
}

#[test]
fn whole_command_line() {
    let job = transcode::spawn_ffmpeg("HTTP://Host/Live.M3U8", "abcdef", "/dev/shm/stream_hub", "");
    assert_eq!(job.output_dir, "/dev/shm/stream_hub/abcdef");
    assert_eq!(
        job.args,
        vec![
            "-loglevel",
            "warning",
            "-user_agent",
            "Mozilla/5.0 (Windows NT 10.0; Win64; x64) AppleWebKit/537.36 (KHTML, like Gecko) Chrome/120.0.0.0 Safari/537.36",
            "-headers",
            "Referer: HTTP://Host/\r\nAccept: */*\r\nConnection: keep-alive\r\n",
            "-protocol_whitelist",
            "file,http,https,tcp,tls,rtp,udp,rtsp,crypto",
            "-fflags",
            "genpts+igndts+nobuffer",
            "-flags",
            "low_delay",
            "-probesize",
            "15M",
            "-analyzeduration",
            "15M",
            "-allowed_extensions",
            "ALL",
            "-i",
            "HTTP://Host/Live.M3U8",
            "-c",
            "copy",
            "-f",
            "hls",
            "-hls_time",
            "4",
            "-hls_list_size",
            "6",
            "-hls_flags",
            "delete_segments+append_list+independent_segments",
            "-hls_segment_type",
            "mpegts",
            "-hls_segment_filename",
            "/dev/shm/stream_hub/abcdef/seg_%d.ts",
            "/dev/shm/stream_hub/abcdef/index.m3u8",
        ]
    );
    assert!(job.env.is_empty());
}

#[test]
fn arguments_by_protocol() {
    let rtsp = transcode::spawn_ffmpeg("RTSP://cam/1.m3u8", "a", "/b", "");
    assert_eq!(argument_after(&rtsp.args, "-rtsp_transport"), "tcp");
    assert!(!rtsp.args.iter().any(|arg| arg == "-allowed_extensions"));
    let rtp = transcode::spawn_ffmpeg("http://gate/RTP/239.0.0.1:5140", "a", "/b", "");
    assert_eq!(argument_after(&rtp.args, "-buffer_size"), "1024000");
    let other = transcode::spawn_ffmpeg("http://gate/x.flv", "a", "/b", "");
    assert_eq!(other.args.len(), 33);
    assert_eq!(argument_after(&other.args, "-i"), "http://gate/x.flv");
}

#[test]
fn kind_follows_the_given_lower_case() {
    let job = transcode::ffmpeg_job("X", "rtsp://x", "a", "/b", "p");
    assert_eq!(argument_after(&job.args, "-rtsp_transport"), "tcp");
    assert_eq!(argument_after(&job.args, "-i"), "X");
    assert_eq!(job.env.len(), 3);
}

#[test]
fn proxy_only_for_the_outside() {
    let outside = transcode::spawn_ffmpeg("http://host/x", "a", "/b", "socks5://p:1");
    assert_eq!(
        pairs(&outside.env),
        vec![
            ("all_proxy", "socks5://p:1"),
            ("http_proxy", "socks5://p:1"),
            ("https_proxy", "socks5://p:1"),
        ]
    );
    assert!(transcode::spawn_ffmpeg("http://172.16.1.1/x", "a", "/b", "p").env.is_empty());
    assert!(transcode::spawn_ffmpeg("RTP://239.0.0.1", "a", "/b", "p").env.is_empty());
    assert!(transcode::spawn_ffmpeg("http://host/x", "a", "/b", "").env.is_empty());
}

#[test]
fn addresses_in_other_case_are_one_kind() {
    let small = transcode::spawn_ffmpeg("rtsp://cam/1", "a", "/b", "p");
    let large = transcode::spawn_ffmpeg("RTSP://CAM/1", "a", "/b", "p");
    assert_eq!(small.args[16..18], large.args[16..18]);
    assert_eq!(small.env, large.env);
}

#[test]
fn probe_command_line() {
    let job = probe::probe_job("http://host/x", "socks5://p:1");
    assert_eq!(
        job.args,
        vec![
            "-v",
            "quiet",
            "-print_format",
            "json",
            "-show_streams",
            "-user_agent",
            "Mozilla/5.0 (Windows NT 10.0; Win64; x64) PotPlayer/23.0.0",
            "-protocol_whitelist",
            "file,rtp,udp,tcp,http,https,tls,crypto,socks",
            "-probesize",
            "10M",
            "-analyzeduration",
            "5000000",
            "http://host/x",
        ]
    );
    assert_eq!(pairs(&job.env), vec![("all_proxy", "socks5://p:1")]);
    assert!(probe::probe_job("u", "").env.is_empty());
    assert_eq!(probe::PROBE_SECONDS, 20);
}

#[test]
fn hosts_of_addresses() {
    assert_eq!(address::host("http://192.168.1.2/a.ts"), "192.168.1.2");
    assert_eq!(address::host("http://user:pw@10.0.0.1:8080/a@b"), "10.0.0.1");
    assert_eq!(address::host("http://a@b@host?x=@y"), "host");
    assert_eq!(address::host("http://host#f"), "host");
    assert_eq!(address::host("rtsp://cam:554"), "cam");
    assert_eq!(address::host("192.168.1.2/a.ts"), "");
    assert_eq!(address::host("http://"), "");
}

#[test]
fn parts_of_texts() {
    assert_eq!(text::until_any("a/b?c", "?/"), "a");
    assert_eq!(text::until_any("abc", "/"), "abc");
    assert_eq!(text::until_any("", "/"), "");
    assert_eq!(text::after_last("a@b@c", '@'), "c");
    assert_eq!(text::after_last("abc", '@'), "abc");
    assert_eq!(text::after_last("a@", '@'), "");
    assert_eq!(text::natural(u64::MAX), "18446744073709551615");
}

#[test]
fn addresses_of_private_networks() {
    for host in [
        "10.0.0.0",
        "10.255.255.255",
        "172.16.0.1",
        "172.31.255.254",
        "192.168.0.0",
        "192.168.255.255",
    ] {
        assert!(address::private_address(host), "{}", host);
        assert!(address::private_host(&format!("http://{}:80/x", host)), "{}", host);
    }
    for host in [
        "",
        "host",
        "9.255.255.255",
        "11.0.0.1",
        "172.15.0.1",
        "172.32.0.1",
        "192.167.1.1",
        "192.169.1.1",
        "8.8.8.8",
        "192.168.1",
        "192.168.1.2.3",
        "192.168.1.256",
        "192.168.01.2",
        "192.168.1.",
        "192.168..1",
        "192.168.1.2 ",
        "10.0.0.x",
        "10.0.0.1000",
        "10.example.com",
    ] {
        assert!(!address::private_address(host), "{}", host);
    }
}

#[test]
fn no_proxy_for_private_networks() {
    for url in [
        "http://192.168.1.2/a.ts",
        "HTTP://192.168.1.2:8080/a.ts",
        "http://10.1.2.3/a.ts",
        "rtsp://admin:pw@10.0.0.9:554/stream",
        "http://172.20.0.5?x=1",
    ] {
        assert!(transcode::spawn_ffmpeg(url, "abcdef", "/d", "http://p:1").env.is_empty(), "{}", url);
    }
    for url in ["http://11.1.2.3/192.168.1.2", "http://host/10.0.0.1", "10.0.0.1/a.ts"] {
        assert_eq!(transcode::spawn_ffmpeg(url, "abcdef", "/d", "http://p:1").env.len(), 3, "{}", url);
    }
}
