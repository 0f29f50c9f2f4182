//! How `ffmpeg` is run to turn a source into an HLS stream.
use vstd::prelude::*;

use crate::address;
use crate::text;

verus! {

/// One run of `ffmpeg`: the directory that must exist before it starts, its
/// arguments, and the variables added to its environment.
#[derive(Debug)]
pub struct FfmpegJob {
    pub output_dir: String,
    pub args: Vec<String>,
    pub env: Vec<(String, String)>,
}

/// The characters of an [`FfmpegJob`].
pub struct JobView {
    pub output_dir: Seq<char>,
    pub args: Seq<Seq<char>>,
    pub env: Seq<(Seq<char>, Seq<char>)>,
}

impl View for FfmpegJob {
    type V = JobView;

    open spec fn view(&self) -> JobView {
        JobView {
            output_dir: self.output_dir@,
            args: text::texts(self.args@),
            env: text::settings(self.env@),
        }
    }
}

/// The directory that holds the files of the stream `id`.
pub open spec fn stream_dir(base_dir: Seq<char>, id: Seq<char>) -> Seq<char> {
    base_dir + "/"@ + id
}

/// The referring page that a source is told of: its address up to and with
/// the first slash after the scheme, the whole address where no slash follows,
/// and nothing where the address has no scheme.
pub open spec fn referer_of(url: Seq<char>) -> Seq<char> {
    match text::leftmost(url, "://"@) {
        None => ""@,
        Some(scheme) => match text::leftmost(url.skip(scheme + 3), "/"@) {
            None => url,
            Some(slash) => url.take(scheme + 3 + slash + 1),
        },
    }
}

/// The request headers that the source is sent.
pub open spec fn source_headers(url: Seq<char>) -> Seq<char> {
    "Referer: "@ + referer_of(url) + "\r\nAccept: */*\r\nConnection: keep-alive\r\n"@
}

/// Arguments on logging, disguise and the allowed protocols.
pub open spec fn basic_args(url: Seq<char>) -> Seq<Seq<char>> {
    seq![
        "-loglevel"@,
        "warning"@,
        "-user_agent"@,
        "Mozilla/5.0 (Windows NT 10.0; Win64; x64) AppleWebKit/537.36 (KHTML, like Gecko) Chrome/120.0.0.0 Safari/537.36"@,
        "-headers"@,
        source_headers(url),
        "-protocol_whitelist"@,
        "file,http,https,tcp,tls,rtp,udp,rtsp,crypto"@,
    ]
}

/// Arguments that tune how the source is read.
pub open spec fn input_args() -> Seq<Seq<char>> {
    seq![
        "-fflags"@,
        "genpts+igndts+nobuffer"@,
        "-flags"@,
        "low_delay"@,
        "-probesize"@,
        "15M"@,
        "-analyzeduration"@,
        "15M"@,
    ]
}

/// Arguments that one kind of source needs, by its address in lower case.
pub open spec fn protocol_args(url_lower: Seq<char>) -> Seq<Seq<char>> {
    if text::begins_with(url_lower, "rtsp://"@) {
        seq!["-rtsp_transport"@, "tcp"@]
    } else if text::has_part(url_lower, ".m3u8"@) {
        seq!["-allowed_extensions"@, "ALL"@]
    } else if text::has_part(url_lower, "/rtp/"@) {
        seq!["-buffer_size"@, "1024000"@]
    } else {
        seq![]
    }
}

/// Arguments on what is written into the directory `dir`.
pub open spec fn output_args(dir: Seq<char>) -> Seq<Seq<char>> {
    seq![
        "-c"@,
        "copy"@,
        "-f"@,
        "hls"@,
        "-hls_time"@,
        "4"@,
        "-hls_list_size"@,
        "6"@,
        "-hls_flags"@,
        "delete_segments+append_list+independent_segments"@,
        "-hls_segment_type"@,
        "mpegts"@,
        "-hls_segment_filename"@,
        dir + "/seg_%d.ts"@,
        dir + "/index.m3u8"@,
    ]
}

/// All arguments of one run, where `url_lower` is `url` in lower case.
pub open spec fn job_args(url: Seq<char>, url_lower: Seq<char>, dir: Seq<char>) -> Seq<Seq<char>> {
    basic_args(url) + input_args() + protocol_args(url_lower) + seq!["-i"@, url] + output_args(dir)
}

/// Whether a source is reached through the proxy: only where one is given,
/// and neither for RTP nor for the local network, which is every host with the
/// numeric address of a private network and every address that holds
/// `172.16.`.
pub open spec fn proxy_applies(url_lower: Seq<char>, proxy: Seq<char>) -> bool {
    &&& proxy.len() > 0
    &&& !text::has_part(url_lower, "172.16."@)
    &&& !text::begins_with(url_lower, "rtp://"@)
    &&& !address::is_private_host(address::host_of(url_lower))
}

/// The variables that name the proxy.
pub open spec fn job_env(url_lower: Seq<char>, proxy: Seq<char>) -> Seq<(Seq<char>, Seq<char>)> {
    if proxy_applies(url_lower, proxy) {
        seq![("all_proxy"@, proxy), ("http_proxy"@, proxy), ("https_proxy"@, proxy)]
    } else {
        seq![]
    }
}

/// The run for a source, where `url_lower` is `url` in lower case.
pub open spec fn job_with(
    url: Seq<char>,
    url_lower: Seq<char>,
    id: Seq<char>,
    base_dir: Seq<char>,
    proxy: Seq<char>,
) -> JobView {
    JobView {
        output_dir: stream_dir(base_dir, id),
        args: job_args(url, url_lower, stream_dir(base_dir, id)),
        env: job_env(url_lower, proxy),
    }
}

/// The run for a source.
pub open spec fn job_for(
    url: Seq<char>,
    id: Seq<char>,
    base_dir: Seq<char>,
    proxy: Seq<char>,
) -> JobView {
    job_with(url, text::lowercase(url), id, base_dir, proxy)
}

/// The directory that holds the files of the stream `id`.
pub fn output_dir(base_dir: &str, id: &str) -> (dir: String)
    ensures
        dir@ == stream_dir(base_dir@, id@),
{
    base_dir.to_owned().concat("/").concat(id)
}

/// The referring page that a source is told of.
pub fn referer<'a>(url: &'a str) -> (page: &'a str)
    ensures
        page@ == referer_of(url@),
{
    proof {
        reveal_strlit("://");
        reveal_strlit("/");
    }
    match text::find(url, "://") {
        Some(scheme) => {
            let length: usize = url.unicode_len();
            let rest = url.substring_char(scheme + 3, length);
            assert(rest@ == url@.skip(scheme + 3));
            match text::find(rest, "/") {
                Some(slash) => {
                    let page = url.substring_char(0, scheme + 3 + slash + 1);
                    assert(page@ == url@.take(scheme + 3 + slash + 1));
                    page
                },
                None => url,
            }
        },
        None => "",
    }
}

fn push_basic_args(args: &mut Vec<String>, url: &str)
    ensures
        text::texts(final(args)@) == text::texts(old(args)@) + basic_args(url@),
{
    let headers = "Referer: ".to_owned().concat(referer(url)).concat(
        "\r\nAccept: */*\r\nConnection: keep-alive\r\n",
    );
    text::push_word(args, "-loglevel");
    text::push_word(args, "warning");
    text::push_word(args, "-user_agent");
    text::push_word(
        args,
        "Mozilla/5.0 (Windows NT 10.0; Win64; x64) AppleWebKit/537.36 (KHTML, like Gecko) Chrome/120.0.0.0 Safari/537.36",
    );
    text::push_word(args, "-headers");
    text::push_word(args, headers.as_str());
    text::push_word(args, "-protocol_whitelist");
    text::push_word(args, "file,http,https,tcp,tls,rtp,udp,rtsp,crypto");
    assert(text::texts(args@) =~= text::texts(old(args)@) + basic_args(url@));
}

fn push_input_args(args: &mut Vec<String>)
    ensures
        text::texts(final(args)@) == text::texts(old(args)@) + input_args(),
{
    text::push_word(args, "-fflags");
    text::push_word(args, "genpts+igndts+nobuffer");
    text::push_word(args, "-flags");
    text::push_word(args, "low_delay");
    text::push_word(args, "-probesize");
    text::push_word(args, "15M");
    text::push_word(args, "-analyzeduration");
    text::push_word(args, "15M");
    assert(text::texts(args@) =~= text::texts(old(args)@) + input_args());
}

fn push_protocol_args(args: &mut Vec<String>, url_lower: &str)
    ensures
        text::texts(final(args)@) == text::texts(old(args)@) + protocol_args(url_lower@),
{
    if text::starts_with(url_lower, "rtsp://") {
        text::push_word(args, "-rtsp_transport");
        text::push_word(args, "tcp");
    } else if text::contains(url_lower, ".m3u8") {
        text::push_word(args, "-allowed_extensions");
        text::push_word(args, "ALL");
    } else if text::contains(url_lower, "/rtp/") {
        text::push_word(args, "-buffer_size");
        text::push_word(args, "1024000");
    }
    assert(text::texts(args@) =~= text::texts(old(args)@) + protocol_args(url_lower@));
}

fn push_output_args(args: &mut Vec<String>, dir: &str)
    ensures
        text::texts(final(args)@) == text::texts(old(args)@) + output_args(dir@),
{
    let segments = dir.to_owned().concat("/seg_%d.ts");
    let playlist = dir.to_owned().concat("/index.m3u8");
    text::push_word(args, "-c");
    text::push_word(args, "copy");
    text::push_word(args, "-f");
    text::push_word(args, "hls");
    text::push_word(args, "-hls_time");
    text::push_word(args, "4");
    text::push_word(args, "-hls_list_size");
    text::push_word(args, "6");
    text::push_word(args, "-hls_flags");
    text::push_word(args, "delete_segments+append_list+independent_segments");
    text::push_word(args, "-hls_segment_type");
    text::push_word(args, "mpegts");
    text::push_word(args, "-hls_segment_filename");
    text::push_word(args, segments.as_str());
    text::push_word(args, playlist.as_str());
    assert(text::texts(args@) =~= text::texts(old(args)@) + output_args(dir@));
}

/// The run for a source, given its address also in lower case.
pub fn ffmpeg_job(url: &str, url_lower: &str, id: &str, base_dir: &str, proxy: &str) -> (job:
    FfmpegJob)
    ensures
        job@ == job_with(url@, url_lower@, id@, base_dir@, proxy@),
{
    let dir = output_dir(base_dir, id);
    let mut args: Vec<String> = Vec::new();
    assert(text::texts(args@) =~= seq![]);
    push_basic_args(&mut args, url);
    push_input_args(&mut args);
    push_protocol_args(&mut args, url_lower);
    let ghost before_source = text::texts(args@);
    text::push_word(&mut args, "-i");
    text::push_word(&mut args, url);
    assert(text::texts(args@) =~= before_source + seq!["-i"@, url@]);
    push_output_args(&mut args, dir.as_str());
    assert(text::texts(args@) =~= job_args(url@, url_lower@, dir@));

    let mut env: Vec<(String, String)> = Vec::new();
    if !proxy.is_empty() && !text::contains(url_lower, "172.16.") && !text::starts_with(
        url_lower,
        "rtp://",
    ) && !address::private_host(url_lower) {
        text::push_setting(&mut env, "all_proxy", proxy);
        text::push_setting(&mut env, "http_proxy", proxy);
        text::push_setting(&mut env, "https_proxy", proxy);
    }
    assert(text::settings(env@) =~= job_env(url_lower@, proxy@));
    FfmpegJob { output_dir: dir, args, env }
}

/// The run for a source.
pub fn spawn_ffmpeg(url: &str, id: &str, base_dir: &str, proxy: &str) -> (job: FfmpegJob)
    ensures
        job@ == job_for(url@, id@, base_dir@, proxy@),
{
    let url_lower = text::to_lowercase(url);
    ffmpeg_job(url, url_lower.as_str(), id, base_dir, proxy)
}

} // verus!
