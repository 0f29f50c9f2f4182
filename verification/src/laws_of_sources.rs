//! What holds of how a source is read: the runs of `ffmpeg` and `ffprobe`, and
//! what is made of the answer.
use vstd::prelude::*;

use crate::address;
use crate::json;
use crate::laws;
use crate::laws_of_text;
use crate::model;
use crate::probe;
use crate::text;
use crate::transcode;

verus! {

/// A source whose address holds `.m3u8`, wherever it does, is an HLS playlist:
/// right before the source, `ffmpeg` is told that its segments may have any
/// file name. An RTSP address is none.
pub proof fn playlists_may_name_any_file(
    url: Seq<char>,
    pre: Seq<char>,
    post: Seq<char>,
    id: Seq<char>,
    base_dir: Seq<char>,
    proxy: Seq<char>,
)
    requires
        text::lowercase(url) == pre + ".m3u8"@ + post,
        !("rtsp://"@).is_prefix_of(text::lowercase(url)),
    ensures
        ({
            let args = transcode::job_for(url, id, base_dir, proxy).args;
            &&& args.len() == 35
            &&& args[16] == "-allowed_extensions"@
            &&& args[17] == "ALL"@
            &&& args[18] == "-i"@
            &&& args[19] == url
        }),
{
    laws_of_text::a_part_is_found(pre, ".m3u8"@, post);
    args_by_kind(url, id, base_dir, proxy);
}

/// An RTSP source, whatever follows the scheme, is read over TCP: `ffmpeg` is
/// told so right before the source.
pub proof fn rtsp_is_read_over_tcp(
    url: Seq<char>,
    rest: Seq<char>,
    id: Seq<char>,
    base_dir: Seq<char>,
    proxy: Seq<char>,
)
    requires
        text::lowercase(url) == "rtsp://"@ + rest,
    ensures
        ({
            let args = transcode::job_for(url, id, base_dir, proxy).args;
            &&& args.len() == 35
            &&& args[16] == "-rtsp_transport"@
            &&& args[17] == "tcp"@
            &&& args[18] == "-i"@
            &&& args[19] == url
        }),
{
    assert(("rtsp://"@).is_prefix_of("rtsp://"@ + rest));
    args_by_kind(url, id, base_dir, proxy);
}

/// A source whose address holds `/rtp/`, wherever it does, gets a larger
/// buffer, where it is neither an RTSP source nor a playlist.
pub proof fn relayed_rtp_gets_a_larger_buffer(
    url: Seq<char>,
    pre: Seq<char>,
    post: Seq<char>,
    id: Seq<char>,
    base_dir: Seq<char>,
    proxy: Seq<char>,
)
    requires
        text::lowercase(url) == pre + "/rtp/"@ + post,
        !("rtsp://"@).is_prefix_of(text::lowercase(url)),
        !text::has_part(text::lowercase(url), ".m3u8"@),
    ensures
        ({
            let args = transcode::job_for(url, id, base_dir, proxy).args;
            &&& args.len() == 35
            &&& args[16] == "-buffer_size"@
            &&& args[17] == "1024000"@
            &&& args[18] == "-i"@
            &&& args[19] == url
        }),
{
    laws_of_text::a_part_is_found(pre, "/rtp/"@, post);
    args_by_kind(url, id, base_dir, proxy);
}

/// Any other source is read without an option of its own.
pub proof fn other_sources_are_read_as_they_are(
    url: Seq<char>,
    id: Seq<char>,
    base_dir: Seq<char>,
    proxy: Seq<char>,
)
    requires
        !("rtsp://"@).is_prefix_of(text::lowercase(url)),
        !text::has_part(text::lowercase(url), ".m3u8"@),
        !text::has_part(text::lowercase(url), "/rtp/"@),
    ensures
        ({
            let args = transcode::job_for(url, id, base_dir, proxy).args;
            &&& args.len() == 33
            &&& args[16] == "-i"@
            &&& args[17] == url
        }),
{
    args_by_kind(url, id, base_dir, proxy);
}

/// The options by kind of source stand between those that every source has and
/// the source.
proof fn args_by_kind(url: Seq<char>, id: Seq<char>, base_dir: Seq<char>, proxy: Seq<char>)
    ensures
        ({
            let args = transcode::job_for(url, id, base_dir, proxy).args;
            let own = transcode::protocol_args(text::lowercase(url));
            &&& args.len() == 33 + own.len()
            &&& own.len() > 0 ==> args[16] == own[0]
            &&& own.len() > 1 ==> args[17] == own[1]
            &&& args[16 + own.len() as int] == "-i"@
            &&& args[17 + own.len() as int] == url
        }),
{
}

/// The beginning of every run: `ffmpeg` is quiet, shows itself as a browser,
/// allows the protocols that playlists lead to, mends timestamps, does not
/// buffer, and looks far enough into the source.
pub proof fn every_run_begins_alike(
    url: Seq<char>,
    id: Seq<char>,
    base_dir: Seq<char>,
    proxy: Seq<char>,
)
    ensures
        ({
            let args = transcode::job_for(url, id, base_dir, proxy).args;
            &&& args.len() >= 33
            &&& args[0] == "-loglevel"@ && args[1] == "warning"@
            &&& args[2] == "-user_agent"@
            &&& args[3]
                == "Mozilla/5.0 (Windows NT 10.0; Win64; x64) AppleWebKit/537.36 (KHTML, like Gecko) Chrome/120.0.0.0 Safari/537.36"@
            &&& args[4] == "-headers"@
            &&& args[6] == "-protocol_whitelist"@
            &&& args[7] == "file,http,https,tcp,tls,rtp,udp,rtsp,crypto"@
            &&& args[8] == "-fflags"@ && args[9] == "genpts+igndts+nobuffer"@
            &&& args[10] == "-flags"@ && args[11] == "low_delay"@
            &&& args[12] == "-probesize"@ && args[13] == "15M"@
            &&& args[14] == "-analyzeduration"@ && args[15] == "15M"@
        }),
{
}

/// The end of every run: the source is read and copied, unchanged, into HLS
/// segments of four seconds, of which the last six are kept, in the directory
/// of the stream, which is named by the base directory and the id.
pub proof fn every_run_ends_alike(
    url: Seq<char>,
    id: Seq<char>,
    base_dir: Seq<char>,
    proxy: Seq<char>,
)
    ensures
        ({
            let job = transcode::job_for(url, id, base_dir, proxy);
            let args = job.args;
            let end = args.len() as int;
            &&& end >= 33
            &&& args[end - 17] == "-i"@ && args[end - 16] == url
            &&& args[end - 15] == "-c"@ && args[end - 14] == "copy"@
            &&& args[end - 13] == "-f"@ && args[end - 12] == "hls"@
            &&& args[end - 11] == "-hls_time"@ && args[end - 10] == "4"@
            &&& args[end - 9] == "-hls_list_size"@ && args[end - 8] == "6"@
            &&& args[end - 7] == "-hls_flags"@
            &&& args[end - 6] == "delete_segments+append_list+independent_segments"@
            &&& args[end - 5] == "-hls_segment_type"@ && args[end - 4] == "mpegts"@
            &&& args[end - 3] == "-hls_segment_filename"@
            &&& args[end - 2] == base_dir + "/"@ + id + "/seg_%d.ts"@
            &&& args[end - 1] == base_dir + "/"@ + id + "/index.m3u8"@
            &&& job.output_dir == base_dir + "/"@ + id
        }),
{
}

/// Two runs for one source differ in nothing but where they write to and
/// whether they use a proxy.
pub proof fn runs_for_one_source_read_alike(
    url: Seq<char>,
    id: Seq<char>,
    base_dir: Seq<char>,
    proxy: Seq<char>,
    other_id: Seq<char>,
    other_dir: Seq<char>,
    other_proxy: Seq<char>,
)
    ensures
        ({
            let one = transcode::job_for(url, id, base_dir, proxy);
            let other = transcode::job_for(url, other_id, other_dir, other_proxy);
            &&& one.args.len() == other.args.len()
            &&& one.args.take(one.args.len() - 2) == other.args.take(other.args.len() - 2)
            &&& proxy == other_proxy ==> one.env == other.env
        }),
{
    let one = transcode::job_for(url, id, base_dir, proxy).args;
    let other = transcode::job_for(url, other_id, other_dir, other_proxy).args;
    assert(one.take(one.len() - 2) =~= other.take(other.len() - 2));
}

/// The headers that a source is sent name its referring page, and nothing but
/// that page depends on the source.
proof fn headers_name_the_page(
    url: Seq<char>,
    id: Seq<char>,
    base_dir: Seq<char>,
    proxy: Seq<char>,
)
    ensures
        transcode::job_for(url, id, base_dir, proxy).args[5] == "Referer: "@
            + transcode::referer_of(url) + "\r\nAccept: */*\r\nConnection: keep-alive\r\n"@,
{
}

/// A source with a path is told, as the referring page, its own address up to
/// and with the slash before the path.
pub proof fn a_source_is_told_its_own_site(
    scheme: Seq<char>,
    site: Seq<char>,
    path: Seq<char>,
    id: Seq<char>,
    base_dir: Seq<char>,
    proxy: Seq<char>,
)
    requires
        !text::has_part((scheme + "://"@).drop_last(), "://"@),
        !site.contains('/'),
    ensures
        transcode::referer_of(scheme + "://"@ + site + "/"@ + path) == scheme + "://"@ + site
            + "/"@,
        transcode::job_for(scheme + "://"@ + site + "/"@ + path, id, base_dir, proxy).args[5]
            == "Referer: "@ + (scheme + "://"@ + site + "/"@)
            + "\r\nAccept: */*\r\nConnection: keep-alive\r\n"@,
{
    reveal_strlit("://");
    reveal_strlit("/");
    let url = scheme + "://"@ + site + "/"@ + path;
    let rest = site + "/"@ + path;
    assert(url =~= scheme + "://"@ + rest);
    laws_of_text::the_leftmost_part_comes_first(scheme, "://"@, rest);
    assert(url.skip(scheme.len() as int + 3) =~= rest);
    assert(!text::has_part((site + "/"@).drop_last(), "/"@)) by {
        assert((site + "/"@).drop_last() =~= site);
        no_slash_no_part(site);
    }
    laws_of_text::the_leftmost_part_comes_first(site, "/"@, path);
    assert(url.take(scheme.len() as int + 3 + site.len() + 1) =~= scheme + "://"@ + site + "/"@);
    headers_name_the_page(url, id, base_dir, proxy);
}

/// A source without a path is told its whole address.
pub proof fn a_source_without_a_path_is_told_its_address(
    scheme: Seq<char>,
    site: Seq<char>,
    id: Seq<char>,
    base_dir: Seq<char>,
    proxy: Seq<char>,
)
    requires
        !text::has_part((scheme + "://"@).drop_last(), "://"@),
        !site.contains('/'),
    ensures
        transcode::referer_of(scheme + "://"@ + site) == scheme + "://"@ + site,
        transcode::job_for(scheme + "://"@ + site, id, base_dir, proxy).args[5] == "Referer: "@ + (
        scheme + "://"@ + site) + "\r\nAccept: */*\r\nConnection: keep-alive\r\n"@,
{
    reveal_strlit("://");
    let url = scheme + "://"@ + site;
    laws_of_text::the_leftmost_part_comes_first(scheme, "://"@, site);
    assert(url.skip(scheme.len() as int + 3) =~= site);
    no_slash_no_part(site);
    headers_name_the_page(url, id, base_dir, proxy);
}

/// A source without a scheme is told no page.
pub proof fn a_source_without_a_scheme_is_told_nothing(
    url: Seq<char>,
    id: Seq<char>,
    base_dir: Seq<char>,
    proxy: Seq<char>,
)
    requires
        !text::has_part(url, "://"@),
    ensures
        transcode::referer_of(url).len() == 0,
        transcode::job_for(url, id, base_dir, proxy).args[5] == "Referer: "@
            + "\r\nAccept: */*\r\nConnection: keep-alive\r\n"@,
{
    reveal_strlit("");
    headers_name_the_page(url, id, base_dir, proxy);
    assert("Referer: "@ + ""@ =~= "Referer: "@);
}

proof fn no_slash_no_part(chars: Seq<char>)
    requires
        !chars.contains('/'),
    ensures
        !text::has_part(chars, "/"@),
{
    reveal_strlit("/");
    if text::has_part(chars, "/"@) {
        let (before, behind) = laws_of_text::a_found_part_is_there(chars, "/"@);
        assert(chars[before.len() as int] == '/');
    }
}

/// `url` in lower case is an address made of these parts: a scheme, which ends
/// where `://` first stands, a user name with an `@` behind it or nothing, a
/// host, a port with a colon before it or nothing, and a path, a query or a
/// fragment or nothing.
pub open spec fn is_address(
    url: Seq<char>,
    scheme: Seq<char>,
    user: Seq<char>,
    host: Seq<char>,
    port: Seq<char>,
    rest: Seq<char>,
) -> bool {
    &&& text::lowercase(url) == scheme + "://"@ + user + host + port + rest
    &&& !text::has_part((scheme + "://"@).drop_last(), "://"@)
    &&& forall|i: int|
        0 <= i < user.len() ==> #[trigger] user[i] != '/' && user[i] != '?' && user[i] != '#'
    &&& user.len() > 0 ==> user.last() == '@'
    &&& forall|i: int|
        0 <= i < host.len() ==> #[trigger] host[i] != '/' && host[i] != '?' && host[i] != '#'
            && host[i] != '@' && host[i] != ':'
    &&& forall|i: int|
        0 <= i < port.len() ==> #[trigger] port[i] != '/' && port[i] != '?' && port[i] != '#'
            && port[i] != '@'
    &&& port.len() > 0 ==> port[0] == ':'
    &&& rest.len() > 0 ==> rest[0] == '/' || rest[0] == '?' || rest[0] == '#'
}

/// The host of an address is the part that names it.
pub proof fn the_host_is_found(
    url: Seq<char>,
    scheme: Seq<char>,
    user: Seq<char>,
    host: Seq<char>,
    port: Seq<char>,
    rest: Seq<char>,
)
    requires
        is_address(url, scheme, user, host, port, rest),
    ensures
        address::host_of(text::lowercase(url)) == host,
{
    reveal_strlit("://");
    reveal_strlit("/?#");
    reveal_strlit(":");
    let lower = text::lowercase(url);
    let place = user + host + port;
    assert(lower =~= scheme + "://"@ + (place + rest));
    laws_of_text::the_leftmost_part_comes_first(scheme, "://"@, place + rest);
    assert(address::behind_scheme(lower) =~= place + rest);
    assert("/?#"@[0] == '/' && "/?#"@[1] == '?' && "/?#"@[2] == '#');
    assert forall|i: int| 0 <= i < place.len() implies !"/?#"@.contains(#[trigger] place[i]) by {
        if i < user.len() {
            assert(place[i] == user[i]);
        } else if i < user.len() + host.len() {
            assert(place[i] == host[i - user.len()]);
        } else {
            assert(place[i] == port[i - user.len() - host.len()]);
        }
    }
    laws_of_text::texts_are_cut_before_the_first_stop(place, rest, "/?#"@);
    assert(rest.len() == 0 ==> place + rest =~= place);
    assert(text::before_any(place + rest, "/?#"@) == place);
    let behind = host + port;
    assert(!behind.contains('@')) by {
        if behind.contains('@') {
            let i = choose|i: int| 0 <= i < behind.len() && behind[i] == '@';
            if i < host.len() {
                assert(host[i] == '@');
            } else {
                assert(port[i - host.len()] == '@');
            }
        }
    }
    if user.len() > 0 {
        assert(place =~= user.drop_last() + seq!['@'] + behind);
        laws_of_text::texts_are_kept_behind_the_last_mark(user.drop_last(), '@', behind);
    } else {
        assert(place =~= behind);
        laws_of_text::texts_are_kept_behind_the_last_mark(user, '@', behind);
    }
    assert(":"@[0] == ':');
    assert forall|i: int| 0 <= i < host.len() implies !":"@.contains(#[trigger] host[i]) by {}
    laws_of_text::texts_are_cut_before_the_first_stop(host, port, ":"@);
    assert(port.len() == 0 ==> behind =~= host);
}

/// A source in a private network, which is 10.0.0.0/8, 172.16.0.0/12 or
/// 192.168.0.0/16, is never reached through the proxy, whatever else stands in
/// its address.
pub proof fn the_local_network_is_reached_directly(
    url: Seq<char>,
    scheme: Seq<char>,
    user: Seq<char>,
    a: nat,
    b: nat,
    c: nat,
    d: nat,
    port: Seq<char>,
    rest: Seq<char>,
    id: Seq<char>,
    base_dir: Seq<char>,
    proxy: Seq<char>,
)
    requires
        a <= 255 && b <= 255 && c <= 255 && d <= 255,
        a == 10 || (a == 172 && 16 <= b <= 31) || (a == 192 && b == 168),
        is_address(
            url,
            scheme,
            user,
            text::natural_text(a) + "."@ + text::natural_text(b) + "."@ + text::natural_text(c)
                + "."@ + text::natural_text(d),
            port,
            rest,
        ),
    ensures
        transcode::job_for(url, id, base_dir, proxy).env.len() == 0,
{
    let host = text::natural_text(a) + "."@ + text::natural_text(b) + "."@ + text::natural_text(c)
        + "."@ + text::natural_text(d);
    numeric_addresses_are_four_numbers(a, b, c, d);
    the_host_is_found(url, scheme, user, host, port, rest);
    assert(address::private_numbers(a, b, c, d));
    assert(address::is_private_host(host));
}

/// A numeric address is four numbers in decimal with dots between them.
pub proof fn numeric_addresses_are_four_numbers(a: nat, b: nat, c: nat, d: nat)
    ensures
        address::dotted(a, b, c, d) == text::natural_text(a) + "."@ + text::natural_text(b) + "."@
            + text::natural_text(c) + "."@ + text::natural_text(d),
{
    reveal_strlit(".");
    assert("."@ =~= seq!['.']);
    assert(address::dotted(a, b, c, d) =~= text::natural_text(a) + "."@ + text::natural_text(b)
        + "."@ + text::natural_text(c) + "."@ + text::natural_text(d));
}

/// A host is private exactly if it is the numeric address of 10.0.0.0/8,
/// 172.16.0.0/12 or 192.168.0.0/16.
pub proof fn hosts_are_private_by_their_numbers(host: Seq<char>)
    ensures
        address::is_private_host(host) <==> exists|a: nat, b: nat, c: nat, d: nat|
            a <= 255 && b <= 255 && c <= 255 && d <= 255 && (a == 10 || (a == 172 && 16 <= b && b
                <= 31) || (a == 192 && b == 168)) && host == #[trigger] address::dotted(a, b, c, d),
{
    if address::is_private_host(host) {
        let (a, b, c, d) = choose|a: nat, b: nat, c: nat, d: nat|
            address::private_numbers(a, b, c, d) && host == #[trigger] address::dotted(a, b, c, d);
        assert(host == address::dotted(a, b, c, d));
    }
}

/// A source at any host that is not private is reached through the proxy that
/// is given, for every protocol, unless it is an RTP source or its address
/// holds `172.16.`.
pub proof fn hosts_outside_are_reached_through_the_proxy(
    url: Seq<char>,
    scheme: Seq<char>,
    user: Seq<char>,
    host: Seq<char>,
    port: Seq<char>,
    rest: Seq<char>,
    id: Seq<char>,
    base_dir: Seq<char>,
    proxy: Seq<char>,
)
    requires
        is_address(url, scheme, user, host, port, rest),
        forall|a: nat, b: nat, c: nat, d: nat|
            a <= 255 && b <= 255 && c <= 255 && d <= 255 && (a == 10 || (a == 172 && 16 <= b && b
                <= 31) || (a == 192 && b == 168)) ==> host != #[trigger] address::dotted(
                a,
                b,
                c,
                d,
            ),
        proxy.len() > 0,
        !text::has_part(text::lowercase(url), "172.16."@),
        !("rtp://"@).is_prefix_of(text::lowercase(url)),
    ensures
        transcode::job_for(url, id, base_dir, proxy).env == seq![
            ("all_proxy"@, proxy),
            ("http_proxy"@, proxy),
            ("https_proxy"@, proxy),
        ],
{
    the_host_is_found(url, scheme, user, host, port, rest);
    hosts_are_private_by_their_numbers(host);
}

/// A source at any other numeric address is reached through the proxy that is
/// given, for every protocol, unless it is an RTP source or its address holds
/// `172.16.`.
pub proof fn public_addresses_are_reached_through_the_proxy(
    url: Seq<char>,
    scheme: Seq<char>,
    user: Seq<char>,
    a: nat,
    b: nat,
    c: nat,
    d: nat,
    port: Seq<char>,
    rest: Seq<char>,
    id: Seq<char>,
    base_dir: Seq<char>,
    proxy: Seq<char>,
)
    requires
        !(a == 10 || (a == 172 && 16 <= b <= 31) || (a == 192 && b == 168)),
        is_address(
            url,
            scheme,
            user,
            text::natural_text(a) + "."@ + text::natural_text(b) + "."@ + text::natural_text(c)
                + "."@ + text::natural_text(d),
            port,
            rest,
        ),
        proxy.len() > 0,
        !text::has_part(text::lowercase(url), "172.16."@),
        !("rtp://"@).is_prefix_of(text::lowercase(url)),
    ensures
        transcode::job_for(url, id, base_dir, proxy).env == seq![
            ("all_proxy"@, proxy),
            ("http_proxy"@, proxy),
            ("https_proxy"@, proxy),
        ],
{
    let host = text::natural_text(a) + "."@ + text::natural_text(b) + "."@ + text::natural_text(c)
        + "."@ + text::natural_text(d);
    numeric_addresses_are_four_numbers(a, b, c, d);
    the_host_is_found(url, scheme, user, host, port, rest);
    if address::is_private_host(host) {
        let (a1, b1, c1, d1) = choose|a1: nat, b1: nat, c1: nat, d1: nat|
            address::private_numbers(a1, b1, c1, d1) && host == #[trigger] address::dotted(
                a1,
                b1,
                c1,
                d1,
            );
        address::dotted_is_unique(a, b, c, d, a1, b1, c1, d1);
    }
}

/// A source at a host that has a name, which is any with a character other
/// than a digit or a dot, is reached through the proxy that is given, for every
/// protocol, unless it is an RTP source or its address holds `172.16.`.
pub proof fn named_hosts_are_reached_through_the_proxy(
    url: Seq<char>,
    scheme: Seq<char>,
    user: Seq<char>,
    host: Seq<char>,
    at: int,
    port: Seq<char>,
    rest: Seq<char>,
    id: Seq<char>,
    base_dir: Seq<char>,
    proxy: Seq<char>,
)
    requires
        is_address(url, scheme, user, host, port, rest),
        0 <= at < host.len(),
        !('0' <= host[at] && host[at] <= '9'),
        host[at] != '.',
        proxy.len() > 0,
        !text::has_part(text::lowercase(url), "172.16."@),
        !("rtp://"@).is_prefix_of(text::lowercase(url)),
    ensures
        transcode::job_for(url, id, base_dir, proxy).env == seq![
            ("all_proxy"@, proxy),
            ("http_proxy"@, proxy),
            ("https_proxy"@, proxy),
        ],
{
    the_host_is_found(url, scheme, user, host, port, rest);
    if address::is_private_host(host) {
        let (a, b, c, d) = choose|a: nat, b: nat, c: nat, d: nat|
            address::private_numbers(a, b, c, d) && host == #[trigger] address::dotted(a, b, c, d);
        address::dotted_is_plain(a, b, c, d);
        assert(address::dotted(a, b, c, d)[at] == host[at]);
    }
}

/// A source without a scheme is reached through the proxy that is given, for
/// every protocol, unless its address holds `172.16.`.
pub proof fn sources_without_a_scheme_are_reached_through_the_proxy(
    url: Seq<char>,
    id: Seq<char>,
    base_dir: Seq<char>,
    proxy: Seq<char>,
)
    requires
        !text::has_part(text::lowercase(url), "://"@),
        proxy.len() > 0,
        !text::has_part(text::lowercase(url), "172.16."@),
    ensures
        transcode::job_for(url, id, base_dir, proxy).env == seq![
            ("all_proxy"@, proxy),
            ("http_proxy"@, proxy),
            ("https_proxy"@, proxy),
        ],
{
    reveal_strlit("rtp://");
    reveal_strlit("://");
    let lower = text::lowercase(url);
    if ("rtp://"@).is_prefix_of(lower) {
        assert(lower =~= "rtp"@ + "://"@ + lower.skip(6)) by {
            reveal_strlit("rtp");
            assert(lower.take(6) =~= "rtp://"@);
            assert(lower =~= lower.take(6) + lower.skip(6));
        }
        laws_of_text::a_part_is_found("rtp"@, "://"@, lower.skip(6));
    }
    text::stop_is_first(Seq::<char>::empty(), "/?#"@, 0, 0);
    assert(Seq::<char>::empty().take(0) =~= Seq::<char>::empty());
    text::no_mark_before(Seq::<char>::empty(), '@', 0);
    assert(Seq::<char>::empty().skip(0) =~= Seq::<char>::empty());
    text::stop_is_first(Seq::<char>::empty(), ":"@, 0, 0);
    assert(address::host_of(lower) =~= Seq::<char>::empty());
    if address::is_private_host(Seq::<char>::empty()) {
        let (a, b, c, d) = choose|a: nat, b: nat, c: nat, d: nat|
            address::private_numbers(a, b, c, d) && Seq::<char>::empty()
                == #[trigger] address::dotted(a, b, c, d);
        assert(address::dotted(a, b, c, d).len() > 0);
    }
}

/// No proxy is used for an RTP source, nor where the address holds `172.16.`,
/// nor where none is given.
pub proof fn some_sources_are_always_reached_directly(
    url: Seq<char>,
    pre: Seq<char>,
    post: Seq<char>,
    id: Seq<char>,
    base_dir: Seq<char>,
    proxy: Seq<char>,
)
    ensures
        text::lowercase(url) == pre + "172.16."@ + post ==> transcode::job_for(
            url,
            id,
            base_dir,
            proxy,
        ).env.len() == 0,
        text::lowercase(url) == "rtp://"@ + post ==> transcode::job_for(
            url,
            id,
            base_dir,
            proxy,
        ).env.len() == 0,
        transcode::job_for(url, id, base_dir, Seq::empty()).env.len() == 0,
{
    laws_of_text::a_part_is_found(pre, "172.16."@, post);
    assert(("rtp://"@).is_prefix_of("rtp://"@ + post));
}

/// A source is probed by its address, which is what `ffprobe` is asked last,
/// and for all its streams, as JSON.
pub proof fn a_source_is_probed_by_its_address(url: Seq<char>)
    ensures
        probe::probe_args(url).len() == 14,
        probe::probe_args(url).last() == url,
        probe::probe_args(url)[0] == "-v"@ && probe::probe_args(url)[1] == "quiet"@,
        probe::probe_args(url)[2] == "-print_format"@ && probe::probe_args(url)[3] == "json"@,
        probe::probe_args(url)[4] == "-show_streams"@,
        probe::probe_args(url)[5] == "-user_agent"@,
        probe::probe_args(url)[6] == "Mozilla/5.0 (Windows NT 10.0; Win64; x64) PotPlayer/23.0.0"@,
        probe::probe_args(url)[7] == "-protocol_whitelist"@,
        probe::probe_args(url)[8] == "file,rtp,udp,tcp,http,https,tls,crypto,socks"@,
        probe::probe_args(url)[9] == "-probesize"@ && probe::probe_args(url)[10] == "10M"@,
        probe::probe_args(url)[11] == "-analyzeduration"@,
        probe::probe_args(url)[12] == "5000000"@,
        probe::PROBE_SECONDS == 20,
{
}

/// A source is probed through the proxy that is given, whatever its address,
/// and directly where none is.
pub proof fn a_source_is_probed_through_its_proxy(proxy: Seq<char>)
    ensures
        proxy.len() > 0 ==> probe::probe_env(proxy) == seq![("all_proxy"@, proxy)],
        proxy.len() == 0 ==> probe::probe_env(proxy).len() == 0,
{
}

/// `chars` is the text that an item gives under `key`; it is empty where the
/// item gives none.
pub open spec fn gives_text(item: json::JsonView, key: Seq<char>, chars: Seq<char>) -> bool {
    match item {
        json::JsonView::Fields(fields) => if fields.contains_key(key) {
            match fields[key] {
                json::JsonView::Text(given) => chars == given,
                _ => chars.len() == 0,
            }
        } else {
            chars.len() == 0
        },
        _ => chars.len() == 0,
    }
}

/// `number` is the integer that an item gives under `key`; it is zero where
/// the item gives none.
pub open spec fn gives_integer(item: json::JsonView, key: Seq<char>, number: i64) -> bool {
    match item {
        json::JsonView::Fields(fields) => if fields.contains_key(key) {
            match fields[key] {
                json::JsonView::Number(Some(given)) => number == given,
                _ => number == 0,
            }
        } else {
            number == 0
        },
        _ => number == 0,
    }
}

/// The item is a picture of a known width.
pub open spec fn gives_picture(item: json::JsonView) -> bool {
    gives_text(item, "codec_type"@, "video"@) && exists|width: i64|
        width > 0 && #[trigger] gives_integer(item, "width"@, width)
}

/// `answer` lists these items as its streams.
pub open spec fn answers(answer: json::JsonView, items: Seq<json::JsonView>) -> bool {
    match answer {
        json::JsonView::Fields(fields) => fields.contains_key("streams"@) && fields["streams"@]
            == json::JsonView::List(items),
        _ => false,
    }
}

/// An item is read field by field: what it carries, its codec in upper case,
/// and its sizes.
pub proof fn items_are_read_field_by_field(item: json::JsonView, chars: Seq<char>, number: i64)
    ensures
        gives_text(item, "codec_type"@, chars) <==> probe::elementary_of(item).kind == chars,
        gives_text(item, "codec_name"@, chars) ==> probe::elementary_of(item).codec
            == text::uppercase(chars),
        gives_integer(item, "width"@, number) <==> probe::elementary_of(item).width == number,
        gives_integer(item, "height"@, number) <==> probe::elementary_of(item).height == number,
        gives_integer(item, "channels"@, number) <==> probe::elementary_of(item).channels
            == number,
{
    reveal_strlit("");
    assert(chars.len() == 0 ==> chars =~= ""@);
}

/// A stream is a picture by its kind and its width and sound by its kind alone;
/// a picture is shown by its height and its size, sound by its channels, and
/// what is not known is called unknown.
pub proof fn streams_are_told_by_their_kind(stream: probe::ElementaryView)
    ensures
        probe::shows_picture(stream) <==> stream.kind == "video"@ && stream.width > 0,
        probe::carries_sound(stream) <==> stream.kind == "audio"@,
        probe::resolution_text(stream.width, stream.height) == text::decimal_text(
            stream.height as int,
        ) + "p ("@ + text::decimal_text(stream.width as int) + "x"@ + text::decimal_text(
            stream.height as int,
        ) + ")"@,
        probe::channels_text(stream.channels) == text::decimal_text(stream.channels as int)
            + " 声道"@,
        nothing_is_known(probe::unknown_metadata()),
        nothing_is_known(probe::summary_of(Seq::empty())),
{
}

/// The last item of an answer that is sound says what is shown of the sound:
/// its codec in upper case, and how many channels it has.
pub proof fn the_last_sound_of_an_answer_counts(
    answer: json::JsonView,
    items: Seq<json::JsonView>,
    i: int,
    codec: Seq<char>,
    channels: i64,
)
    requires
        answers(answer, items),
        0 <= i < items.len(),
        gives_text(items[i], "codec_type"@, "audio"@),
        forall|j: int|
            i < j < items.len() ==> !gives_text(#[trigger] items[j], "codec_type"@, "audio"@),
        gives_text(items[i], "codec_name"@, codec),
        gives_integer(items[i], "channels"@, channels),
    ensures
        probe::answer_metadata(answer).audio_codec == text::uppercase(codec),
        probe::answer_metadata(answer).channels == text::decimal_text(channels as int)
            + " 声道"@,
{
    let streams = items.map_values(|item: json::JsonView| probe::elementary_of(item));
    items_are_read_field_by_field(items[i], "audio"@, channels);
    items_are_read_field_by_field(items[i], codec, channels);
    assert forall|j: int| i < j < streams.len() implies !probe::carries_sound(
        #[trigger] streams[j],
    ) by {
        assert(!gives_text(items[j], "codec_type"@, "audio"@));
        items_are_read_field_by_field(items[j], "audio"@, 0);
    }
    laws::the_last_sound_counts(streams, i);
}

/// The last item of an answer that is a picture of a known width says what is
/// shown of the picture: its size, and its codec in upper case.
pub proof fn the_last_picture_of_an_answer_counts(
    answer: json::JsonView,
    items: Seq<json::JsonView>,
    i: int,
    codec: Seq<char>,
    width: i64,
    height: i64,
)
    requires
        answers(answer, items),
        0 <= i < items.len(),
        gives_picture(items[i]),
        forall|j: int| i < j < items.len() ==> !gives_picture(#[trigger] items[j]),
        gives_text(items[i], "codec_name"@, codec),
        gives_integer(items[i], "width"@, width),
        gives_integer(items[i], "height"@, height),
    ensures
        probe::answer_metadata(answer).resolution == text::decimal_text(height as int) + "p ("@
            + text::decimal_text(width as int) + "x"@ + text::decimal_text(height as int) + ")"@,
        probe::answer_metadata(answer).video_codec == text::uppercase(codec),
{
    let streams = items.map_values(|item: json::JsonView| probe::elementary_of(item));
    items_are_read_field_by_field(items[i], codec, width);
    items_are_read_field_by_field(items[i], codec, height);
    pictures_are_told_by_their_width(items[i]);
    assert forall|j: int| i < j < streams.len() implies !probe::shows_picture(
        #[trigger] streams[j],
    ) by {
        assert(!gives_picture(items[j]));
        pictures_are_told_by_their_width(items[j]);
    }
    laws::the_last_picture_counts(streams, i);
}

proof fn pictures_are_told_by_their_width(item: json::JsonView)
    ensures
        gives_picture(item) <==> probe::shows_picture(probe::elementary_of(item)),
{
    let width = probe::elementary_of(item).width;
    items_are_read_field_by_field(item, "video"@, width);
    if gives_picture(item) {
        let given = choose|given: i64| given > 0 && #[trigger] gives_integer(item, "width"@, given);
        items_are_read_field_by_field(item, "video"@, given);
    }
}

/// Where no item of an answer is sound, or none is a picture of a known width,
/// what is shown of it is that it is unknown.
pub proof fn what_no_item_gives_is_unknown(answer: json::JsonView, items: Seq<json::JsonView>)
    requires
        answers(answer, items),
    ensures
        (forall|j: int|
            0 <= j < items.len() ==> !gives_text(#[trigger] items[j], "codec_type"@, "audio"@))
            ==> {
            &&& probe::answer_metadata(answer).audio_codec == "未知"@
            &&& probe::answer_metadata(answer).channels == "未知"@
        },
        (forall|j: int| 0 <= j < items.len() ==> !gives_picture(#[trigger] items[j])) ==> {
            &&& probe::answer_metadata(answer).resolution == "检测失败"@
            &&& probe::answer_metadata(answer).video_codec == "未知"@
        },
{
    let streams = items.map_values(|item: json::JsonView| probe::elementary_of(item));
    assert forall|j: int| 0 <= j < items.len() implies {
        &&& probe::carries_sound(#[trigger] streams[j]) == gives_text(
            items[j],
            "codec_type"@,
            "audio"@,
        )
        &&& probe::shows_picture(streams[j]) == gives_picture(items[j])
    } by {
        items_are_read_field_by_field(items[j], "audio"@, 0);
        pictures_are_told_by_their_width(items[j]);
    }
    laws::without_streams_all_is_unknown(streams);
}

/// Of an answer that lists no streams, of an output that is no answer, and of
/// a run that gave no output, nothing is known.
pub proof fn without_an_answer_all_is_unknown(
    answer: json::JsonView,
    output: Option<Seq<u8>>,
)
    ensures
        (forall|items: Seq<json::JsonView>| !#[trigger] answers(answer, items))
            ==> nothing_is_known(probe::answer_metadata(answer)),
        output is None ==> nothing_is_known(probe::output_metadata(output)),
        output matches Some(bytes) ==> json::parsed_json(text::lossy_text(bytes)) is None
            ==> nothing_is_known(probe::output_metadata(output)),
{
    if forall|items: Seq<json::JsonView>| !#[trigger] answers(answer, items) {
        match json::field_of(answer, "streams"@) {
            json::JsonView::List(items) => {
                assert(answers(answer, items));
            },
            _ => {},
        }
    }
}

/// Nothing is known of the source.
pub open spec fn nothing_is_known(metadata: model::MetadataView) -> bool {
    &&& metadata.resolution == "检测失败"@
    &&& metadata.video_codec == "未知"@
    &&& metadata.audio_codec == "未知"@
    &&& metadata.channels == "未知"@
}

/// An output that is an answer says what the answer says.
pub proof fn an_output_is_read_as_its_answer(bytes: Seq<u8>, answer: json::JsonView)
    requires
        json::parsed_json(text::lossy_text(bytes)) == Some(answer),
    ensures
        probe::output_metadata(Some(bytes)) == probe::answer_metadata(answer),
{
}

/// Items that are neither sound nor a picture change nothing, wherever they
/// stand in the answer.
pub proof fn other_items_change_nothing(
    answer: json::JsonView,
    longer: json::JsonView,
    before: Seq<json::JsonView>,
    item: json::JsonView,
    behind: Seq<json::JsonView>,
)
    requires
        answers(answer, before + behind),
        answers(longer, before + seq![item] + behind),
        !gives_text(item, "codec_type"@, "audio"@),
        !gives_picture(item),
    ensures
        probe::answer_metadata(longer) == probe::answer_metadata(answer),
    decreases behind.len(),
{
    let read = |one: json::JsonView| probe::elementary_of(one);
    let short = before + behind;
    let long = before + seq![item] + behind;
    if behind.len() == 0 {
        items_are_read_field_by_field(item, "audio"@, 0);
        pictures_are_told_by_their_width(item);
        assert(short =~= before);
        assert(long =~= before.push(item));
        assert(long.map_values(read).drop_last() =~= short.map_values(read));
    } else {
        let answer_less = json::JsonView::Fields(
            Map::empty().insert("streams"@, json::JsonView::List(before + behind.drop_last())),
        );
        let longer_less = json::JsonView::Fields(
            Map::empty().insert(
                "streams"@,
                json::JsonView::List(before + seq![item] + behind.drop_last()),
            ),
        );
        other_items_change_nothing(answer_less, longer_less, before, item, behind.drop_last());
        assert(short.map_values(read).drop_last() =~= (before + behind.drop_last()).map_values(
            read,
        ));
        assert(long.map_values(read).drop_last() =~= (before + seq![item]
            + behind.drop_last()).map_values(read));
    }
}

} // verus!
