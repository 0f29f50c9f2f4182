//! The hub as a site: where it keeps its files, where it listens, its page.
use vstd::prelude::*;

use crate::reply;

use crate::reply::{Body, Reply};

verus! {

/// The port on which the hub listens.
pub const PORT: u16 = 3000;

/// The directory under which the files of all streams stand: in shared memory
/// where the machine has it, else in the working directory.
pub open spec fn root_dir(has_shared_memory: bool) -> Seq<char> {
    if has_shared_memory {
        "/dev/shm"@ + "/stream_hub"@
    } else {
        "./temp_streams"@ + "/stream_hub"@
    }
}

/// The directory under which the files of all streams stand.
pub fn hls_dir(has_shared_memory: bool) -> (dir: String)
    ensures
        dir@ == root_dir(has_shared_memory),
{
    if has_shared_memory {
        "/dev/shm".to_owned().concat("/stream_hub")
    } else {
        "./temp_streams".to_owned().concat("/stream_hub")
    }
}

/// The address to show for the local network: the one that was found, else
/// that of the machine itself.
pub fn get_local_ip(found: Option<String>) -> (ip: String)
    ensures
        match found {
            Some(address) => ip@ == address@,
            None => ip@ == "127.0.0.1"@,
        },
{
    match found {
        Some(address) => address,
        None => "127.0.0.1".to_owned(),
    }
}

/// What a request for the page is answered, where `page` is the page, if it
/// could be read.
pub fn ui_handler(page: Option<String>) -> (reply: Reply)
    ensures
        match page {
            Some(html) => reply@ == reply::bare(reply::OK, reply::BodyView::Html(html@)),
            None => reply@ == reply::bare(
                reply::INTERNAL_SERVER_ERROR,
                reply::BodyView::Text("index.html missing"@),
            ),
        },
{
    match page {
        Some(html) => Reply {
            status: reply::OK,
            set_cookie: None,
            content_type: None,
            body: Body::Html(html),
        },
        None => reply::text_reply(reply::INTERNAL_SERVER_ERROR, "index.html missing"),
    }
}

} // verus!
