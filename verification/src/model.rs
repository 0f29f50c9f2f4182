//! What is known of a stream, as it is kept, sent and received.
use vstd::prelude::*;

verus! {

/// What probing a source told about its picture and sound.
#[derive(Debug)]
pub struct StreamMetadata {
    pub resolution: String,
    pub video_codec: String,
    pub audio_codec: String,
    pub channels: String,
}

/// The characters of a [`StreamMetadata`].
pub struct MetadataView {
    pub resolution: Seq<char>,
    pub video_codec: Seq<char>,
    pub audio_codec: Seq<char>,
    pub channels: Seq<char>,
}

impl View for StreamMetadata {
    type V = MetadataView;

    open spec fn view(&self) -> MetadataView {
        MetadataView {
            resolution: self.resolution@,
            video_codec: self.video_codec@,
            audio_codec: self.audio_codec@,
            channels: self.channels@,
        }
    }
}

impl Clone for StreamMetadata {
    fn clone(&self) -> (copy: Self)
        ensures
            copy == *self,
    {
        StreamMetadata {
            resolution: self.resolution.clone(),
            video_codec: self.video_codec.clone(),
            audio_codec: self.audio_codec.clone(),
            channels: self.channels.clone(),
        }
    }
}

impl Default for StreamMetadata {
    fn default() -> (metadata: Self)
        ensures
            metadata@ == (MetadataView {
                resolution: Seq::empty(),
                video_codec: Seq::empty(),
                audio_codec: Seq::empty(),
                channels: Seq::empty(),
            }),
    {
        StreamMetadata {
            resolution: String::new(),
            video_codec: String::new(),
            audio_codec: String::new(),
            channels: String::new(),
        }
    }
}

/// A stream as the database keeps it and as a client sends it.
#[derive(Debug)]
pub struct StreamConfig {
    pub id: String,
    pub name: String,
    pub url: String,
    pub proxy: String,
    pub metadata: StreamMetadata,
}

/// The characters of a [`StreamConfig`].
pub struct ConfigView {
    pub id: Seq<char>,
    pub name: Seq<char>,
    pub url: Seq<char>,
    pub proxy: Seq<char>,
    pub metadata: MetadataView,
}

impl View for StreamConfig {
    type V = ConfigView;

    open spec fn view(&self) -> ConfigView {
        ConfigView {
            id: self.id@,
            name: self.name@,
            url: self.url@,
            proxy: self.proxy@,
            metadata: self.metadata@,
        }
    }
}

impl Clone for StreamConfig {
    fn clone(&self) -> (copy: Self)
        ensures
            copy == *self,
    {
        StreamConfig {
            id: self.id.clone(),
            name: self.name.clone(),
            url: self.url.clone(),
            proxy: self.proxy.clone(),
            metadata: self.metadata.clone(),
        }
    }
}

impl Default for StreamConfig {
    fn default() -> (config: Self)
        ensures
            config@ == (ConfigView {
                id: Seq::empty(),
                name: Seq::empty(),
                url: Seq::empty(),
                proxy: Seq::empty(),
                metadata: MetadataView {
                    resolution: Seq::empty(),
                    video_codec: Seq::empty(),
                    audio_codec: Seq::empty(),
                    channels: Seq::empty(),
                },
            }),
    {
        StreamConfig {
            id: String::new(),
            name: String::new(),
            url: String::new(),
            proxy: String::new(),
            metadata: StreamMetadata::default(),
        }
    }
}

/// A stream as it is shown to a client.
#[derive(Debug)]
pub struct StreamResponse {
    pub id: String,
    pub name: String,
    pub url: String,
    pub m3u8_url: String,
    pub status: String,
    pub metadata: StreamMetadata,
}

/// The characters of a [`StreamResponse`].
pub struct ResponseView {
    pub id: Seq<char>,
    pub name: Seq<char>,
    pub url: Seq<char>,
    pub m3u8_url: Seq<char>,
    pub status: Seq<char>,
    pub metadata: MetadataView,
}

impl View for StreamResponse {
    type V = ResponseView;

    open spec fn view(&self) -> ResponseView {
        ResponseView {
            id: self.id@,
            name: self.name@,
            url: self.url@,
            m3u8_url: self.m3u8_url@,
            status: self.status@,
            metadata: self.metadata@,
        }
    }
}

impl Clone for StreamResponse {
    fn clone(&self) -> (copy: Self)
        ensures
            copy == *self,
    {
        StreamResponse {
            id: self.id.clone(),
            name: self.name.clone(),
            url: self.url.clone(),
            m3u8_url: self.m3u8_url.clone(),
            status: self.status.clone(),
            metadata: self.metadata.clone(),
        }
    }
}

/// Where the hub offers the playlist of a stream.
pub open spec fn playlist_path(id: Seq<char>) -> Seq<char> {
    "/live/"@ + id + "/index.m3u8"@
}

/// What a client is told of the state of a stream.
pub open spec fn status_word(running: bool) -> Seq<char> {
    if running {
        "Running"@
    } else {
        "Standby"@
    }
}

/// Where the hub offers the playlist of the stream `id`.
pub fn m3u8_url(id: &str) -> (path: String)
    ensures
        path@ == playlist_path(id@),
{
    "/live/".to_owned().concat(id).concat("/index.m3u8")
}

/// What a client is told of the state of a stream.
pub fn status_text(running: bool) -> (word: String)
    ensures
        word@ == status_word(running),
{
    if running {
        "Running".to_owned()
    } else {
        "Standby".to_owned()
    }
}

} // verus!
