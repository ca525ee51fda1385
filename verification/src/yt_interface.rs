use vstd::prelude::*;
use vstd::string::StrSliceExecFns;

use crate::error::{ExtractionError, VideoIdError};

verus! {

/// A character allowed in a video identifier: the URL-safe alphabet.
pub open spec fn is_id_char(c: char) -> bool {
    (('a' as u32) <= (c as u32) && (c as u32) <= ('z' as u32)) || (('A' as u32) <= (c as u32) && (
    c as u32) <= ('Z' as u32)) || (('0' as u32) <= (c as u32) && (c as u32) <= ('9' as u32)) || c
        == '_' || c == '-'
}

/// A well-formed video identifier: exactly eleven characters drawn
/// from the URL-safe alphabet.
pub open spec fn valid_video_id(s: Seq<char>) -> bool {
    s.len() == 11 && (forall|i: int| 0 <= i < s.len() ==> is_id_char(s[i]))
}

fn is_id_char_exec(c: char) -> (r: bool)
    ensures
        r == is_id_char(c),
{
    let u = c as u32;
    (('a' as u32) <= u && u <= ('z' as u32)) || (('A' as u32) <= u && u <= ('Z' as u32)) || (('0'
        as u32) <= u && u <= ('9' as u32)) || c == '_' || c == '-'
}

/// Validated external video identifier: constructed once from caller
/// input, immutable thereafter.
#[derive(Debug, Clone)]
pub struct VideoId {
    id: String,
}

impl View for VideoId {
    type V = Seq<char>;

    closed spec fn view(&self) -> Seq<char> {
        self.id@
    }
}

impl VideoId {
    /// Validates a raw string. Succeeds exactly on well-formed
    /// identifiers; a malformed one is rejected here, before any
    /// network interaction could take place (this crate performs no
    /// network interaction at all).
    pub fn new(raw: &str) -> (r: Result<VideoId, VideoIdError>)
        ensures
            match r {
                Ok(v) => valid_video_id(raw@) && v@ == raw@,
                Err(e) => !valid_video_id(raw@) && e is Malformed,
            },
    {
        let n = raw.unicode_len();
        if n != 11 {
            return Err(VideoIdError::Malformed);
        }
        let mut i: usize = 0;
        while i < n
            invariant
                n == raw@.len(),
                n == 11,
                0 <= i <= n,
                forall|j: int| 0 <= j < i ==> is_id_char(raw@[j]),
            decreases n - i,
        {
            if !is_id_char_exec(raw.get_char(i)) {
                return Err(VideoIdError::Malformed);
            }
            i = i + 1;
        }
        Ok(VideoId { id: raw.to_owned() })
    }

    /// The normalized identifier text.
    pub fn as_str(&self) -> (r: &str)
        ensures
            r@ == self@,
    {
        self.id.as_str()
    }
}

/// Derived metadata of a video; immutable value.
#[derive(Debug, Clone)]
pub struct YtVideoInfo {
    pub title: String,
    pub author: String,
    pub duration_seconds: u64,
}

/// Where a stream's URL comes from: either directly usable, or
/// protected by a signature cipher and resolvable through the player
/// code the reference names. By construction every entry is one or
/// the other — never neither.
#[derive(Debug, Clone)]
pub enum StreamSource {
    /// The manifest carries the playable URL itself.
    Direct { url: String },
    /// The manifest carries a raw signature; the playable URL is the
    /// base joined with the deciphered signature.
    Ciphered { base_url: String, signature: String, player_ref: String },
}

/// One stream entry of a manifest, before resolution.
#[derive(Debug, Clone)]
pub struct StreamEntry {
    pub itag: u64,
    pub mime_type: String,
    pub source: StreamSource,
}

/// Raw structured document describing a video and its streams, as the
/// platform returns it. Fetched per request and handed in by the
/// caller; metadata fields may be absent.
#[derive(Debug, Clone)]
pub struct YtManifest {
    pub title: Option<String>,
    pub author: Option<String>,
    pub duration_seconds: Option<u64>,
    pub streams: Vec<StreamEntry>,
}

/// One playable variant with its URL known.
#[derive(Debug, Clone)]
pub struct StreamDescriptor {
    pub itag: u64,
    pub mime_type: String,
    pub url: String,
}

/// A per-stream diagnostic: which entry failed and how.
#[derive(Debug, Clone)]
pub struct StreamFailure {
    pub itag: u64,
    pub error: ExtractionError,
}

/// The resolved streams of one manifest, with the diagnostics of the
/// entries that could not be resolved.
#[derive(Debug, Clone)]
pub struct YtStreamResponse {
    pub streams: Vec<StreamDescriptor>,
    pub failures: Vec<StreamFailure>,
}

// Mathematical images of the data model, used by the contracts.

/// Image of `StreamSource`.
pub ghost enum StreamSourceV {
    Direct { url: Seq<char> },
    Ciphered { base_url: Seq<char>, signature: Seq<char>, player_ref: Seq<char> },
}

/// Image of `StreamEntry`.
pub ghost struct StreamEntryV {
    pub itag: u64,
    pub mime_type: Seq<char>,
    pub source: StreamSourceV,
}

/// Image of `YtManifest`.
pub ghost struct YtManifestV {
    pub title: Option<Seq<char>>,
    pub author: Option<Seq<char>>,
    pub duration_seconds: Option<u64>,
    pub streams: Seq<StreamEntryV>,
}

/// Image of `StreamDescriptor`.
pub ghost struct StreamDescV {
    pub itag: u64,
    pub mime_type: Seq<char>,
    pub url: Seq<char>,
}

/// Image of `StreamFailure`.
pub ghost struct StreamFailV {
    pub itag: u64,
    pub error: ExtractionError,
}

impl View for StreamSource {
    type V = StreamSourceV;

    open spec fn view(&self) -> StreamSourceV {
        match self {
            StreamSource::Direct { url } => StreamSourceV::Direct { url: url@ },
            StreamSource::Ciphered { base_url, signature, player_ref } => (
            StreamSourceV::Ciphered {
                base_url: base_url@,
                signature: signature@,
                player_ref: player_ref@,
            }),
        }
    }
}

impl View for StreamEntry {
    type V = StreamEntryV;

    open spec fn view(&self) -> StreamEntryV {
        StreamEntryV { itag: self.itag, mime_type: self.mime_type@, source: self.source@ }
    }
}

impl View for YtManifest {
    type V = YtManifestV;

    open spec fn view(&self) -> YtManifestV {
        YtManifestV {
            title: match self.title {
                Some(t) => Some(t@),
                None => None,
            },
            author: match self.author {
                Some(a) => Some(a@),
                None => None,
            },
            duration_seconds: self.duration_seconds,
            streams: self.streams@.map_values(|e: StreamEntry| e@),
        }
    }
}

impl View for StreamDescriptor {
    type V = StreamDescV;

    open spec fn view(&self) -> StreamDescV {
        StreamDescV { itag: self.itag, mime_type: self.mime_type@, url: self.url@ }
    }
}

impl View for StreamFailure {
    type V = StreamFailV;

    open spec fn view(&self) -> StreamFailV {
        StreamFailV { itag: self.itag, error: self.error }
    }
}

impl View for YtStreamResponse {
    type V = (Seq<StreamDescV>, Seq<StreamFailV>);

    open spec fn view(&self) -> (Seq<StreamDescV>, Seq<StreamFailV>) {
        (
            self.streams@.map_values(|d: StreamDescriptor| d@),
            self.failures@.map_values(|f: StreamFailure| f@),
        )
    }
}

} // verus!
