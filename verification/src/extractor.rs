use vstd::prelude::*;
use vstd::string::StringExecFns;

use crate::cipher::CipherOperation;
use crate::decipher::{
    decipher_programs_after, decipher_result, DecipherOutcome, DecipherStepV, SignatureDecipher,
};
use crate::error::ExtractionError;
use crate::yt_interface::{
    StreamDescV, StreamDescriptor, StreamEntryV, StreamFailV, StreamFailure, StreamSource,
    StreamSourceV, VideoId, YtManifest, YtManifestV, YtStreamResponse, YtVideoInfo,
};

verus! {

/// The URL under which the platform serves the manifest of a video.
pub fn manifest_request_url(video_id: &VideoId) -> (r: String)
    ensures
        r@ == "https://www.youtube.com/youtubei/v1/player?videoId="@ + video_id@,
{
    let mut url = String::from_str("https://www.youtube.com/youtubei/v1/player?videoId=");
    url.append(video_id.as_str());
    url
}

/// The metadata a manifest yields: the three required fields, or the
/// name of the first one that is absent (checked in the order title,
/// author, duration).
pub open spec fn video_info_result(m: YtManifestV) -> Result<(Seq<char>, Seq<char>, u64), Seq<char>> {
    match m.title {
        None => Err("title"@),
        Some(title) => match m.author {
            None => Err("author"@),
            Some(author) => match m.duration_seconds {
                None => Err("durationSeconds"@),
                Some(duration) => Ok((title, author, duration)),
            },
        },
    }
}

/// Parses the metadata fields out of an already fetched manifest.
/// Succeeds exactly when every required field is present; otherwise
/// reports the first missing field by name. A pure function of the
/// manifest value: no fetching, no cache, no state.
pub fn extract_video_info_from_manifest(m: &YtManifest) -> (r: Result<YtVideoInfo, ExtractionError>)
    ensures
        match r {
            Ok(info) => video_info_result(m@) is Ok && video_info_result(m@)->Ok_0 == (
            info.title@, info.author@, info.duration_seconds),
            Err(e) => match e {
                ExtractionError::MetadataFieldMissing(f) => video_info_result(m@) is Err
                    && video_info_result(m@)->Err_0 == f@,
                _ => false,
            },
        },
{
    let title = match &m.title {
        Some(t) => t.clone(),
        None => {
            return Err(ExtractionError::MetadataFieldMissing(String::from_str("title")));
        },
    };
    let author = match &m.author {
        Some(a) => a.clone(),
        None => {
            return Err(ExtractionError::MetadataFieldMissing(String::from_str("author")));
        },
    };
    let duration_seconds = match &m.duration_seconds {
        Some(d) => *d,
        None => {
            return Err(ExtractionError::MetadataFieldMissing(String::from_str("durationSeconds")));
        },
    };
    Ok(YtVideoInfo { title, author, duration_seconds })
}

/// The player sources that must be fetched before the manifest's
/// streams can all be resolved: the references of ciphered entries
/// for which neither a program nor a source is cached, in manifest
/// order.
pub open spec fn needed_sources(
    entries: Seq<StreamEntryV>,
    programs: Map<Seq<char>, Seq<CipherOperation>>,
    sources: Map<Seq<char>, Seq<char>>,
) -> Seq<Seq<char>>
    decreases entries.len(),
{
    if entries.len() == 0 {
        Seq::empty()
    } else {
        let head = match entries[0].source {
            StreamSourceV::Ciphered { base_url, signature, player_ref } => if !programs.contains_key(
                player_ref,
            ) && !sources.contains_key(player_ref) {
                seq![player_ref]
            } else {
                Seq::empty()
            },
            StreamSourceV::Direct { url } => Seq::empty(),
        };
        head + needed_sources(entries.skip(1), programs, sources)
    }
}

/// What processing the manifest's entries does, entry by entry, to
/// the program cache and to the result lists: a direct entry is
/// already resolved; a ciphered one is deciphered against the caches
/// as the previous entries left them, yielding either a resolved
/// descriptor (URL = base joined with the deciphered signature) or a
/// recorded per-stream diagnostic.
pub open spec fn process_entries(
    entries: Seq<StreamEntryV>,
    programs: Map<Seq<char>, Seq<CipherOperation>>,
    sources: Map<Seq<char>, Seq<char>>,
) -> (Map<Seq<char>, Seq<CipherOperation>>, Seq<StreamDescV>, Seq<StreamFailV>)
    decreases entries.len(),
{
    if entries.len() == 0 {
        (programs, Seq::empty(), Seq::empty())
    } else {
        let e = entries[0];
        let step: (
            Map<Seq<char>, Seq<CipherOperation>>,
            Seq<StreamDescV>,
            Seq<StreamFailV>,
        ) = match e.source {
            StreamSourceV::Direct { url } => (
                programs,
                seq![StreamDescV { itag: e.itag, mime_type: e.mime_type, url }],
                Seq::empty(),
            ),
            StreamSourceV::Ciphered { base_url, signature, player_ref } => {
                let after = decipher_programs_after(programs, sources, player_ref);
                match decipher_result(programs, sources, signature, player_ref) {
                    DecipherStepV::Done { url } => (
                        after,
                        seq![
                            StreamDescV { itag: e.itag, mime_type: e.mime_type, url: base_url + url },
                        ],
                        Seq::empty(),
                    ),
                    DecipherStepV::ReplayError => (
                        after,
                        Seq::empty(),
                        seq![StreamFailV { itag: e.itag, error: ExtractionError::CipherReplayError }],
                    ),
                    DecipherStepV::PatternNotFound => (
                        after,
                        Seq::empty(),
                        seq![
                            StreamFailV {
                                itag: e.itag,
                                error: ExtractionError::CipherPatternNotFound,
                            },
                        ],
                    ),
                    DecipherStepV::NeedsSource => (
                        after,
                        Seq::empty(),
                        seq![
                            StreamFailV {
                                itag: e.itag,
                                error: ExtractionError::PlayerSourceUnavailable,
                            },
                        ],
                    ),
                }
            },
        };
        let rest = process_entries(entries.skip(1), step.0, sources);
        (rest.0, step.1 + rest.1, step.2 + rest.2)
    }
}

/// Partial failure isolation: processing yields exactly one resolved
/// descriptor or one recorded diagnostic per manifest entry, so one
/// failing stream never suppresses the others.
pub proof fn lemma_partial_failure_isolation(
    entries: Seq<StreamEntryV>,
    programs: Map<Seq<char>, Seq<CipherOperation>>,
    sources: Map<Seq<char>, Seq<char>>,
)
    ensures
        process_entries(entries, programs, sources).1.len() + process_entries(
            entries,
            programs,
            sources,
        ).2.len() == entries.len(),
    decreases entries.len(),
{
    if entries.len() > 0 {
        let e = entries[0];
        match e.source {
            StreamSourceV::Direct { url } => {
                lemma_partial_failure_isolation(entries.skip(1), programs, sources);
            },
            StreamSourceV::Ciphered { base_url, signature, player_ref } => {
                let after = decipher_programs_after(programs, sources, player_ref);
                lemma_partial_failure_isolation(entries.skip(1), after, sources);
            },
        }
    }
}

/// A whole bulk extraction keeps every already-cached program intact:
/// entries are immutable once inserted, across any number of streams.
pub proof fn lemma_process_keeps_cached_programs(
    entries: Seq<StreamEntryV>,
    programs: Map<Seq<char>, Seq<CipherOperation>>,
    sources: Map<Seq<char>, Seq<char>>,
    cached: Seq<char>,
)
    requires
        programs.contains_key(cached),
    ensures
        process_entries(entries, programs, sources).0.contains_key(cached),
        process_entries(entries, programs, sources).0[cached] == programs[cached],
    decreases entries.len(),
{
    if entries.len() > 0 {
        let e = entries[0];
        match e.source {
            StreamSourceV::Direct { url } => {
                lemma_process_keeps_cached_programs(entries.skip(1), programs, sources, cached);
            },
            StreamSourceV::Ciphered { base_url, signature, player_ref } => {
                let after = decipher_programs_after(programs, sources, player_ref);
                crate::decipher::lemma_program_entries_immutable(
                    programs,
                    sources,
                    player_ref,
                    cached,
                );
                lemma_process_keeps_cached_programs(entries.skip(1), after, sources, cached);
            },
        }
    }
}

/// A ciphered entry of the manifest names `player_ref`.
pub open spec fn entry_names_ref(e: StreamEntryV, x: Seq<char>) -> bool {
    match e.source {
        StreamSourceV::Ciphered { base_url, signature, player_ref } => player_ref == x,
        StreamSourceV::Direct { url } => false,
    }
}

/// Manifest reuse: working from an already fetched manifest can only
/// ever call for player sources that the manifest's own ciphered
/// entries name — never for the manifest again.
pub proof fn lemma_needed_only_from_manifest(
    entries: Seq<StreamEntryV>,
    programs: Map<Seq<char>, Seq<CipherOperation>>,
    sources: Map<Seq<char>, Seq<char>>,
)
    ensures
        forall|x: Seq<char>|
            needed_sources(entries, programs, sources).contains(x) ==> exists|i: int|
                0 <= i < entries.len() && entry_names_ref(entries[i], x),
    decreases entries.len(),
{
    if entries.len() > 0 {
        lemma_needed_only_from_manifest(entries.skip(1), programs, sources);
        let needed = needed_sources(entries, programs, sources);
        assert forall|x: Seq<char>| needed.contains(x) implies exists|i: int|
            0 <= i < entries.len() && entry_names_ref(entries[i], x) by {
            let head = match entries[0].source {
                StreamSourceV::Ciphered { base_url, signature, player_ref } => if !programs.contains_key(
                    player_ref,
                ) && !sources.contains_key(player_ref) {
                    seq![player_ref]
                } else {
                    Seq::<Seq<char>>::empty()
                },
                StreamSourceV::Direct { url } => Seq::<Seq<char>>::empty(),
            };
            let tail = needed_sources(entries.skip(1), programs, sources);
            let j = choose|j: int| 0 <= j < needed.len() && needed[j] == x;
            if j < head.len() {
                assert(entry_names_ref(entries[0], x));
            } else {
                assert(tail[j - head.len()] == x);
                assert(tail.contains(x));
                let i = choose|i: int|
                    0 <= i < entries.skip(1).len() && entry_names_ref(entries.skip(1)[i], x);
                assert(entries.skip(1)[i] == entries[i + 1]);
                assert(entry_names_ref(entries[i + 1], x));
            }
        }
    }
}

/// The entry can be handled from the caches: it is direct, or its
/// reference has a cached program or a cached source.
pub open spec fn entry_resolvable_from_caches(
    e: StreamEntryV,
    programs: Map<Seq<char>, Seq<CipherOperation>>,
    sources: Map<Seq<char>, Seq<char>>,
) -> bool {
    match e.source {
        StreamSourceV::Ciphered { base_url, signature, player_ref } => programs.contains_key(
            player_ref,
        ) || sources.contains_key(player_ref),
        StreamSourceV::Direct { url } => true,
    }
}

/// A manifest whose ciphered entries all have a cached program or a
/// cached source asks for no fetch at all: stream extraction then
/// works from the caches alone.
pub proof fn lemma_cached_manifest_needs_no_fetch(
    entries: Seq<StreamEntryV>,
    programs: Map<Seq<char>, Seq<CipherOperation>>,
    sources: Map<Seq<char>, Seq<char>>,
)
    requires
        forall|i: int|
            0 <= i < entries.len() ==> #[trigger] entry_resolvable_from_caches(
                entries[i],
                programs,
                sources,
            ),
    ensures
        needed_sources(entries, programs, sources).len() == 0,
    decreases entries.len(),
{
    if entries.len() > 0 {
        assert(entry_resolvable_from_caches(entries[0], programs, sources));
        assert forall|i: int|
            0 <= i < entries.skip(1).len() implies #[trigger] entry_resolvable_from_caches(
            entries.skip(1)[i],
            programs,
            sources,
        ) by {
            assert(entries.skip(1)[i] == entries[i + 1]);
        }
        lemma_cached_manifest_needs_no_fetch(entries.skip(1), programs, sources);
    }
}

/// The outcome of a bulk stream extraction: either every entry could
/// be handled from the given manifest and the caches, or the player
/// sources named here must be supplied first (the call then changed
/// nothing).
#[derive(Debug, Clone)]
pub enum StreamsOutcome {
    /// The resolved streams, with per-stream diagnostics.
    Ready(YtStreamResponse),
    /// The player sources to fetch and supply before retrying.
    NeedPlayerSources(Vec<String>),
}

/// Walks the manifest's stream list and resolves every entry, calling
/// the decipher engine for signature-protected ones. If some entries
/// need player sources that are not cached, their references are
/// returned instead and nothing is touched; after supplying what can
/// be fetched, `resolve_streams_from_manifest` resolves with whatever
/// is cached. A stream whose decipherment fails is dropped into the
/// diagnostics list rather than failing the whole extraction.
pub fn extract_streams_from_manifest(d: &mut SignatureDecipher, m: &YtManifest) -> (r:
    StreamsOutcome)
    requires
        old(d).wf(),
    ensures
        final(d).wf(),
        final(d).sources_view() == old(d).sources_view(),
        ({
            let needed = needed_sources(m@.streams, old(d).programs_view(), old(d).sources_view());
            let processed = process_entries(
                m@.streams,
                old(d).programs_view(),
                old(d).sources_view(),
            );
            if needed.len() > 0 {
                match r {
                    StreamsOutcome::NeedPlayerSources(v) => v@.map_values(|s: String| s@) == needed
                        && final(d).programs_view() == old(d).programs_view(),
                    StreamsOutcome::Ready(resp) => false,
                }
            } else {
                match r {
                    StreamsOutcome::Ready(resp) => final(d).programs_view() == processed.0 && resp@.0
                        == processed.1 && resp@.1 == processed.2,
                    StreamsOutcome::NeedPlayerSources(v) => false,
                }
            }
        }),
{
    let ghost entries = m@.streams;
    let ghost programs0 = d.programs_view();
    let ghost sources0 = d.sources_view();
    let n = m.streams.len();

    // First pass: collect the references that must be fetched.
    let mut needed: Vec<String> = Vec::new();
    let mut k: usize = 0;
    proof {
        assert(entries.skip(0) =~= entries);
        assert(needed@.map_values(|s: String| s@) =~= Seq::<Seq<char>>::empty());
    }
    while k < n
        invariant
            d.wf(),
            *d == *old(d),
            entries == m@.streams,
            programs0 == d.programs_view(),
            sources0 == d.sources_view(),
            n == m.streams@.len(),
            entries.len() == n,
            0 <= k <= n,
            needed_sources(entries, programs0, sources0) == needed@.map_values(|s: String| s@)
                + needed_sources(entries.skip(k as int), programs0, sources0),
        decreases n - k,
    {
        let ghost pre = needed@.map_values(|s: String| s@);
        proof {
            assert(entries.skip(k as int)[0] == entries[k as int]);
            assert(entries.skip(k as int).skip(1) =~= entries.skip(k as int + 1));
            assert(entries[k as int] == m.streams@[k as int]@);
        }
        let entry = &m.streams[k];
        match &entry.source {
            StreamSource::Ciphered { base_url, signature, player_ref } => {
                if !d.has_program(player_ref) && !d.has_source(player_ref) {
                    needed.push(player_ref.clone());
                    proof {
                        assert(needed@.map_values(|s: String| s@) =~= pre.push(player_ref@));
                        assert(seq![player_ref@] + needed_sources(entries.skip(k as int + 1), programs0, sources0)
                            =~= needed_sources(entries.skip(k as int), programs0, sources0));
                        assert(pre + (seq![player_ref@] + needed_sources(
                            entries.skip(k as int + 1),
                            programs0,
                            sources0,
                        )) =~= pre.push(player_ref@) + needed_sources(
                            entries.skip(k as int + 1),
                            programs0,
                            sources0,
                        ));
                    }
                } else {
                    proof {
                        assert(Seq::<Seq<char>>::empty() + needed_sources(
                            entries.skip(k as int + 1),
                            programs0,
                            sources0,
                        ) =~= needed_sources(entries.skip(k as int + 1), programs0, sources0));
                    }
                }
            },
            StreamSource::Direct { url } => {
                proof {
                    assert(Seq::<Seq<char>>::empty() + needed_sources(
                        entries.skip(k as int + 1),
                        programs0,
                        sources0,
                    ) =~= needed_sources(entries.skip(k as int + 1), programs0, sources0));
                }
            },
        }
        k = k + 1;
    }
    proof {
        assert(entries.skip(n as int) =~= Seq::<StreamEntryV>::empty());
        assert(needed@.map_values(|s: String| s@) + Seq::<Seq<char>>::empty() =~= needed@.map_values(
            |s: String| s@,
        ));
    }
    if needed.len() > 0 {
        return StreamsOutcome::NeedPlayerSources(needed);
    }
    StreamsOutcome::Ready(resolve_streams_from_manifest(d, m))
}

/// Resolves every entry of the manifest against the caches exactly as
/// they stand, with no fetching and no gate: a ciphered entry whose
/// reference has neither a cached program nor a cached source becomes
/// a `PlayerSourceUnavailable` diagnostic, so a player source that
/// could not be supplied costs that one stream, never the whole
/// extraction.
pub fn resolve_streams_from_manifest(d: &mut SignatureDecipher, m: &YtManifest) -> (r:
    YtStreamResponse)
    requires
        old(d).wf(),
    ensures
        final(d).wf(),
        final(d).sources_view() == old(d).sources_view(),
        ({
            let processed = process_entries(
                m@.streams,
                old(d).programs_view(),
                old(d).sources_view(),
            );
            final(d).programs_view() == processed.0 && r@.0 == processed.1 && r@.1 == processed.2
        }),
{
    let ghost entries = m@.streams;
    let ghost programs0 = d.programs_view();
    let ghost sources0 = d.sources_view();
    let n = m.streams.len();

    let mut streams: Vec<StreamDescriptor> = Vec::new();
    let mut failures: Vec<StreamFailure> = Vec::new();
    let mut k2: usize = 0;
    proof {
        assert(entries.skip(0) =~= entries);
        assert(streams@.map_values(|x: StreamDescriptor| x@) =~= Seq::<StreamDescV>::empty());
        assert(failures@.map_values(|x: StreamFailure| x@) =~= Seq::<StreamFailV>::empty());
        let rest = process_entries(entries, programs0, sources0);
        assert(Seq::<StreamDescV>::empty() + rest.1 =~= rest.1);
        assert(Seq::<StreamFailV>::empty() + rest.2 =~= rest.2);
    }
    while k2 < n
        invariant
            d.wf(),
            entries == m@.streams,
            sources0 == d.sources_view(),
            n == m.streams@.len(),
            entries.len() == n,
            0 <= k2 <= n,
            ({
                let full = process_entries(entries, programs0, sources0);
                let rest = process_entries(entries.skip(k2 as int), d.programs_view(), sources0);
                full.0 == rest.0 && full.1 == streams@.map_values(|x: StreamDescriptor| x@)
                    + rest.1 && full.2 == failures@.map_values(|x: StreamFailure| x@) + rest.2
            }),
        decreases n - k2,
    {
        let ghost pk = d.programs_view();
        let ghost gstreams = streams@.map_values(|x: StreamDescriptor| x@);
        let ghost gfails = failures@.map_values(|x: StreamFailure| x@);
        proof {
            assert(entries.skip(k2 as int)[0] == entries[k2 as int]);
            assert(entries.skip(k2 as int).skip(1) =~= entries.skip(k2 as int + 1));
            assert(entries[k2 as int] == m.streams@[k2 as int]@);
        }
        let entry = &m.streams[k2];
        match &entry.source {
            StreamSource::Direct { url } => {
                let desc = StreamDescriptor {
                    itag: entry.itag,
                    mime_type: entry.mime_type.clone(),
                    url: url.clone(),
                };
                let ghost dv = desc@;
                streams.push(desc);
                proof {
                    assert(streams@.map_values(|x: StreamDescriptor| x@) =~= gstreams.push(dv));
                    let rest1 = process_entries(entries.skip(k2 as int + 1), pk, sources0);
                    assert(gstreams + (seq![dv] + rest1.1) =~= gstreams.push(dv) + rest1.1);
                    assert(gfails + (Seq::<StreamFailV>::empty() + rest1.2) =~= gfails + rest1.2);
                }
            },
            StreamSource::Ciphered { base_url, signature, player_ref } => {
                let outcome = d.decipher(signature.as_str(), player_ref);
                proof {
                    assert(d.programs_view() == decipher_programs_after(pk, sources0, player_ref@));
                }
                match outcome {
                    Ok(DecipherOutcome::Done(url)) => {
                        let full_url = base_url.clone().concat(url.as_str());
                        let desc = StreamDescriptor {
                            itag: entry.itag,
                            mime_type: entry.mime_type.clone(),
                            url: full_url,
                        };
                        let ghost dv = desc@;
                        streams.push(desc);
                        proof {
                            assert(streams@.map_values(|x: StreamDescriptor| x@) =~= gstreams.push(
                                dv,
                            ));
                            let rest1 = process_entries(
                                entries.skip(k2 as int + 1),
                                d.programs_view(),
                                sources0,
                            );
                            assert(gstreams + (seq![dv] + rest1.1) =~= gstreams.push(dv) + rest1.1);
                            assert(gfails + (Seq::<StreamFailV>::empty() + rest1.2) =~= gfails
                                + rest1.2);
                        }
                    },
                    Ok(DecipherOutcome::NeedsPlayerSource) => {
                        let fail = StreamFailure {
                            itag: entry.itag,
                            error: ExtractionError::PlayerSourceUnavailable,
                        };
                        let ghost fv = fail@;
                        failures.push(fail);
                        proof {
                            assert(failures@.map_values(|x: StreamFailure| x@) =~= gfails.push(fv));
                            let rest1 = process_entries(
                                entries.skip(k2 as int + 1),
                                d.programs_view(),
                                sources0,
                            );
                            assert(gfails + (seq![fv] + rest1.2) =~= gfails.push(fv) + rest1.2);
                            assert(gstreams + (Seq::<StreamDescV>::empty() + rest1.1) =~= gstreams
                                + rest1.1);
                        }
                    },
                    Err(e) => {
                        let fail = match e {
                            ExtractionError::CipherReplayError => StreamFailure {
                                itag: entry.itag,
                                error: ExtractionError::CipherReplayError,
                            },
                            _ => StreamFailure {
                                itag: entry.itag,
                                error: ExtractionError::CipherPatternNotFound,
                            },
                        };
                        let ghost fv = fail@;
                        failures.push(fail);
                        proof {
                            assert(failures@.map_values(|x: StreamFailure| x@) =~= gfails.push(fv));
                            let rest1 = process_entries(
                                entries.skip(k2 as int + 1),
                                d.programs_view(),
                                sources0,
                            );
                            assert(gfails + (seq![fv] + rest1.2) =~= gfails.push(fv) + rest1.2);
                            assert(gstreams + (Seq::<StreamDescV>::empty() + rest1.1) =~= gstreams
                                + rest1.1);
                        }
                    },
                }
            },
        }
        k2 = k2 + 1;
    }
    proof {
        assert(entries.skip(n as int) =~= Seq::<StreamEntryV>::empty());
        let full = process_entries(entries, programs0, sources0);
        assert(streams@.map_values(|x: StreamDescriptor| x@) + Seq::<StreamDescV>::empty()
            =~= streams@.map_values(|x: StreamDescriptor| x@));
        assert(failures@.map_values(|x: StreamFailure| x@) + Seq::<StreamFailV>::empty()
            =~= failures@.map_values(|x: StreamFailure| x@));
    }
    YtStreamResponse { streams, failures }
}

} // verus!
