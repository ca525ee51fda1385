use vstd::prelude::*;

use crate::cipher::CipherOperation;
use crate::decipher::{
    decipher_programs_after, decipher_result, DecipherOutcome, DecipherStepV, SignatureDecipher,
};
use crate::error::ExtractionError;
use crate::extractor::{
    extract_streams_from_manifest, extract_video_info_from_manifest, needed_sources,
    process_entries, resolve_streams_from_manifest, video_info_result, StreamsOutcome,
};
use crate::yt_interface::{YtManifest, YtStreamResponse, YtVideoInfo};

verus! {

/// The uniform capability surface of the extraction core: metadata
/// and stream derivation over an already fetched manifest, and raw
/// signature decipherment. The two cache images that the contracts
/// speak of are shared by every operation of one implementor.
pub trait Extract: Sized {
    /// Image of the decipher-program cache.
    spec fn programs_view(&self) -> Map<Seq<char>, Seq<CipherOperation>>;

    /// Image of the player-source cache.
    spec fn sources_view(&self) -> Map<Seq<char>, Seq<char>>;

    /// The implementor's internal invariant.
    spec fn wf(&self) -> bool;

    /// Parses metadata out of an already fetched manifest; a pure
    /// function of the manifest, touching no cache and no network.
    fn get_video_info_from_manifest(&self, manifest: &YtManifest) -> (r: Result<
        YtVideoInfo,
        ExtractionError,
    >)
        ensures
            match r {
                Ok(info) => video_info_result(manifest@) is Ok && video_info_result(manifest@)->Ok_0
                    == (info.title@, info.author@, info.duration_seconds),
                Err(e) => match e {
                    ExtractionError::MetadataFieldMissing(f) => video_info_result(manifest@) is Err
                        && video_info_result(manifest@)->Err_0 == f@,
                    _ => false,
                },
            },
    ;

    /// Resolves the streams of an already fetched manifest, or names
    /// the player sources that must be supplied first.
    fn get_streams_from_manifest(&mut self, manifest: &YtManifest) -> (r: StreamsOutcome)
        requires
            old(self).wf(),
        ensures
            final(self).wf(),
            final(self).sources_view() == old(self).sources_view(),
            ({
                let needed = needed_sources(
                    manifest@.streams,
                    old(self).programs_view(),
                    old(self).sources_view(),
                );
                let processed = process_entries(
                    manifest@.streams,
                    old(self).programs_view(),
                    old(self).sources_view(),
                );
                if needed.len() > 0 {
                    match r {
                        StreamsOutcome::NeedPlayerSources(v) => v@.map_values(|s: String| s@)
                            == needed && final(self).programs_view() == old(self).programs_view(),
                        StreamsOutcome::Ready(resp) => false,
                    }
                } else {
                    match r {
                        StreamsOutcome::Ready(resp) => final(self).programs_view() == processed.0
                            && resp@.0 == processed.1 && resp@.1 == processed.2,
                        StreamsOutcome::NeedPlayerSources(v) => false,
                    }
                }
            }),
    ;

    /// Resolves every stream of the manifest against the caches as
    /// they stand: an entry whose player source is neither cached nor
    /// derivable costs that one stream a diagnostic, never the whole
    /// extraction.
    fn resolve_streams_from_manifest(&mut self, manifest: &YtManifest) -> (r: YtStreamResponse)
        requires
            old(self).wf(),
        ensures
            final(self).wf(),
            final(self).sources_view() == old(self).sources_view(),
            ({
                let processed = process_entries(
                    manifest@.streams,
                    old(self).programs_view(),
                    old(self).sources_view(),
                );
                final(self).programs_view() == processed.0 && r@.0 == processed.1 && r@.1
                    == processed.2
            }),
    ;

    /// Deciphers a raw signature for a player reference, against the
    /// shared caches.
    fn decipher_signature(&mut self, signature: &String, player_url: &String) -> (r: Result<
        DecipherOutcome,
        ExtractionError,
    >)
        requires
            old(self).wf(),
        ensures
            final(self).wf(),
            final(self).sources_view() == old(self).sources_view(),
            final(self).programs_view() == decipher_programs_after(
                old(self).programs_view(),
                old(self).sources_view(),
                player_url@,
            ),
            match r {
                Ok(DecipherOutcome::Done(url)) => decipher_result(
                    old(self).programs_view(),
                    old(self).sources_view(),
                    signature@,
                    player_url@,
                ) == (DecipherStepV::Done { url: url@ }),
                Ok(DecipherOutcome::NeedsPlayerSource) => decipher_result(
                    old(self).programs_view(),
                    old(self).sources_view(),
                    signature@,
                    player_url@,
                ) is NeedsSource,
                Err(ExtractionError::CipherPatternNotFound) => decipher_result(
                    old(self).programs_view(),
                    old(self).sources_view(),
                    signature@,
                    player_url@,
                ) is PatternNotFound,
                Err(ExtractionError::CipherReplayError) => decipher_result(
                    old(self).programs_view(),
                    old(self).sources_view(),
                    signature@,
                    player_url@,
                ) is ReplayError,
                Err(_) => false,
            },
    ;
}

/// The single entry point of the extraction core: owns the decipher
/// engine, and with it the two caches that every operation shares.
pub struct Ty {
    decipher: SignatureDecipher,
}

impl Ty {
    /// Creates the core with two fresh, empty caches.
    pub fn new() -> (r: Result<Ty, ExtractionError>)
        ensures
            match r {
                Ok(t) => t.wf() && t.programs_view() == Map::<
                    Seq<char>,
                    Seq<CipherOperation>,
                >::empty() && t.sources_view() == Map::<Seq<char>, Seq<char>>::empty(),
                Err(_) => false,
            },
    {
        Ok(Ty { decipher: SignatureDecipher::new() })
    }

    /// Hands the core a fetched player source; the source cache grows
    /// by the entry if the reference is new and keeps its first entry
    /// otherwise.
    pub fn supply_player_source(&mut self, player_ref: String, source: String)
        requires
            old(self).wf(),
        ensures
            final(self).wf(),
            final(self).programs_view() == old(self).programs_view(),
            old(self).sources_view().contains_key(player_ref@) ==> final(self).sources_view()
                == old(self).sources_view(),
            !old(self).sources_view().contains_key(player_ref@) ==> final(self).sources_view()
                == old(self).sources_view().insert(player_ref@, source@),
    {
        self.decipher.supply_player_source(player_ref, source);
    }
}

impl Extract for Ty {
    closed spec fn programs_view(&self) -> Map<Seq<char>, Seq<CipherOperation>> {
        self.decipher.programs_view()
    }

    closed spec fn sources_view(&self) -> Map<Seq<char>, Seq<char>> {
        self.decipher.sources_view()
    }

    closed spec fn wf(&self) -> bool {
        self.decipher.wf()
    }

    fn get_video_info_from_manifest(&self, manifest: &YtManifest) -> (r: Result<
        YtVideoInfo,
        ExtractionError,
    >) {
        extract_video_info_from_manifest(manifest)
    }

    fn get_streams_from_manifest(&mut self, manifest: &YtManifest) -> (r: StreamsOutcome) {
        extract_streams_from_manifest(&mut self.decipher, manifest)
    }

    fn resolve_streams_from_manifest(&mut self, manifest: &YtManifest) -> (r: YtStreamResponse) {
        resolve_streams_from_manifest(&mut self.decipher, manifest)
    }

    fn decipher_signature(&mut self, signature: &String, player_url: &String) -> (r: Result<
        DecipherOutcome,
        ExtractionError,
    >) {
        self.decipher.decipher(signature.as_str(), player_url)
    }
}

} // verus!
