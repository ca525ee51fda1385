use vstd::prelude::*;

use crate::cache::CacheStore;
use crate::cipher::{apply_program, CipherOperation, DecipherProgram};
use crate::error::ExtractionError;
use crate::player::{derive_program, extract_program_spec};

verus! {

/// What one decipher call answers: either the deciphered signature,
/// or the request to supply the player source that the reference
/// names (the one network fetch this engine can need).
#[derive(Debug, Clone)]
pub enum DecipherOutcome {
    /// The deciphered signature.
    Done(String),
    /// Neither a cached program nor a cached player source exists for
    /// the reference; the caller must fetch the source and hand it in.
    NeedsPlayerSource,
}

/// Image of one decipher call's outcome, over the two cache images.
pub ghost enum DecipherStepV {
    Done { url: Seq<char> },
    NeedsSource,
    PatternNotFound,
    ReplayError,
}

/// What a decipher call for `key` answers, given the program cache,
/// the source cache and the raw signature: a cached program is
/// replayed as it is; otherwise a cached source is parsed; otherwise
/// the source must be supplied first.
pub open spec fn decipher_result(
    programs: Map<Seq<char>, Seq<CipherOperation>>,
    sources: Map<Seq<char>, Seq<char>>,
    signature: Seq<char>,
    key: Seq<char>,
) -> DecipherStepV {
    if programs.contains_key(key) {
        match apply_program(programs[key], signature) {
            Some(u) => DecipherStepV::Done { url: u },
            None => DecipherStepV::ReplayError,
        }
    } else if sources.contains_key(key) {
        match extract_program_spec(sources[key]) {
            Some(ops) => match apply_program(ops, signature) {
                Some(u) => DecipherStepV::Done { url: u },
                None => DecipherStepV::ReplayError,
            },
            None => DecipherStepV::PatternNotFound,
        }
    } else {
        DecipherStepV::NeedsSource
    }
}

/// The program cache after a decipher call for `key`: unchanged when
/// the program was already cached or nothing could be derived; grown
/// by the one derived program when a cached source parsed. A failed
/// derivation is never remembered.
pub open spec fn decipher_programs_after(
    programs: Map<Seq<char>, Seq<CipherOperation>>,
    sources: Map<Seq<char>, Seq<char>>,
    key: Seq<char>,
) -> Map<Seq<char>, Seq<CipherOperation>> {
    if programs.contains_key(key) {
        programs
    } else if sources.contains_key(key) {
        match extract_program_spec(sources[key]) {
            Some(ops) => programs.insert(key, ops),
            None => programs,
        }
    } else {
        programs
    }
}

/// Signature decipher engine: owns the two memoization layers — raw
/// player source by reference, derived decipher program by reference —
/// and answers decipher calls from them.
pub struct SignatureDecipher {
    sources: CacheStore<String>,
    programs: CacheStore<DecipherProgram>,
}

impl SignatureDecipher {
    /// The engine's internal invariant.
    pub closed spec fn wf(&self) -> bool {
        self.sources.wf() && self.programs.wf()
    }

    /// Image of the player-source cache.
    pub closed spec fn sources_view(&self) -> Map<Seq<char>, Seq<char>> {
        self.sources@
    }

    /// Image of the decipher-program cache.
    pub closed spec fn programs_view(&self) -> Map<Seq<char>, Seq<CipherOperation>> {
        self.programs@
    }

    /// Creates an engine with two empty caches.
    pub fn new() -> (r: SignatureDecipher)
        ensures
            r.wf(),
            r.sources_view() == Map::<Seq<char>, Seq<char>>::empty(),
            r.programs_view() == Map::<Seq<char>, Seq<CipherOperation>>::empty(),
    {
        SignatureDecipher { sources: CacheStore::new(), programs: CacheStore::new() }
    }

    /// Whether a decipher program is cached for the reference.
    pub fn has_program(&self, key: &String) -> (r: bool)
        requires
            self.wf(),
        ensures
            r == self.programs_view().contains_key(key@),
    {
        self.programs.get(key).is_some()
    }

    /// Whether a player source is cached for the reference.
    pub fn has_source(&self, key: &String) -> (r: bool)
        requires
            self.wf(),
        ensures
            r == self.sources_view().contains_key(key@),
    {
        self.sources.get(key).is_some()
    }

    /// Hands the engine the player source a reference names. The
    /// source cache grows by the entry if the reference is new;
    /// entries are immutable once inserted, so a second supply for
    /// the same reference changes nothing.
    pub fn supply_player_source(&mut self, player_ref: String, source: String)
        requires
            old(self).wf(),
        ensures
            final(self).wf(),
            final(self).programs_view() == old(self).programs_view(),
            old(self).sources_view().contains_key(player_ref@) ==> final(self).sources_view()
                == old(self).sources_view(),
            !old(self).sources_view().contains_key(player_ref@) ==> final(self).sources_view()
                == old(self).sources_view().insert(player_ref@, source@),
    {
        self.sources.insert(player_ref, source);
    }

    /// Deciphers a signature for a player reference: replays the
    /// cached program, deriving it first from the cached source when
    /// absent (and caching the derivation), or asks the caller to
    /// supply the source when neither is cached. Exactly
    /// `decipher_result` over the caches as they stood at the call.
    pub fn decipher(&mut self, signature: &str, player_ref: &String) -> (r: Result<
        DecipherOutcome,
        ExtractionError,
    >)
        requires
            old(self).wf(),
        ensures
            final(self).wf(),
            final(self).sources_view() == old(self).sources_view(),
            final(self).programs_view() == decipher_programs_after(
                old(self).programs_view(),
                old(self).sources_view(),
                player_ref@,
            ),
            match r {
                Ok(DecipherOutcome::Done(url)) => decipher_result(
                    old(self).programs_view(),
                    old(self).sources_view(),
                    signature@,
                    player_ref@,
                ) == (DecipherStepV::Done { url: url@ }),
                Ok(DecipherOutcome::NeedsPlayerSource) => decipher_result(
                    old(self).programs_view(),
                    old(self).sources_view(),
                    signature@,
                    player_ref@,
                ) is NeedsSource,
                Err(ExtractionError::CipherPatternNotFound) => decipher_result(
                    old(self).programs_view(),
                    old(self).sources_view(),
                    signature@,
                    player_ref@,
                ) is PatternNotFound,
                Err(ExtractionError::CipherReplayError) => decipher_result(
                    old(self).programs_view(),
                    old(self).sources_view(),
                    signature@,
                    player_ref@,
                ) is ReplayError,
                Err(_) => false,
            },
    {
        match self.programs.get(player_ref) {
            Some(program) => {
                match program.run(signature) {
                    Ok(url) => Ok(DecipherOutcome::Done(url)),
                    Err(_) => Err(ExtractionError::CipherReplayError),
                }
            },
            None => {
                match self.sources.get(player_ref) {
                    Some(source) => {
                        match derive_program(source.as_str()) {
                            Ok(program) => {
                                let result = program.run(signature);
                                self.programs.insert(player_ref.clone(), program);
                                match result {
                                    Ok(url) => Ok(DecipherOutcome::Done(url)),
                                    Err(_) => Err(ExtractionError::CipherReplayError),
                                }
                            },
                            Err(_) => Err(ExtractionError::CipherPatternNotFound),
                        }
                    },
                    None => Ok(DecipherOutcome::NeedsPlayerSource),
                }
            },
        }
    }
}

/// Cache transparency: a decipher call for a reference whose program
/// is already cached leaves the program cache untouched and answers
/// the same whatever the source cache holds — no fetch and no parse
/// can be involved.
pub proof fn lemma_cache_transparency(
    programs: Map<Seq<char>, Seq<CipherOperation>>,
    sources: Map<Seq<char>, Seq<char>>,
    other_sources: Map<Seq<char>, Seq<char>>,
    signature: Seq<char>,
    key: Seq<char>,
)
    requires
        programs.contains_key(key),
    ensures
        decipher_programs_after(programs, sources, key) == programs,
        decipher_result(programs, sources, signature, key) == decipher_result(
            programs,
            other_sources,
            signature,
            key,
        ),
        !(decipher_result(programs, sources, signature, key) is NeedsSource),
{
}

/// Single derivation: the first decipher call for a reference with a
/// cached, parsable source caches the derived program; a repeated
/// call then changes nothing and answers by replaying that same
/// cached program. Over any sequence of calls the derivation thus
/// happens at most once per reference.
pub proof fn lemma_single_derivation(
    programs: Map<Seq<char>, Seq<CipherOperation>>,
    sources: Map<Seq<char>, Seq<char>>,
    signature: Seq<char>,
    key: Seq<char>,
)
    requires
        !programs.contains_key(key),
        sources.contains_key(key),
        extract_program_spec(sources[key]) is Some,
    ensures
        ({
            let derived = extract_program_spec(sources[key])->Some_0;
            let after = decipher_programs_after(programs, sources, key);
            &&& after == programs.insert(key, derived)
            &&& decipher_programs_after(after, sources, key) == after
            &&& decipher_result(after, sources, signature, key) == decipher_result(
                programs,
                sources,
                signature,
                key,
            )
        }),
{
}

/// Cache entries are immutable once inserted: no decipher call ever
/// removes or changes a cached program.
pub proof fn lemma_program_entries_immutable(
    programs: Map<Seq<char>, Seq<CipherOperation>>,
    sources: Map<Seq<char>, Seq<char>>,
    key: Seq<char>,
    cached: Seq<char>,
)
    requires
        programs.contains_key(cached),
    ensures
        decipher_programs_after(programs, sources, key).contains_key(cached),
        decipher_programs_after(programs, sources, key)[cached] == programs[cached],
{
}

} // verus!
