//! The Whisper engine: keeping loaded models, setting up a transcription and
//! reading its result.

use crate::error::AudioError;
use crate::text::{concat2, concat4, same, texts, trim, trimmed, white_space};
use vstd::prelude::*;
use vstd::string::*;

verus! {

/// Loaded models, by the path they were loaded from.
pub struct ModelCache<C> {
    paths: Vec<String>,
    models: Vec<C>,
}

impl<C> View for ModelCache<C> {
    type V = Map<Seq<char>, C>;

    closed spec fn view(&self) -> Map<Seq<char>, C> {
        Map::new(
            |path: Seq<char>| texts(self.paths@).contains(path),
            |path: Seq<char>| self.models@[texts(self.paths@).index_of(path)],
        )
    }
}

impl<C> ModelCache<C> {
    /// Whether every path has one model.
    pub closed spec fn wf(&self) -> bool {
        &&& self.paths@.len() == self.models@.len()
        &&& texts(self.paths@).no_duplicates()
    }

    /// A cache without models.
    pub fn new() -> (r: Self)
        ensures
            r.wf(),
            r@ == Map::<Seq<char>, C>::empty(),
    {
        let r = ModelCache { paths: Vec::new(), models: Vec::new() };
        assert(r@ =~= Map::<Seq<char>, C>::empty());
        r
    }

    /// Where a path stands.
    fn position(&self, path: &str) -> (r: Option<usize>)
        requires
            self.wf(),
        ensures
            match r {
                Some(i) => {
                    &&& i < self.paths@.len()
                    &&& self.paths@[i as int]@ == path@
                },
                None => !texts(self.paths@).contains(path@),
            },
    {
        let mut i: usize = 0;
        while i < self.paths.len()
            invariant
                i <= self.paths@.len(),
                forall|k: int| 0 <= k < i ==> (#[trigger] self.paths@[k])@ != path@,
            decreases self.paths@.len() - i,
        {
            if same(self.paths[i].as_str(), path) {
                return Some(i);
            }
            i += 1;
        }
        proof {
            let all = texts(self.paths@);
            assert forall|k: int| 0 <= k < all.len() implies all[k] != path@ by {
                assert(all[k] == self.paths@[k]@);
            }
        }
        None
    }

    /// The model that was loaded from a path.
    pub fn get(&self, path: &str) -> (r: Option<&C>)
        requires
            self.wf(),
        ensures
            match r {
                Some(model) => self@.dom().contains(path@) && *model == self@[path@],
                None => !self@.dom().contains(path@),
            },
    {
        match self.position(path) {
            Some(i) => {
                proof {
                    let all = texts(self.paths@);
                    assert(all[i as int] == path@);
                    assert(all.contains(path@));
                    let k = all.index_of(path@);
                    assert(all[k] == path@ && 0 <= k < all.len());
                }
                Some(&self.models[i])
            },
            None => None,
        }
    }

    /// Keeps a model that was loaded from a path.
    fn insert(&mut self, path: &str, model: C)
        requires
            old(self).wf(),
            !old(self)@.dom().contains(path@),
        ensures
            final(self).wf(),
            final(self)@ == old(self)@.insert(path@, model),
    {
        let ghost before = texts(self.paths@);
        self.paths.push(path.to_owned());
        self.models.push(model);
        proof {
            let all = texts(self.paths@);
            assert(all =~= before.push(path@));
            assert forall|p: Seq<char>| all.contains(p) <==> before.contains(p) || p == path@ by {
                if before.contains(p) {
                    let k = before.index_of(p);
                    assert(all[k] == p);
                }
                if p == path@ {
                    assert(all[before.len() as int] == p);
                }
                if all.contains(p) {
                    let k = all.index_of(p);
                    if k < before.len() {
                        assert(before[k] == p);
                    }
                }
            }
            assert forall|p: Seq<char>| all.contains(p) implies self@[p] == old(self)@.insert(
                path@,
                model,
            )[p] by {
                let k = all.index_of(p);
                assert(all[k] == p);
                if p != path@ {
                    assert(before.contains(p));
                    let j = before.index_of(p);
                    assert(all[j] == p);
                    assert(j == k);
                } else {
                    assert(k == before.len());
                }
            }
            assert(self@ =~= old(self)@.insert(path@, model));
        }
    }
}

/// Told when a model could not be loaded.
pub open spec fn load_message(path: Seq<char>, cause: Seq<char>) -> Seq<char> {
    "Failed to load Whisper model '"@ + path + "': "@ + cause
}

/// The cache once what came of loading a model was kept: a failure leaves it as
/// it is.
pub open spec fn kept<C>(
    cache: Map<Seq<char>, C>,
    path: Seq<char>,
    loaded: Result<C, String>,
) -> Map<Seq<char>, C> {
    match loaded {
        Ok(model) => cache.insert(path, model),
        Err(_) => cache,
    }
}

impl<C> ModelCache<C> {
    /// The model for a path: the one in the cache, or else what `load` makes of
    /// the path, which is kept for the next time. A failure to load is told and
    /// leaves the cache as it is. `load` is not called for a path that is in the
    /// cache, so nothing is asked of it there.
    pub fn get_or_load<F: FnOnce(&str) -> Result<C, String>>(&mut self, path: &str, load: F) -> (r:
        Result<&C, AudioError>)
        requires
            old(self).wf(),
            !old(self)@.dom().contains(path@) ==> load.requires((path,)),
        ensures
            final(self).wf(),
            old(self)@.dom().contains(path@) ==> {
                &&& final(self)@ == old(self)@
                &&& r matches Ok(model) && *model == old(self)@[path@]
            },
            !old(self)@.dom().contains(path@) ==> exists|loaded: Result<C, String>|
                {
                    &&& #[trigger] load.ensures((path,), loaded)
                    &&& final(self)@ == after_call(old(self)@, (Call { path: path@, loaded }))
                    &&& match loaded {
                        Ok(model) => r matches Ok(m) && *m == model,
                        Err(cause) => r matches Err(e) && e.says_io_error(
                            load_message(path@, cause@),
                        ),
                    }
                    &&& r matches Ok(m) ==> answer(old(self)@, (Call { path: path@, loaded }))
                        == Some(*m)
                    &&& r is Err ==> answer(old(self)@, (Call { path: path@, loaded })) is None
                },
    {
        if self.get(path).is_none() {
            let loaded = load(path);
            match loaded {
                Ok(model) => self.insert(path, model),
                Err(cause) => return Err(load_error(path, cause.as_str())),
            }
        }
        Ok(self.get(path).unwrap())
    }
}

/// A call for a model: the path, and what loading it would give.
pub struct Call<C> {
    pub path: Seq<char>,
    pub loaded: Result<C, String>,
}

/// The cache after a call.
pub open spec fn after_call<C>(cache: Map<Seq<char>, C>, call: Call<C>) -> Map<Seq<char>, C> {
    if cache.dom().contains(call.path) {
        cache
    } else {
        kept(cache, call.path, call.loaded)
    }
}

/// The model that a call gives, if any.
pub open spec fn answer<C>(cache: Map<Seq<char>, C>, call: Call<C>) -> Option<C> {
    if cache.dom().contains(call.path) {
        Some(cache[call.path])
    } else {
        match call.loaded {
            Ok(model) => Some(model),
            Err(_) => None,
        }
    }
}

/// The cache after a run of calls.
pub open spec fn after_calls<C>(cache: Map<Seq<char>, C>, calls: Seq<Call<C>>) -> Map<Seq<char>, C>
    decreases calls.len(),
{
    if calls.len() == 0 {
        cache
    } else {
        after_call(after_calls(cache, calls.drop_last()), calls.last())
    }
}

/// Once a call has given a model for a path, every later call for that path
/// gives the same model, out of the cache and without loading it again.
pub proof fn a_loaded_model_stays<C>(
    cache: Map<Seq<char>, C>,
    calls: Seq<Call<C>>,
    i: int,
    j: int,
)
    requires
        0 <= i < j < calls.len(),
        calls[i].path == calls[j].path,
        answer(after_calls(cache, calls.take(i)), calls[i]) is Some,
    ensures
        after_calls(cache, calls.take(j)).dom().contains(calls[j].path),
        answer(after_calls(cache, calls.take(j)), calls[j]) == answer(
            after_calls(cache, calls.take(i)),
            calls[i],
        ),
{
    lemma_model_stays(cache, calls, i, j);
}

proof fn lemma_model_stays<C>(cache: Map<Seq<char>, C>, calls: Seq<Call<C>>, i: int, j: int)
    requires
        0 <= i < j <= calls.len(),
        answer(after_calls(cache, calls.take(i)), calls[i]) is Some,
    ensures
        after_calls(cache, calls.take(j)).dom().contains(calls[i].path),
        Some(after_calls(cache, calls.take(j))[calls[i].path]) == answer(
            after_calls(cache, calls.take(i)),
            calls[i],
        ),
    decreases j,
{
    assert(calls.take(j).drop_last() =~= calls.take(j - 1));
    assert(calls.take(j).last() == calls[j - 1]);
    if j - 1 > i {
        lemma_model_stays(cache, calls, i, j - 1);
    }
}

/// A call that gives no model leaves the cache as it is, so that the next call
/// tries again. No call touches what is kept for other paths.
pub proof fn a_failed_load_changes_nothing<C>(
    cache: Map<Seq<char>, C>,
    call: Call<C>,
    other: Seq<char>,
)
    requires
        other != call.path,
    ensures
        answer(cache, call) is None ==> after_call(cache, call) == cache,
        after_call(cache, call).dom().contains(other) <==> cache.dom().contains(other),
        cache.dom().contains(other) ==> after_call(cache, call)[other] == cache[other],
{
}

/// A model could not be loaded.
pub fn load_error(path: &str, cause: &str) -> (r: AudioError)
    ensures
        r.says_io_error(load_message(path@, cause@)),
{
    AudioError::IoError(concat4("Failed to load Whisper model '", path, "': ", cause))
}

/// A transcription state could not be made.
pub fn state_error(cause: &str) -> (r: AudioError)
    ensures
        r.says_io_error("Failed to create whisper state: "@ + cause@),
{
    AudioError::IoError(concat2("Failed to create whisper state: ", cause))
}

/// A transcription failed.
pub fn inference_error(cause: &str) -> (r: AudioError)
    ensures
        r.says_io_error("Whisper inference failed: "@ + cause@),
{
    AudioError::IoError(concat2("Whisper inference failed: ", cause))
}

/// How a transcription is set up.
pub struct WhisperSettings {
    /// Candidates of the greedy sampling.
    pub best_of: i32,
    pub language: String,
    pub print_special: bool,
    pub print_progress: bool,
    pub print_realtime: bool,
    pub print_timestamps: bool,
    pub single_segment: bool,
    pub no_context: bool,
    pub n_threads: i32,
}

/// Whether a transcription is set up for this language and these threads:
/// greedy sampling of a single segment, without the context of earlier ones and
/// without any printing.
pub open spec fn set_up(settings: WhisperSettings, language: Seq<char>, n_threads: i32) -> bool {
    &&& settings.best_of == 1
    &&& settings.language@ == language
    &&& !settings.print_special
    &&& !settings.print_progress
    &&& !settings.print_realtime
    &&& !settings.print_timestamps
    &&& settings.single_segment
    &&& settings.no_context
    &&& settings.n_threads == n_threads
}

/// Sets a transcription up.
pub fn whisper_settings(language: &str, n_threads: i32) -> (r: WhisperSettings)
    ensures
        set_up(r, language@, n_threads),
{
    WhisperSettings {
        best_of: 1,
        language: language.to_owned(),
        print_special: false,
        print_progress: false,
        print_realtime: false,
        print_timestamps: false,
        single_segment: true,
        no_context: true,
        n_threads,
    }
}

/// The segments one after another, each without surrounding white space. A
/// segment that could not be read adds nothing.
pub open spec fn transcript(segments: Seq<Option<String>>) -> Seq<char>
    decreases segments.len(),
{
    if segments.len() == 0 {
        Seq::empty()
    } else {
        transcript(segments.drop_last()) + (match segments.last() {
            Some(text) => trimmed(text@),
            None => Seq::empty(),
        })
    }
}

/// Puts the text of a transcription together.
pub fn join_segments(segments: &Vec<Option<String>>) -> (r: String)
    ensures
        r@ == transcript(segments@),
{
    let mut text = String::new();
    let mut i: usize = 0;
    while i < segments.len()
        invariant
            i <= segments@.len(),
            text@ == transcript(segments@.take(i as int)),
        decreases segments@.len() - i,
    {
        assert(segments@.take(i + 1).drop_last() =~= segments@.take(i as int));
        let ghost so_far = text@;
        match &segments[i] {
            Some(segment) => {
                let part = trim(segment.as_str());
                if !part.is_empty() {
                    text.append(part);
                }
                assert(text@ =~= so_far + trimmed(segment@));
            },
            None => {
                assert(text@ =~= so_far + Seq::<char>::empty());
            },
        }
        i += 1;
    }
    assert(segments@.take(i as int) =~= segments@);
    text
}

/// Transcribes audio. `decode` runs the model on the samples as it is told to
/// and gives the segments, or why it failed.
pub fn transcribe<S, F: FnOnce(&WhisperSettings, &[S]) -> Result<Vec<Option<String>>, String>>(
    samples_16k: &[S],
    language: &str,
    n_threads: i32,
    decode: F,
) -> (r: Result<String, AudioError>)
    requires
        forall|settings: &WhisperSettings|
            set_up(*settings, language@, n_threads) ==> #[trigger] decode.requires(
                (settings, samples_16k),
            ),
    ensures
        exists|settings: &WhisperSettings, decoded: Result<Vec<Option<String>>, String>|
            {
                &&& set_up(*settings, language@, n_threads)
                &&& #[trigger] decode.ensures((settings, samples_16k), decoded)
                &&& match decoded {
                    Ok(segments) => r matches Ok(text) && text@ == transcript(segments@),
                    Err(cause) => r matches Err(e) && e.says_io_error(
                        "Whisper inference failed: "@ + cause@,
                    ),
                }
            },
{
    let settings = whisper_settings(language, n_threads);
    match decode(&settings, samples_16k) {
        Ok(segments) => Ok(join_segments(&segments)),
        Err(cause) => Err(inference_error(cause.as_str())),
    }
}

/// A call gives what is kept for its path, and otherwise what loading gives,
/// which is then kept.
pub proof fn a_call_gives_what_is_kept_or_loaded<C>(cache: Map<Seq<char>, C>, call: Call<C>)
    ensures
        cache.dom().contains(call.path) ==> answer(cache, call) == Some(cache[call.path])
            && after_call(cache, call) == cache,
        !cache.dom().contains(call.path) ==> match call.loaded {
            Ok(model) => {
                &&& answer(cache, call) == Some(model)
                &&& after_call(cache, call).dom().contains(call.path)
                &&& after_call(cache, call)[call.path] == model
            },
            Err(_) => answer(cache, call) is None && after_call(cache, call) == cache,
        },
{
}

/// What is told of a failed load.
pub proof fn a_failed_load_is_told(path: Seq<char>, cause: Seq<char>)
    ensures
        load_message(path, cause) == "Failed to load Whisper model '"@ + path + "': "@ + cause,
{
}

/// How every transcription is set up.
pub proof fn a_transcription_is_greedy_and_silent(
    settings: WhisperSettings,
    language: Seq<char>,
    n_threads: i32,
)
    requires
        set_up(settings, language, n_threads),
    ensures
        settings.best_of == 1,
        settings.single_segment && settings.no_context,
        settings.language@ == language && settings.n_threads == n_threads,
        !settings.print_special && !settings.print_progress && !settings.print_realtime
            && !settings.print_timestamps,
{
}

/// The transcript of segments in a row is the transcripts of its parts in a row;
/// that of one segment is its trimmed text, and of one that could not be read,
/// nothing.
pub proof fn transcripts_add_up(a: Seq<Option<String>>, b: Seq<Option<String>>, text: String)
    ensures
        transcript(a + b) == transcript(a) + transcript(b),
        transcript(seq![Some(text)]) == trimmed(text@),
        transcript(seq![None::<String>]).len() == 0,
        transcript(Seq::<Option<String>>::empty()).len() == 0,
    decreases b.len(),
{
    let one = seq![Some(text)];
    assert(one.drop_last() =~= Seq::empty());
    assert(transcript(one.drop_last()) =~= Seq::empty());
    assert(transcript(one) =~= trimmed(text@));
    let none = seq![None::<String>];
    assert(none.drop_last() =~= Seq::empty());
    assert(transcript(none.drop_last()) =~= Seq::empty());
    if b.len() == 0 {
        assert(a + b =~= a);
        assert(transcript(a + b) =~= transcript(a) + transcript(b));
    } else {
        transcripts_add_up(a, b.drop_last(), text);
        assert((a + b).drop_last() =~= a + b.drop_last());
        assert(transcript(a + b) =~= transcript(a) + transcript(b));
    }
}

/// A transcript is empty, or begins and ends on characters that are not white
/// space.
pub proof fn transcript_has_clean_ends(segments: Seq<Option<String>>)
    ensures
        transcript(segments).len() > 0 ==> !white_space(transcript(segments)[0]) && !white_space(
            transcript(segments)[transcript(segments).len() - 1],
        ),
    decreases segments.len(),
{
    if segments.len() > 0 {
        transcript_has_clean_ends(segments.drop_last());
        match segments.last() {
            Some(text) => {
                crate::text::trimmed_has_clean_ends(text@);
            },
            None => {},
        }
    }
}

} // verus!
