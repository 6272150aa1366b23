//! The sherpa-onnx engine: finding the files of a model, setting up the
//! recognizer and reading its result.

use crate::error::AudioError;
use crate::level::Level;
use crate::text::{
    begins_with, concat3, concat6, contains, ends_with, finishes_with, holds_text, starts_with,
    texts, trim, trimmed,
};
use vstd::prelude::*;

verus! {

/// Where the model can be had.
pub const MODEL_DOWNLOAD_URL: &'static str = "https://github.com/k2-fsa/sherpa-onnx/releases/download/asr-models/sherpa-onnx-zipformer-ja-en-reazonspeech-2025-01-17.tar.bz2";

/// The names of the files of a transducer model, inside its directory.
pub struct SherpaModelFiles {
    pub encoder: String,
    pub decoder: String,
    pub joiner: String,
    pub tokens: String,
}

/// Whether a file can be the given part of a model.
pub open spec fn is_part(name: Seq<char>, part: Seq<char>) -> bool {
    begins_with(name, part) && finishes_with(name, ".onnx"@)
}

/// How good a file is: int8 before fp32 before fp16.
pub open spec fn rank(name: Seq<char>) -> int {
    if holds_text(name, "int8"@) {
        0
    } else if holds_text(name, "fp16"@) {
        2
    } else {
        1
    }
}

/// Whether `names[i]` is the file to use for `part`: the best there is, and the
/// first of those that are equally good.
pub open spec fn is_best(names: Seq<Seq<char>>, part: Seq<char>, i: int) -> bool {
    &&& 0 <= i < names.len()
    &&& is_part(names[i], part)
    &&& forall|j: int|
        0 <= j < names.len() && is_part(#[trigger] names[j], part) ==> rank(names[i]) <= rank(
            names[j],
        )
    &&& forall|j: int|
        0 <= j < i && is_part(#[trigger] names[j], part) ==> rank(names[i]) < rank(names[j])
}

/// The file to use for `part`, if there is any.
pub open spec fn best(names: Seq<Seq<char>>, part: Seq<char>) -> Option<Seq<char>> {
    if exists|i: int| is_best(names, part, i) {
        Some(names[choose|i: int| is_best(names, part, i)])
    } else {
        None
    }
}

/// Told when a directory cannot be read.
pub open spec fn unreadable_message(dir: Seq<char>, cause: Seq<char>) -> Seq<char> {
    "Cannot read sherpa_model_dir '"@ + dir + "': "@ + cause + ". Download from "@
        + MODEL_DOWNLOAD_URL@
}

/// Told when the token table is missing.
pub open spec fn no_tokens_message(dir: Seq<char>) -> Seq<char> {
    "tokens.txt not found in sherpa_model_dir '"@ + dir + "'"@
}

/// Told when a part of the model is missing.
pub open spec fn no_part_message(dir: Seq<char>, part: Seq<char>) -> Seq<char> {
    "No "@ + part + "*.onnx in sherpa_model_dir '"@ + dir + "'. Download from "@
        + MODEL_DOWNLOAD_URL@
}

/// Two files that are both the one to use are the same.
proof fn lemma_best_is_unique(names: Seq<Seq<char>>, part: Seq<char>, i: int, j: int)
    requires
        is_best(names, part, i),
        is_best(names, part, j),
    ensures
        i == j,
{
    if i < j {
        assert(is_part(names[i], part));
    } else if j < i {
        assert(is_part(names[j], part));
    }
}

/// How good a file is.
fn rank_of(name: &str) -> (r: u8)
    ensures
        r == rank(name@),
{
    if contains(name, "int8") {
        0
    } else if contains(name, "fp16") {
        2
    } else {
        1
    }
}

/// Finds the file to use for a part of the model.
pub fn pick(names: &Vec<String>, part: &str) -> (r: Option<String>)
    ensures
        match r {
            Some(name) => best(texts(names@), part@) == Some(name@),
            None => {
                &&& best(texts(names@), part@) is None
                &&& forall|i: int| 0 <= i < names@.len() ==> !is_part((#[trigger] names@[i])@, part@)
            },
        },
{
    let ghost all = texts(names@);
    let mut found: Option<usize> = None;
    let mut found_rank: u8 = 0;
    let mut i: usize = 0;
    while i < names.len()
        invariant
            all == texts(names@),
            i <= names@.len(),
            match found {
                Some(k) => {
                    &&& k < i
                    &&& is_part(all[k as int], part@)
                    &&& found_rank == rank(all[k as int])
                    &&& forall|j: int|
                        0 <= j < i && is_part(#[trigger] all[j], part@) ==> found_rank <= rank(
                            all[j],
                        )
                    &&& forall|j: int|
                        0 <= j < k && is_part(#[trigger] all[j], part@) ==> found_rank < rank(
                            all[j],
                        )
                },
                None => forall|j: int| 0 <= j < i ==> !is_part(#[trigger] all[j], part@),
            },
        decreases names@.len() - i,
    {
        let name = names[i].as_str();
        assert(all[i as int] == name@);
        if starts_with(name, part) && ends_with(name, ".onnx") {
            let r: u8 = rank_of(name);
            let better = match found {
                Some(_) => r < found_rank,
                None => true,
            };
            if better {
                found = Some(i);
                found_rank = r;
            }
        }
        i += 1;
    }
    match found {
        Some(k) => {
            proof {
                assert(is_best(all, part@, k as int));
                lemma_best_is_unique(
                    all,
                    part@,
                    k as int,
                    choose|j: int| is_best(all, part@, j),
                );
            }
            Some(names[k].clone())
        },
        None => {
            proof {
                assert forall|j: int| 0 <= j < names@.len() implies !is_part(
                    (#[trigger] names@[j])@,
                    part@,
                ) by {
                    assert(all[j] == names@[j]@);
                }
            }
            None
        },
    }
}

/// Finds a part of the model or says that it is missing.
fn require_part(dir: &str, names: &Vec<String>, part: &str) -> (r: Result<String, AudioError>)
    ensures
        match r {
            Ok(name) => best(texts(names@), part@) == Some(name@),
            Err(e) => {
                &&& best(texts(names@), part@) is None
                &&& e.says_invalid_config(no_part_message(dir@, part@))
            },
        },
{
    match pick(names, part) {
        Some(name) => Ok(name),
        None => Err(
            AudioError::InvalidConfig(
                concat6(
                    "No ",
                    part,
                    "*.onnx in sherpa_model_dir '",
                    dir,
                    "'. Download from ",
                    MODEL_DOWNLOAD_URL,
                ),
            ),
        ),
    }
}

impl SherpaModelFiles {
    /// Finds the files of a model among the `listing` of its directory: for
    /// encoder, decoder and joiner int8 before fp32 before fp16, and
    /// `tokens.txt`, which has to be a file.
    pub fn locate(dir: &str, listing: Result<Vec<String>, String>, has_tokens: bool) -> (r: Result<
        SherpaModelFiles,
        AudioError,
    >)
        ensures
            match listing {
                Err(cause) => {
                    r matches Err(e) && e.says_invalid_config(unreadable_message(dir@, cause@))
                },
                Ok(names) => {
                    let encoder = best(texts(names@), "encoder"@);
                    let decoder = best(texts(names@), "decoder"@);
                    let joiner = best(texts(names@), "joiner"@);
                    match r {
                        Ok(files) => {
                            &&& has_tokens
                            &&& encoder == Some(files.encoder@)
                            &&& decoder == Some(files.decoder@)
                            &&& joiner == Some(files.joiner@)
                            &&& files.tokens@ == "tokens.txt"@
                        },
                        Err(e) => if !has_tokens {
                            e.says_invalid_config(no_tokens_message(dir@))
                        } else if encoder is None {
                            e.says_invalid_config(no_part_message(dir@, "encoder"@))
                        } else if decoder is None {
                            e.says_invalid_config(no_part_message(dir@, "decoder"@))
                        } else {
                            joiner is None && e.says_invalid_config(
                                no_part_message(dir@, "joiner"@),
                            )
                        },
                    }
                },
            },
    {
        let names = match listing {
            Ok(names) => names,
            Err(cause) => {
                return Err(
                    AudioError::InvalidConfig(
                        concat6(
                            "Cannot read sherpa_model_dir '",
                            dir,
                            "': ",
                            cause.as_str(),
                            ". Download from ",
                            MODEL_DOWNLOAD_URL,
                        ),
                    ),
                );
            },
        };
        if !has_tokens {
            return Err(
                AudioError::InvalidConfig(
                    concat3("tokens.txt not found in sherpa_model_dir '", dir, "'"),
                ),
            );
        }
        let encoder = match require_part(dir, &names, "encoder") {
            Ok(name) => name,
            Err(e) => return Err(e),
        };
        let decoder = match require_part(dir, &names, "decoder") {
            Ok(name) => name,
            Err(e) => return Err(e),
        };
        let joiner = match require_part(dir, &names, "joiner") {
            Ok(name) => name,
            Err(e) => return Err(e),
        };
        Ok(SherpaModelFiles { encoder, decoder, joiner, tokens: "tokens.txt".to_owned() })
    }
}

/// Where a part of the model is found at all, one is picked, and an int8 file
/// is picked over any other.
pub proof fn int8_is_preferred(names: Seq<Seq<char>>, part: Seq<char>, k: int)
    requires
        0 <= k < names.len(),
        is_part(names[k], part),
    ensures
        best(names, part) is Some,
        is_part(best(names, part)->0, part),
        rank(best(names, part)->0) <= rank(names[k]),
        holds_text(names[k], "int8"@) ==> holds_text(best(names, part)->0, "int8"@),
{
    lemma_best_exists(names, part, k);
}

proof fn lemma_best_exists(names: Seq<Seq<char>>, part: Seq<char>, k: int)
    requires
        0 <= k < names.len(),
        is_part(names[k], part),
    ensures
        exists|i: int| is_best(names, part, i),
    decreases names.len(),
{
    let earlier = names.drop_last();
    let last = names.len() - 1;
    if exists|j: int| 0 <= j < last && is_part(#[trigger] names[j], part) {
        let j = choose|j: int| 0 <= j < last && is_part(#[trigger] names[j], part);
        assert(earlier[j] == names[j]);
        lemma_best_exists(earlier, part, j);
        let i = choose|i: int| is_best(earlier, part, i);
        assert(earlier[i] == names[i]);
        assert forall|m: int| 0 <= m < last && is_part(#[trigger] names[m], part) implies rank(
            names[i],
        ) <= rank(names[m]) by {
            assert(earlier[m] == names[m]);
        }
        assert forall|m: int| 0 <= m < i && is_part(#[trigger] names[m], part) implies rank(
            names[i],
        ) < rank(names[m]) by {
            assert(earlier[m] == names[m]);
        }
        if is_part(names[last], part) && rank(names[last]) < rank(names[i]) {
            assert(is_best(names, part, last));
        } else {
            assert(is_best(names, part, i));
        }
    } else {
        assert(k == last);
        assert(is_best(names, part, last));
    }
}

/// The file that is picked for a part of a model is one of those that begin with
/// the name of the part and end with `.onnx`. None of these holds `int8` unless
/// the picked one does, and none is free of `fp16` unless the picked one holds
/// `int8` or is free of it too. Of equals it is the first. None is picked only
/// where there is none.
pub proof fn the_best_file_is_picked(names: Seq<Seq<char>>, part: Seq<char>, j: int) -> (i: int)
    requires
        0 <= j < names.len(),
        begins_with(names[j], part),
        finishes_with(names[j], ".onnx"@),
    ensures
        0 <= i < names.len(),
        best(names, part) == Some(names[i]),
        begins_with(names[i], part),
        finishes_with(names[i], ".onnx"@),
        ({
            let int8 = holds_text(names[i], "int8"@);
            let fp16 = holds_text(names[i], "fp16"@);
            let other_int8 = holds_text(names[j], "int8"@);
            let other_fp16 = holds_text(names[j], "fp16"@);
            &&& other_int8 ==> int8
            &&& !other_fp16 ==> int8 || !fp16
            &&& j < i && int8 ==> !other_int8
            &&& j < i && !int8 && !fp16 ==> !other_int8 && other_fp16
            &&& !int8 && fp16 ==> i <= j
        }),
{
    assert(is_part(names[j], part));
    lemma_best_exists(names, part, j);
    let i = choose|i: int| is_best(names, part, i);
    assert(is_best(names, part, i));
    i
}

/// Where no file begins with the name of the part and ends with `.onnx`, none is
/// picked.
pub proof fn nothing_else_is_picked(names: Seq<Seq<char>>, part: Seq<char>)
    ensures
        best(names, part) matches Some(name) ==> exists|i: int|
            0 <= i < names.len() && #[trigger] names[i] == name && begins_with(name, part)
                && finishes_with(name, ".onnx"@),
{
    if best(names, part) is Some {
        let i = choose|i: int| is_best(names, part, i);
        assert(is_best(names, part, i));
    }
}

/// What is told when a model is not complete.
pub proof fn what_is_missing_is_told(dir: Seq<char>, cause: Seq<char>, part: Seq<char>)
    ensures
        unreadable_message(dir, cause) == "Cannot read sherpa_model_dir '"@ + dir + "': "@ + cause
            + ". Download from "@
            + "https://github.com/k2-fsa/sherpa-onnx/releases/download/asr-models/sherpa-onnx-zipformer-ja-en-reazonspeech-2025-01-17.tar.bz2"@,
        no_tokens_message(dir) == "tokens.txt not found in sherpa_model_dir '"@ + dir + "'"@,
        no_part_message(dir, part) == "No "@ + part + "*.onnx in sherpa_model_dir '"@ + dir
            + "'. Download from "@
            + "https://github.com/k2-fsa/sherpa-onnx/releases/download/asr-models/sherpa-onnx-zipformer-ja-en-reazonspeech-2025-01-17.tar.bz2"@,
{
}

/// The files of a model, by their paths.
pub struct ModelPaths {
    pub encoder: String,
    pub decoder: String,
    pub joiner: String,
    pub tokens: String,
}

/// How the recognizer is set up.
pub struct RecognizerSettings {
    pub paths: ModelPaths,
    pub num_threads: i32,
    pub provider: &'static str,
    pub model_type: &'static str,
    pub decoding_method: &'static str,
}

/// A transducer, decoded greedily on the CPU.
pub fn recognizer_settings(paths: ModelPaths, n_threads: i32) -> (r: RecognizerSettings)
    ensures
        r.paths == paths,
        r.num_threads == n_threads,
        r.provider@ == "cpu"@,
        r.model_type@ == "transducer"@,
        r.decoding_method@ == "greedy_search"@,
{
    RecognizerSettings {
        paths,
        num_threads: n_threads,
        provider: "cpu",
        model_type: "transducer",
        decoding_method: "greedy_search",
    }
}

/// The recognizer could not be made.
pub fn recognizer_error(encoder: &str) -> (r: AudioError)
    ensures
        r.says_io_error("Failed to create sherpa-onnx recognizer from '"@ + encoder@ + "'"@),
{
    AudioError::IoError(concat3("Failed to create sherpa-onnx recognizer from '", encoder, "'"))
}

/// The text of a result, without surrounding white space. No result is no
/// text.
pub fn recognized_text(result: Option<&str>) -> (r: String)
    ensures
        match result {
            Some(text) => r@ == trimmed(text@),
            None => r@.len() == 0,
        },
{
    match result {
        Some(text) => trim(text).to_owned(),
        None => String::new(),
    }
}

/// The sample rate of what the recognizer is given.
pub const RECOGNIZER_RATE: i32 = 16_000;

/// Whether `r` is what transcribing `samples_16k` gives: the trimmed text of
/// what the recognizer says of these samples at 16 kHz, whatever the language.
pub open spec fn is_transcription<S, F: FnOnce(i32, &[S]) -> Option<String>>(
    recognize: F,
    samples_16k: &[S],
    language: &str,
    r: Result<String, AudioError>,
) -> bool {
    exists|said: Option<String>|
        {
            &&& #[trigger] recognize.ensures((RECOGNIZER_RATE, samples_16k), said)
            &&& r matches Ok(text) && text@ == (match said {
                Some(raw) => trimmed(raw@),
                None => Seq::empty(),
            })
        }
}

/// Transcribes audio; the model itself decides on the language. `recognize`
/// gives samples of the told rate to a fresh stream of the recognizer and brings
/// back the text of the result, if there is one.
pub fn transcribe<S, F: FnOnce(i32, &[S]) -> Option<String>>(
    samples_16k: &[S],
    language: &str,
    recognize: F,
) -> (r: Result<String, AudioError>)
    requires
        recognize.requires((RECOGNIZER_RATE, samples_16k)),
    ensures
        is_transcription(recognize, samples_16k, language, r),
{
    let said = recognize(RECOGNIZER_RATE, samples_16k);
    let ghost raw = said;
    let text = match &said {
        Some(text) => recognized_text(Some(text.as_str())),
        None => recognized_text(None),
    };
    assert(text@ =~= (match raw {
        Some(raw) => trimmed(raw@),
        None => Seq::empty(),
    }));
    Ok(text)
}

/// A transcription is the trimmed text of what the recognizer says of exactly the
/// given samples, at 16 kHz; where it says nothing, it is empty.
pub proof fn a_transcription_is_what_the_recognizer_says<
    S,
    F: FnOnce(i32, &[S]) -> Option<String>,
>(recognize: F, samples_16k: &[S], language: &str, r: Result<String, AudioError>)
    requires
        is_transcription(recognize, samples_16k, language, r),
    ensures
        r is Ok,
        exists|said: Option<String>|
            {
                &&& #[trigger] recognize.ensures((16_000i32, samples_16k), said)
                &&& said matches Some(raw) ==> r->Ok_0@ == trimmed(raw@)
                &&& said is None ==> r->Ok_0@.len() == 0
            },
{
}

/// The language is ignored: whatever it is, the recognizer is handed the same
/// and what is made of its answer is the same. A transcription never fails.
pub proof fn language_is_ignored<S, F: FnOnce(i32, &[S]) -> Option<String>>(
    recognize: F,
    samples_16k: &[S],
    one: &str,
    other: &str,
    r: Result<String, AudioError>,
)
    ensures
        is_transcription(recognize, samples_16k, one, r) <==> is_transcription(
            recognize,
            samples_16k,
            other,
            r,
        ),
        is_transcription(recognize, samples_16k, one, r) ==> r is Ok,
{
}

/// How the Silero detector is set up.
pub struct SileroSettings {
    pub model: String,
    /// Speech probability from which a window is speech.
    pub threshold: Level,
    /// 0.35 s.
    pub min_silence_duration: Level,
    /// 0.25 s.
    pub min_speech_duration: Level,
    pub window_size: i32,
    pub max_speech_secs: u32,
    pub sample_rate: i32,
    pub num_threads: i32,
    pub provider: &'static str,
    /// 30 s: the detector's own buffer.
    pub buffer_secs: Level,
}

/// The bit pattern of 0.35.
pub const MIN_SILENCE_SECS: u32 = 0x3eb3_3333;

/// The bit pattern of 0.25.
pub const MIN_SPEECH_SECS: u32 = 0x3e80_0000;

/// The bit pattern of 30.
pub const BUFFER_SECS: u32 = 0x41f0_0000;

/// Windows of 512 samples at 16 kHz, on one thread of the CPU; 0.35 s of
/// silence ends a segment, and less than 0.25 s of speech is none.
pub fn silero_settings(model_path: &str, threshold: Level, max_speech_secs: u32) -> (r:
    SileroSettings)
    ensures
        r.model@ == model_path@,
        r.threshold == threshold,
        r.min_silence_duration.bits == 0x3eb3_3333,
        r.min_speech_duration.bits == 0x3e80_0000,
        r.window_size == 512,
        r.max_speech_secs == max_speech_secs,
        r.sample_rate == 16_000,
        r.num_threads == 1,
        r.provider@ == "cpu"@,
        r.buffer_secs.bits == 0x41f0_0000,
{
    SileroSettings {
        model: model_path.to_owned(),
        threshold,
        min_silence_duration: Level { bits: MIN_SILENCE_SECS },
        min_speech_duration: Level { bits: MIN_SPEECH_SECS },
        window_size: 512,
        max_speech_secs,
        sample_rate: 16_000,
        num_threads: 1,
        provider: "cpu",
        buffer_secs: Level { bits: BUFFER_SECS },
    }
}

/// The Silero detector could not be made.
pub fn silero_error(model_path: &str) -> (r: AudioError)
    ensures
        r.says_io_error("Failed to create Silero VAD from '"@ + model_path@ + "'"@),
{
    AudioError::IoError(concat3("Failed to create Silero VAD from '", model_path, "'"))
}

} // verus!
