//! Playback: reading audio out of data URIs, and what the player is told.

use base64::Engine;

use crate::error::AudioError;
use crate::level::Level;
use crate::text::{begins_with, characters, concat2, find, holds_text, stands_at, starts_with};
use vstd::prelude::*;
use vstd::string::*;

verus! {

/// The symbol for six bits in the standard base64 alphabet.
pub open spec fn symbol(n: int) -> char {
    if n < 26 {
        (65 + n) as char
    } else if n < 52 {
        (97 + n - 26) as char
    } else if n < 62 {
        (48 + n - 52) as char
    } else if n == 62 {
        '+'
    } else {
        '/'
    }
}

/// Bytes in standard base64: four symbols for three bytes, and padding at the
/// end.
pub open spec fn base64_text(bytes: Seq<u8>) -> Seq<char>
    decreases bytes.len(),
{
    if bytes.len() == 0 {
        Seq::empty()
    } else {
        let a = bytes[0] as int;
        let b = if bytes.len() > 1 {
            bytes[1] as int
        } else {
            0
        };
        let c = if bytes.len() > 2 {
            bytes[2] as int
        } else {
            0
        };
        let group = seq![
            symbol(a / 4),
            symbol(a % 4 * 16 + b / 16),
            if bytes.len() > 1 {
                symbol(b % 16 * 4 + c / 64)
            } else {
                '='
            },
            if bytes.len() > 2 {
                symbol(c % 64)
            } else {
                '='
            },
        ];
        if bytes.len() <= 3 {
            group
        } else {
            group + base64_text(bytes.subrange(3, bytes.len() as int))
        }
    }
}

/// What the standard base64 engine makes of a text: the bytes, or the message
/// of its error.
pub uninterp spec fn base64_decoded(text: Seq<char>) -> Result<Seq<u8>, Seq<char>>;

/// `base64::engine::general_purpose::STANDARD.decode`, with an error turned
/// into its message. The engine takes exactly the texts that are the padded
/// standard encoding of some bytes, and gives those bytes. Which message a
/// text that it refuses gets is left open; it depends on the text alone.
#[verifier::external_body]
fn decode_base64(text: &str) -> (r: Result<Vec<u8>, String>)
    ensures
        match r {
            Ok(bytes) => {
                &&& base64_decoded(text@) == Ok::<Seq<u8>, Seq<char>>(bytes@)
                &&& text@ == base64_text(bytes@)
            },
            Err(message) => {
                &&& base64_decoded(text@) == Err::<Seq<u8>, Seq<char>>(message@)
                &&& forall|bytes: Seq<u8>| text@ != #[trigger] base64_text(bytes)
            },
        },
{
    base64::engine::general_purpose::STANDARD.decode(text).map_err(|e| e.to_string())
}

/// Whether `pattern` stands in `s` at `at` and nowhere before.
pub open spec fn first_stands_at(s: Seq<char>, pattern: Seq<char>, at: int) -> bool {
    &&& stands_at(s, pattern, at)
    &&& forall|k: int| 0 <= k < at ==> !stands_at(s, pattern, k)
}

/// Whether `uri` is `data:` followed by a media type, `;base64,` and `data`. The
/// media type ends with the first `;base64,`.
pub open spec fn carries(uri: Seq<char>, data: Seq<char>) -> bool {
    exists|at: int| carries_at(uri, data, at)
}

/// The same, with a media type of `at` characters.
pub open spec fn carries_at(uri: Seq<char>, data: Seq<char>, at: int) -> bool {
    &&& begins_with(uri, "data:"@)
    &&& first_stands_at(uri.subrange(5, uri.len() as int), ";base64,"@, at)
    &&& data == uri.subrange(5 + at + 8, uri.len() as int)
}

/// Whether `r` is what comes of decoding the data URI `uri`.
pub open spec fn decodes_to(uri: Seq<char>, r: Result<Vec<u8>, AudioError>) -> bool {
    match r {
        Ok(bytes) => carries(uri, base64_text(bytes@)),
        Err(e) => {
            ||| {
                &&& forall|data: Seq<char>| !carries(uri, data)
                &&& e.says_invalid_value(
                    "Expected data URI format: data:<mime>;base64,<data>"@,
                )
            }
            ||| exists|data: Seq<char>|
                {
                    &&& #[trigger] carries(uri, data)
                    &&& forall|bytes: Seq<u8>| data != #[trigger] base64_text(bytes)
                    &&& base64_decoded(data) is Err
                    &&& e.says_invalid_value(
                        "Failed to decode base64 audio data: "@ + base64_decoded(data)->Err_0,
                    )
                }
        },
    }
}

/// A data URI carries one thing only.
pub proof fn data_uri_carries_one_thing(uri: Seq<char>, a: Seq<char>, b: Seq<char>)
    requires
        carries(uri, a),
        carries(uri, b),
    ensures
        a == b,
{
    let i = choose|at: int| carries_at(uri, a, at);
    let j = choose|at: int| carries_at(uri, b, at);
    let rest = uri.subrange(5, uri.len() as int);
    if i < j {
        assert(!stands_at(rest, ";base64,"@, i));
    } else if j < i {
        assert(!stands_at(rest, ";base64,"@, j));
    }
}

/// The part of a data URI that holds the data.
pub fn data_uri_payload(data_uri: &str) -> (r: Option<&str>)
    ensures
        match r {
            Some(data) => carries(data_uri@, data@),
            None => forall|data: Seq<char>| !carries(data_uri@, data),
        },
{
    proof {
        reveal_strlit("data:");
        reveal_strlit(";base64,");
    }
    if !starts_with(data_uri, "data:") {
        return None;
    }
    let len: usize = data_uri.unicode_len();
    let rest = data_uri.substring_char(5, len);
    match find(&characters(rest), &characters(";base64,")) {
        None => {
            proof {
                assert forall|data: Seq<char>| !carries(data_uri@, data) by {
                    if carries(data_uri@, data) {
                        let at = choose|at: int| carries_at(data_uri@, data, at);
                        assert(stands_at(rest@, ";base64,"@, at));
                    }
                }
            }
            None
        },
        Some(at) => {
            let data = data_uri.substring_char(5 + at + 8, len);
            assert(carries_at(data_uri@, data@, at as int));
            Some(data)
        },
    }
}

/// Audio as it came out of the decoder.
pub fn decoded_audio(decoded: Result<Vec<u8>, String>) -> (r: Result<Vec<u8>, AudioError>)
    ensures
        match decoded {
            Ok(bytes) => r == Ok::<Vec<u8>, AudioError>(bytes),
            Err(message) => {
                r matches Err(e) && e.says_invalid_value(
                    "Failed to decode base64 audio data: "@ + message@,
                )
            },
        },
{
    match decoded {
        Ok(bytes) => Ok(bytes),
        Err(message) => Err(
            AudioError::InvalidValue(
                concat2("Failed to decode base64 audio data: ", message.as_str()),
            ),
        ),
    }
}

/// Reads the bytes out of a data URI: `data:<mime>;base64,<data>`.
pub fn decode_data_uri(data_uri: &str) -> (r: Result<Vec<u8>, AudioError>)
    ensures
        decodes_to(data_uri@, r),
{
    match data_uri_payload(data_uri) {
        None => Err(
            AudioError::InvalidValue(
                "Expected data URI format: data:<mime>;base64,<data>".to_owned(),
            ),
        ),
        Some(data) => decoded_audio(decode_base64(data)),
    }
}

/// Reads the audio out of an input value, which has to be a text that holds a
/// data URI.
pub fn audio_input(value: Option<&str>) -> (r: Result<Vec<u8>, AudioError>)
    ensures
        match value {
            None => {
                r matches Err(e) && e.says_invalid_value(
                    "Input must be a string containing a data URI"@,
                )
            },
            Some(data_uri) => if data_uri@.len() == 0 {
                r matches Err(e) && e.says_invalid_value("Input data URI is empty"@)
            } else {
                decodes_to(data_uri@, r)
            },
        },
{
    match value {
        None => Err(
            AudioError::InvalidValue("Input must be a string containing a data URI".to_owned()),
        ),
        Some(data_uri) => if data_uri.is_empty() {
            Err(AudioError::InvalidValue("Input data URI is empty".to_owned()))
        } else {
            decode_data_uri(data_uri)
        },
    }
}

/// Whether `mime` can stand before the data: it must not hold the mark that
/// ends it.
pub open spec fn is_media_type(mime: Seq<char>) -> bool {
    !holds_text(mime, ";base64,"@)
}

/// A data URI around some bytes.
pub open spec fn data_uri_of(mime: Seq<char>, bytes: Seq<u8>) -> Seq<char> {
    "data:"@ + mime + ";base64,"@ + base64_text(bytes)
}

/// What was put into a data URI is what it carries.
pub proof fn data_uri_carries_what_was_put_in(mime: Seq<char>, bytes: Seq<u8>)
    requires
        is_media_type(mime),
    ensures
        carries(data_uri_of(mime, bytes), base64_text(bytes)),
{
    lemma_carries(mime, base64_text(bytes));
}

proof fn lemma_carries(mime: Seq<char>, data: Seq<char>)
    requires
        !holds_text(mime, ";base64,"@),
    ensures
        carries("data:"@ + mime + ";base64,"@ + data, data),
{
    reveal_strlit("data:");
    reveal_strlit(";base64,");
    let mark = ";base64,"@;
    let uri = "data:"@ + mime + mark + data;
    let rest = uri.subrange(5, uri.len() as int);
    let m = mime.len() as int;
    assert(uri.subrange(0, 5) =~= "data:"@);
    assert(rest =~= mime + mark + data);
    assert(rest.subrange(m, m + 8) =~= mark);
    assert forall|k: int| 0 <= k < m implies !stands_at(rest, mark, k) by {
        if stands_at(rest, mark, k) {
            assert forall|i: int| 0 <= i < 8 implies rest[k + i] == #[trigger] mark[i] by {
                assert(rest.subrange(k, k + 8)[i] == mark[i]);
            }
            if k + 8 <= m {
                assert(mime.subrange(k, k + 8) =~= rest.subrange(k, k + 8));
                assert(stands_at(mime, mark, k));
            } else {
                assert(rest[m] == mark[0]);
                assert(rest[k + (m - k)] == mark[m - k]);
            }
        }
    }
    assert(uri.subrange(5 + m + 8, uri.len() as int) =~= data);
    assert(carries_at(uri, data, m));
}

proof fn lemma_symbol(a: int, b: int)
    requires
        0 <= a < 64,
        0 <= b < 64,
    ensures
        symbol(a) == symbol(b) <==> a == b,
        symbol(a) != '=',
{
}

/// Different bytes have different base64 texts.
pub proof fn base64_is_injective(x: Seq<u8>, y: Seq<u8>)
    requires
        base64_text(x) == base64_text(y),
    ensures
        x == y,
    decreases x.len(),
{
    let s = base64_text(x);
    let t = base64_text(y);
    lemma_base64_starts(x);
    lemma_base64_starts(y);
    if x.len() == 0 || y.len() == 0 {
        assert(x =~= y);
    } else {
        let a = x[0] as int;
        let b = if x.len() > 1 { x[1] as int } else { 0 };
        let c = if x.len() > 2 { x[2] as int } else { 0 };
        let d = y[0] as int;
        let e = if y.len() > 1 { y[1] as int } else { 0 };
        let f = if y.len() > 2 { y[2] as int } else { 0 };
        lemma_symbol(a / 4, d / 4);
        lemma_symbol(a % 4 * 16 + b / 16, d % 4 * 16 + e / 16);
        lemma_symbol(b % 16 * 4 + c / 64, e % 16 * 4 + f / 64);
        lemma_symbol(c % 64, f % 64);
        assert(s[0] == t[0] && s[1] == t[1] && s[2] == t[2] && s[3] == t[3]);
        assert(a == d);
        if x.len() <= 3 || y.len() <= 3 {
            if x.len() > 3 {
                lemma_base64_starts(x.subrange(3, x.len() as int));
            }
            if y.len() > 3 {
                lemma_base64_starts(y.subrange(3, y.len() as int));
            }
            assert(x.len() == y.len());
            assert(x =~= y);
        } else {
            let p = x.subrange(3, x.len() as int);
            let q = y.subrange(3, y.len() as int);
            assert(s.subrange(4, s.len() as int) =~= base64_text(p));
            assert(t.subrange(4, t.len() as int) =~= base64_text(q));
            base64_is_injective(p, q);
            assert forall|i: int| 0 <= i < x.len() implies x[i] == y[i] by {
                if i >= 3 {
                    assert(p[i - 3] == x[i]);
                    assert(q[i - 3] == y[i]);
                }
            }
            assert(x.len() == p.len() + 3 && y.len() == q.len() + 3);
            assert(x =~= y);
        }
    }
}

/// How a base64 text begins, and how long it is at least.
proof fn lemma_base64_starts(x: Seq<u8>)
    ensures
        x.len() == 0 ==> base64_text(x).len() == 0,
        x.len() > 0 ==> base64_text(x).len() >= 4,
        0 < x.len() <= 3 ==> base64_text(x).len() == 4,
        x.len() > 3 ==> base64_text(x).len() >= 8,
        x.len() > 0 ==> {
            let a = x[0] as int;
            let b = if x.len() > 1 { x[1] as int } else { 0 };
            let c = if x.len() > 2 { x[2] as int } else { 0 };
            &&& base64_text(x)[0] == symbol(a / 4)
            &&& base64_text(x)[1] == symbol(a % 4 * 16 + b / 16)
            &&& base64_text(x)[2] == (if x.len() > 1 { symbol(b % 16 * 4 + c / 64) } else { '=' })
            &&& base64_text(x)[3] == (if x.len() > 2 { symbol(c % 64) } else { '=' })
        },
    decreases x.len(),
{
    if x.len() > 3 {
        lemma_base64_starts(x.subrange(3, x.len() as int));
    }
}

/// Audio that was put into a data URI comes out of it unchanged.
pub proof fn data_uri_gives_back_its_audio(
    mime: Seq<char>,
    bytes: Seq<u8>,
    r: Result<Vec<u8>, AudioError>,
)
    requires
        is_media_type(mime),
        decodes_to(data_uri_of(mime, bytes), r),
    ensures
        r matches Ok(audio) && audio@ == bytes,
{
    let uri = data_uri_of(mime, bytes);
    data_uri_carries_what_was_put_in(mime, bytes);
    match r {
        Ok(audio) => {
            data_uri_carries_one_thing(uri, base64_text(bytes), base64_text(audio@));
            base64_is_injective(audio@, bytes);
        },
        Err(_) => {
            let data = choose|data: Seq<char>|
                {
                    &&& #[trigger] carries(uri, data)
                    &&& forall|b: Seq<u8>| data != #[trigger] base64_text(b)
                };
            data_uri_carries_one_thing(uri, base64_text(bytes), data);
            assert(data != base64_text(bytes));
        },
    }
}

/// Only what was put into a data URI comes out of it: audio that is decoded is
/// the whole of what stands in base64 behind `data:`, a media type and the first
/// `;base64,`.
pub proof fn decoded_audio_was_put_in(uri: Seq<char>, r: Result<Vec<u8>, AudioError>)
    requires
        decodes_to(uri, r),
        r is Ok,
    ensures
        exists|mime: Seq<char>|
            uri == "data:"@ + mime + ";base64,"@ + base64_text(r->Ok_0@) && !holds_text(
                #[trigger] (mime + ";base64"@),
                ";base64,"@,
            ),
{
    reveal_strlit("data:");
    reveal_strlit(";base64,");
    reveal_strlit(";base64");
    let data = base64_text(r->Ok_0@);
    assert(carries(uri, data));
    let at = choose|at: int| carries_at(uri, data, at);
    let rest = uri.subrange(5, uri.len() as int);
    let mime = rest.subrange(0, at);
    let mark = ";base64,"@;
    assert(rest.subrange(at, at + 8) == mark);
    assert(uri.subrange(0, 5) == "data:"@);
    let whole = "data:"@ + mime + mark + data;
    assert(whole.len() == uri.len());
    assert forall|k: int| 0 <= k < uri.len() implies uri[k] == whole[k] by {
        if k < 5 {
            assert(uri.subrange(0, 5)[k] == uri[k]);
        } else if k < 5 + at {
            assert(rest[k - 5] == uri[k]);
        } else if k < 5 + at + 8 {
            assert(rest.subrange(at, at + 8)[k - 5 - at] == uri[k]);
        } else {
            assert(data[k - 13 - at] == uri[k]);
        }
    }
    assert(uri =~= whole);
    let before = mime + ";base64"@;
    if holds_text(before, mark) {
        let k = choose|k: int| stands_at(before, mark, k);
        assert(0 <= k < at);
        assert(before =~= rest.subrange(0, at + 7)) by {
            assert forall|m: int| 0 <= m < at + 7 implies before[m] == rest[m] by {
                if m >= at {
                    assert(rest.subrange(at, at + 8)[m - at] == rest[m]);
                }
            }
        }
        assert(rest.subrange(k, k + 8) =~= before.subrange(k, k + 8));
        assert(stands_at(rest, mark, k));
    }
}

/// A text that is no data URI is refused as such; one whose data is not base64 is
/// refused with what the decoder says of the data.
pub proof fn what_cannot_be_decoded_is_refused(
    uri: Seq<char>,
    mime: Seq<char>,
    data: Seq<char>,
    r: Result<Vec<u8>, AudioError>,
)
    requires
        decodes_to(uri, r),
    ensures
        !begins_with(uri, "data:"@) ==> (r matches Err(e) && e.says_invalid_value(
            "Expected data URI format: data:<mime>;base64,<data>"@,
        )),
        !holds_text(uri, ";base64,"@) ==> (r matches Err(e) && e.says_invalid_value(
            "Expected data URI format: data:<mime>;base64,<data>"@,
        )),
        uri == "data:"@ + mime + ";base64,"@ + data && !holds_text(mime, ";base64,"@) && (forall|
            bytes: Seq<u8>,
        | data != #[trigger] base64_text(bytes)) ==> (r matches Err(e) && base64_decoded(
            data,
        ) is Err && e.says_invalid_value(
            "Failed to decode base64 audio data: "@ + base64_decoded(data)->Err_0,
        )),
{
    reveal_strlit("data:");
    reveal_strlit(";base64,");
    let mark = ";base64,"@;
    assert forall|d: Seq<char>| carries(uri, d) implies begins_with(uri, "data:"@) && holds_text(
        uri,
        mark,
    ) by {
        let at = choose|at: int| carries_at(uri, d, at);
        let rest = uri.subrange(5, uri.len() as int);
        assert(uri.subrange(5 + at, 5 + at + 8) =~= rest.subrange(at, at + 8));
        assert(stands_at(uri, mark, 5 + at));
    }
    if r is Ok {
        assert(carries(uri, base64_text(r->Ok_0@)));
    }
    if uri == "data:"@ + mime + mark + data && !holds_text(mime, mark) {
        lemma_carries(mime, data);
        assert(carries(uri, data));
        if r is Ok {
            data_uri_carries_one_thing(uri, data, base64_text(r->Ok_0@));
        } else {
            let other = choose|d: Seq<char>|
                {
                    &&& #[trigger] carries(uri, d)
                    &&& forall|bytes: Seq<u8>| d != #[trigger] base64_text(bytes)
                    &&& base64_decoded(d) is Err
                    &&& r->Err_0.says_invalid_value(
                        "Failed to decode base64 audio data: "@ + base64_decoded(d)->Err_0,
                    )
                };
            data_uri_carries_one_thing(uri, data, other);
        }
    }
}

/// What the player is told.
pub enum AudioCommand {
    /// Play this clip after those that are queued.
    Play(Vec<u8>),
    SetVolume(Level),
    /// Drop the clips that are queued.
    Clear,
    Shutdown,
}

/// The commands that play a clip, after those that are queued or in place of
/// them.
pub fn playback_commands(audio: Vec<u8>, interrupt: bool) -> (r: Vec<AudioCommand>)
    ensures
        interrupt ==> r@ == seq![AudioCommand::Clear, AudioCommand::Play(audio)],
        !interrupt ==> r@ == seq![AudioCommand::Play(audio)],
{
    let mut commands: Vec<AudioCommand> = Vec::new();
    if interrupt {
        commands.push(AudioCommand::Clear);
    }
    commands.push(AudioCommand::Play(audio));
    commands
}

/// The clips that wait to be played once a command was carried out.
pub open spec fn queue_after(queue: Seq<Seq<u8>>, command: AudioCommand) -> Seq<Seq<u8>> {
    match command {
        AudioCommand::Play(clip) => queue.push(clip@),
        AudioCommand::Clear => Seq::empty(),
        _ => queue,
    }
}

/// The clips that wait to be played once some commands were carried out.
pub open spec fn queue_after_all(
    queue: Seq<Seq<u8>>,
    commands: Seq<AudioCommand>,
) -> Seq<Seq<u8>>
    decreases commands.len(),
{
    if commands.len() == 0 {
        queue
    } else {
        queue_after(queue_after_all(queue, commands.drop_last()), commands.last())
    }
}

/// A clip waits behind those before it; one that interrupts is the only one.
pub proof fn clips_queue_unless_they_interrupt(
    queue: Seq<Seq<u8>>,
    audio: Vec<u8>,
    interrupt: bool,
    commands: Seq<AudioCommand>,
)
    requires
        commands == (if interrupt {
            seq![AudioCommand::Clear, AudioCommand::Play(audio)]
        } else {
            seq![AudioCommand::Play(audio)]
        }),
    ensures
        queue_after_all(queue, commands) == (if interrupt {
            seq![audio@]
        } else {
            queue.push(audio@)
        }),
{
    let earlier = commands.drop_last();
    assert(commands.last() == AudioCommand::Play(audio));
    if interrupt {
        assert(earlier =~= seq![AudioCommand::Clear]);
        assert(earlier.drop_last() =~= Seq::empty());
        assert(queue_after_all(queue, earlier.drop_last()) == queue);
        assert(queue_after_all(queue, earlier) =~= Seq::empty());
        assert(queue_after_all(queue, commands) =~= seq![audio@]);
    } else {
        assert(earlier =~= Seq::empty());
        assert(queue_after_all(queue, earlier) == queue);
    }
}

} // verus!
