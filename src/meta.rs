use vstd::prelude::*;

use crate::laws::lemma_u64_digits;
use crate::naming::{decimal, push_decimal};

verus! {

/// Canvas width recorded in every archive.
pub const DEFAULT_WIDTH: u32 = 400;

/// Canvas height recorded in every archive.
pub const DEFAULT_HEIGHT: u32 = 300;

/// The metadata record of an archive.
#[derive(Debug, PartialEq, Eq)]
pub struct Meta {
    pub version: String,
    pub fps: u32,
    pub frame_count: u64,
    pub width: u32,
    pub height: u32,
    pub has_audio: bool,
    pub audio_file: Option<String>,
}

/// The metadata record as plain mathematical values.
pub struct MetaView {
    pub version: Seq<char>,
    pub fps: nat,
    pub frame_count: nat,
    pub width: nat,
    pub height: nat,
    pub has_audio: bool,
    pub audio_file: Option<Seq<char>>,
}

impl View for Meta {
    type V = MetaView;

    open spec fn view(&self) -> MetaView {
        MetaView {
            version: self.version@,
            fps: self.fps as nat,
            frame_count: self.frame_count as nat,
            width: self.width as nat,
            height: self.height as nat,
            has_audio: self.has_audio,
            audio_file: match self.audio_file {
                Some(f) => Some(f@),
                None => None,
            },
        }
    }
}

pub open spec fn format_version() -> Seq<char> {
    seq!['1', '.', '0']
}

pub open spec fn audio_entry() -> Seq<char> {
    seq!['a', 'u', 'd', 'i', 'o', '.', 'm', 'p', '3']
}

pub open spec fn meta_entry() -> Seq<char> {
    seq!['m', 'e', 't', 'a', '.', 'j', 's', 'o', 'n']
}

impl MetaView {
    /// The audio file is named exactly when there is audio.
    pub open spec fn wf(self) -> bool {
        self.has_audio == self.audio_file.is_some()
    }
}

/// The record that packing writes for `frame_count` frames.
pub open spec fn packed_meta(fps: nat, frame_count: nat, has_audio: bool) -> MetaView {
    MetaView {
        version: format_version(),
        fps,
        frame_count,
        width: DEFAULT_WIDTH as nat,
        height: DEFAULT_HEIGHT as nat,
        has_audio,
        audio_file: if has_audio { Some(audio_entry()) } else { None },
    }
}

/// The string as serde_json writes it: between quotes, with quote,
/// backslash and control characters escaped.
pub uninterp spec fn json_quoted(s: Seq<char>) -> Seq<char>;

#[verifier::external_type_specification]
#[verifier::external_body]
pub struct ExJsonError(serde_json::Error);

/// Relies on serde_json::to_string for a str: the string between quotes,
/// each character written as it stands or as an escape of at most six
/// characters. Serializing a str into memory does not fail.
#[verifier::external_body]
fn quote_json(s: &str) -> (r: Result<String, serde_json::Error>)
    ensures
        r is Ok,
        r matches Ok(t) ==> t@ == json_quoted(s@),
        r matches Ok(t) ==> t@.len() <= 6 * s@.len() + 2,
{
    serde_json::to_string(s)
}

pub open spec fn json_bool(b: bool) -> Seq<char> {
    if b { seq!['t', 'r', 'u', 'e'] } else { seq!['f', 'a', 'l', 's', 'e'] }
}

pub open spec fn json_null() -> Seq<char> {
    seq!['n', 'u', 'l', 'l']
}

/// One member line of the record's JSON text: two spaces, the quoted key, a colon and the value.
pub open spec fn member(key: Seq<char>, value: Seq<char>) -> Seq<char> {
    seq![' ', ' ', '"'] + key + seq!['"', ':', ' '] + value
}

/// The record as indented JSON text, one member per line, keys in camel case.
pub open spec fn meta_json(m: MetaView) -> Seq<char> {
    seq!['{', '\n']
        + member("version"@, json_quoted(m.version)) + seq![',', '\n']
        + member("fps"@, decimal(m.fps)) + seq![',', '\n']
        + member("frameCount"@, decimal(m.frame_count)) + seq![',', '\n']
        + member("width"@, decimal(m.width)) + seq![',', '\n']
        + member("height"@, decimal(m.height)) + seq![',', '\n']
        + member("hasAudio"@, json_bool(m.has_audio)) + seq![',', '\n']
        + member("audioFile"@, match m.audio_file {
            Some(f) => json_quoted(f),
            None => json_null(),
        })
        + seq!['\n', '}']
}

fn push_key(s: &mut String, key: &str)
    ensures
        final(s)@ == old(s)@ + seq![' ', ' ', '"'] + key@ + seq!['"', ':', ' '],
{
    proof {
        reveal_strlit("  \"");
        reveal_strlit("\": ");
    }
    s.append("  \"");
    s.append(key);
    s.append("\": ");
    assert(final(s)@ =~= old(s)@ + seq![' ', ' ', '"'] + key@ + seq!['"', ':', ' ']);
}

fn push_quoted(s: &mut String, v: &str)
    ensures
        final(s)@ == old(s)@ + json_quoted(v@),
        json_quoted(v@).len() <= 6 * v@.len() + 2,
{
    match quote_json(v) {
        Ok(t) => s.append(t.as_str()),
        Err(_) => {},
    }
}

fn push_string_member(s: &mut String, key: &str, v: &str)
    ensures
        final(s)@ == old(s)@ + member(key@, json_quoted(v@)),
        json_quoted(v@).len() <= 6 * v@.len() + 2,
{
    let ghost s0 = s@;
    push_key(s, key);
    push_quoted(s, v);
    assert(s@ =~= s0 + member(key@, json_quoted(v@)));
}

fn push_number_member(s: &mut String, key: &str, n: u64)
    ensures
        final(s)@ == old(s)@ + member(key@, decimal(n as nat)),
{
    let ghost s0 = s@;
    push_key(s, key);
    push_decimal(s, n);
    assert(s@ =~= s0 + member(key@, decimal(n as nat)));
}

fn push_literal_member(s: &mut String, key: &str, v: &str)
    ensures
        final(s)@ == old(s)@ + member(key@, v@),
{
    let ghost s0 = s@;
    push_key(s, key);
    s.append(v);
    assert(s@ =~= s0 + member(key@, v@));
}

fn push_separator(s: &mut String)
    ensures
        final(s)@ == old(s)@ + seq![',', '\n'],
{
    proof {
        reveal_strlit(",\n");
    }
    s.append(",\n");
}

proof fn lemma_meta_json_len(m: MetaView)
    requires
        m.fps <= u64::MAX,
        m.frame_count <= u64::MAX,
        m.width <= u64::MAX,
        m.height <= u64::MAX,
        json_quoted(m.version).len() <= 6 * m.version.len() + 2,
        m.audio_file matches Some(f) ==> json_quoted(f).len() <= 6 * f.len() + 2,
    ensures
        meta_json(m).len() <= 6 * (m.version.len() + match m.audio_file {
            Some(f) => f.len(),
            None => 0,
        }) + 300,
{
    lemma_u64_digits(m.fps);
    lemma_u64_digits(m.frame_count);
    lemma_u64_digits(m.width);
    lemma_u64_digits(m.height);
    reveal_strlit("version");
    reveal_strlit("fps");
    reveal_strlit("frameCount");
    reveal_strlit("width");
    reveal_strlit("height");
    reveal_strlit("hasAudio");
    reveal_strlit("audioFile");
}

impl Meta {
    /// The record as the indented JSON text stored in an archive.
    pub fn to_json(&self) -> (r: String)
        ensures
            r@ == meta_json(self@),
            r@.len() <= 6 * (self.version@.len() + match self.audio_file {
                Some(f) => f@.len(),
                None => 0,
            }) + 300,
    {

        proof {
            reveal_strlit("{\n");
            reveal_strlit("\n}");
            reveal_strlit("true");
            reveal_strlit("false");
            reveal_strlit("null");
        }
        let mut s = "{\n".to_owned();
        push_string_member(&mut s, "version", self.version.as_str());
        push_separator(&mut s);
        push_number_member(&mut s, "fps", self.fps as u64);
        push_separator(&mut s);
        push_number_member(&mut s, "frameCount", self.frame_count);
        push_separator(&mut s);
        push_number_member(&mut s, "width", self.width as u64);
        push_separator(&mut s);
        push_number_member(&mut s, "height", self.height as u64);
        push_separator(&mut s);
        if self.has_audio {
            push_literal_member(&mut s, "hasAudio", "true");
        } else {
            push_literal_member(&mut s, "hasAudio", "false");
        }
        push_separator(&mut s);
        match &self.audio_file {
            Some(f) => push_string_member(&mut s, "audioFile", f.as_str()),
            None => push_literal_member(&mut s, "audioFile", "null"),
        }
        s.append("\n}");
        proof {
            lemma_meta_json_len(self@);
        }
        s
    }
}

/// Builds a metadata record from its parts, with the current format version.
/// An audio file is named exactly when there is audio.
pub fn create_meta(
    fps: u32,
    frame_count: u32,
    width: u32,
    height: u32,
    has_audio: bool,
    audio_file: Option<String>,
) -> (r: Meta)
    requires
        has_audio == audio_file.is_some(),
    ensures
        r@.version == format_version(),
        r.fps == fps,
        r.frame_count == frame_count as u64,
        r.width == width,
        r.height == height,
        r.has_audio == has_audio,
        r@.audio_file == (match audio_file {
            Some(f) => Some(f@),
            None => None::<Seq<char>>,
        }),
        r@.wf(),
{
    proof {
        reveal_strlit("1.0");
    }
    Meta {
        version: "1.0".to_owned(),
        fps,
        frame_count: frame_count as u64,
        width,
        height,
        has_audio,
        audio_file,
    }
}

} // verus!
