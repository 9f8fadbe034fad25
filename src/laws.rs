use vstd::prelude::*;

use vstd::utf8::{encode_scalar, encode_utf8, is_ascii_chars, is_ascii_chars_encode_utf8};

use crate::archive::{
    audio_entries, frame_entries, frame_entry_count, is_frame_entry_name, name_bytes,
    packed_entries,
};
use crate::meta::{
    audio_entry, format_version, meta_entry, meta_json, MetaView,
};
use crate::zipio::{fits_name, staged_names, zip_listing, zip_sound};
use crate::naming::{decimal, digit_char, num_digits, frame_name, frames_prefix, index_width, padded, pow10, svg_suffix};

verus! {


proof fn lemma_count_concat(x: Seq<Seq<u8>>, y: Seq<Seq<u8>>)
    ensures
        frame_entry_count(x + y) == frame_entry_count(x) + frame_entry_count(y),
    decreases y.len(),
{
    if y.len() > 0 {
        lemma_count_concat(x, y.drop_last());
        assert((x + y).drop_last() =~= x + y.drop_last());
    } else {
        assert(x + y =~= x);
    }
}

proof fn lemma_count_all(s: Seq<Seq<u8>>)
    requires
        forall|k: int| 0 <= k < s.len() ==> is_frame_entry_name(#[trigger] s[k]),
    ensures
        frame_entry_count(s) == s.len(),
    decreases s.len(),
{
    if s.len() > 0 {
        lemma_count_all(s.drop_last());
    }
}

proof fn lemma_count_none(s: Seq<Seq<u8>>)
    requires
        forall|k: int| 0 <= k < s.len() ==> !is_frame_entry_name(#[trigger] s[k]),
    ensures
        frame_entry_count(s) == 0,
    decreases s.len(),
{
    if s.len() > 0 {
        lemma_count_none(s.drop_last());
    }
}

proof fn lemma_padded_digits(n: nat, w: nat)
    ensures
        padded(n, w).len() == w,
        forall|k: int| 0 <= k < w ==> '0' <= #[trigger] padded(n, w)[k] <= '9',
    decreases w,
{
    if w > 0 {
        lemma_padded_digits(n / 10, (w - 1) as nat);
    }
}

proof fn lemma_frame_name_bytes(i: nat, w: nat)
    ensures
        is_frame_entry_name(encode_utf8(frame_name(i, w))),
{
    let name = frame_name(i, w);
    lemma_padded_digits(i, w);
    assert(is_ascii_chars(name));
    is_ascii_chars_encode_utf8(name);
    let b = encode_utf8(name);
    assert(b[0] == name[0] as u8);
    assert(b[1] == name[1] as u8);
    assert(b[2] == name[2] as u8);
    assert(b[3] == name[3] as u8);
    assert(b[4] == name[4] as u8);
    assert(b[5] == name[5] as u8);
    assert(b[6] == name[6] as u8);
    assert(crate::archive::frames_prefix_bytes() =~= b.take(7));
}

proof fn lemma_not_frame_name(name: Seq<char>)
    requires
        name.len() > 0,
        is_ascii_chars(name),
        name[0] != 'f',
    ensures
        !is_frame_entry_name(encode_utf8(name)),
{
    is_ascii_chars_encode_utf8(name);
    let b = encode_utf8(name);
    assert(b[0] == name[0] as u8);
    if is_frame_entry_name(b) {
        assert(crate::archive::frames_prefix_bytes()[0] == b[0]);
    }
}

/// Every frame given to packing becomes one frame entry, and no other entry
/// lies in the frames namespace: the archive holds as many frame entries as
/// there were frames, with or without audio.
pub proof fn lemma_frame_entry_count(fps: nat, frames: Seq<Seq<char>>, audio: Option<Seq<u8>>)
    ensures
        frame_entry_count(name_bytes(staged_names(packed_entries(fps, frames, audio))))
            == frames.len(),
{
    let fe = name_bytes(staged_names(frame_entries(frames)));
    let ae = name_bytes(staged_names(audio_entries(audio)));
    let me = name_bytes(seq![meta_entry()]);
    assert(name_bytes(staged_names(packed_entries(fps, frames, audio))) =~= fe + ae + me);
    assert forall|k: int| 0 <= k < fe.len() implies is_frame_entry_name(#[trigger] fe[k]) by {
        lemma_frame_name_bytes(k as nat, index_width(frames.len()));
    }
    lemma_count_all(fe);
    assert(is_ascii_chars(audio_entry()));
    assert(is_ascii_chars(meta_entry()));
    lemma_not_frame_name(audio_entry());
    lemma_not_frame_name(meta_entry());
    lemma_count_none(ae);
    lemma_count_none(me);
    lemma_count_concat(fe, ae);
    lemma_count_concat(fe + ae, me);
}

/// Bytes that hold the directory packing writes, as packed bytes do, read
/// back whole: inspecting them succeeds and counts exactly the frames packed.
pub proof fn lemma_packed_bytes_frame_count(
    fps: nat,
    frames: Seq<Seq<char>>,
    audio: Option<Seq<u8>>,
    bytes: Seq<u8>,
)
    requires
        zip_sound(bytes),
        zip_listing(bytes) == Some(staged_names(packed_entries(fps, frames, audio))),
    ensures
        zip_listing(bytes) matches Some(names) && zip_sound(bytes)
            && frame_entry_count(name_bytes(names)) == frames.len(),
{
    lemma_frame_entry_count(fps, frames, audio);
}

/// The last entry of a packed archive is the metadata record, whose frame
/// count is the number of frames, which records audio exactly when audio was
/// given, and which then names the audio entry.
pub proof fn lemma_packed_metadata(fps: nat, frames: Seq<Seq<char>>, audio: Option<Seq<u8>>)
    ensures
        ({
            let es = packed_entries(fps, frames, audio);
            exists|m: MetaView|
                es.last() == (meta_entry(), encode_utf8(#[trigger] meta_json(m)))
                && m.version == format_version()
                && m.fps == fps
                && m.frame_count == frames.len()
                && m.has_audio == audio is Some
                && (m.audio_file == Some(audio_entry()) <==> audio is Some)
                && m.wf()
        }),
{
    let es = packed_entries(fps, frames, audio);
    let m = crate::meta::packed_meta(fps, frames.len(), audio is Some);
    assert(es.last() == (meta_entry(), encode_utf8(meta_json(m))));
}

/// Frames are stored in the order given: the entry at position `i` holds the
/// frame at position `i` under the name numbered `i`, three digits wide for
/// up to a thousand frames.
pub proof fn lemma_frames_positional(fps: nat, frames: Seq<Seq<char>>, audio: Option<Seq<u8>>, i: nat)
    requires
        i < frames.len(),
    ensures
        packed_entries(fps, frames, audio)[i as int]
            == (frame_name(i, index_width(frames.len())), encode_utf8(frames[i as int])),
        frames.len() <= 1000 ==> frame_name(i, index_width(frames.len()))
            == frames_prefix() + padded(i, 3) + svg_suffix(),
{
}

proof fn lemma_digit_char_injective(a: nat, b: nat)
    requires
        a < 10,
        b < 10,
        digit_char(a) == digit_char(b),
    ensures
        a == b,
{
}

proof fn lemma_padded_injective(i: nat, j: nat, w: nat)
    requires
        i < pow10(w),
        j < pow10(w),
        padded(i, w) == padded(j, w),
    ensures
        i == j,
    decreases w,
{
    if w > 0 {
        let wp = (w - 1) as nat;
        assert(padded(i, w).last() == digit_char(i % 10));
        assert(padded(i, w).drop_last() =~= padded(i / 10, wp));
        assert(padded(j, w).drop_last() =~= padded(j / 10, wp));
        lemma_digit_char_injective(i % 10, j % 10);
        lemma_padded_injective(i / 10, j / 10, wp);
    }
}

proof fn lemma_below_pow10(x: nat)
    ensures
        x < pow10(num_digits(x)),
    decreases x,
{
    if x >= 10 {
        lemma_below_pow10(x / 10);
        let p = pow10(num_digits(x / 10));
        assert(pow10(num_digits(x)) == 10 * p);
        assert(x < 10 * p) by (nonlinear_arith)
            requires
                x / 10 < p,
        ;
    } else {
        assert(pow10(0) == 1);
        assert(pow10(1) == 10);
    }
}

proof fn lemma_index_fits(n: nat, i: nat)
    requires
        i < n,
    ensures
        i < pow10(index_width(n)),
{
    if n <= 1000 {
        assert(pow10(0) == 1);
        assert(pow10(1) == 10);
        assert(pow10(2) == 100);
        assert(pow10(3) == 1000);
    } else {
        lemma_below_pow10((n - 1) as nat);
    }
}

/// `a` comes strictly before `b` in the order of their characters.
pub open spec fn lex_less(a: Seq<char>, b: Seq<char>) -> bool {
    exists|k: int|
        0 <= k < a.len() && k < b.len() && a.take(k) == b.take(k) && #[trigger] a[k] < b[k]
}

proof fn lemma_padded_ordered(i: nat, j: nat, w: nat)
    requires
        i < j,
        j < pow10(w),
    ensures
        lex_less(padded(i, w), padded(j, w)),
    decreases w,
{
    lemma_padded_digits(i, w);
    lemma_padded_digits(j, w);
    let wp = (w - 1) as nat;
    let pi = padded(i, w);
    let pj = padded(j, w);
    assert(pi.drop_last() =~= padded(i / 10, wp));
    assert(pj.drop_last() =~= padded(j / 10, wp));
    if i / 10 == j / 10 {
        let k = wp as int;
        assert(pi.take(k) =~= pj.take(k));
        assert(pi[k] == digit_char(i % 10));
        assert(pj[k] == digit_char(j % 10));
        assert(pi[k] < pj[k]);
    } else {
        lemma_padded_ordered(i / 10, j / 10, wp);
        let qi = padded(i / 10, wp);
        let qj = padded(j / 10, wp);
        let k = choose|k: int| 0 <= k < qi.len() && k < qj.len() && qi.take(k) == qj.take(k) && #[trigger] qi[k] < qj[k];
        assert(pi.take(k) =~= qi.take(k));
        assert(pj.take(k) =~= qj.take(k));
        assert(pi[k] == qi[k]);
        assert(pj[k] == qj[k]);
    }
}

/// Frame entry names are distinct and sort as the frames do: for any two
/// positions `i < j` of an archive of `n` frames, the name of `i` comes
/// before the name of `j`, character by character.
pub proof fn lemma_frame_names_sorted(n: nat, i: nat, j: nat)
    requires
        i < j,
        j < n,
    ensures
        lex_less(frame_name(i, index_width(n)), frame_name(j, index_width(n))),
        frame_name(i, index_width(n)) != frame_name(j, index_width(n)),
{
    let w = index_width(n);
    lemma_index_fits(n, j);
    lemma_padded_ordered(i, j, w);
    lemma_padded_digits(i, w);
    lemma_padded_digits(j, w);
    let pi = padded(i, w);
    let pj = padded(j, w);
    let k = choose|k: int| 0 <= k < pi.len() && k < pj.len() && pi.take(k) == pj.take(k) && #[trigger] pi[k] < pj[k];
    let a = frame_name(i, w);
    let b = frame_name(j, w);
    assert(a.take(k + 7) =~= frames_prefix() + pi.take(k));
    assert(b.take(k + 7) =~= frames_prefix() + pj.take(k));
    assert(a[k + 7] == pi[k]);
    assert(b[k + 7] == pj[k]);
    assert(a[k + 7] < b[k + 7]);
}

pub(crate) proof fn lemma_encode_len(s: Seq<char>)
    ensures
        encode_utf8(s).len() <= 4 * s.len(),
    decreases s.len(),
{
    if s.len() > 0 {
        lemma_encode_len(s.drop_first());
        assert(encode_scalar(s[0] as u32).len() <= 4);
    }
}

proof fn lemma_decimal_len(n: nat)
    ensures
        decimal(n).len() == num_digits(n),
    decreases n,
{
    if n >= 10 {
        lemma_decimal_len(n / 10);
    }
}

proof fn lemma_num_digits_bound(n: nat, k: nat)
    requires
        k >= 1,
        n < pow10(k),
    ensures
        num_digits(n) <= k,
    decreases n,
{
    if n >= 10 {
        if k == 1 {
            assert(pow10(0) == 1);
            assert(pow10(1) == 10);
        } else {
            let p = pow10((k - 1) as nat);
            assert(pow10(k) == 10 * p);
            assert(n / 10 < p) by (nonlinear_arith)
                requires
                    n < 10 * p,
            ;
            lemma_num_digits_bound(n / 10, (k - 1) as nat);
        }
    }
}

pub(crate) proof fn lemma_u64_digits(n: nat)
    requires
        n <= u64::MAX,
    ensures
        num_digits(n) <= 20,
        decimal(n).len() <= 20,
{
    reveal_with_fuel(pow10, 21);
    assert(pow10(20) == 100000000000000000000nat);
    lemma_num_digits_bound(n, 20);
    lemma_decimal_len(n);
}

proof fn lemma_index_width_bound(n: nat)
    requires
        n <= u64::MAX,
    ensures
        index_width(n) <= 20,
{
    if n > 1000 {
        lemma_u64_digits((n - 1) as nat);
    }
}

/// Every name that packing writes fits its entry header.
pub(crate) proof fn lemma_packed_names_fit(fps: nat, frames: Seq<Seq<char>>, audio: Option<Seq<u8>>)
    requires
        frames.len() <= u64::MAX,
    ensures
        forall|i: int| 0 <= i < packed_entries(fps, frames, audio).len()
            ==> fits_name(#[trigger] packed_entries(fps, frames, audio)[i].0),
{
    let es = packed_entries(fps, frames, audio);
    let w = index_width(frames.len());
    lemma_index_width_bound(frames.len());
    assert forall|i: int| 0 <= i < es.len() implies fits_name(#[trigger] es[i].0) by {
        if i < frames.len() {
            lemma_padded_digits(i as nat, w);
            lemma_encode_len(frame_name(i as nat, w));
        } else {
            lemma_encode_len(es[i].0);
        }
    }
}

} // verus!
