use vstd::prelude::*;

use vstd::utf8::encode_utf8;

use crate::meta::{audio_entry, format_version, meta_entry, meta_json, packed_meta, Meta, DEFAULT_HEIGHT, DEFAULT_WIDTH};
use crate::laws::{lemma_encode_len, lemma_packed_names_fit};
use crate::naming::{frame_entry_name, frame_index_width, frame_name, index_width};
use crate::zipio::{
    archive_len, entry_name_bytes, finish_archive, fits_entry, last_fits, new_archive_writer,
    open_archive, read_entry_text, staged_names, start_entry, write_entry_bytes, zip_entry_text,
    zip_image, zip_listing, zip_live, zip_names, zip_sound, zip_source, zip_staged, ArchiveWriter,
};

verus! {

/// What can go wrong when packing or inspecting an archive.
#[derive(Debug, PartialEq, Eq, Structural)]
pub enum VvfError {
    /// The archive codec refused an entry or could not finish the archive.
    ContainerWriteFailure,
    /// The bytes given to inspect hold no readable archive.
    CorruptArchive,
}

/// An entry of an archive: its name and its uncompressed bytes.
pub type EntryView = (Seq<char>, Seq<u8>);

pub open spec fn strings_view(v: Seq<String>) -> Seq<Seq<char>> {
    v.map_values(|s: String| s@)
}

pub open spec fn bytes_view(o: Option<Vec<u8>>) -> Option<Seq<u8>> {
    match o {
        Some(b) => Some(b@),
        None => None,
    }
}

/// The frame entries of an archive of the given frames: the frame at
/// position `i` as UTF-8 text, under the name that numbers it `i`.
pub open spec fn frame_entries(frames: Seq<Seq<char>>) -> Seq<EntryView> {
    Seq::new(
        frames.len(),
        |i: int| (frame_name(i as nat, index_width(frames.len())), encode_utf8(frames[i])),
    )
}

pub open spec fn audio_entries(audio: Option<Seq<u8>>) -> Seq<EntryView> {
    match audio {
        Some(a) => seq![(audio_entry(), a)],
        None => Seq::empty(),
    }
}

/// The entries that packing writes, in order: the frames, the audio track
/// where there is one, and last the metadata record as JSON text.
pub open spec fn packed_entries(fps: nat, frames: Seq<Seq<char>>, audio: Option<Seq<u8>>) -> Seq<EntryView> {
    frame_entries(frames) + audio_entries(audio) + seq![
        (meta_entry(), encode_utf8(meta_json(packed_meta(fps, frames.len(), audio is Some)))),
    ]
}

/// Starts an entry and writes all of `data` to it.
fn write_entry(w: &mut ArchiveWriter, name: &String, data: &[u8]) -> (r: Result<(), VvfError>)
    ensures
        zip_live(*old(w)) && last_fits(zip_staged(*old(w))) && fits_entry(data@) ==> r is Ok,
        r is Ok ==> zip_staged(*final(w)) == zip_staged(*old(w)).push((name@, data@)),
        r is Ok ==> zip_live(*final(w)),
        r matches Err(e) ==> e == VvfError::ContainerWriteFailure,
{
    let ghost live = zip_live(*w);
    match start_entry(w, name) {
        Ok(_) => {},
        Err(_) => return Err(VvfError::ContainerWriteFailure),
    }
    let ghost started = zip_staged(*w);
    proof {
        assert(started.last().1 + data@ =~= data@);
    }
    match write_entry_bytes(w, data) {
        Ok(_) => {},
        Err(_) => return Err(VvfError::ContainerWriteFailure),
    }
    proof {
        let last = started.len() - 1;
        assert(started.update(last, (started[last].0, started[last].1 + data@))
            =~= zip_staged(*old(w)).push((name@, data@)));
        if data@.len() == 0 {
            assert(started =~= zip_staged(*old(w)).push((name@, data@)));
        }
    }
    Ok(())
}

/// Frames and audio that packing takes without fail: every entry small
/// enough to need no zip64 extension.
pub open spec fn packable(frames: Seq<Seq<char>>, audio: Option<Seq<u8>>) -> bool {
    &&& forall|i: int| 0 <= i < frames.len() ==> fits_entry(#[trigger] encode_utf8(frames[i]))
    &&& audio matches Some(a) ==> fits_entry(a)
}

/// Packs frames of SVG text and an optional audio track into an archive.
/// The bytes are the deflated archive of exactly the entries of
/// `packed_entries`, in that order, and read back as those entries. Packing
/// fails only where the archive codec does, which it does not on inputs
/// that are `packable`.
pub fn pack_vvf_native(fps: u32, frames: Vec<String>, audio: Option<Vec<u8>>) -> (r: Result<Vec<u8>, VvfError>)
    ensures
        packable(strings_view(frames@), bytes_view(audio)) ==> r is Ok,
        r matches Ok(bytes) ==> bytes@ == zip_image(
            packed_entries(fps as nat, strings_view(frames@), bytes_view(audio)),
        ),
        r matches Ok(bytes) ==> zip_sound(bytes@),
        r matches Ok(bytes) ==> zip_listing(bytes@) == Some(
            staged_names(packed_entries(fps as nat, strings_view(frames@), bytes_view(audio))),
        ),
        r matches Err(e) ==> e == VvfError::ContainerWriteFailure,
{
    let ghost fv = strings_view(frames@);
    let ghost av = bytes_view(audio);
    let ghost fits = packable(fv, av);
    let mut w = new_archive_writer();
    let width = frame_index_width(frames.len());
    let mut i: usize = 0;
    while i < frames.len()
        invariant
            fv == strings_view(frames@),
            av == bytes_view(audio),
            fits == packable(fv, av),
            width as nat == index_width(frames.len() as nat),
            i <= frames.len(),
            zip_staged(w) == frame_entries(fv).take(i as int),
            fits ==> zip_live(w) && last_fits(zip_staged(w)),
        decreases frames.len() - i,
    {
        let name = frame_entry_name(i, width);
        let text = frames[i].as_str();
        let data = text.as_bytes();
        assert(data@ == encode_utf8(fv[i as int]));
        proof {
            if fits {
                assert(fits_entry(encode_utf8(fv[i as int])));
            }
        }
        match write_entry(&mut w, &name, data) {
            Ok(_) => {},
            Err(e) => return Err(e),
        }
        assert(zip_staged(w) =~= frame_entries(fv).take(i + 1));
        i = i + 1;
    }
    assert(zip_staged(w) =~= frame_entries(fv));
    proof {
        reveal_strlit("audio.mp3");
        reveal_strlit("meta.json");
        reveal_strlit("1.0");
    }
    match &audio {
        Some(a) => {
            let name = "audio.mp3".to_owned();
            assert(name@ =~= audio_entry());
            assert(av == Some(a@));
            match write_entry(&mut w, &name, a.as_slice()) {
                Ok(_) => {},
                Err(e) => return Err(e),
            }
        },
        None => {},
    }
    assert(zip_staged(w) =~= frame_entries(fv) + audio_entries(av));
    let has_audio = audio.is_some();
    let meta = Meta {
        version: "1.0".to_owned(),
        fps,
        frame_count: frames.len() as u64,
        width: DEFAULT_WIDTH,
        height: DEFAULT_HEIGHT,
        has_audio,
        audio_file: if has_audio { Some("audio.mp3".to_owned()) } else { None },
    };
    assert(meta.version@ =~= format_version());
    proof {
        if has_audio {
            assert(meta.audio_file.unwrap()@ =~= audio_entry());
        }
    }
    assert(meta@ == packed_meta(fps as nat, fv.len(), av is Some));
    let json = meta.to_json();
    let name = "meta.json".to_owned();
    assert(name@ =~= meta_entry());
    let json_bytes = json.as_str().as_bytes();
    assert(json_bytes@ == encode_utf8(meta_json(packed_meta(fps as nat, fv.len(), av is Some))));
    proof {
        lemma_encode_len(json@);
    }
    write_entry(&mut w, &name, json_bytes)?;
    assert(zip_staged(w) =~= packed_entries(fps as nat, fv, av));
    proof {
        lemma_packed_names_fit(fps as nat, fv, av);
    }
    match finish_archive(w) {
        Ok(bytes) => Ok(bytes),
        Err(_) => Err(VvfError::ContainerWriteFailure),
    }
}

/// What inspection reports of an archive.
#[derive(Debug, PartialEq, Eq)]
pub struct ArchiveSummary {
    /// The text of the metadata entry, or nothing where there is none.
    pub meta_json: Option<String>,
    /// The number of entries whose names begin with the frames prefix.
    pub frame_entry_count: usize,
}

/// The UTF-8 bytes of the frames prefix, `frames/`.
pub open spec fn frames_prefix_bytes() -> Seq<u8> {
    seq![102u8, 114u8, 97u8, 109u8, 101u8, 115u8, 47u8]
}

/// An entry name, as bytes, that lies in the frames namespace.
pub open spec fn is_frame_entry_name(name: Seq<u8>) -> bool {
    frames_prefix_bytes().is_prefix_of(name)
}

/// How many of the names lie in the frames namespace.
pub open spec fn frame_entry_count(names: Seq<Seq<u8>>) -> nat
    decreases names.len(),
{
    if names.len() == 0 {
        0
    } else {
        frame_entry_count(names.drop_last()) + if is_frame_entry_name(names.last()) { 1nat } else { 0nat }
    }
}

/// Entry names as their UTF-8 bytes.
pub open spec fn name_bytes(names: Seq<Seq<char>>) -> Seq<Seq<u8>> {
    names.map_values(|n: Seq<char>| encode_utf8(n))
}

pub open spec fn text_view(t: Option<String>) -> Option<Seq<char>> {
    match t {
        Some(s) => Some(s@),
        None => None,
    }
}

/// Whether an entry name, as bytes, lies in the frames namespace.
pub fn is_frame_entry(name: &[u8]) -> (r: bool)
    ensures
        r == is_frame_entry_name(name@),
{
    let r = name.len() >= 7 && name[0] == 102u8 && name[1] == 114u8 && name[2] == 97u8
        && name[3] == 109u8 && name[4] == 101u8 && name[5] == 115u8 && name[6] == 47u8;
    proof {
        if r {
            assert(frames_prefix_bytes() =~= name@.take(7));
        } else if name@.len() >= 7 {
            if frames_prefix_bytes().is_prefix_of(name@) {
                assert(frames_prefix_bytes()[0] == name@[0]);
                assert(frames_prefix_bytes()[1] == name@[1]);
                assert(frames_prefix_bytes()[2] == name@[2]);
                assert(frames_prefix_bytes()[3] == name@[3]);
                assert(frames_prefix_bytes()[4] == name@[4]);
                assert(frames_prefix_bytes()[5] == name@[5]);
                assert(frames_prefix_bytes()[6] == name@[6]);
            }
        }
    }
    r
}

/// Reads an archive from its bytes and reports its metadata text and how
/// many frame entries it holds. Bytes without a readable central directory,
/// or with an entry header that cannot be read, give `CorruptArchive`. A
/// metadata entry that is missing, or whose data is not UTF-8 text, is
/// reported as no text, not as an error. What is reported depends on the
/// bytes alone.
pub fn inspect(bytes: &Vec<u8>) -> (r: Result<ArchiveSummary, VvfError>)
    ensures
        r matches Err(e) ==> e == VvfError::CorruptArchive,
        zip_listing(bytes@) is None ==> r is Err,
        zip_listing(bytes@) is Some && zip_sound(bytes@) ==> r is Ok,
        r matches Ok(s) ==> zip_listing(bytes@) matches Some(names)
            && s.frame_entry_count == frame_entry_count(name_bytes(names)),
        r matches Ok(s) ==> text_view(s.meta_json) == zip_entry_text(bytes@, meta_entry()),
{
    let mut a = match open_archive(bytes) {
        Ok(a) => a,
        Err(_) => return Err(VvfError::CorruptArchive),
    };
    let ghost names = zip_names(a);
    let ghost sound = zip_sound(bytes@);
    let n = archive_len(&a);
    let mut count: usize = 0;
    let mut i: usize = 0;
    while i < n
        invariant
            n == names.len(),
            zip_names(a) == names,
            zip_source(a) == bytes@,
            sound == zip_sound(bytes@),
            i <= n,
            count <= i,
            count == frame_entry_count(name_bytes(names).take(i as int)),
        decreases n - i,
    {
        let name = match entry_name_bytes(&mut a, i) {
            Ok(b) => b,
            Err(_) => return Err(VvfError::CorruptArchive),
        };
        assert(name_bytes(names).take(i + 1).drop_last() =~= name_bytes(names).take(i as int));
        if is_frame_entry(name.as_slice()) {
            count = count + 1;
        }
        i = i + 1;
    }
    assert(name_bytes(names).take(n as int) =~= name_bytes(names));
    proof {
        reveal_strlit("meta.json");
        assert("meta.json"@ =~= meta_entry());
    }
    let meta_json = read_entry_text(&mut a, "meta.json");
    Ok(ArchiveSummary { meta_json, frame_entry_count: count })
}

} // verus!
