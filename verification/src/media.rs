//! Local media presentation: which files may be shown and how, the byte ranges served
//! to the player, the pages that present each kind, and the authorization that binds a
//! media token to one window.
use vstd::prelude::*;
use crate::ini::first_index_of;
use crate::keyed::KeyedStore;
use crate::protocol::{ContentKind, MAX_SOURCE_BYTES};
use crate::text::{
    ascii_lower_seq, chars_of, contains_char, decimal, equals_str, parse_u64, starts_with_str,
    is_digit, is_lower_hex, lemma_decimal_reads_back, lemma_u64_text_value_of_decimal, string_from_range, to_ascii_lowercase, trim, trim_str, u64_text_value,
    u64_to_decimal, utf8_len, utf8_len_exceeds,
};
use crate::urls::{url_fragment, url_host_str, url_path, url_query, url_scheme, url_serialization, WebUrl};

verus! {

pub const MEDIA_SCHEME: &'static str = "portus-media";
pub const MAX_IMAGE_BYTES: u64 = 67108864;
pub const MAX_MEDIA_RESPONSE_BYTES: u64 = 8388608;
pub const CLASSIFICATION_HEADER_BYTES: usize = 64;

#[derive(Clone, Debug, PartialEq, Eq)]
pub struct AdmittedMediaInfo {
    pub token: String,
    pub requested_source: String,
    pub content_kind: ContentKind,
    pub mime: String,
    pub title: String,
    pub bytes: u64,
}

/// The abstract value of what was admitted under a token.
pub struct AdmittedMediaView {
    pub token: Seq<char>,
    pub requested_source: Seq<char>,
    pub content_kind: ContentKind,
    pub mime: Seq<char>,
    pub title: Seq<char>,
    pub bytes: u64,
}

impl View for AdmittedMediaInfo {
    type V = AdmittedMediaView;

    open spec fn view(&self) -> AdmittedMediaView {
        AdmittedMediaView {
            token: self.token@,
            requested_source: self.requested_source@,
            content_kind: self.content_kind,
            mime: self.mime@,
            title: self.title@,
            bytes: self.bytes,
        }
    }
}

#[derive(Debug)]
pub enum MediaAdmissionError {
    Validation(String),
    Io(String),
}

/// What a file was recognized as.
#[derive(Clone, Copy, Debug, PartialEq, Eq)]
pub struct ClassifiedMedia {
    pub content_kind: ContentKind,
    pub mime: &'static str,
}

/// The last position of `c` in `s`, if it occurs.
pub open spec fn last_index_of(s: Seq<char>, c: char) -> Option<int> {
    if s.contains(c) {
        Some(choose|i: int| 0 <= i < s.len() && s[i] == c && forall|j: int| i < j < s.len() ==> s[j] != c)
    } else {
        None
    }
}

/// The extension of a file name as `Path::extension` gives it: the text after the last
/// dot, unless there is no dot, the only dot starts the name, or the name is `..`.
pub open spec fn extension_of(name: Seq<char>) -> Option<Seq<char>> {
    if name == ".."@ {
        None
    } else {
        match last_index_of(name, '.') {
            None => None,
            Some(i) => if i == 0 {
                None
            } else {
                Some(name.subrange(i + 1, name.len() as int))
            },
        }
    }
}

/// The extension of a file name.
pub fn file_extension(name: &str) -> (r: Option<String>)
    ensures
        match r {
            Some(e) => extension_of(name@) == Some(e@),
            None => extension_of(name@) is None,
        },
{
    let v = chars_of(name);
    if equals_str(&v, "..") {
        return None;
    }
    let mut i = v.len();
    while i > 0 && v[i - 1] != '.'
        invariant
            i <= v@.len(),
            forall|j: int| i <= j < v@.len() ==> v@[j] != '.',
        decreases i,
    {
        i -= 1;
    }
    if i == 0 {
        assert(!v@.contains('.')) by {
            if v@.contains('.') {
                let j = choose|j: int| 0 <= j < v@.len() && v@[j] == '.';
                assert(v@[j] != '.');
            }
        }
        return None;
    }
    let k = i - 1;
    proof {
        assert(v@[k as int] == '.');
        assert(v@.contains('.'));
        let c = choose|c: int| 0 <= c < v@.len() && v@[c] == '.' && forall|j: int| c < j < v@.len() ==> v@[j] != '.';
        assert(c == k) by {
            if c < k {
                assert(v@[k as int] != '.');
            }
            if k < c {
                assert(v@[c] != '.');
            }
        }
    }
    if k == 0 {
        return None;
    }
    Some(string_from_range(&v, i, v.len()))
}

/// The signatures the classifier recognizes at the start of a file.
pub open spec fn png_sig(h: Seq<u8>) -> bool {
    seq![0x89u8, 0x50u8, 0x4eu8, 0x47u8, 0x0du8, 0x0au8, 0x1au8, 0x0au8].is_prefix_of(h)
}

pub open spec fn jpeg_sig(h: Seq<u8>) -> bool {
    seq![0xffu8, 0xd8u8, 0xffu8].is_prefix_of(h)
}

pub open spec fn gif_sig(h: Seq<u8>) -> bool {
    seq![0x47u8, 0x49u8, 0x46u8, 0x38u8, 0x37u8, 0x61u8].is_prefix_of(h) || seq![0x47u8, 0x49u8, 0x46u8, 0x38u8, 0x39u8, 0x61u8].is_prefix_of(h)
}

/// `RIFF` at offset 0 and the given four-byte form type at offset 8.
pub open spec fn riff_sig(h: Seq<u8>, form: Seq<u8>) -> bool {
    h.len() >= 12 && h.subrange(0, 4) == seq![0x52u8, 0x49u8, 0x46u8, 0x46u8] && h.subrange(8, 12) == form
}

pub open spec fn webp_sig(h: Seq<u8>) -> bool {
    riff_sig(h, seq![0x57u8, 0x45u8, 0x42u8, 0x50u8])
}

pub open spec fn wave_sig(h: Seq<u8>) -> bool {
    riff_sig(h, seq![0x57u8, 0x41u8, 0x56u8, 0x45u8])
}

pub open spec fn mp4_sig(h: Seq<u8>) -> bool {
    h.len() >= 12 && h.subrange(4, 8) == seq![0x66u8, 0x74u8, 0x79u8, 0x70u8]
}

pub open spec fn webm_sig(h: Seq<u8>) -> bool {
    seq![0x1au8, 0x45u8, 0xdfu8, 0xa3u8].is_prefix_of(h)
}

pub open spec fn ogg_sig(h: Seq<u8>) -> bool {
    seq![0x4fu8, 0x67u8, 0x67u8, 0x53u8].is_prefix_of(h)
}

pub open spec fn mp3_sig(h: Seq<u8>) -> bool {
    seq![0x49u8, 0x44u8, 0x33u8].is_prefix_of(h) || (h.len() >= 2 && h[0] == 0xffu8 && (h[1] & 0xe0u8) == 0xe0u8)
}

pub open spec fn flac_sig(h: Seq<u8>) -> bool {
    seq![0x66u8, 0x4cu8, 0x61u8, 0x43u8].is_prefix_of(h)
}

/// A file name's extension is what follows its last dot: a name made of a non-empty
/// stem, a dot and a non-empty, dot-free extension has that extension; a name without a dot, or
/// whose only dot opens it, has none.
pub proof fn law_extension_follows_the_last_dot(stem: Seq<char>, ext: Seq<char>, name: Seq<char>)
    ensures
        stem.len() > 0 && ext.len() > 0 && (forall|i: int| 0 <= i < ext.len() ==> ext[i] != '.')
            ==> extension_of(stem + "."@ + ext) == Some(ext),
        (forall|i: int| 0 <= i < name.len() ==> name[i] != '.') ==> extension_of(name) is None,
        (forall|i: int| 0 <= i < ext.len() ==> ext[i] != '.') ==> extension_of("."@ + ext) is None,
{
    reveal_strlit(".");
    reveal_strlit("..");
    if stem.len() > 0 && ext.len() > 0 && (forall|i: int| 0 <= i < ext.len() ==> ext[i] != '.') {
        let n = stem + "."@ + ext;
        let d = stem.len() as int;
        assert(n[d] == '.');
        assert(n.contains('.'));
        assert forall|j: int| d < j < n.len() implies n[j] != '.' by {
            assert(n[j] == ext[j - d - 1]);
        }
        let k = choose|i: int| 0 <= i < n.len() && n[i] == '.' && forall|j: int| i < j < n.len() ==> n[j] != '.';
        assert(k == d);
        assert(n.len() >= 3 && ".."@.len() == 2);
        assert(n.subrange(d + 1, n.len() as int) =~= ext);
    }
    if forall|i: int| 0 <= i < name.len() ==> name[i] != '.' {
        assert(!name.contains('.'));
        if name == ".."@ {
            assert(name[0] == '.');
        }
    }
    if forall|i: int| 0 <= i < ext.len() ==> ext[i] != '.' {
        let n = "."@ + ext;
        assert(n[0] == '.');
        assert(n.contains('.'));
        assert forall|j: int| 0 < j < n.len() implies n[j] != '.' by {
            assert(n[j] == ext[j - 1]);
        }
        let k = choose|i: int| 0 <= i < n.len() && n[i] == '.' && forall|j: int| i < j < n.len() ==> n[j] != '.';
        assert(k == 0);
    }
}

/// What a file with the lower-cased extension `e` and header `h` is admitted as: the
/// extension names a passive format and the header carries that format's signature.
pub open spec fn classification(e: Seq<char>, h: Seq<u8>) -> Option<(ContentKind, Seq<char>)> {
    if e == "png"@ && png_sig(h) {
        Some((ContentKind::Image, "image/png"@))
    } else if (e == "jpg"@ || e == "jpeg"@) && jpeg_sig(h) {
        Some((ContentKind::Image, "image/jpeg"@))
    } else if e == "gif"@ && gif_sig(h) {
        Some((ContentKind::Image, "image/gif"@))
    } else if e == "webp"@ && webp_sig(h) {
        Some((ContentKind::Image, "image/webp"@))
    } else if (e == "mp4"@ || e == "m4v"@ || e == "mov"@) && mp4_sig(h) {
        Some((ContentKind::Video, if e == "mov"@ { "video/quicktime"@ } else { "video/mp4"@ }))
    } else if e == "webm"@ && webm_sig(h) {
        Some((ContentKind::Video, "video/webm"@))
    } else if e == "ogv"@ && ogg_sig(h) {
        Some((ContentKind::Video, "video/ogg"@))
    } else if e == "mp3"@ && mp3_sig(h) {
        Some((ContentKind::Audio, "audio/mpeg"@))
    } else if e == "flac"@ && flac_sig(h) {
        Some((ContentKind::Audio, "audio/flac"@))
    } else if e == "wav"@ && wave_sig(h) {
        Some((ContentKind::Audio, "audio/wav"@))
    } else if (e == "ogg"@ || e == "opus"@) && ogg_sig(h) {
        Some((ContentKind::Audio, "audio/ogg"@))
    } else if e == "m4a"@ && mp4_sig(h) {
        Some((ContentKind::Audio, "audio/mp4"@))
    } else {
        None
    }
}

fn bytes_start_with(h: &[u8], p: Vec<u8>) -> (b: bool)
    ensures
        b == p@.is_prefix_of(h@),
{
    if p.len() > h.len() {
        return false;
    }
    let mut i: usize = 0;
    while i < p.len()
        invariant
            p@.len() <= h@.len(),
            i <= p@.len(),
            forall|j: int| 0 <= j < i ==> h@[j] == p@[j],
        decreases p@.len() - i,
    {
        if h[i] != p[i] {
            return false;
        }
        i += 1;
    }
    assert(h@.subrange(0, p@.len() as int) =~= p@);
    true
}

fn bytes_at(h: &[u8], at: usize, p: Vec<u8>) -> (b: bool)
    requires
        at + p@.len() <= h@.len(),
    ensures
        b == (h@.subrange(at as int, at + p@.len()) == p@),
{
    let n = h.len();
    let mut i: usize = 0;
    while i < p.len()
        invariant
            n == h@.len(),
            at + p@.len() <= h@.len(),
            i <= p@.len(),
            forall|j: int| 0 <= j < i ==> h@[at + j] == p@[j],
        decreases p@.len() - i,
    {
        if h[at + i] != p[i] {
            assert(h@.subrange(at as int, at + p@.len())[i as int] != p@[i as int]);
            return false;
        }
        i += 1;
    }
    assert(h@.subrange(at as int, at + p@.len()) =~= p@);
    true
}

/// Which files are admitted, by their lower-cased extension `e` and the first bytes `h`
/// of their content: each passive format's extensions together with that format's
/// signature give its kind and MIME type; the right extension with any other header, and
/// any other extension, are refused.
pub proof fn law_formats_are_recognised_by_extension_and_signature(e: Seq<char>, h: Seq<u8>)
    ensures
        e == "png"@ ==> classification(e, h) == (if h.len() >= 8 && h[0] == 0x89u8 && h[1] == 0x50u8 && h[2] == 0x4eu8 && h[3] == 0x47u8 && h[4] == 0x0du8 && h[5] == 0x0au8 && h[6] == 0x1au8 && h[7] == 0x0au8 { Some((ContentKind::Image, "image/png"@)) } else { None }),
        (e == "jpg"@ || e == "jpeg"@) ==> classification(e, h) == (if h.len() >= 3 && h[0] == 0xffu8 && h[1] == 0xd8u8 && h[2] == 0xffu8 { Some((ContentKind::Image, "image/jpeg"@)) } else { None }),
        e == "gif"@ ==> classification(e, h) == (if h.len() >= 6 && h[0] == 0x47u8 && h[1] == 0x49u8 && h[2] == 0x46u8 && h[3] == 0x38u8 && (h[4] == 0x37u8 || h[4] == 0x39u8) && h[5] == 0x61u8 { Some((ContentKind::Image, "image/gif"@)) } else { None }),
        e == "webp"@ ==> classification(e, h) == (if h.len() >= 12 && h[0] == 0x52u8 && h[1] == 0x49u8 && h[2] == 0x46u8 && h[3] == 0x46u8 && h[8] == 0x57u8 && h[9] == 0x45u8 && h[10] == 0x42u8 && h[11] == 0x50u8 { Some((ContentKind::Image, "image/webp"@)) } else { None }),
        (e == "mp4"@ || e == "m4v"@) ==> classification(e, h) == (if h.len() >= 12 && h[4] == 0x66u8 && h[5] == 0x74u8 && h[6] == 0x79u8 && h[7] == 0x70u8 { Some((ContentKind::Video, "video/mp4"@)) } else { None }),
        e == "mov"@ ==> classification(e, h) == (if h.len() >= 12 && h[4] == 0x66u8 && h[5] == 0x74u8 && h[6] == 0x79u8 && h[7] == 0x70u8 { Some((ContentKind::Video, "video/quicktime"@)) } else { None }),
        e == "webm"@ ==> classification(e, h) == (if h.len() >= 4 && h[0] == 0x1au8 && h[1] == 0x45u8 && h[2] == 0xdfu8 && h[3] == 0xa3u8 { Some((ContentKind::Video, "video/webm"@)) } else { None }),
        e == "ogv"@ ==> classification(e, h) == (if h.len() >= 4 && h[0] == 0x4fu8 && h[1] == 0x67u8 && h[2] == 0x67u8 && h[3] == 0x53u8 { Some((ContentKind::Video, "video/ogg"@)) } else { None }),
        e == "mp3"@ ==> classification(e, h) == (if (h.len() >= 3 && h[0] == 0x49u8 && h[1] == 0x44u8 && h[2] == 0x33u8) || (h.len() >= 2 && h[0] == 0xffu8 && (h[1] & 0xe0u8) == 0xe0u8) { Some((ContentKind::Audio, "audio/mpeg"@)) } else { None }),
        e == "flac"@ ==> classification(e, h) == (if h.len() >= 4 && h[0] == 0x66u8 && h[1] == 0x4cu8 && h[2] == 0x61u8 && h[3] == 0x43u8 { Some((ContentKind::Audio, "audio/flac"@)) } else { None }),
        e == "wav"@ ==> classification(e, h) == (if h.len() >= 12 && h[0] == 0x52u8 && h[1] == 0x49u8 && h[2] == 0x46u8 && h[3] == 0x46u8 && h[8] == 0x57u8 && h[9] == 0x41u8 && h[10] == 0x56u8 && h[11] == 0x45u8 { Some((ContentKind::Audio, "audio/wav"@)) } else { None }),
        (e == "ogg"@ || e == "opus"@) ==> classification(e, h) == (if h.len() >= 4 && h[0] == 0x4fu8 && h[1] == 0x67u8 && h[2] == 0x67u8 && h[3] == 0x53u8 { Some((ContentKind::Audio, "audio/ogg"@)) } else { None }),
        e == "m4a"@ ==> classification(e, h) == (if h.len() >= 12 && h[4] == 0x66u8 && h[5] == 0x74u8 && h[6] == 0x79u8 && h[7] == 0x70u8 { Some((ContentKind::Audio, "audio/mp4"@)) } else { None }),
        e != "png"@ && e != "jpg"@ && e != "jpeg"@ && e != "gif"@ && e != "webp"@ && e != "mp4"@ && e != "m4v"@ && e != "mov"@ && e != "webm"@ && e != "ogv"@ && e != "mp3"@ && e != "flac"@ && e != "wav"@ && e != "ogg"@ && e != "opus"@ && e != "m4a"@ ==> classification(e, h) is None,
{
    assert(png_sig(h) <==> (h.len() >= 8 && h[0] == 0x89u8 && h[1] == 0x50u8 && h[2] == 0x4eu8 && h[3] == 0x47u8 && h[4] == 0x0du8 && h[5] == 0x0au8 && h[6] == 0x1au8 && h[7] == 0x0au8)) by {
        if h.len() >= 8 && h[0] == 0x89u8 && h[1] == 0x50u8 && h[2] == 0x4eu8 && h[3] == 0x47u8 && h[4] == 0x0du8 && h[5] == 0x0au8 && h[6] == 0x1au8 && h[7] == 0x0au8 { assert(seq![0x89u8, 0x50u8, 0x4eu8, 0x47u8, 0x0du8, 0x0au8, 0x1au8, 0x0au8] =~= h.subrange(0, 8)); }
        if png_sig(h) {
            let p = h.subrange(0, 8);
            assert(p[0] == h[0]);
            assert(p[1] == h[1]);
            assert(p[2] == h[2]);
            assert(p[3] == h[3]);
            assert(p[4] == h[4]);
            assert(p[5] == h[5]);
            assert(p[6] == h[6]);
            assert(p[7] == h[7]);
        }
    }
    assert(jpeg_sig(h) <==> (h.len() >= 3 && h[0] == 0xffu8 && h[1] == 0xd8u8 && h[2] == 0xffu8)) by {
        if h.len() >= 3 && h[0] == 0xffu8 && h[1] == 0xd8u8 && h[2] == 0xffu8 { assert(seq![0xffu8, 0xd8u8, 0xffu8] =~= h.subrange(0, 3)); }
        if jpeg_sig(h) {
            let p = h.subrange(0, 3);
            assert(p[0] == h[0]);
            assert(p[1] == h[1]);
            assert(p[2] == h[2]);
        }
    }
    assert(gif_sig(h) <==> (h.len() >= 6 && h[0] == 0x47u8 && h[1] == 0x49u8 && h[2] == 0x46u8 && h[3] == 0x38u8 && (h[4] == 0x37u8 || h[4] == 0x39u8) && h[5] == 0x61u8)) by {
        if h.len() >= 6 && h[4] == 0x37u8 { assert(seq![0x47u8, 0x49u8, 0x46u8, 0x38u8, 0x37u8, 0x61u8] =~= h.subrange(0, 6) <==> (h.len() >= 6 && h[0] == 0x47u8 && h[1] == 0x49u8 && h[2] == 0x46u8 && h[3] == 0x38u8 && (h[4] == 0x37u8 || h[4] == 0x39u8) && h[5] == 0x61u8)); }
        if h.len() >= 6 && h[4] == 0x39u8 { assert(seq![0x47u8, 0x49u8, 0x46u8, 0x38u8, 0x39u8, 0x61u8] =~= h.subrange(0, 6) <==> (h.len() >= 6 && h[0] == 0x47u8 && h[1] == 0x49u8 && h[2] == 0x46u8 && h[3] == 0x38u8 && (h[4] == 0x37u8 || h[4] == 0x39u8) && h[5] == 0x61u8)); }
    }
    assert(webp_sig(h) <==> (h.len() >= 12 && h[0] == 0x52u8 && h[1] == 0x49u8 && h[2] == 0x46u8 && h[3] == 0x46u8 && h[8] == 0x57u8 && h[9] == 0x45u8 && h[10] == 0x42u8 && h[11] == 0x50u8)) by {
        if h.len() >= 12 {
            assert(h.subrange(0, 4) =~= seq![0x52u8, 0x49u8, 0x46u8, 0x46u8] <==> (h[0] == 0x52u8 && h[1] == 0x49u8 && h[2] == 0x46u8 && h[3] == 0x46u8));
            assert(h.subrange(8, 12) =~= seq![0x57u8, 0x45u8, 0x42u8, 0x50u8] <==> (h[8] == 0x57u8 && h[9] == 0x45u8 && h[10] == 0x42u8 && h[11] == 0x50u8));
        }
    }
    assert(wave_sig(h) <==> (h.len() >= 12 && h[0] == 0x52u8 && h[1] == 0x49u8 && h[2] == 0x46u8 && h[3] == 0x46u8 && h[8] == 0x57u8 && h[9] == 0x41u8 && h[10] == 0x56u8 && h[11] == 0x45u8)) by {
        if h.len() >= 12 {
            assert(h.subrange(0, 4) =~= seq![0x52u8, 0x49u8, 0x46u8, 0x46u8] <==> (h[0] == 0x52u8 && h[1] == 0x49u8 && h[2] == 0x46u8 && h[3] == 0x46u8));
            assert(h.subrange(8, 12) =~= seq![0x57u8, 0x41u8, 0x56u8, 0x45u8] <==> (h[8] == 0x57u8 && h[9] == 0x41u8 && h[10] == 0x56u8 && h[11] == 0x45u8));
        }
    }
    assert(mp4_sig(h) <==> (h.len() >= 12 && h[4] == 0x66u8 && h[5] == 0x74u8 && h[6] == 0x79u8 && h[7] == 0x70u8)) by {
        if h.len() >= 12 {
            assert(h.subrange(4, 8) =~= seq![0x66u8, 0x74u8, 0x79u8, 0x70u8] <==> (h[4] == 0x66u8 && h[5] == 0x74u8 && h[6] == 0x79u8 && h[7] == 0x70u8));
        }
    }
    assert(webm_sig(h) <==> (h.len() >= 4 && h[0] == 0x1au8 && h[1] == 0x45u8 && h[2] == 0xdfu8 && h[3] == 0xa3u8)) by {
        if h.len() >= 4 && h[0] == 0x1au8 && h[1] == 0x45u8 && h[2] == 0xdfu8 && h[3] == 0xa3u8 { assert(seq![0x1au8, 0x45u8, 0xdfu8, 0xa3u8] =~= h.subrange(0, 4)); }
    }
    assert(ogg_sig(h) <==> (h.len() >= 4 && h[0] == 0x4fu8 && h[1] == 0x67u8 && h[2] == 0x67u8 && h[3] == 0x53u8)) by {
        if h.len() >= 4 && h[0] == 0x4fu8 && h[1] == 0x67u8 && h[2] == 0x67u8 && h[3] == 0x53u8 { assert(seq![0x4fu8, 0x67u8, 0x67u8, 0x53u8] =~= h.subrange(0, 4)); }
    }
    assert(mp3_sig(h) <==> ((h.len() >= 3 && h[0] == 0x49u8 && h[1] == 0x44u8 && h[2] == 0x33u8) || (h.len() >= 2 && h[0] == 0xffu8 && (h[1] & 0xe0u8) == 0xe0u8))) by {
        if h.len() >= 3 && h[0] == 0x49u8 && h[1] == 0x44u8 && h[2] == 0x33u8 { assert(seq![0x49u8, 0x44u8, 0x33u8] =~= h.subrange(0, 3)); }
    }
    assert(flac_sig(h) <==> (h.len() >= 4 && h[0] == 0x66u8 && h[1] == 0x4cu8 && h[2] == 0x61u8 && h[3] == 0x43u8)) by {
        if h.len() >= 4 && h[0] == 0x66u8 && h[1] == 0x4cu8 && h[2] == 0x61u8 && h[3] == 0x43u8 { assert(seq![0x66u8, 0x4cu8, 0x61u8, 0x43u8] =~= h.subrange(0, 4)); }
    }
    assert(e == "png"@ ==> classification(e, h) == (if h.len() >= 8 && h[0] == 0x89u8 && h[1] == 0x50u8 && h[2] == 0x4eu8 && h[3] == 0x47u8 && h[4] == 0x0du8 && h[5] == 0x0au8 && h[6] == 0x1au8 && h[7] == 0x0au8 { Some((ContentKind::Image, "image/png"@)) } else { None })) by {
        reveal_strlit("png");
        reveal_strlit("jpg");
        reveal_strlit("jpeg");
        reveal_strlit("gif");
        reveal_strlit("webp");
        reveal_strlit("mp4");
        reveal_strlit("m4v");
        reveal_strlit("mov");
        reveal_strlit("webm");
        reveal_strlit("ogv");
        reveal_strlit("mp3");
        reveal_strlit("flac");
        reveal_strlit("wav");
        reveal_strlit("ogg");
        reveal_strlit("opus");
        reveal_strlit("m4a");
        assert("png"@.len() == 3 && "png"@[0] == 'p' && "png"@[1] == 'n' && "png"@[2] == 'g');
        assert("jpg"@.len() == 3 && "jpg"@[0] == 'j' && "jpg"@[1] == 'p' && "jpg"@[2] == 'g');
        assert("jpeg"@.len() == 4 && "jpeg"@[0] == 'j' && "jpeg"@[1] == 'p' && "jpeg"@[2] == 'e' && "jpeg"@[3] == 'g');
        assert("gif"@.len() == 3 && "gif"@[0] == 'g' && "gif"@[1] == 'i' && "gif"@[2] == 'f');
        assert("webp"@.len() == 4 && "webp"@[0] == 'w' && "webp"@[1] == 'e' && "webp"@[2] == 'b' && "webp"@[3] == 'p');
        assert("mp4"@.len() == 3 && "mp4"@[0] == 'm' && "mp4"@[1] == 'p' && "mp4"@[2] == '4');
        assert("m4v"@.len() == 3 && "m4v"@[0] == 'm' && "m4v"@[1] == '4' && "m4v"@[2] == 'v');
        assert("mov"@.len() == 3 && "mov"@[0] == 'm' && "mov"@[1] == 'o' && "mov"@[2] == 'v');
        assert("webm"@.len() == 4 && "webm"@[0] == 'w' && "webm"@[1] == 'e' && "webm"@[2] == 'b' && "webm"@[3] == 'm');
        assert("ogv"@.len() == 3 && "ogv"@[0] == 'o' && "ogv"@[1] == 'g' && "ogv"@[2] == 'v');
        assert("mp3"@.len() == 3 && "mp3"@[0] == 'm' && "mp3"@[1] == 'p' && "mp3"@[2] == '3');
        assert("flac"@.len() == 4 && "flac"@[0] == 'f' && "flac"@[1] == 'l' && "flac"@[2] == 'a' && "flac"@[3] == 'c');
        assert("wav"@.len() == 3 && "wav"@[0] == 'w' && "wav"@[1] == 'a' && "wav"@[2] == 'v');
        assert("ogg"@.len() == 3 && "ogg"@[0] == 'o' && "ogg"@[1] == 'g' && "ogg"@[2] == 'g');
        assert("opus"@.len() == 4 && "opus"@[0] == 'o' && "opus"@[1] == 'p' && "opus"@[2] == 'u' && "opus"@[3] == 's');
        assert("m4a"@.len() == 3 && "m4a"@[0] == 'm' && "m4a"@[1] == '4' && "m4a"@[2] == 'a');
    }
    assert((e == "jpg"@ || e == "jpeg"@) ==> classification(e, h) == (if h.len() >= 3 && h[0] == 0xffu8 && h[1] == 0xd8u8 && h[2] == 0xffu8 { Some((ContentKind::Image, "image/jpeg"@)) } else { None })) by {
        reveal_strlit("png");
        reveal_strlit("jpg");
        reveal_strlit("jpeg");
        reveal_strlit("gif");
        reveal_strlit("webp");
        reveal_strlit("mp4");
        reveal_strlit("m4v");
        reveal_strlit("mov");
        reveal_strlit("webm");
        reveal_strlit("ogv");
        reveal_strlit("mp3");
        reveal_strlit("flac");
        reveal_strlit("wav");
        reveal_strlit("ogg");
        reveal_strlit("opus");
        reveal_strlit("m4a");
        assert("png"@.len() == 3 && "png"@[0] == 'p' && "png"@[1] == 'n' && "png"@[2] == 'g');
        assert("jpg"@.len() == 3 && "jpg"@[0] == 'j' && "jpg"@[1] == 'p' && "jpg"@[2] == 'g');
        assert("jpeg"@.len() == 4 && "jpeg"@[0] == 'j' && "jpeg"@[1] == 'p' && "jpeg"@[2] == 'e' && "jpeg"@[3] == 'g');
        assert("gif"@.len() == 3 && "gif"@[0] == 'g' && "gif"@[1] == 'i' && "gif"@[2] == 'f');
        assert("webp"@.len() == 4 && "webp"@[0] == 'w' && "webp"@[1] == 'e' && "webp"@[2] == 'b' && "webp"@[3] == 'p');
        assert("mp4"@.len() == 3 && "mp4"@[0] == 'm' && "mp4"@[1] == 'p' && "mp4"@[2] == '4');
        assert("m4v"@.len() == 3 && "m4v"@[0] == 'm' && "m4v"@[1] == '4' && "m4v"@[2] == 'v');
        assert("mov"@.len() == 3 && "mov"@[0] == 'm' && "mov"@[1] == 'o' && "mov"@[2] == 'v');
        assert("webm"@.len() == 4 && "webm"@[0] == 'w' && "webm"@[1] == 'e' && "webm"@[2] == 'b' && "webm"@[3] == 'm');
        assert("ogv"@.len() == 3 && "ogv"@[0] == 'o' && "ogv"@[1] == 'g' && "ogv"@[2] == 'v');
        assert("mp3"@.len() == 3 && "mp3"@[0] == 'm' && "mp3"@[1] == 'p' && "mp3"@[2] == '3');
        assert("flac"@.len() == 4 && "flac"@[0] == 'f' && "flac"@[1] == 'l' && "flac"@[2] == 'a' && "flac"@[3] == 'c');
        assert("wav"@.len() == 3 && "wav"@[0] == 'w' && "wav"@[1] == 'a' && "wav"@[2] == 'v');
        assert("ogg"@.len() == 3 && "ogg"@[0] == 'o' && "ogg"@[1] == 'g' && "ogg"@[2] == 'g');
        assert("opus"@.len() == 4 && "opus"@[0] == 'o' && "opus"@[1] == 'p' && "opus"@[2] == 'u' && "opus"@[3] == 's');
        assert("m4a"@.len() == 3 && "m4a"@[0] == 'm' && "m4a"@[1] == '4' && "m4a"@[2] == 'a');
    }
    assert(e == "gif"@ ==> classification(e, h) == (if h.len() >= 6 && h[0] == 0x47u8 && h[1] == 0x49u8 && h[2] == 0x46u8 && h[3] == 0x38u8 && (h[4] == 0x37u8 || h[4] == 0x39u8) && h[5] == 0x61u8 { Some((ContentKind::Image, "image/gif"@)) } else { None })) by {
        reveal_strlit("png");
        reveal_strlit("jpg");
        reveal_strlit("jpeg");
        reveal_strlit("gif");
        reveal_strlit("webp");
        reveal_strlit("mp4");
        reveal_strlit("m4v");
        reveal_strlit("mov");
        reveal_strlit("webm");
        reveal_strlit("ogv");
        reveal_strlit("mp3");
        reveal_strlit("flac");
        reveal_strlit("wav");
        reveal_strlit("ogg");
        reveal_strlit("opus");
        reveal_strlit("m4a");
        assert("png"@.len() == 3 && "png"@[0] == 'p' && "png"@[1] == 'n' && "png"@[2] == 'g');
        assert("jpg"@.len() == 3 && "jpg"@[0] == 'j' && "jpg"@[1] == 'p' && "jpg"@[2] == 'g');
        assert("jpeg"@.len() == 4 && "jpeg"@[0] == 'j' && "jpeg"@[1] == 'p' && "jpeg"@[2] == 'e' && "jpeg"@[3] == 'g');
        assert("gif"@.len() == 3 && "gif"@[0] == 'g' && "gif"@[1] == 'i' && "gif"@[2] == 'f');
        assert("webp"@.len() == 4 && "webp"@[0] == 'w' && "webp"@[1] == 'e' && "webp"@[2] == 'b' && "webp"@[3] == 'p');
        assert("mp4"@.len() == 3 && "mp4"@[0] == 'm' && "mp4"@[1] == 'p' && "mp4"@[2] == '4');
        assert("m4v"@.len() == 3 && "m4v"@[0] == 'm' && "m4v"@[1] == '4' && "m4v"@[2] == 'v');
        assert("mov"@.len() == 3 && "mov"@[0] == 'm' && "mov"@[1] == 'o' && "mov"@[2] == 'v');
        assert("webm"@.len() == 4 && "webm"@[0] == 'w' && "webm"@[1] == 'e' && "webm"@[2] == 'b' && "webm"@[3] == 'm');
        assert("ogv"@.len() == 3 && "ogv"@[0] == 'o' && "ogv"@[1] == 'g' && "ogv"@[2] == 'v');
        assert("mp3"@.len() == 3 && "mp3"@[0] == 'm' && "mp3"@[1] == 'p' && "mp3"@[2] == '3');
        assert("flac"@.len() == 4 && "flac"@[0] == 'f' && "flac"@[1] == 'l' && "flac"@[2] == 'a' && "flac"@[3] == 'c');
        assert("wav"@.len() == 3 && "wav"@[0] == 'w' && "wav"@[1] == 'a' && "wav"@[2] == 'v');
        assert("ogg"@.len() == 3 && "ogg"@[0] == 'o' && "ogg"@[1] == 'g' && "ogg"@[2] == 'g');
        assert("opus"@.len() == 4 && "opus"@[0] == 'o' && "opus"@[1] == 'p' && "opus"@[2] == 'u' && "opus"@[3] == 's');
        assert("m4a"@.len() == 3 && "m4a"@[0] == 'm' && "m4a"@[1] == '4' && "m4a"@[2] == 'a');
    }
    assert(e == "webp"@ ==> classification(e, h) == (if h.len() >= 12 && h[0] == 0x52u8 && h[1] == 0x49u8 && h[2] == 0x46u8 && h[3] == 0x46u8 && h[8] == 0x57u8 && h[9] == 0x45u8 && h[10] == 0x42u8 && h[11] == 0x50u8 { Some((ContentKind::Image, "image/webp"@)) } else { None })) by {
        reveal_strlit("png");
        reveal_strlit("jpg");
        reveal_strlit("jpeg");
        reveal_strlit("gif");
        reveal_strlit("webp");
        reveal_strlit("mp4");
        reveal_strlit("m4v");
        reveal_strlit("mov");
        reveal_strlit("webm");
        reveal_strlit("ogv");
        reveal_strlit("mp3");
        reveal_strlit("flac");
        reveal_strlit("wav");
        reveal_strlit("ogg");
        reveal_strlit("opus");
        reveal_strlit("m4a");
        assert("png"@.len() == 3 && "png"@[0] == 'p' && "png"@[1] == 'n' && "png"@[2] == 'g');
        assert("jpg"@.len() == 3 && "jpg"@[0] == 'j' && "jpg"@[1] == 'p' && "jpg"@[2] == 'g');
        assert("jpeg"@.len() == 4 && "jpeg"@[0] == 'j' && "jpeg"@[1] == 'p' && "jpeg"@[2] == 'e' && "jpeg"@[3] == 'g');
        assert("gif"@.len() == 3 && "gif"@[0] == 'g' && "gif"@[1] == 'i' && "gif"@[2] == 'f');
        assert("webp"@.len() == 4 && "webp"@[0] == 'w' && "webp"@[1] == 'e' && "webp"@[2] == 'b' && "webp"@[3] == 'p');
        assert("mp4"@.len() == 3 && "mp4"@[0] == 'm' && "mp4"@[1] == 'p' && "mp4"@[2] == '4');
        assert("m4v"@.len() == 3 && "m4v"@[0] == 'm' && "m4v"@[1] == '4' && "m4v"@[2] == 'v');
        assert("mov"@.len() == 3 && "mov"@[0] == 'm' && "mov"@[1] == 'o' && "mov"@[2] == 'v');
        assert("webm"@.len() == 4 && "webm"@[0] == 'w' && "webm"@[1] == 'e' && "webm"@[2] == 'b' && "webm"@[3] == 'm');
        assert("ogv"@.len() == 3 && "ogv"@[0] == 'o' && "ogv"@[1] == 'g' && "ogv"@[2] == 'v');
        assert("mp3"@.len() == 3 && "mp3"@[0] == 'm' && "mp3"@[1] == 'p' && "mp3"@[2] == '3');
        assert("flac"@.len() == 4 && "flac"@[0] == 'f' && "flac"@[1] == 'l' && "flac"@[2] == 'a' && "flac"@[3] == 'c');
        assert("wav"@.len() == 3 && "wav"@[0] == 'w' && "wav"@[1] == 'a' && "wav"@[2] == 'v');
        assert("ogg"@.len() == 3 && "ogg"@[0] == 'o' && "ogg"@[1] == 'g' && "ogg"@[2] == 'g');
        assert("opus"@.len() == 4 && "opus"@[0] == 'o' && "opus"@[1] == 'p' && "opus"@[2] == 'u' && "opus"@[3] == 's');
        assert("m4a"@.len() == 3 && "m4a"@[0] == 'm' && "m4a"@[1] == '4' && "m4a"@[2] == 'a');
    }
    assert((e == "mp4"@ || e == "m4v"@) ==> classification(e, h) == (if h.len() >= 12 && h[4] == 0x66u8 && h[5] == 0x74u8 && h[6] == 0x79u8 && h[7] == 0x70u8 { Some((ContentKind::Video, "video/mp4"@)) } else { None })) by {
        reveal_strlit("png");
        reveal_strlit("jpg");
        reveal_strlit("jpeg");
        reveal_strlit("gif");
        reveal_strlit("webp");
        reveal_strlit("mp4");
        reveal_strlit("m4v");
        reveal_strlit("mov");
        reveal_strlit("webm");
        reveal_strlit("ogv");
        reveal_strlit("mp3");
        reveal_strlit("flac");
        reveal_strlit("wav");
        reveal_strlit("ogg");
        reveal_strlit("opus");
        reveal_strlit("m4a");
        assert("png"@.len() == 3 && "png"@[0] == 'p' && "png"@[1] == 'n' && "png"@[2] == 'g');
        assert("jpg"@.len() == 3 && "jpg"@[0] == 'j' && "jpg"@[1] == 'p' && "jpg"@[2] == 'g');
        assert("jpeg"@.len() == 4 && "jpeg"@[0] == 'j' && "jpeg"@[1] == 'p' && "jpeg"@[2] == 'e' && "jpeg"@[3] == 'g');
        assert("gif"@.len() == 3 && "gif"@[0] == 'g' && "gif"@[1] == 'i' && "gif"@[2] == 'f');
        assert("webp"@.len() == 4 && "webp"@[0] == 'w' && "webp"@[1] == 'e' && "webp"@[2] == 'b' && "webp"@[3] == 'p');
        assert("mp4"@.len() == 3 && "mp4"@[0] == 'm' && "mp4"@[1] == 'p' && "mp4"@[2] == '4');
        assert("m4v"@.len() == 3 && "m4v"@[0] == 'm' && "m4v"@[1] == '4' && "m4v"@[2] == 'v');
        assert("mov"@.len() == 3 && "mov"@[0] == 'm' && "mov"@[1] == 'o' && "mov"@[2] == 'v');
        assert("webm"@.len() == 4 && "webm"@[0] == 'w' && "webm"@[1] == 'e' && "webm"@[2] == 'b' && "webm"@[3] == 'm');
        assert("ogv"@.len() == 3 && "ogv"@[0] == 'o' && "ogv"@[1] == 'g' && "ogv"@[2] == 'v');
        assert("mp3"@.len() == 3 && "mp3"@[0] == 'm' && "mp3"@[1] == 'p' && "mp3"@[2] == '3');
        assert("flac"@.len() == 4 && "flac"@[0] == 'f' && "flac"@[1] == 'l' && "flac"@[2] == 'a' && "flac"@[3] == 'c');
        assert("wav"@.len() == 3 && "wav"@[0] == 'w' && "wav"@[1] == 'a' && "wav"@[2] == 'v');
        assert("ogg"@.len() == 3 && "ogg"@[0] == 'o' && "ogg"@[1] == 'g' && "ogg"@[2] == 'g');
        assert("opus"@.len() == 4 && "opus"@[0] == 'o' && "opus"@[1] == 'p' && "opus"@[2] == 'u' && "opus"@[3] == 's');
        assert("m4a"@.len() == 3 && "m4a"@[0] == 'm' && "m4a"@[1] == '4' && "m4a"@[2] == 'a');
    }
    assert(e == "mov"@ ==> classification(e, h) == (if h.len() >= 12 && h[4] == 0x66u8 && h[5] == 0x74u8 && h[6] == 0x79u8 && h[7] == 0x70u8 { Some((ContentKind::Video, "video/quicktime"@)) } else { None })) by {
        reveal_strlit("png");
        reveal_strlit("jpg");
        reveal_strlit("jpeg");
        reveal_strlit("gif");
        reveal_strlit("webp");
        reveal_strlit("mp4");
        reveal_strlit("m4v");
        reveal_strlit("mov");
        reveal_strlit("webm");
        reveal_strlit("ogv");
        reveal_strlit("mp3");
        reveal_strlit("flac");
        reveal_strlit("wav");
        reveal_strlit("ogg");
        reveal_strlit("opus");
        reveal_strlit("m4a");
        assert("png"@.len() == 3 && "png"@[0] == 'p' && "png"@[1] == 'n' && "png"@[2] == 'g');
        assert("jpg"@.len() == 3 && "jpg"@[0] == 'j' && "jpg"@[1] == 'p' && "jpg"@[2] == 'g');
        assert("jpeg"@.len() == 4 && "jpeg"@[0] == 'j' && "jpeg"@[1] == 'p' && "jpeg"@[2] == 'e' && "jpeg"@[3] == 'g');
        assert("gif"@.len() == 3 && "gif"@[0] == 'g' && "gif"@[1] == 'i' && "gif"@[2] == 'f');
        assert("webp"@.len() == 4 && "webp"@[0] == 'w' && "webp"@[1] == 'e' && "webp"@[2] == 'b' && "webp"@[3] == 'p');
        assert("mp4"@.len() == 3 && "mp4"@[0] == 'm' && "mp4"@[1] == 'p' && "mp4"@[2] == '4');
        assert("m4v"@.len() == 3 && "m4v"@[0] == 'm' && "m4v"@[1] == '4' && "m4v"@[2] == 'v');
        assert("mov"@.len() == 3 && "mov"@[0] == 'm' && "mov"@[1] == 'o' && "mov"@[2] == 'v');
        assert("webm"@.len() == 4 && "webm"@[0] == 'w' && "webm"@[1] == 'e' && "webm"@[2] == 'b' && "webm"@[3] == 'm');
        assert("ogv"@.len() == 3 && "ogv"@[0] == 'o' && "ogv"@[1] == 'g' && "ogv"@[2] == 'v');
        assert("mp3"@.len() == 3 && "mp3"@[0] == 'm' && "mp3"@[1] == 'p' && "mp3"@[2] == '3');
        assert("flac"@.len() == 4 && "flac"@[0] == 'f' && "flac"@[1] == 'l' && "flac"@[2] == 'a' && "flac"@[3] == 'c');
        assert("wav"@.len() == 3 && "wav"@[0] == 'w' && "wav"@[1] == 'a' && "wav"@[2] == 'v');
        assert("ogg"@.len() == 3 && "ogg"@[0] == 'o' && "ogg"@[1] == 'g' && "ogg"@[2] == 'g');
        assert("opus"@.len() == 4 && "opus"@[0] == 'o' && "opus"@[1] == 'p' && "opus"@[2] == 'u' && "opus"@[3] == 's');
        assert("m4a"@.len() == 3 && "m4a"@[0] == 'm' && "m4a"@[1] == '4' && "m4a"@[2] == 'a');
    }
    assert(e == "webm"@ ==> classification(e, h) == (if h.len() >= 4 && h[0] == 0x1au8 && h[1] == 0x45u8 && h[2] == 0xdfu8 && h[3] == 0xa3u8 { Some((ContentKind::Video, "video/webm"@)) } else { None })) by {
        reveal_strlit("png");
        reveal_strlit("jpg");
        reveal_strlit("jpeg");
        reveal_strlit("gif");
        reveal_strlit("webp");
        reveal_strlit("mp4");
        reveal_strlit("m4v");
        reveal_strlit("mov");
        reveal_strlit("webm");
        reveal_strlit("ogv");
        reveal_strlit("mp3");
        reveal_strlit("flac");
        reveal_strlit("wav");
        reveal_strlit("ogg");
        reveal_strlit("opus");
        reveal_strlit("m4a");
        assert("png"@.len() == 3 && "png"@[0] == 'p' && "png"@[1] == 'n' && "png"@[2] == 'g');
        assert("jpg"@.len() == 3 && "jpg"@[0] == 'j' && "jpg"@[1] == 'p' && "jpg"@[2] == 'g');
        assert("jpeg"@.len() == 4 && "jpeg"@[0] == 'j' && "jpeg"@[1] == 'p' && "jpeg"@[2] == 'e' && "jpeg"@[3] == 'g');
        assert("gif"@.len() == 3 && "gif"@[0] == 'g' && "gif"@[1] == 'i' && "gif"@[2] == 'f');
        assert("webp"@.len() == 4 && "webp"@[0] == 'w' && "webp"@[1] == 'e' && "webp"@[2] == 'b' && "webp"@[3] == 'p');
        assert("mp4"@.len() == 3 && "mp4"@[0] == 'm' && "mp4"@[1] == 'p' && "mp4"@[2] == '4');
        assert("m4v"@.len() == 3 && "m4v"@[0] == 'm' && "m4v"@[1] == '4' && "m4v"@[2] == 'v');
        assert("mov"@.len() == 3 && "mov"@[0] == 'm' && "mov"@[1] == 'o' && "mov"@[2] == 'v');
        assert("webm"@.len() == 4 && "webm"@[0] == 'w' && "webm"@[1] == 'e' && "webm"@[2] == 'b' && "webm"@[3] == 'm');
        assert("ogv"@.len() == 3 && "ogv"@[0] == 'o' && "ogv"@[1] == 'g' && "ogv"@[2] == 'v');
        assert("mp3"@.len() == 3 && "mp3"@[0] == 'm' && "mp3"@[1] == 'p' && "mp3"@[2] == '3');
        assert("flac"@.len() == 4 && "flac"@[0] == 'f' && "flac"@[1] == 'l' && "flac"@[2] == 'a' && "flac"@[3] == 'c');
        assert("wav"@.len() == 3 && "wav"@[0] == 'w' && "wav"@[1] == 'a' && "wav"@[2] == 'v');
        assert("ogg"@.len() == 3 && "ogg"@[0] == 'o' && "ogg"@[1] == 'g' && "ogg"@[2] == 'g');
        assert("opus"@.len() == 4 && "opus"@[0] == 'o' && "opus"@[1] == 'p' && "opus"@[2] == 'u' && "opus"@[3] == 's');
        assert("m4a"@.len() == 3 && "m4a"@[0] == 'm' && "m4a"@[1] == '4' && "m4a"@[2] == 'a');
    }
    assert(e == "ogv"@ ==> classification(e, h) == (if h.len() >= 4 && h[0] == 0x4fu8 && h[1] == 0x67u8 && h[2] == 0x67u8 && h[3] == 0x53u8 { Some((ContentKind::Video, "video/ogg"@)) } else { None })) by {
        reveal_strlit("png");
        reveal_strlit("jpg");
        reveal_strlit("jpeg");
        reveal_strlit("gif");
        reveal_strlit("webp");
        reveal_strlit("mp4");
        reveal_strlit("m4v");
        reveal_strlit("mov");
        reveal_strlit("webm");
        reveal_strlit("ogv");
        reveal_strlit("mp3");
        reveal_strlit("flac");
        reveal_strlit("wav");
        reveal_strlit("ogg");
        reveal_strlit("opus");
        reveal_strlit("m4a");
        assert("png"@.len() == 3 && "png"@[0] == 'p' && "png"@[1] == 'n' && "png"@[2] == 'g');
        assert("jpg"@.len() == 3 && "jpg"@[0] == 'j' && "jpg"@[1] == 'p' && "jpg"@[2] == 'g');
        assert("jpeg"@.len() == 4 && "jpeg"@[0] == 'j' && "jpeg"@[1] == 'p' && "jpeg"@[2] == 'e' && "jpeg"@[3] == 'g');
        assert("gif"@.len() == 3 && "gif"@[0] == 'g' && "gif"@[1] == 'i' && "gif"@[2] == 'f');
        assert("webp"@.len() == 4 && "webp"@[0] == 'w' && "webp"@[1] == 'e' && "webp"@[2] == 'b' && "webp"@[3] == 'p');
        assert("mp4"@.len() == 3 && "mp4"@[0] == 'm' && "mp4"@[1] == 'p' && "mp4"@[2] == '4');
        assert("m4v"@.len() == 3 && "m4v"@[0] == 'm' && "m4v"@[1] == '4' && "m4v"@[2] == 'v');
        assert("mov"@.len() == 3 && "mov"@[0] == 'm' && "mov"@[1] == 'o' && "mov"@[2] == 'v');
        assert("webm"@.len() == 4 && "webm"@[0] == 'w' && "webm"@[1] == 'e' && "webm"@[2] == 'b' && "webm"@[3] == 'm');
        assert("ogv"@.len() == 3 && "ogv"@[0] == 'o' && "ogv"@[1] == 'g' && "ogv"@[2] == 'v');
        assert("mp3"@.len() == 3 && "mp3"@[0] == 'm' && "mp3"@[1] == 'p' && "mp3"@[2] == '3');
        assert("flac"@.len() == 4 && "flac"@[0] == 'f' && "flac"@[1] == 'l' && "flac"@[2] == 'a' && "flac"@[3] == 'c');
        assert("wav"@.len() == 3 && "wav"@[0] == 'w' && "wav"@[1] == 'a' && "wav"@[2] == 'v');
        assert("ogg"@.len() == 3 && "ogg"@[0] == 'o' && "ogg"@[1] == 'g' && "ogg"@[2] == 'g');
        assert("opus"@.len() == 4 && "opus"@[0] == 'o' && "opus"@[1] == 'p' && "opus"@[2] == 'u' && "opus"@[3] == 's');
        assert("m4a"@.len() == 3 && "m4a"@[0] == 'm' && "m4a"@[1] == '4' && "m4a"@[2] == 'a');
    }
    assert(e == "mp3"@ ==> classification(e, h) == (if (h.len() >= 3 && h[0] == 0x49u8 && h[1] == 0x44u8 && h[2] == 0x33u8) || (h.len() >= 2 && h[0] == 0xffu8 && (h[1] & 0xe0u8) == 0xe0u8) { Some((ContentKind::Audio, "audio/mpeg"@)) } else { None })) by {
        reveal_strlit("png");
        reveal_strlit("jpg");
        reveal_strlit("jpeg");
        reveal_strlit("gif");
        reveal_strlit("webp");
        reveal_strlit("mp4");
        reveal_strlit("m4v");
        reveal_strlit("mov");
        reveal_strlit("webm");
        reveal_strlit("ogv");
        reveal_strlit("mp3");
        reveal_strlit("flac");
        reveal_strlit("wav");
        reveal_strlit("ogg");
        reveal_strlit("opus");
        reveal_strlit("m4a");
        assert("png"@.len() == 3 && "png"@[0] == 'p' && "png"@[1] == 'n' && "png"@[2] == 'g');
        assert("jpg"@.len() == 3 && "jpg"@[0] == 'j' && "jpg"@[1] == 'p' && "jpg"@[2] == 'g');
        assert("jpeg"@.len() == 4 && "jpeg"@[0] == 'j' && "jpeg"@[1] == 'p' && "jpeg"@[2] == 'e' && "jpeg"@[3] == 'g');
        assert("gif"@.len() == 3 && "gif"@[0] == 'g' && "gif"@[1] == 'i' && "gif"@[2] == 'f');
        assert("webp"@.len() == 4 && "webp"@[0] == 'w' && "webp"@[1] == 'e' && "webp"@[2] == 'b' && "webp"@[3] == 'p');
        assert("mp4"@.len() == 3 && "mp4"@[0] == 'm' && "mp4"@[1] == 'p' && "mp4"@[2] == '4');
        assert("m4v"@.len() == 3 && "m4v"@[0] == 'm' && "m4v"@[1] == '4' && "m4v"@[2] == 'v');
        assert("mov"@.len() == 3 && "mov"@[0] == 'm' && "mov"@[1] == 'o' && "mov"@[2] == 'v');
        assert("webm"@.len() == 4 && "webm"@[0] == 'w' && "webm"@[1] == 'e' && "webm"@[2] == 'b' && "webm"@[3] == 'm');
        assert("ogv"@.len() == 3 && "ogv"@[0] == 'o' && "ogv"@[1] == 'g' && "ogv"@[2] == 'v');
        assert("mp3"@.len() == 3 && "mp3"@[0] == 'm' && "mp3"@[1] == 'p' && "mp3"@[2] == '3');
        assert("flac"@.len() == 4 && "flac"@[0] == 'f' && "flac"@[1] == 'l' && "flac"@[2] == 'a' && "flac"@[3] == 'c');
        assert("wav"@.len() == 3 && "wav"@[0] == 'w' && "wav"@[1] == 'a' && "wav"@[2] == 'v');
        assert("ogg"@.len() == 3 && "ogg"@[0] == 'o' && "ogg"@[1] == 'g' && "ogg"@[2] == 'g');
        assert("opus"@.len() == 4 && "opus"@[0] == 'o' && "opus"@[1] == 'p' && "opus"@[2] == 'u' && "opus"@[3] == 's');
        assert("m4a"@.len() == 3 && "m4a"@[0] == 'm' && "m4a"@[1] == '4' && "m4a"@[2] == 'a');
    }
    assert(e == "flac"@ ==> classification(e, h) == (if h.len() >= 4 && h[0] == 0x66u8 && h[1] == 0x4cu8 && h[2] == 0x61u8 && h[3] == 0x43u8 { Some((ContentKind::Audio, "audio/flac"@)) } else { None })) by {
        reveal_strlit("png");
        reveal_strlit("jpg");
        reveal_strlit("jpeg");
        reveal_strlit("gif");
        reveal_strlit("webp");
        reveal_strlit("mp4");
        reveal_strlit("m4v");
        reveal_strlit("mov");
        reveal_strlit("webm");
        reveal_strlit("ogv");
        reveal_strlit("mp3");
        reveal_strlit("flac");
        reveal_strlit("wav");
        reveal_strlit("ogg");
        reveal_strlit("opus");
        reveal_strlit("m4a");
        assert("png"@.len() == 3 && "png"@[0] == 'p' && "png"@[1] == 'n' && "png"@[2] == 'g');
        assert("jpg"@.len() == 3 && "jpg"@[0] == 'j' && "jpg"@[1] == 'p' && "jpg"@[2] == 'g');
        assert("jpeg"@.len() == 4 && "jpeg"@[0] == 'j' && "jpeg"@[1] == 'p' && "jpeg"@[2] == 'e' && "jpeg"@[3] == 'g');
        assert("gif"@.len() == 3 && "gif"@[0] == 'g' && "gif"@[1] == 'i' && "gif"@[2] == 'f');
        assert("webp"@.len() == 4 && "webp"@[0] == 'w' && "webp"@[1] == 'e' && "webp"@[2] == 'b' && "webp"@[3] == 'p');
        assert("mp4"@.len() == 3 && "mp4"@[0] == 'm' && "mp4"@[1] == 'p' && "mp4"@[2] == '4');
        assert("m4v"@.len() == 3 && "m4v"@[0] == 'm' && "m4v"@[1] == '4' && "m4v"@[2] == 'v');
        assert("mov"@.len() == 3 && "mov"@[0] == 'm' && "mov"@[1] == 'o' && "mov"@[2] == 'v');
        assert("webm"@.len() == 4 && "webm"@[0] == 'w' && "webm"@[1] == 'e' && "webm"@[2] == 'b' && "webm"@[3] == 'm');
        assert("ogv"@.len() == 3 && "ogv"@[0] == 'o' && "ogv"@[1] == 'g' && "ogv"@[2] == 'v');
        assert("mp3"@.len() == 3 && "mp3"@[0] == 'm' && "mp3"@[1] == 'p' && "mp3"@[2] == '3');
        assert("flac"@.len() == 4 && "flac"@[0] == 'f' && "flac"@[1] == 'l' && "flac"@[2] == 'a' && "flac"@[3] == 'c');
        assert("wav"@.len() == 3 && "wav"@[0] == 'w' && "wav"@[1] == 'a' && "wav"@[2] == 'v');
        assert("ogg"@.len() == 3 && "ogg"@[0] == 'o' && "ogg"@[1] == 'g' && "ogg"@[2] == 'g');
        assert("opus"@.len() == 4 && "opus"@[0] == 'o' && "opus"@[1] == 'p' && "opus"@[2] == 'u' && "opus"@[3] == 's');
        assert("m4a"@.len() == 3 && "m4a"@[0] == 'm' && "m4a"@[1] == '4' && "m4a"@[2] == 'a');
    }
    assert(e == "wav"@ ==> classification(e, h) == (if h.len() >= 12 && h[0] == 0x52u8 && h[1] == 0x49u8 && h[2] == 0x46u8 && h[3] == 0x46u8 && h[8] == 0x57u8 && h[9] == 0x41u8 && h[10] == 0x56u8 && h[11] == 0x45u8 { Some((ContentKind::Audio, "audio/wav"@)) } else { None })) by {
        reveal_strlit("png");
        reveal_strlit("jpg");
        reveal_strlit("jpeg");
        reveal_strlit("gif");
        reveal_strlit("webp");
        reveal_strlit("mp4");
        reveal_strlit("m4v");
        reveal_strlit("mov");
        reveal_strlit("webm");
        reveal_strlit("ogv");
        reveal_strlit("mp3");
        reveal_strlit("flac");
        reveal_strlit("wav");
        reveal_strlit("ogg");
        reveal_strlit("opus");
        reveal_strlit("m4a");
        assert("png"@.len() == 3 && "png"@[0] == 'p' && "png"@[1] == 'n' && "png"@[2] == 'g');
        assert("jpg"@.len() == 3 && "jpg"@[0] == 'j' && "jpg"@[1] == 'p' && "jpg"@[2] == 'g');
        assert("jpeg"@.len() == 4 && "jpeg"@[0] == 'j' && "jpeg"@[1] == 'p' && "jpeg"@[2] == 'e' && "jpeg"@[3] == 'g');
        assert("gif"@.len() == 3 && "gif"@[0] == 'g' && "gif"@[1] == 'i' && "gif"@[2] == 'f');
        assert("webp"@.len() == 4 && "webp"@[0] == 'w' && "webp"@[1] == 'e' && "webp"@[2] == 'b' && "webp"@[3] == 'p');
        assert("mp4"@.len() == 3 && "mp4"@[0] == 'm' && "mp4"@[1] == 'p' && "mp4"@[2] == '4');
        assert("m4v"@.len() == 3 && "m4v"@[0] == 'm' && "m4v"@[1] == '4' && "m4v"@[2] == 'v');
        assert("mov"@.len() == 3 && "mov"@[0] == 'm' && "mov"@[1] == 'o' && "mov"@[2] == 'v');
        assert("webm"@.len() == 4 && "webm"@[0] == 'w' && "webm"@[1] == 'e' && "webm"@[2] == 'b' && "webm"@[3] == 'm');
        assert("ogv"@.len() == 3 && "ogv"@[0] == 'o' && "ogv"@[1] == 'g' && "ogv"@[2] == 'v');
        assert("mp3"@.len() == 3 && "mp3"@[0] == 'm' && "mp3"@[1] == 'p' && "mp3"@[2] == '3');
        assert("flac"@.len() == 4 && "flac"@[0] == 'f' && "flac"@[1] == 'l' && "flac"@[2] == 'a' && "flac"@[3] == 'c');
        assert("wav"@.len() == 3 && "wav"@[0] == 'w' && "wav"@[1] == 'a' && "wav"@[2] == 'v');
        assert("ogg"@.len() == 3 && "ogg"@[0] == 'o' && "ogg"@[1] == 'g' && "ogg"@[2] == 'g');
        assert("opus"@.len() == 4 && "opus"@[0] == 'o' && "opus"@[1] == 'p' && "opus"@[2] == 'u' && "opus"@[3] == 's');
        assert("m4a"@.len() == 3 && "m4a"@[0] == 'm' && "m4a"@[1] == '4' && "m4a"@[2] == 'a');
    }
    assert((e == "ogg"@ || e == "opus"@) ==> classification(e, h) == (if h.len() >= 4 && h[0] == 0x4fu8 && h[1] == 0x67u8 && h[2] == 0x67u8 && h[3] == 0x53u8 { Some((ContentKind::Audio, "audio/ogg"@)) } else { None })) by {
        reveal_strlit("png");
        reveal_strlit("jpg");
        reveal_strlit("jpeg");
        reveal_strlit("gif");
        reveal_strlit("webp");
        reveal_strlit("mp4");
        reveal_strlit("m4v");
        reveal_strlit("mov");
        reveal_strlit("webm");
        reveal_strlit("ogv");
        reveal_strlit("mp3");
        reveal_strlit("flac");
        reveal_strlit("wav");
        reveal_strlit("ogg");
        reveal_strlit("opus");
        reveal_strlit("m4a");
        assert("png"@.len() == 3 && "png"@[0] == 'p' && "png"@[1] == 'n' && "png"@[2] == 'g');
        assert("jpg"@.len() == 3 && "jpg"@[0] == 'j' && "jpg"@[1] == 'p' && "jpg"@[2] == 'g');
        assert("jpeg"@.len() == 4 && "jpeg"@[0] == 'j' && "jpeg"@[1] == 'p' && "jpeg"@[2] == 'e' && "jpeg"@[3] == 'g');
        assert("gif"@.len() == 3 && "gif"@[0] == 'g' && "gif"@[1] == 'i' && "gif"@[2] == 'f');
        assert("webp"@.len() == 4 && "webp"@[0] == 'w' && "webp"@[1] == 'e' && "webp"@[2] == 'b' && "webp"@[3] == 'p');
        assert("mp4"@.len() == 3 && "mp4"@[0] == 'm' && "mp4"@[1] == 'p' && "mp4"@[2] == '4');
        assert("m4v"@.len() == 3 && "m4v"@[0] == 'm' && "m4v"@[1] == '4' && "m4v"@[2] == 'v');
        assert("mov"@.len() == 3 && "mov"@[0] == 'm' && "mov"@[1] == 'o' && "mov"@[2] == 'v');
        assert("webm"@.len() == 4 && "webm"@[0] == 'w' && "webm"@[1] == 'e' && "webm"@[2] == 'b' && "webm"@[3] == 'm');
        assert("ogv"@.len() == 3 && "ogv"@[0] == 'o' && "ogv"@[1] == 'g' && "ogv"@[2] == 'v');
        assert("mp3"@.len() == 3 && "mp3"@[0] == 'm' && "mp3"@[1] == 'p' && "mp3"@[2] == '3');
        assert("flac"@.len() == 4 && "flac"@[0] == 'f' && "flac"@[1] == 'l' && "flac"@[2] == 'a' && "flac"@[3] == 'c');
        assert("wav"@.len() == 3 && "wav"@[0] == 'w' && "wav"@[1] == 'a' && "wav"@[2] == 'v');
        assert("ogg"@.len() == 3 && "ogg"@[0] == 'o' && "ogg"@[1] == 'g' && "ogg"@[2] == 'g');
        assert("opus"@.len() == 4 && "opus"@[0] == 'o' && "opus"@[1] == 'p' && "opus"@[2] == 'u' && "opus"@[3] == 's');
        assert("m4a"@.len() == 3 && "m4a"@[0] == 'm' && "m4a"@[1] == '4' && "m4a"@[2] == 'a');
    }
    assert(e == "m4a"@ ==> classification(e, h) == (if h.len() >= 12 && h[4] == 0x66u8 && h[5] == 0x74u8 && h[6] == 0x79u8 && h[7] == 0x70u8 { Some((ContentKind::Audio, "audio/mp4"@)) } else { None })) by {
        reveal_strlit("png");
        reveal_strlit("jpg");
        reveal_strlit("jpeg");
        reveal_strlit("gif");
        reveal_strlit("webp");
        reveal_strlit("mp4");
        reveal_strlit("m4v");
        reveal_strlit("mov");
        reveal_strlit("webm");
        reveal_strlit("ogv");
        reveal_strlit("mp3");
        reveal_strlit("flac");
        reveal_strlit("wav");
        reveal_strlit("ogg");
        reveal_strlit("opus");
        reveal_strlit("m4a");
        assert("png"@.len() == 3 && "png"@[0] == 'p' && "png"@[1] == 'n' && "png"@[2] == 'g');
        assert("jpg"@.len() == 3 && "jpg"@[0] == 'j' && "jpg"@[1] == 'p' && "jpg"@[2] == 'g');
        assert("jpeg"@.len() == 4 && "jpeg"@[0] == 'j' && "jpeg"@[1] == 'p' && "jpeg"@[2] == 'e' && "jpeg"@[3] == 'g');
        assert("gif"@.len() == 3 && "gif"@[0] == 'g' && "gif"@[1] == 'i' && "gif"@[2] == 'f');
        assert("webp"@.len() == 4 && "webp"@[0] == 'w' && "webp"@[1] == 'e' && "webp"@[2] == 'b' && "webp"@[3] == 'p');
        assert("mp4"@.len() == 3 && "mp4"@[0] == 'm' && "mp4"@[1] == 'p' && "mp4"@[2] == '4');
        assert("m4v"@.len() == 3 && "m4v"@[0] == 'm' && "m4v"@[1] == '4' && "m4v"@[2] == 'v');
        assert("mov"@.len() == 3 && "mov"@[0] == 'm' && "mov"@[1] == 'o' && "mov"@[2] == 'v');
        assert("webm"@.len() == 4 && "webm"@[0] == 'w' && "webm"@[1] == 'e' && "webm"@[2] == 'b' && "webm"@[3] == 'm');
        assert("ogv"@.len() == 3 && "ogv"@[0] == 'o' && "ogv"@[1] == 'g' && "ogv"@[2] == 'v');
        assert("mp3"@.len() == 3 && "mp3"@[0] == 'm' && "mp3"@[1] == 'p' && "mp3"@[2] == '3');
        assert("flac"@.len() == 4 && "flac"@[0] == 'f' && "flac"@[1] == 'l' && "flac"@[2] == 'a' && "flac"@[3] == 'c');
        assert("wav"@.len() == 3 && "wav"@[0] == 'w' && "wav"@[1] == 'a' && "wav"@[2] == 'v');
        assert("ogg"@.len() == 3 && "ogg"@[0] == 'o' && "ogg"@[1] == 'g' && "ogg"@[2] == 'g');
        assert("opus"@.len() == 4 && "opus"@[0] == 'o' && "opus"@[1] == 'p' && "opus"@[2] == 'u' && "opus"@[3] == 's');
        assert("m4a"@.len() == 3 && "m4a"@[0] == 'm' && "m4a"@[1] == '4' && "m4a"@[2] == 'a');
    }
    assert(e != "png"@ && e != "jpg"@ && e != "jpeg"@ && e != "gif"@ && e != "webp"@ && e != "mp4"@ && e != "m4v"@ && e != "mov"@ && e != "webm"@ && e != "ogv"@ && e != "mp3"@ && e != "flac"@ && e != "wav"@ && e != "ogg"@ && e != "opus"@ && e != "m4a"@ ==> classification(e, h) is None) by {
        reveal_strlit("png");
        reveal_strlit("jpg");
        reveal_strlit("jpeg");
        reveal_strlit("gif");
        reveal_strlit("webp");
        reveal_strlit("mp4");
        reveal_strlit("m4v");
        reveal_strlit("mov");
        reveal_strlit("webm");
        reveal_strlit("ogv");
        reveal_strlit("mp3");
        reveal_strlit("flac");
        reveal_strlit("wav");
        reveal_strlit("ogg");
        reveal_strlit("opus");
        reveal_strlit("m4a");
        assert("png"@.len() == 3 && "png"@[0] == 'p' && "png"@[1] == 'n' && "png"@[2] == 'g');
        assert("jpg"@.len() == 3 && "jpg"@[0] == 'j' && "jpg"@[1] == 'p' && "jpg"@[2] == 'g');
        assert("jpeg"@.len() == 4 && "jpeg"@[0] == 'j' && "jpeg"@[1] == 'p' && "jpeg"@[2] == 'e' && "jpeg"@[3] == 'g');
        assert("gif"@.len() == 3 && "gif"@[0] == 'g' && "gif"@[1] == 'i' && "gif"@[2] == 'f');
        assert("webp"@.len() == 4 && "webp"@[0] == 'w' && "webp"@[1] == 'e' && "webp"@[2] == 'b' && "webp"@[3] == 'p');
        assert("mp4"@.len() == 3 && "mp4"@[0] == 'm' && "mp4"@[1] == 'p' && "mp4"@[2] == '4');
        assert("m4v"@.len() == 3 && "m4v"@[0] == 'm' && "m4v"@[1] == '4' && "m4v"@[2] == 'v');
        assert("mov"@.len() == 3 && "mov"@[0] == 'm' && "mov"@[1] == 'o' && "mov"@[2] == 'v');
        assert("webm"@.len() == 4 && "webm"@[0] == 'w' && "webm"@[1] == 'e' && "webm"@[2] == 'b' && "webm"@[3] == 'm');
        assert("ogv"@.len() == 3 && "ogv"@[0] == 'o' && "ogv"@[1] == 'g' && "ogv"@[2] == 'v');
        assert("mp3"@.len() == 3 && "mp3"@[0] == 'm' && "mp3"@[1] == 'p' && "mp3"@[2] == '3');
        assert("flac"@.len() == 4 && "flac"@[0] == 'f' && "flac"@[1] == 'l' && "flac"@[2] == 'a' && "flac"@[3] == 'c');
        assert("wav"@.len() == 3 && "wav"@[0] == 'w' && "wav"@[1] == 'a' && "wav"@[2] == 'v');
        assert("ogg"@.len() == 3 && "ogg"@[0] == 'o' && "ogg"@[1] == 'g' && "ogg"@[2] == 'g');
        assert("opus"@.len() == 4 && "opus"@[0] == 'o' && "opus"@[1] == 'p' && "opus"@[2] == 'u' && "opus"@[3] == 's');
        assert("m4a"@.len() == 3 && "m4a"@[0] == 'm' && "m4a"@[1] == '4' && "m4a"@[2] == 'a');
    }
}

/// Classifies a file by the extension of its name and the signature in its header.
pub fn classify_media(file_name: &str, header: &[u8]) -> (r: Option<ClassifiedMedia>)
    ensures
        match r {
            Some(c) => extension_of(file_name@) is Some && classification(ascii_lower_seq(extension_of(file_name@)->0), header@) == Some((c.content_kind, c.mime@)),
            None => extension_of(file_name@) is None || classification(ascii_lower_seq(extension_of(file_name@)->0), header@) is None,
        },
{
    let raw = match file_extension(file_name) {
        Some(e) => e,
        None => return None,
    };
    let lowered = to_ascii_lowercase(raw.as_str());
    let e = chars_of(lowered.as_str());
    let png = bytes_start_with(header, vec![0x89u8, 0x50u8, 0x4eu8, 0x47u8, 0x0du8, 0x0au8, 0x1au8, 0x0au8]);
    let jpeg = bytes_start_with(header, vec![0xffu8, 0xd8u8, 0xffu8]);
    let gif = bytes_start_with(header, vec![0x47u8, 0x49u8, 0x46u8, 0x38u8, 0x37u8, 0x61u8]) || bytes_start_with(header, vec![0x47u8, 0x49u8, 0x46u8, 0x38u8, 0x39u8, 0x61u8]);
    let long = header.len() >= 12;
    let riff = long && bytes_at(header, 0, vec![0x52u8, 0x49u8, 0x46u8, 0x46u8]);
    let webp = riff && bytes_at(header, 8, vec![0x57u8, 0x45u8, 0x42u8, 0x50u8]);
    let wave = riff && bytes_at(header, 8, vec![0x57u8, 0x41u8, 0x56u8, 0x45u8]);
    let mp4 = long && bytes_at(header, 4, vec![0x66u8, 0x74u8, 0x79u8, 0x70u8]);
    let webm = bytes_start_with(header, vec![0x1au8, 0x45u8, 0xdfu8, 0xa3u8]);
    let ogg = bytes_start_with(header, vec![0x4fu8, 0x67u8, 0x67u8, 0x53u8]);
    let mp3 = bytes_start_with(header, vec![0x49u8, 0x44u8, 0x33u8]) || (header.len() >= 2 && header[0] == 0xffu8 && (header[1] & 0xe0u8) == 0xe0u8);
    let flac = bytes_start_with(header, vec![0x66u8, 0x4cu8, 0x61u8, 0x43u8]);
    let (kind, mime): (ContentKind, &'static str) = if equals_str(&e, "png") && png {
        (ContentKind::Image, "image/png")
    } else if (equals_str(&e, "jpg") || equals_str(&e, "jpeg")) && jpeg {
        (ContentKind::Image, "image/jpeg")
    } else if equals_str(&e, "gif") && gif {
        (ContentKind::Image, "image/gif")
    } else if equals_str(&e, "webp") && webp {
        (ContentKind::Image, "image/webp")
    } else if (equals_str(&e, "mp4") || equals_str(&e, "m4v") || equals_str(&e, "mov")) && mp4 {
        (ContentKind::Video, if equals_str(&e, "mov") { "video/quicktime" } else { "video/mp4" })
    } else if equals_str(&e, "webm") && webm {
        (ContentKind::Video, "video/webm")
    } else if equals_str(&e, "ogv") && ogg {
        (ContentKind::Video, "video/ogg")
    } else if equals_str(&e, "mp3") && mp3 {
        (ContentKind::Audio, "audio/mpeg")
    } else if equals_str(&e, "flac") && flac {
        (ContentKind::Audio, "audio/flac")
    } else if equals_str(&e, "wav") && wave {
        (ContentKind::Audio, "audio/wav")
    } else if (equals_str(&e, "ogg") || equals_str(&e, "opus")) && ogg {
        (ContentKind::Audio, "audio/ogg")
    } else if equals_str(&e, "m4a") && mp4 {
        (ContentKind::Audio, "audio/mp4")
    } else {
        return None;
    };
    Some(ClassifiedMedia { content_kind: kind, mime })
}

/// The byte range actually served for a request: the end is capped so that at most
/// `MAX_MEDIA_RESPONSE_BYTES` bytes are sent from `start`.
pub open spec fn capped_end(start: u64, requested_end: u64) -> u64 {
    let max_end: int = if start + (MAX_MEDIA_RESPONSE_BYTES - 1) > u64::MAX {
        u64::MAX as int
    } else {
        start + (MAX_MEDIA_RESPONSE_BYTES - 1)
    };
    if requested_end <= max_end {
        requested_end
    } else {
        max_end as u64
    }
}

/// Caps a byte range to the streaming budget.
pub fn cap_range(start: u64, requested_end: u64) -> (r: (u64, u64))
    ensures
        r == (start, capped_end(start, requested_end)),
{
    let max_end = start.saturating_add(MAX_MEDIA_RESPONSE_BYTES - 1);
    (start, if requested_end <= max_end { requested_end } else { max_end })
}

/// The range an HTTP `Range` value selects in a file of `total` bytes: a single
/// `bytes=start-end`, `bytes=start-` or `bytes=-suffix`, clamped to the file; `None`
/// when it is malformed, lists several ranges, or selects nothing.
pub open spec fn range_outcome(v: Seq<char>, total: u64) -> Option<(u64, u64)> {
    if !"bytes="@.is_prefix_of(v) {
        None
    } else {
        let r = v.subrange("bytes="@.len() as int, v.len() as int);
        if r.contains(',') || total == 0 {
            None
        } else {
            match first_index_of(r, '-') {
                None => None,
                Some(i) => {
                    let a = r.subrange(0, i);
                    let b = r.subrange(i + 1, r.len() as int);
                    if a.len() == 0 {
                        match u64_text_value(b) {
                            None => None,
                            Some(suffix) => if suffix == 0 {
                                None
                            } else {
                                let s = if suffix <= total { suffix } else { total };
                                Some(((total - s) as u64, (total - 1) as u64))
                            },
                        }
                    } else {
                        match u64_text_value(a) {
                            None => None,
                            Some(start) => if start >= total {
                                None
                            } else if b.len() == 0 {
                                Some((start, (total - 1) as u64))
                            } else {
                                match u64_text_value(b) {
                                    None => None,
                                    Some(e) => {
                                        let end: u64 = if e <= total - 1 { e } else { (total - 1) as u64 };
                                        if end < start {
                                            None
                                        } else {
                                            Some((start, end))
                                        }
                                    },
                                }
                            },
                        }
                    }
                },
            }
        }
    }
}

proof fn lemma_first_dash(r: Seq<char>, i: int)
    requires
        0 <= i < r.len(),
        r[i] == '-',
        forall|j: int| 0 <= j < i ==> r[j] != '-',
    ensures
        first_index_of(r, '-') == Some(i),
{
    assert(r.contains('-'));
    let k = choose|k: int| 0 <= k < r.len() && r[k] == '-' && forall|j: int| 0 <= j < k ==> r[j] != '-';
    if k < i {
        assert(r[k] != '-');
    }
    if k > i {
        assert(r[i] != '-');
    }
}

proof fn lemma_decimal_plain(n: nat)
    ensures
        decimal(n).len() > 0,
        forall|j: int| 0 <= j < decimal(n).len() ==> #[trigger] decimal(n)[j] != '-' && decimal(n)[j] != ',',
{
    lemma_decimal_reads_back(n);
    assert forall|j: int| 0 <= j < decimal(n).len() implies #[trigger] decimal(n)[j] != '-' && decimal(n)[j] != ',' by {
        assert(is_digit(decimal(n)[j]));
    }
}

/// Every range a `Range` value selects lies inside the file and is not empty.
pub proof fn law_selected_range_is_inside_the_file(v: Seq<char>, total: u64)
    ensures
        range_outcome(v, total) matches Some((s, e)) ==> s <= e && e < total,
{
}

/// A suffix range `bytes=-N` with `N > 0` selects the last `N` bytes of a non-empty file,
/// or the whole file when it is shorter than `N`.
pub proof fn law_suffix_range_selects_the_tail(n: u64, total: u64)
    requires
        n > 0,
        total > 0,
    ensures
        range_outcome("bytes=-"@ + decimal(n as nat), total)
            == Some(((total - (if n <= total { n } else { total })) as u64, (total - 1) as u64)),
{
    reveal_strlit("bytes=");
    reveal_strlit("bytes=-");
    let d = decimal(n as nat);
    let v = "bytes=-"@ + d;
    lemma_decimal_plain(n as nat);
    lemma_u64_text_value_of_decimal(n);
    assert(v.subrange(0, 6) =~= "bytes="@);
    let r = v.subrange(6, v.len() as int);
    assert(r =~= seq!['-'] + d);
    assert(!r.contains(',')) by {
        if r.contains(',') {
            let j = choose|j: int| 0 <= j < r.len() && r[j] == ',';
            if j > 0 {
                assert(r[j] == d[j - 1]);
            }
        }
    }
    lemma_first_dash(r, 0);
    assert(r.subrange(0, 0).len() == 0);
    assert(r.subrange(1, r.len() as int) =~= d);
}

/// A range `bytes=A-B` with `A` inside the file and `B >= A` selects from `A` to `B`,
/// cut at the end of the file; `bytes=A-` selects from `A` to the end; a start at or
/// past the end selects nothing.
pub proof fn law_explicit_range_selects_from_its_start(a: u64, b: u64, total: u64)
    ensures
        a < total && a <= b ==> range_outcome("bytes="@ + decimal(a as nat) + "-"@ + decimal(b as nat), total)
            == Some((a, if b < total { b } else { (total - 1) as u64 })),
        a < total ==> range_outcome("bytes="@ + decimal(a as nat) + "-"@, total) == Some((a, (total - 1) as u64)),
        a >= total ==> range_outcome("bytes="@ + decimal(a as nat) + "-"@ + decimal(b as nat), total) is None,
        a >= total ==> range_outcome("bytes="@ + decimal(a as nat) + "-"@, total) is None,
{
    reveal_strlit("bytes=");
    reveal_strlit("-");
    let da = decimal(a as nat);
    let db = decimal(b as nat);
    lemma_decimal_plain(a as nat);
    lemma_decimal_plain(b as nat);
    lemma_u64_text_value_of_decimal(a);
    lemma_u64_text_value_of_decimal(b);
    let n = da.len() as int;
    let v1 = "bytes="@ + da + "-"@ + db;
    let v2 = "bytes="@ + da + "-"@;
    assert(v1.subrange(0, 6) =~= "bytes="@);
    assert(v2.subrange(0, 6) =~= "bytes="@);
    let r1 = v1.subrange(6, v1.len() as int);
    let r2 = v2.subrange(6, v2.len() as int);
    assert(r1 =~= da + seq!['-'] + db);
    assert(r2 =~= da + seq!['-']);
    if total > 0 {
        assert(!r1.contains(',')) by {
            if r1.contains(',') {
                let j = choose|j: int| 0 <= j < r1.len() && r1[j] == ',';
                if j < n {
                    assert(r1[j] == da[j]);
                } else if j > n {
                    assert(r1[j] == db[j - n - 1]);
                }
            }
        }
        assert(!r2.contains(',')) by {
            if r2.contains(',') {
                let j = choose|j: int| 0 <= j < r2.len() && r2[j] == ',';
                if j < n {
                    assert(r2[j] == da[j]);
                }
            }
        }
        assert forall|j: int| 0 <= j < n implies r1[j] != '-' by {
            assert(r1[j] == da[j]);
        }
        assert forall|j: int| 0 <= j < n implies r2[j] != '-' by {
            assert(r2[j] == da[j]);
        }
        lemma_first_dash(r1, n);
        lemma_first_dash(r2, n);
        assert(r1.subrange(0, n) =~= da);
        assert(r1.subrange(n + 1, r1.len() as int) =~= db);
        assert(r2.subrange(0, n) =~= da);
        assert(r2.subrange(n + 1, r2.len() as int).len() == 0);
    }
}

/// Parses an HTTP `Range` value against a file of `total` bytes.
pub fn parse_range(value: &str, total: u64) -> (r: Result<(u64, u64), ()>)
    ensures
        match r {
            Ok(range) => range_outcome(value@, total) == Some(range),
            Err(()) => range_outcome(value@, total) is None,
        },
{
    let v = chars_of(value);
    if !starts_with_str(&v, "bytes=") {
        return Err(());
    }
    let p = chars_of("bytes=");
    let from = p.len();
    let ghost r = v@.subrange(from as int, v@.len() as int);
    let rest = crate::text::string_from_range(&v, from, v.len());
    let rv = chars_of(rest.as_str());
    if contains_char(&rv, ',') || total == 0 {
        return Err(());
    }
    let mut i: usize = 0;
    while i < rv.len() && rv[i] != '-'
        invariant
            i <= rv@.len(),
            forall|j: int| 0 <= j < i ==> rv@[j] != '-',
        decreases rv@.len() - i,
    {
        i += 1;
    }
    if i == rv.len() {
        assert(!rv@.contains('-')) by {
            if rv@.contains('-') {
                let j = choose|j: int| 0 <= j < rv@.len() && rv@[j] == '-';
                assert(rv@[j] != '-');
            }
        }
        return Err(());
    }
    proof {
        assert(rv@[i as int] == '-');
        assert(rv@.contains('-'));
        let c = choose|c: int| 0 <= c < rv@.len() && rv@[c] == '-' && forall|j: int| 0 <= j < c ==> rv@[j] != '-';
        assert(c == i) by {
            if c < i {
                assert(rv@[c] != '-');
            }
            if i < c {
                assert(rv@[i as int] != '-');
            }
        }
    }
    if i == 0 {
        let suffix = match parse_u64(&rv, 1, rv.len()) {
            Some(n) => n,
            None => return Err(()),
        };
        if suffix == 0 {
            return Err(());
        }
        let s = if suffix <= total { suffix } else { total };
        return Ok((total - s, total - 1));
    }
    let start = match parse_u64(&rv, 0, i) {
        Some(n) => n,
        None => return Err(()),
    };
    if start >= total {
        return Err(());
    }
    let end = if i + 1 == rv.len() {
        total - 1
    } else {
        match parse_u64(&rv, i + 1, rv.len()) {
            Some(e) => if e <= total - 1 { e } else { total - 1 },
            None => return Err(()),
        }
    };
    if end < start {
        return Err(());
    }
    Ok((start, end))
}

/// The part of a file a content request is served: its bounds, whether the answer is
/// partial, and its length.
#[derive(Clone, Copy, Debug, PartialEq, Eq)]
pub struct ContentRange {
    pub start: u64,
    pub end: u64,
    pub partial: bool,
    pub length: u64,
}

/// The range a content request selects before capping: the requested range, or the
/// whole image, or the first `MAX_MEDIA_RESPONSE_BYTES` bytes of audio or video.
pub open spec fn selected_range(explicit: Option<Seq<char>>, total: u64, kind: ContentKind) -> Option<(u64, u64)> {
    match explicit {
        Some(v) => range_outcome(v, total),
        None => if kind == ContentKind::Image {
            Some((0, (total - 1) as u64))
        } else {
            let last: int = if total == 0 { 0 } else { total - 1 };
            Some((0, if last <= MAX_MEDIA_RESPONSE_BYTES - 1 { last as u64 } else { (MAX_MEDIA_RESPONSE_BYTES - 1) as u64 }))
        },
    }
}

/// Chooses what a content request is served, or `Err` for an unsatisfiable range.
pub fn select_content_range(explicit: Option<&str>, total: u64, kind: ContentKind) -> (r: Result<ContentRange, ()>)
    requires
        !(explicit is None && kind == ContentKind::Image && total == 0),
    ensures
        match selected_range(
            match explicit {
                Some(v) => Some(v@),
                None => None,
            },
            total,
            kind,
        ) {
            None => r is Err,
            Some((s, e)) => r is Ok && r->Ok_0.start == s && r->Ok_0.end == capped_end(s, e)
                && r->Ok_0.partial == (explicit is Some || capped_end(s, e) + 1 < total)
                && r->Ok_0.length == capped_end(s, e) - s + 1,
        },
{
    let selection = match explicit {
        Some(v) => match parse_range(v, total) {
            Ok(range) => range,
            Err(()) => return Err(()),
        },
        None => if kind == ContentKind::Image {
            (0, total - 1)
        } else {
            let last = total.saturating_sub(1);
            (0, if last <= MAX_MEDIA_RESPONSE_BYTES - 1 { last } else { MAX_MEDIA_RESPONSE_BYTES - 1 })
        },
    };
    let capped = cap_range(selection.0, selection.1);
    let partial = explicit.is_some() || capped.1 + 1 < total;
    Ok(ContentRange { start: capped.0, end: capped.1, partial, length: capped.1 - capped.0 + 1 })
}

/// The `Content-Range` value of a partial answer: `bytes start-end/total`.
pub fn content_range_value(start: u64, end: u64, total: u64) -> (s: String)
    ensures
        s@ == "bytes "@ + decimal(start as nat) + "-"@ + decimal(end as nat) + "/"@ + decimal(total as nat),
{
    let mut s = String::from_str("bytes ");
    s.append(u64_to_decimal(start).as_str());
    s.append("-");
    s.append(u64_to_decimal(end).as_str());
    s.append("/");
    s.append(u64_to_decimal(total).as_str());
    s
}

/// The view path of a media token: `/<token>/view`.
pub open spec fn view_path(token: Seq<char>) -> Seq<char> {
    "/"@ + token + "/view"@
}

/// A navigation a media window may perform: its own view page, on the custom scheme,
/// the WebView2 host, or the loopback server, or `about:blank`; never with a query or
/// fragment.
pub open spec fn presentation_navigation_ok(text: Seq<char>, token: Seq<char>) -> bool {
    let scheme = url_scheme(text);
    let host = url_host_str(text);
    let on_view = url_path(text) == view_path(token);
    let custom = scheme == MEDIA_SCHEME@ && host == Some("localhost"@) && on_view;
    let webview2 = (scheme == "http"@ || scheme == "https"@) && host == Some(MEDIA_SCHEME@ + ".localhost"@) && on_view;
    let loopback = scheme == "http"@ && host == Some("127.0.0.1"@) && on_view;
    (custom || webview2 || loopback || url_serialization(text) == "about:blank"@) && url_query(text) is None && url_fragment(text) is None
}

fn opt_is(o: &Option<String>, t: &str) -> (b: bool)
    ensures
        b == (match o {
            Some(s) => s@ == t@,
            None => false,
        }),
{
    match o {
        Some(s) => crate::text::str_eq(s.as_str(), t),
        None => false,
    }
}

/// Whether a media window may navigate to `url`.
pub fn validate_presentation_navigation(url: &WebUrl, token: &str) -> (b: bool)
    ensures
        b == presentation_navigation_ok(url@, token@),
{
    let scheme = url.scheme();
    let host = url.host_str();
    let path = url.path();
    let mut expected = String::from_str("/");
    expected.append(token);
    expected.append("/view");
    let on_view = crate::text::str_eq(path.as_str(), expected.as_str());
    let mut webview_host = String::from_str(MEDIA_SCHEME);
    webview_host.append(".localhost");
    let custom = crate::text::str_eq(scheme.as_str(), MEDIA_SCHEME) && opt_is(&host, "localhost") && on_view;
    let webview2 = (crate::text::str_eq(scheme.as_str(), "http") || crate::text::str_eq(scheme.as_str(), "https")) && opt_is(&host, webview_host.as_str()) && on_view;
    let loopback = crate::text::str_eq(scheme.as_str(), "http") && opt_is(&host, "127.0.0.1") && on_view;
    let blank = crate::text::str_eq(url.as_string().as_str(), "about:blank");
    (custom || webview2 || loopback || blank) && url.query().is_none() && url.fragment().is_none()
}

pub const IMAGE_PAGE: &'static str = r#"<!doctype html><html><head><meta charset="utf-8"><meta name="viewport" content="width=device-width,initial-scale=1"><title>Portus Window</title><style>html,body{margin:0;width:100%;height:100%;background:#111;overflow:hidden}body{display:flex;align-items:center;justify-content:center}img{max-width:100%;max-height:100%;object-fit:contain}</style></head><body><img src="content" alt="Local image"></body></html>"#;

pub const VIDEO_PAGE: &'static str = r#"<!doctype html><html><head><meta charset="utf-8"><meta name="viewport" content="width=device-width,initial-scale=1"><title>Portus Window</title><style>
html,body{margin:0;width:100%;height:100%;background:#000;overflow:hidden}body{display:flex;align-items:center;justify-content:center}.video-wrap{position:relative;width:100%;height:100%}video{width:100%;height:100%;object-fit:contain}.video-play{position:absolute;left:50%;top:50%;transform:translate(-50%,-50%);width:64px;height:64px;padding:0;border:0;border-radius:50%;display:flex;align-items:center;justify-content:center;background:rgba(0,0,0,.65);color:#fff;cursor:pointer;z-index:2}.video-play:hover{background:rgba(0,0,0,.8)}.video-play svg{width:30px;height:30px;display:block;fill:none;stroke:currentColor;stroke-width:2;stroke-linecap:round;stroke-linejoin:round}.video-controls{position:absolute;left:12px;right:12px;bottom:12px;display:flex;align-items:center;gap:10px;padding:8px 10px;border-radius:8px;background:rgba(0,0,0,.72);color:#fff;z-index:3;transition:opacity .15s ease}.video-wrap.controls-hidden .video-controls{opacity:0;pointer-events:none}.video-wrap.controls-hidden .video-play{opacity:0;pointer-events:none}.video-transport,.video-volume,.video-fullscreen{width:36px;height:36px;flex:0 0 36px;padding:0;border:0;border-radius:6px;display:inline-flex;align-items:center;justify-content:center;background:transparent;color:#fff;cursor:pointer}.video-transport:hover,.video-volume:hover,.video-fullscreen:hover{background:rgba(255,255,255,.14)}.video-transport svg,.video-volume svg,.video-fullscreen svg{width:20px;height:20px;display:block;fill:none;stroke:currentColor;stroke-width:2;stroke-linecap:round;stroke-linejoin:round}.video-timeline{flex:1;min-width:80px;height:5px;appearance:none;-webkit-appearance:none;background:transparent;cursor:pointer}.video-timeline::-webkit-slider-runnable-track{height:5px;background:linear-gradient(to right,#fff var(--progress,0%),#444 var(--progress,0%))}.video-timeline::-webkit-slider-thumb{appearance:none;-webkit-appearance:none;width:12px;height:12px;margin-top:-3.5px;border:0;border-radius:50%;background:#fff;cursor:pointer}.video-time{min-width:92px;text-align:center;font:13px/1 sans-serif;color:#ddd;white-space:nowrap}.video-volume-range{width:90px;height:5px;accent-color:#fff;cursor:pointer}.sr-only{position:absolute;width:1px;height:1px;padding:0;margin:-1px;overflow:hidden;clip:rect(0,0,0,0);white-space:nowrap;border:0}</style></head><body><div class="video-wrap"><video id="portus-media-player" src="content" preload="metadata"></video><button id="portus-video-play-center" class="video-play" type="button" aria-label="Play"><svg viewBox="0 0 24 24" aria-hidden="true"><path d="M8 5v14l11-7z"></path></svg></button><div class="video-controls"><button id="portus-video-toggle" class="video-transport" type="button" aria-label="Play"><svg viewBox="0 0 24 24" aria-hidden="true"><path id="portus-video-toggle-icon" d="M8 5v14l11-7z"></path></svg></button><label class="sr-only" for="portus-video-timeline">Seek</label><input id="portus-video-timeline" class="video-timeline" type="range" min="0" max="0" step="0.1" value="0" aria-valuetext="0:00 of 0:00"><span id="portus-video-time" class="video-time" aria-live="off">0:00 / 0:00</span><button id="portus-video-volume" class="video-volume" type="button" aria-label="Mute"><svg viewBox="0 0 24 24" aria-hidden="true"><path id="portus-video-volume-icon" d="M11 5 6 9H3v6h3l5 4zM15.5 8.5a5 5 0 0 1 0 7M18 5.5a9 9 0 0 1 0 13"></path></svg></button><label class="sr-only" for="portus-video-volume-range">Volume</label><input id="portus-video-volume-range" class="video-volume-range" type="range" min="0" max="1" step="0.01" value="1" aria-label="Volume"><button id="portus-video-fullscreen" class="video-fullscreen" type="button" aria-label="Fullscreen"><svg viewBox="0 0 24 24" aria-hidden="true"><path d="M8 3H5a2 2 0 0 0-2 2v3M16 3h3a2 2 0 0 1 2 2v3M8 21H5a2 2 0 0 1-2-2v-3M16 21h3a2 2 0 0 0 2-2v-3"></path></svg></button></div></div><script>
var wrap=document.querySelector('.video-wrap');var media=document.getElementById('portus-media-player');var center=document.getElementById('portus-video-play-center');var toggle=document.getElementById('portus-video-toggle');var toggleIcon=document.getElementById('portus-video-toggle-icon');var timeline=document.getElementById('portus-video-timeline');var time=document.getElementById('portus-video-time');var volumeButton=document.getElementById('portus-video-volume');var volumeIcon=document.getElementById('portus-video-volume-icon');var volumeRange=document.getElementById('portus-video-volume-range');var fullscreen=document.getElementById('portus-video-fullscreen');var hideTimer=null;function showControls(){wrap.classList.remove('controls-hidden');if(hideTimer)clearTimeout(hideTimer);hideTimer=null;if(!media.paused&&!media.ended){hideTimer=setTimeout(function(){wrap.classList.add('controls-hidden');},2000);}}function scheduleHide(){showControls();}function formatTime(value){if(!isFinite(value)||value<0)return '0:00';var seconds=Math.floor(value);var hours=Math.floor(seconds/3600);seconds%=3600;var minutes=Math.floor(seconds/60);seconds%=60;return (hours?hours+':':'')+('0'+minutes).slice(-2)+':'+('0'+seconds).slice(-2);}function sync(){var duration=isFinite(media.duration)&&media.duration>=0?media.duration:0;var position=isFinite(media.currentTime)&&media.currentTime>=0?media.currentTime:0;timeline.max=String(duration);timeline.value=String(duration?Math.min(position,duration):0);timeline.style.setProperty('--progress',(duration?Math.min(position,duration)/duration*100:0)+'%');timeline.setAttribute('aria-valuetext',formatTime(position)+' of '+formatTime(duration));time.textContent=formatTime(position)+' / '+formatTime(duration);var paused=media.paused||media.ended;toggleIcon.setAttribute('d',paused?'M8 5v14l11-7z':'M7 5v14M17 5v14');toggle.setAttribute('aria-label',paused?'Play':'Pause');center.style.display=paused?'flex':'none';toggleIcon.setAttribute('fill','none');var muted=media.muted||media.volume===0;volumeButton.setAttribute('aria-label',muted?'Unmute':'Mute');volumeIcon.setAttribute('d',muted?'M11 5 6 9H3v6h3l5 4zM17 9l4 6M21 9l-4 6':'M11 5 6 9H3v6h3l5 4zM15.5 8.5a5 5 0 0 1 0 7M18 5.5a9 9 0 0 1 0 13');volumeRange.value=String(media.muted?0:media.volume);}function togglePlayback(){if(media.paused||media.ended){media.play();}else{media.pause();}showControls();}wrap.addEventListener('pointermove',scheduleHide);wrap.addEventListener('pointerdown',showControls);media.addEventListener('click',function(event){if(event.target===media){togglePlayback();}});center.addEventListener('click',togglePlayback);toggle.addEventListener('click',togglePlayback);timeline.addEventListener('input',function(){var duration=isFinite(media.duration)?media.duration:0;var value=Number(timeline.value);if(duration>0&&isFinite(value))media.currentTime=Math.min(Math.max(value,0),duration);sync();showControls();});volumeButton.addEventListener('click',function(){media.muted=!media.muted;sync();showControls();});volumeRange.addEventListener('input',function(){var value=Math.min(1,Math.max(0,Number(volumeRange.value)));media.volume=value;media.muted=value===0;sync();showControls();});fullscreen.addEventListener('click',function(){showControls();window.location.href='portus-window-action://fullscreen';});media.addEventListener('volumechange',sync);['loadedmetadata','durationchange','timeupdate','play','pause','ended'].forEach(function(event){media.addEventListener(event,sync);});sync();</script></body></html>"#;

pub const AUDIO_PAGE: &'static str = r#"<!doctype html><html><head><meta charset="utf-8"><meta name="viewport" content="width=device-width,initial-scale=1"><title>Portus Window</title><style>html,body{margin:0;width:100%;height:100%;background:#111;color:#eee}body{display:flex;align-items:center;justify-content:center}.player{width:90vw;max-width:720px;padding:20px;box-sizing:border-box;border:1px solid #333;border-radius:10px;background:#181818}.controls{display:flex;align-items:center;gap:12px}.transport{width:42px;height:34px;padding:0;display:inline-flex;align-items:center;justify-content:center;border:0;border-radius:6px;background:transparent;color:#eee;cursor:pointer}.transport:hover{background:#2a2a2a}.transport svg{width:18px;height:18px;display:block;fill:none;stroke:currentColor;stroke-width:2;stroke-linecap:round;stroke-linejoin:round}.timeline{flex:1;height:6px;cursor:pointer}.time{min-width:92px;text-align:right;font-size:13px;color:#ccc}.sr-only{position:absolute;width:1px;height:1px;padding:0;margin:-1px;overflow:hidden;clip:rect(0,0,0,0);white-space:nowrap;border:0}</style></head><body><main class="player"><audio id="portus-media-player" src="content" preload="metadata"></audio><div class="controls"><button id="portus-media-toggle" class="transport" type="button" aria-label="Play"><svg id="portus-media-icon" viewBox="0 0 24 24" aria-hidden="true"><path d="M8 5v14l11-7z"></path></svg></button><label class="sr-only" for="portus-media-timeline">Seek</label><input id="portus-media-timeline" class="timeline" type="range" min="0" max="0" step="0.1" value="0" aria-valuetext="0:00 of 0:00"><span id="portus-media-time" class="time" aria-live="off">0:00 / 0:00</span></div></main><script>var media=document.getElementById('portus-media-player');var toggle=document.getElementById('portus-media-toggle');var timeline=document.getElementById('portus-media-timeline');var time=document.getElementById('portus-media-time');var icon=document.getElementById('portus-media-icon');function formatTime(value){if(!isFinite(value)||value<0)return '0:00';var seconds=Math.floor(value);var minutes=Math.floor(seconds/60);return minutes+':'+('0'+(seconds%60)).slice(-2);}function sync(){var duration=isFinite(media.duration)&&media.duration>=0?media.duration:0;var position=isFinite(media.currentTime)&&media.currentTime>=0?Math.min(media.currentTime,duration||media.currentTime):0;timeline.max=String(duration);timeline.value=String(Math.min(position,duration||position));timeline.setAttribute('aria-valuetext',formatTime(position)+' of '+formatTime(duration));time.textContent=formatTime(position)+' / '+formatTime(duration);var paused=media.paused||media.ended;icon.innerHTML=paused?'<path d="M8 5v14l11-7z"></path>':'<path d="M7 5v14M17 5v14"></path>';toggle.setAttribute('aria-label',paused?'Play':'Pause');}toggle.addEventListener('click',function(){if(media.paused||media.ended){media.play();}else{media.pause();}});timeline.addEventListener('input',function(){var duration=isFinite(media.duration)?media.duration:0;var value=Number(timeline.value);if(duration>0&&isFinite(value)){media.currentTime=Math.min(Math.max(value,0),duration);sync();}});['loadedmetadata','durationchange','timeupdate','play','pause','ended'].forEach(function(event){media.addEventListener(event,sync);});sync();</script></body></html>"#;

/// The page that presents audio, with its own timeline driven by the media state.
pub fn audio_presentation_html() -> (html: &'static str)
    ensures
        html@ == AUDIO_PAGE@,
{
    AUDIO_PAGE
}

/// The page that presents a kind of media; web content has none.
pub fn presentation_html(kind: ContentKind) -> (html: &'static str)
    ensures
        html@ == match kind {
            ContentKind::Image => IMAGE_PAGE@,
            ContentKind::Video => VIDEO_PAGE@,
            ContentKind::Audio => AUDIO_PAGE@,
            ContentKind::Web => ""@,
        },
{
    match kind {
        ContentKind::Image => IMAGE_PAGE,
        ContentKind::Video => VIDEO_PAGE,
        ContentKind::Audio => audio_presentation_html(),
        ContentKind::Web => "",
    }
}

/// The message of a media error.
pub open spec fn admission_message(e: MediaAdmissionError) -> Seq<char> {
    match e {
        MediaAdmissionError::Validation(m) => m@,
        MediaAdmissionError::Io(m) => m@,
    }
}

/// Checks the path a local-media request names: trimmed, it must not be empty and must
/// fit `MAX_SOURCE_BYTES` bytes. Gives the trimmed path.
pub fn validate_requested_path(path: &str) -> (r: Result<String, MediaAdmissionError>)
    ensures
        match r {
            Ok(p) => p@ == trim(path@) && trim(path@).len() > 0 && utf8_len(trim(path@)) <= MAX_SOURCE_BYTES,
            Err(e) => e is Validation && if trim(path@).len() == 0 {
                admission_message(e) == "local media path must not be empty"@
            } else {
                utf8_len(trim(path@)) > MAX_SOURCE_BYTES
                    && admission_message(e) == "local media path must be at most 4096 UTF-8 bytes"@
            },
        },
{
    let trimmed = trim_str(path);
    let v = chars_of(trimmed.as_str());
    if v.len() == 0 {
        return Err(MediaAdmissionError::Validation(String::from_str("local media path must not be empty")));
    }
    if utf8_len_exceeds(&v, MAX_SOURCE_BYTES) {
        return Err(MediaAdmissionError::Validation(String::from_str("local media path must be at most 4096 UTF-8 bytes")));
    }
    Ok(trimmed)
}

/// Decides admission of an opened regular file of `len` bytes that was classified as
/// `classified`: it must not be empty, must be a recognized passive format, and an image
/// must fit `MAX_IMAGE_BYTES`.
pub fn check_admission(len: u64, classified: Option<ClassifiedMedia>) -> (r: Result<ClassifiedMedia, MediaAdmissionError>)
    ensures
        match r {
            Ok(c) => len > 0 && classified == Some(c) && !(c.content_kind == ContentKind::Image && len > MAX_IMAGE_BYTES),
            Err(e) => e is Validation && if len == 0 {
                admission_message(e) == "local media file must not be empty"@
            } else if classified is None {
                admission_message(e)
                    == "local file is not an allowlisted passive image/audio/video format or its signature does not match its extension"@
            } else {
                classified->0.content_kind == ContentKind::Image && len > MAX_IMAGE_BYTES
                    && admission_message(e) == "local image exceeds the 67108864-byte presentation limit"@
            },
        },
{
    if len == 0 {
        return Err(MediaAdmissionError::Validation(String::from_str("local media file must not be empty")));
    }
    let c = match classified {
        Some(c) => c,
        None => return Err(MediaAdmissionError::Validation(String::from_str("local file is not an allowlisted passive image/audio/video format or its signature does not match its extension"))),
    };
    if c.content_kind == ContentKind::Image && len > MAX_IMAGE_BYTES {
        return Err(MediaAdmissionError::Validation(String::from_str("local image exceeds the 67108864-byte presentation limit")));
    }
    Ok(c)
}

/// `s` without its leading `c` characters.
pub open spec fn drop_leading(s: Seq<char>, c: char) -> Seq<char>
    decreases s.len(),
{
    if s.len() > 0 && s[0] == c {
        drop_leading(s.drop_first(), c)
    } else {
        s
    }
}

/// The token and route of a media request path: leading slashes dropped, exactly two
/// `/`-separated segments, the first not empty.
pub open spec fn media_path_parts(path: Seq<char>) -> Option<(Seq<char>, Seq<char>)> {
    let p = drop_leading(path, '/');
    match first_index_of(p, '/') {
        None => None,
        Some(i) => {
            let token = p.subrange(0, i);
            let route = p.subrange(i + 1, p.len() as int);
            if token.len() == 0 || route.contains('/') {
                None
            } else {
                Some((token, route))
            }
        },
    }
}

/// Splits a media request path into its token and route.
pub fn split_media_path(path: &str) -> (r: Option<(String, String)>)
    ensures
        match r {
            Some((t, route)) => media_path_parts(path@) == Some((t@, route@)),
            None => media_path_parts(path@) is None,
        },
{
    let v = chars_of(path);
    let mut a: usize = 0;
    assert(v@.subrange(0, v@.len() as int) =~= v@);
    while a < v.len() && v[a] == '/'
        invariant
            a <= v@.len(),
            drop_leading(v@, '/') == drop_leading(v@.subrange(a as int, v@.len() as int), '/'),
        decreases v@.len() - a,
    {
        assert(v@.subrange(a as int, v@.len() as int).drop_first() =~= v@.subrange(a + 1, v@.len() as int));
        a += 1;
    }
    let ghost p = v@.subrange(a as int, v@.len() as int);
    assert(drop_leading(v@, '/') == p);
    let mut i = a;
    while i < v.len() && v[i] != '/'
        invariant
            a <= i <= v@.len(),
            forall|j: int| a <= j < i ==> v@[j] != '/',
        decreases v@.len() - i,
    {
        i += 1;
    }
    if i == v.len() {
        assert(!p.contains('/')) by {
            if p.contains('/') {
                let j = choose|j: int| 0 <= j < p.len() && p[j] == '/';
                assert(v@[a + j] == '/');
            }
        }
        return None;
    }
    proof {
        let k = i - a;
        assert(p[k] == '/');
        assert(p.contains('/'));
        let c = choose|c: int| 0 <= c < p.len() && p[c] == '/' && forall|j: int| 0 <= j < c ==> p[j] != '/';
        assert(c == k) by {
            if c < k {
                assert(p[c] == v@[a + c]);
            }
            if k < c {
                assert(p[k] != '/');
            }
        }
        assert(v@.subrange(a as int, i as int) =~= p.subrange(0, k));
        assert(v@.subrange(i + 1, v@.len() as int) =~= p.subrange(k + 1, p.len() as int));
    }
    let token = string_from_range(&v, a, i);
    let route = string_from_range(&v, i + 1, v.len());
    let rv = chars_of(route.as_str());
    if i == a || contains_char(&rv, '/') {
        return None;
    }
    Some((token, route))
}

/// The bindings left after revoking window `w`'s authorization, as `revoke_window`
/// states them.
pub open spec fn after_revocation(before: Map<Seq<char>, Seq<char>>, w: Seq<char>) -> Map<Seq<char>, Seq<char>> {
    before.restrict(before.dom().filter(|t: Seq<char>| before[t] != w))
}

/// Revocation is complete and local: after a window's authorization is revoked no token
/// is bound to that window any more, and every token of another window keeps its window.
pub proof fn law_revocation_is_complete_and_local(before: Map<Seq<char>, Seq<char>>, w: Seq<char>)
    ensures
        forall|t: Seq<char>| #[trigger] after_revocation(before, w).contains_key(t) ==> after_revocation(before, w)[t] != w,
        forall|t: Seq<char>| before.contains_key(t) && before[t] != w ==> #[trigger] after_revocation(before, w).contains_key(t)
            && after_revocation(before, w)[t] == before[t],
        forall|t: Seq<char>| !before.contains_key(t) ==> !#[trigger] after_revocation(before, w).contains_key(t),
{
}

/// Why a file of `len` bytes classified as `classified` is refused, if it is; the
/// messages are those of `check_admission`.
pub open spec fn admission_refusal(len: u64, classified: Option<ClassifiedMedia>) -> Option<Seq<char>> {
    if len == 0 {
        Some("local media file must not be empty"@)
    } else if classified is None {
        Some("local file is not an allowlisted passive image/audio/video format or its signature does not match its extension"@)
    } else if classified->0.content_kind == ContentKind::Image && len > MAX_IMAGE_BYTES {
        Some("local image exceeds the 67108864-byte presentation limit"@)
    } else {
        None
    }
}

/// Whether window `w` is bound to some token.
pub open spec fn owns_media(m: Map<Seq<char>, Seq<char>>, w: Seq<char>) -> bool {
    exists|t: Seq<char>| #[trigger] m.contains_key(t) && m[t] == w
}

/// What an admission's refusal says: the file's own refusal first; then a window that
/// already owns an authorization; otherwise no unused token was found among
/// `MAX_MEDIA_TOKEN_ATTEMPTS` random draws, which can only happen while tokens are bound.
pub open spec fn admission_refused(before: Map<Seq<char>, Seq<char>>, w: Seq<char>, len: u64, classified: Option<ClassifiedMedia>, e: MediaAdmissionError) -> bool {
    match admission_refusal(len, classified) {
        Some(m) => e is Validation && admission_message(e) == m,
        None => if owns_media(before, w) {
            e is Validation && admission_message(e) == "window '"@ + w + "' already owns a local-media authorization"@
        } else {
            e is Io && admission_message(e) == "could not allocate a local-media token"@
                && exists|t: Seq<char>| #[trigger] before.contains_key(t)
        },
    }
}

/// A window owns at most one media authorization: once it owns one, every further
/// admission for it is refused with a validation error, whether the file itself is
/// refused or the window is.
pub proof fn law_owning_window_is_refused(before: Map<Seq<char>, Seq<char>>, w: Seq<char>, len: u64, classified: Option<ClassifiedMedia>, e: MediaAdmissionError)
    requires
        owns_media(before, w),
        admission_refused(before, w, len, classified, e),
    ensures
        e is Validation,
{
}

/// How many random tokens an admission draws before it gives up.
pub const MAX_MEDIA_TOKEN_ATTEMPTS: usize = usize::MAX;

/// How a media request for `path` from the web view labelled `label` is answered, given
/// the window each token is bound to: the path must name a known token and a known
/// route, and the token must be bound to that window.
pub open spec fn route_outcome(m: Map<Seq<char>, Seq<char>>, path: Seq<char>, label: Seq<char>) -> MediaRoute {
    match media_path_parts(path) {
        None => MediaRoute::NotFound,
        Some((t, route)) => if !m.contains_key(t) {
            MediaRoute::NotFound
        } else if m[t] != label {
            MediaRoute::Forbidden
        } else if route == "view"@ {
            MediaRoute::View
        } else if route == "content"@ {
            MediaRoute::Content
        } else {
            MediaRoute::NotFound
        },
    }
}

/// A media token is bound to its window: a request for its page is answered for that
/// window, refused for any other, and not found once the window's authorization is
/// revoked.
pub proof fn law_media_token_is_window_bound(m: Map<Seq<char>, Seq<char>>, path: Seq<char>, t: Seq<char>, w: Seq<char>, other: Seq<char>)
    requires
        m.contains_key(t),
        m[t] == w,
        other != w,
        media_path_parts(path) == Some((t, "view"@)),
    ensures
        route_outcome(m, path, w) == MediaRoute::View,
        route_outcome(m, path, other) == MediaRoute::Forbidden,
        route_outcome(after_revocation(m, w), path, w) == MediaRoute::NotFound,
{
    assert(!after_revocation(m, w).contains_key(t));
}

/// The method of a media request.
#[derive(Clone, Copy, Debug, PartialEq, Eq, Structural)]
pub enum MediaMethod {
    Get,
    Head,
    Other,
}

/// How a media request is answered: refused (method not allowed, not found,
/// forbidden), the presentation page for a kind of media, a part of the file, a range
/// that cannot be served, or an image with no bytes to serve.
#[derive(Clone, Copy, Debug, PartialEq, Eq)]
pub enum MediaAnswer {
    MethodNotAllowed,
    NotFound,
    Forbidden,
    Page(ContentKind),
    Content(ContentRange),
    RangeNotSatisfiable,
    EmptyImage,
}

/// How a request is routed: from a web view, by `route_outcome`, which checks that the
/// token is bound to that view's window; from the loopback server, which knows no
/// window, by the token alone.
pub open spec fn request_route(m: Map<Seq<char>, Seq<char>>, path: Seq<char>, label: Option<Seq<char>>) -> MediaRoute {
    match label {
        Some(l) => route_outcome(m, path, l),
        None => match media_path_parts(path) {
            None => MediaRoute::NotFound,
            Some((t, route)) => if !m.contains_key(t) {
                MediaRoute::NotFound
            } else if route == "view"@ {
                MediaRoute::View
            } else if route == "content"@ {
                MediaRoute::Content
            } else {
                MediaRoute::NotFound
            },
        },
    }
}

/// The part of a file a content request is served, as `select_content_range` selects it.
pub open spec fn content_answer(range: Option<Seq<char>>, total: u64, kind: ContentKind) -> MediaAnswer {
    if range is None && kind == ContentKind::Image && total == 0 {
        MediaAnswer::EmptyImage
    } else {
        match selected_range(range, total, kind) {
            None => MediaAnswer::RangeNotSatisfiable,
            Some((s, e)) => MediaAnswer::Content(ContentRange {
                start: s,
                end: capped_end(s, e),
                partial: range is Some || capped_end(s, e) + 1 < total,
                length: (capped_end(s, e) - s + 1) as u64,
            }),
        }
    }
}

/// How a media request is answered. The loopback server refuses a method other than GET
/// or HEAD before anything else; otherwise the request is routed, and a page or content
/// request with another method is refused.
pub open spec fn media_answer_outcome(
    m: Map<Seq<char>, Seq<char>>,
    infos: Map<Seq<char>, AdmittedMediaView>,
    method: MediaMethod,
    path: Seq<char>,
    label: Option<Seq<char>>,
    range: Option<Seq<char>>,
) -> MediaAnswer {
    if label is None && method == MediaMethod::Other {
        MediaAnswer::MethodNotAllowed
    } else {
        match request_route(m, path, label) {
            MediaRoute::NotFound => MediaAnswer::NotFound,
            MediaRoute::Forbidden => MediaAnswer::Forbidden,
            MediaRoute::View => if method == MediaMethod::Other {
                MediaAnswer::MethodNotAllowed
            } else {
                MediaAnswer::Page(infos[path_token(path)].content_kind)
            },
            MediaRoute::Content => if method == MediaMethod::Other {
                MediaAnswer::MethodNotAllowed
            } else {
                let info = infos[path_token(path)];
                content_answer(range, info.bytes, info.content_kind)
            },
        }
    }
}

/// The token a media path names, if it names one.
pub open spec fn path_token(path: Seq<char>) -> Seq<char> {
    match media_path_parts(path) {
        Some((t, _)) => t,
        None => Seq::empty(),
    }
}

/// The HTTP status of an answer.
pub open spec fn answer_status(a: MediaAnswer) -> u16 {
    match a {
        MediaAnswer::MethodNotAllowed => 405,
        MediaAnswer::NotFound => 404,
        MediaAnswer::Forbidden => 403,
        MediaAnswer::Page(_) => 200,
        MediaAnswer::Content(c) => if c.partial { 206 } else { 200 },
        MediaAnswer::RangeNotSatisfiable => 416,
        MediaAnswer::EmptyImage => 500,
    }
}

impl MediaAnswer {
    /// The HTTP status of the answer.
    pub fn status(&self) -> (s: u16)
        ensures
            s == answer_status(*self),
    {
        match self {
            MediaAnswer::MethodNotAllowed => 405,
            MediaAnswer::NotFound => 404,
            MediaAnswer::Forbidden => 403,
            MediaAnswer::Page(_) => 200,
            MediaAnswer::Content(c) => if c.partial { 206 } else { 200 },
            MediaAnswer::RangeNotSatisfiable => 416,
            MediaAnswer::EmptyImage => 500,
        }
    }
}

/// A media token answers only its own window: from a web view, a GET for its page is
/// answered with status 200 for the window it is bound to and 403 for any other, and
/// with 404 once that window's authorization is revoked.
pub proof fn law_media_page_status_is_window_bound(
    m: Map<Seq<char>, Seq<char>>,
    infos: Map<Seq<char>, AdmittedMediaView>,
    revoked_infos: Map<Seq<char>, AdmittedMediaView>,
    path: Seq<char>,
    t: Seq<char>,
    w: Seq<char>,
    other: Seq<char>,
)
    requires
        m.contains_key(t),
        m[t] == w,
        other != w,
        media_path_parts(path) == Some((t, "view"@)),
    ensures
        answer_status(media_answer_outcome(m, infos, MediaMethod::Get, path, Some(w), None)) == 200,
        answer_status(media_answer_outcome(m, infos, MediaMethod::Get, path, Some(other), None)) == 403,
        answer_status(media_answer_outcome(after_revocation(m, w), revoked_infos, MediaMethod::Get, path, Some(w), None)) == 404,
{
    law_media_token_is_window_bound(m, path, t, w, other);
}

/// A media authorization: the window a token is bound to, and what was admitted.
pub struct MediaGrant {
    pub window_session_id: String,
    pub info: AdmittedMediaInfo,
}

/// The answer to a request for a media page or its content.
#[derive(Clone, Copy, Debug, PartialEq, Eq, Structural)]
pub enum MediaRoute {
    NotFound,
    Forbidden,
    View,
    Content,
}

/// The media authorizations: each token bound to exactly one window, each window owning
/// at most one token.
pub struct MediaRegistry {
    by_token: KeyedStore<String, MediaGrant>,
    by_window: KeyedStore<String, String>,
}

impl MediaRegistry {
    /// The tokens and windows agree both ways.
    pub closed spec fn wf(&self) -> bool {
        &&& self.by_token.wf()
        &&& self.by_window.wf()
        &&& forall|w: Seq<char>| #[trigger] self.by_window@.contains_key(w) ==> self.by_token@.contains_key(self.by_window@[w]@)
            && self.by_token@[self.by_window@[w]@].window_session_id@ == w
        &&& forall|t: Seq<char>| #[trigger] self.by_token@.contains_key(t) ==> self.by_window@.contains_key(self.by_token@[t].window_session_id@)
            && self.by_window@[self.by_token@[t].window_session_id@]@ == t
    }

    /// The window each token is bound to.
    pub closed spec fn token_windows(&self) -> Map<Seq<char>, Seq<char>> {
        Map::new(|t: Seq<char>| self.by_token@.contains_key(t), |t: Seq<char>| self.by_token@[t].window_session_id@)
    }

    /// What was admitted under each token.
    pub closed spec fn token_info(&self) -> Map<Seq<char>, AdmittedMediaView> {
        Map::new(|t: Seq<char>| self.by_token@.contains_key(t), |t: Seq<char>| self.by_token@[t].info@)
    }

    /// Every token that is bound has what was admitted under it, and no other token has.
    pub proof fn law_info_exists_exactly_for_bound_tokens(&self)
        ensures
            self.token_info().dom() == self.token_windows().dom(),
    {
        assert(self.token_info().dom() =~= self.token_windows().dom());
    }

    /// An empty registry.
    pub fn new() -> (r: Self)
        ensures
            r.wf(),
            r.token_windows() == Map::<Seq<char>, Seq<char>>::empty(),
            r.token_info() == Map::<Seq<char>, AdmittedMediaView>::empty(),
    {
        let r = MediaRegistry { by_token: KeyedStore::new(), by_window: KeyedStore::new() };
        assert(r.token_windows() =~= Map::<Seq<char>, Seq<char>>::empty());
        assert(r.token_info() =~= Map::<Seq<char>, AdmittedMediaView>::empty());
        r
    }

    /// Whether a token is in use.
    pub fn contains_token(&self, token: &String) -> (b: bool)
        requires
            self.wf(),
        ensures
            b == self.token_windows().contains_key(token@),
    {
        self.by_token.get(token).is_some()
    }

    /// Whether a window owns a media authorization.
    pub fn contains_window(&self, window_session_id: &String) -> (b: bool)
        requires
            self.wf(),
        ensures
            b == exists|t: Seq<char>| #[trigger] self.token_windows().contains_key(t) && self.token_windows()[t] == window_session_id@,
    {
        let b = self.by_window.get(window_session_id).is_some();
        proof {
            if b {
                let t = self.by_window@[window_session_id@]@;
                assert(self.token_windows().contains_key(t));
            } else {
                assert forall|t: Seq<char>| #[trigger] self.token_windows().contains_key(t) implies self.token_windows()[t] != window_session_id@ by {}
            }
        }
        b
    }

    /// Binds a fresh token to a window; a window already owning one is refused.
    pub fn register(&mut self, window_session_id: String, info: AdmittedMediaInfo) -> (r: Result<(), MediaAdmissionError>)
        requires
            old(self).wf(),
            !old(self).token_windows().contains_key(info.token@),
        ensures
            final(self).wf(),
            match r {
                Ok(()) => !(exists|t: Seq<char>| #[trigger] old(self).token_windows().contains_key(t) && old(self).token_windows()[t] == window_session_id@)
                    && final(self).token_windows() == old(self).token_windows().insert(info.token@, window_session_id@)
                    && final(self).token_info() == old(self).token_info().insert(info.token@, info@),
                Err(e) => e is Validation && (exists|t: Seq<char>| #[trigger] old(self).token_windows().contains_key(t) && old(self).token_windows()[t] == window_session_id@)
                    && final(self).token_windows() == old(self).token_windows()
                    && final(self).token_info() == old(self).token_info(),
            },
    {
        if self.contains_window(&window_session_id) {
            let mut message = String::from_str("window '");
            message.append(window_session_id.as_str());
            message.append("' already owns a local-media authorization");
            return Err(MediaAdmissionError::Validation(message));
        }
        let ghost pre = self.token_windows();
        let ghost pre_info = self.token_info();
        let ghost iv = info@;
        let ghost bw = self.by_window@;
        let ghost bt = self.by_token@;
        let ghost w = window_session_id@;
        let ghost t = info.token@;
        proof {
            if bw.contains_key(w) {
                assert(pre.contains_key(bw[w]@));
            }
        }
        let token = info.token.clone();
        let token_key = info.token.clone();
        let window_key = window_session_id.clone();
        self.by_window.insert(window_key, token);
        self.by_token.insert(token_key, MediaGrant { window_session_id, info });
        proof {
            assert forall|w2: Seq<char>| #[trigger] self.by_window@.contains_key(w2) implies self.by_token@.contains_key(self.by_window@[w2]@)
                && self.by_token@[self.by_window@[w2]@].window_session_id@ == w2 by {
                if w2 != w {
                    assert(bw.contains_key(w2));
                    assert(bt.contains_key(bw[w2]@));
                    assert(bw[w2]@ != t);
                }
            }
            assert forall|t2: Seq<char>| #[trigger] self.by_token@.contains_key(t2) implies self.by_window@.contains_key(self.by_token@[t2].window_session_id@)
                && self.by_window@[self.by_token@[t2].window_session_id@]@ == t2 by {
                if t2 != t {
                    assert(bt.contains_key(t2));
                    assert(bw.contains_key(bt[t2].window_session_id@));
                    assert(bt[t2].window_session_id@ != w);
                }
            }
            assert(self.token_windows() =~= pre.insert(t, w));
            assert(self.token_info() =~= pre_info.insert(t, iv));
        }
        Ok(())
    }

    /// Admits an opened file for a window: the file is checked as `check_admission`
    /// checks it, a window that already owns an authorization is refused, and otherwise a
    /// fresh random token of 32 lower-case hex digits is bound to the window. A refusal
    /// binds nothing.
    pub fn grant_media(
        &mut self,
        window_session_id: String,
        requested_source: String,
        title: String,
        len: u64,
        classified: Option<ClassifiedMedia>,
    ) -> (r: Result<AdmittedMediaInfo, MediaAdmissionError>)
        requires
            old(self).wf(),
        ensures
            final(self).wf(),
            match r {
                Ok(info) => {
                    &&& admission_refusal(len, classified) is None
                    &&& !owns_media(old(self).token_windows(), window_session_id@)
                    &&& !old(self).token_windows().contains_key(info.token@)
                    &&& info.token@.len() == 32
                    &&& forall|i: int| 0 <= i < 32 ==> is_lower_hex(#[trigger] info.token@[i])
                    &&& info.requested_source == requested_source
                    &&& info.title == title
                    &&& info.bytes == len
                    &&& info.content_kind == classified->0.content_kind
                    &&& info.mime@ == classified->0.mime@
                    &&& final(self).token_windows() == old(self).token_windows().insert(info.token@, window_session_id@)
                    &&& final(self).token_info() == old(self).token_info().insert(info.token@, info@)
                },
                Err(e) => final(self).token_windows() == old(self).token_windows()
                    && final(self).token_info() == old(self).token_info()
                    && admission_refused(old(self).token_windows(), window_session_id@, len, classified, e),
            },
    {
        let c = match check_admission(len, classified) {
            Ok(c) => c,
            Err(e) => return Err(e),
        };
        let owns = self.contains_window(&window_session_id);
        if owns {
            let mut message = String::from_str("window '");
            message.append(window_session_id.as_str());
            message.append("' already owns a local-media authorization");
            return Err(MediaAdmissionError::Validation(message));
        }
        let mut attempts: usize = 0;
        while attempts < MAX_MEDIA_TOKEN_ATTEMPTS
            invariant
                self.wf(),
                admission_refusal(len, classified) is None,
                classified == Some(c),
                self.token_windows() == old(self).token_windows(),
                self.token_info() == old(self).token_info(),
                !owns_media(self.token_windows(), window_session_id@),
                attempts > 0 ==> exists|t: Seq<char>| #[trigger] self.token_windows().contains_key(t),
            decreases MAX_MEDIA_TOKEN_ATTEMPTS - attempts,
        {
            let token = crate::video_service::random_token();
            if !self.contains_token(&token) {
                let granted = AdmittedMediaInfo {
                    token: token.clone(),
                    requested_source: requested_source.clone(),
                    content_kind: c.content_kind,
                    mime: String::from_str(c.mime),
                    title: title.clone(),
                    bytes: len,
                };
                let info = AdmittedMediaInfo {
                    token,
                    requested_source,
                    content_kind: c.content_kind,
                    mime: String::from_str(c.mime),
                    title,
                    bytes: len,
                };
                let registered = self.register(window_session_id, granted);
                return match registered {
                    Ok(()) => Ok(info),
                    Err(e) => Err(e),
                };
            }
            attempts += 1;
        }
        Err(MediaAdmissionError::Io(String::from_str("could not allocate a local-media token")))
    }

    /// Drops the authorization a window owns; `true` if there was one.
    pub fn revoke_window(&mut self, window_session_id: &String) -> (b: bool)
        requires
            old(self).wf(),
        ensures
            final(self).wf(),
            b == exists|t: Seq<char>| #[trigger] old(self).token_windows().contains_key(t) && old(self).token_windows()[t] == window_session_id@,
            final(self).token_windows() == after_revocation(old(self).token_windows(), window_session_id@),
            final(self).token_info() == old(self).token_info().restrict(after_revocation(old(self).token_windows(), window_session_id@).dom()),
    {
        let ghost pre = self.token_windows();
        let ghost pre_info = self.token_info();
        let ghost bw = self.by_window@;
        let ghost bt = self.by_token@;
        let ghost w = window_session_id@;
        let had = self.contains_window(window_session_id);
        proof {
            if had {
                let t = choose|t: Seq<char>| #[trigger] pre.contains_key(t) && pre[t] == w;
                assert(bw.contains_key(bt[t].window_session_id@));
            }
        }
        match self.by_window.remove(window_session_id) {
            Some(token) => {
                let removed = self.by_token.remove(&token);
                proof {
                    assert(pre.contains_key(token@));
                    assert forall|w2: Seq<char>| #[trigger] self.by_window@.contains_key(w2) implies self.by_token@.contains_key(self.by_window@[w2]@)
                        && self.by_token@[self.by_window@[w2]@].window_session_id@ == w2 by {
                        assert(bw.contains_key(w2));
                        assert(bw[w2]@ != token@);
                    }
                    assert forall|t2: Seq<char>| #[trigger] self.by_token@.contains_key(t2) implies self.by_window@.contains_key(self.by_token@[t2].window_session_id@)
                        && self.by_window@[self.by_token@[t2].window_session_id@]@ == t2 by {
                        assert(bt.contains_key(t2));
                        assert(bt[t2].window_session_id@ != w);
                    }
                    assert(self.token_windows() =~= pre.restrict(pre.dom().filter(|t: Seq<char>| pre[t] != window_session_id@)));
                    assert(self.token_info() =~= pre_info.restrict(after_revocation(pre, window_session_id@).dom()));
                }
                removed.is_some()
            },
            None => {
                proof {
                    assert(self.token_windows() =~= pre.restrict(pre.dom().filter(|t: Seq<char>| pre[t] != window_session_id@)));
                    assert(self.token_info() =~= pre_info.restrict(after_revocation(pre, window_session_id@).dom()));
                }
                false
            },
        }
    }

    /// How a media request from the web view labelled `label` is answered: the path must
    /// name a known token and a known route, and the token must be bound to that window.
    pub fn route(&self, path: &str, label: &str) -> (r: MediaRoute)
        requires
            self.wf(),
        ensures
            r == route_outcome(self.token_windows(), path@, label@),
    {
        let (token, route) = match split_media_path(path) {
            Some(parts) => parts,
            None => return MediaRoute::NotFound,
        };
        let grant = match self.by_token.get(&token) {
            Some(g) => g,
            None => return MediaRoute::NotFound,
        };
        if !crate::text::str_eq(grant.window_session_id.as_str(), label) {
            return MediaRoute::Forbidden;
        }
        let rv = chars_of(route.as_str());
        if equals_str(&rv, "view") {
            MediaRoute::View
        } else if equals_str(&rv, "content") {
            MediaRoute::Content
        } else {
            MediaRoute::NotFound
        }
    }

    /// Answers a media request: from the web view labelled `label`, or, with no label,
    /// from the loopback server; `range` is the request's `Range` header.
    pub fn answer_request(&self, method: MediaMethod, path: &str, label: Option<&str>, range: Option<&str>) -> (a: MediaAnswer)
        requires
            self.wf(),
        ensures
            a == media_answer_outcome(self.token_windows(), self.token_info(), method, path@,
                match label { Some(l) => Some(l@), None => None },
                match range { Some(v) => Some(v@), None => None }),
    {
        if label.is_none() && method == MediaMethod::Other {
            return MediaAnswer::MethodNotAllowed;
        }
        let (token, route) = match split_media_path(path) {
            Some(parts) => parts,
            None => return MediaAnswer::NotFound,
        };
        let grant = match self.by_token.get(&token) {
            Some(g) => g,
            None => return MediaAnswer::NotFound,
        };
        match label {
            Some(l) => {
                if !crate::text::str_eq(grant.window_session_id.as_str(), l) {
                    return MediaAnswer::Forbidden;
                }
            },
            None => {},
        }
        let rv = chars_of(route.as_str());
        let is_view = equals_str(&rv, "view");
        let is_content = equals_str(&rv, "content");
        if !is_view && !is_content {
            return MediaAnswer::NotFound;
        }
        if method == MediaMethod::Other {
            return MediaAnswer::MethodNotAllowed;
        }
        let kind = grant.info.content_kind;
        if is_view {
            return MediaAnswer::Page(kind);
        }
        let total = grant.info.bytes;
        if range.is_none() && kind == ContentKind::Image && total == 0 {
            return MediaAnswer::EmptyImage;
        }
        match select_content_range(range, total, kind) {
            Ok(c) => MediaAnswer::Content(c),
            Err(()) => MediaAnswer::RangeNotSatisfiable,
        }
    }

    /// What was admitted under a token.
    pub fn info(&self, token: &String) -> (r: Option<&AdmittedMediaInfo>)
        requires
            self.wf(),
        ensures
            r is Some == self.token_windows().contains_key(token@),
            r matches Some(i) ==> i@ == self.token_info()[token@],
    {
        match self.by_token.get(token) {
            Some(g) => Some(&g.info),
            None => None,
        }
    }
}

} // verus!
