//! Media classification of put.io files, by put.io's file type or by the
//! file name's extension.

use vstd::prelude::*;
use crate::text::{ascii_lower_char, ascii_lowercase, chars_of, is_ascii_text, same_text, to_lowercase, unicode_lowercase};

verus! {

/// Index of the last `c` in `s`, or -1 when `s` holds none.
pub open spec fn last_index(s: Seq<char>, c: char) -> int
    decreases s.len(),
{
    if s.len() == 0 {
        -1
    } else if s.last() == c {
        s.len() - 1
    } else {
        last_index(s.drop_last(), c)
    }
}

pub proof fn lemma_last_index(s: Seq<char>, c: char)
    ensures
        -1 <= last_index(s, c) < s.len(),
        last_index(s, c) >= 0 ==> s[last_index(s, c)] == c,
        forall|k: int| last_index(s, c) < k < s.len() ==> s[k] != c,
    decreases s.len(),
{
    if s.len() > 0 && s.last() != c {
        lemma_last_index(s.drop_last(), c);
        assert forall|k: int| last_index(s, c) < k < s.len() implies s[k] != c by {
            if k < s.len() - 1 {
                assert(s.drop_last()[k] == s[k]);
            }
        }
    }
}

/// The last component of a path that is a name (neither empty nor `.`),
/// as `Path::components` sees it; `None` when there is none.
pub open spec fn final_component(p: Seq<char>) -> Option<Seq<char>>
    decreases p.len(),
{
    if p.len() == 0 {
        None
    } else {
        let i = last_index(p, '/');
        let seg = p.subrange(i + 1, p.len() as int);
        if seg.len() == 0 || seg == seq!['.'] {
            if i < 0 {
                None
            } else {
                proof {
                    lemma_last_index(p, '/');
                }
                final_component(p.subrange(0, i))
            }
        } else {
            Some(seg)
        }
    }
}

/// `Path::file_name`: the final component unless it is `..`.
pub open spec fn file_name_of(p: Seq<char>) -> Option<Seq<char>> {
    match final_component(p) {
        Some(s) => if s == seq!['.', '.'] {
            None
        } else {
            Some(s)
        },
        None => None,
    }
}

/// `Path::extension`: the text after the last `.` of the file name, when that
/// `.` is not its first character.
pub open spec fn extension_of(p: Seq<char>) -> Option<Seq<char>> {
    match file_name_of(p) {
        Some(f) => {
            let d = last_index(f, '.');
            if d <= 0 {
                None
            } else {
                Some(f.subrange(d + 1, f.len() as int))
            }
        },
        None => None,
    }
}

pub open spec fn video_extensions() -> Seq<Seq<char>> {
    seq!["mkv"@, "mp4"@, "avi"@, "mov"@, "wmv"@, "flv"@, "webm"@, "m4v"@, "ts"@]
}

pub open spec fn audio_extensions() -> Seq<Seq<char>> {
    seq!["flac"@, "mp3"@, "aac"@, "ogg"@, "opus"@, "wav"@, "m4a"@, "alac"@, "ape"@, "wv"@]
}

pub open spec fn subtitle_extensions() -> Seq<Seq<char>> {
    seq!["srt"@, "sub"@, "ass"@, "ssa"@, "vtt"@]
}

/// The kind of media a file holds.
#[derive(PartialEq, Eq, Structural, Debug, Clone, Copy)]
pub enum MediaType {
    Audio,
    Video,
    Subtitle,
}

/// Media type of an already lower-cased extension.
pub open spec fn media_for_extension(ext: Seq<char>) -> Option<MediaType> {
    if video_extensions().contains(ext) {
        Some(MediaType::Video)
    } else if audio_extensions().contains(ext) {
        Some(MediaType::Audio)
    } else if subtitle_extensions().contains(ext) {
        Some(MediaType::Subtitle)
    } else {
        None
    }
}

/// Media type of a file name: its extension (empty when it has none),
/// lower-cased, looked up in the three lists.
pub open spec fn media_for_file_name(name: Seq<char>) -> Option<MediaType> {
    let ext = match extension_of(name) {
        Some(e) => e,
        None => Seq::<char>::empty(),
    };
    media_for_extension(unicode_lowercase(ext))
}

/// Media type that put.io's own file type names.
pub open spec fn media_for_file_type(file_type: Seq<char>) -> Option<MediaType> {
    if file_type == "AUDIO"@ {
        Some(MediaType::Audio)
    } else if file_type == "VIDEO"@ {
        Some(MediaType::Video)
    } else {
        None
    }
}

/// For an ASCII file name, the media type does not depend on the letter
/// case of its extension.
pub proof fn law_extension_case_ignored(a: Seq<char>, b: Seq<char>)
    requires
        is_ascii_text(a),
        is_ascii_text(b),
        a.len() == b.len(),
        forall|i: int| 0 <= i < a.len() ==> ascii_lower_char(#[trigger] a[i]) == ascii_lower_char(b[i]),
    ensures
        media_for_extension(ascii_lowercase(a)) == media_for_extension(ascii_lowercase(b)),
{
    assert(ascii_lowercase(a) =~= ascii_lowercase(b));
}

/// Index of the last `c` in `v[lo..hi]`.
fn last_index_in(v: &Vec<char>, lo: usize, hi: usize, c: char) -> (r: Option<usize>)
    requires
        lo <= hi <= v@.len(),
    ensures
        match r {
            None => last_index(v@.subrange(lo as int, hi as int), c) == -1,
            Some(k) => lo <= k < hi && last_index(v@.subrange(lo as int, hi as int), c) == k - lo,
        },
{
    let mut k = hi;
    while k > lo
        invariant
            lo <= k <= hi <= v@.len(),
            last_index(v@.subrange(lo as int, hi as int), c) == last_index(
                v@.subrange(lo as int, k as int),
                c,
            ),
        decreases k - lo,
    {
        assert(v@.subrange(lo as int, k as int).drop_last() =~= v@.subrange(
            lo as int,
            k - 1 as int,
        ));
        if v[k - 1] == c {
            return Some(k - 1);
        }
        k -= 1;
    }
    None
}

/// Bounds `[start, end)` of the final component of the path held in `v`.
fn final_component_bounds(v: &Vec<char>) -> (r: Option<(usize, usize)>)
    ensures
        match r {
            None => final_component(v@) is None,
            Some((s, e)) => s <= e <= v@.len() && final_component(v@) == Some(
                v@.subrange(s as int, e as int),
            ),
        },
{
    let mut end = v.len();
    assert(v@.subrange(0, end as int) =~= v@);
    loop
        invariant
            end <= v@.len(),
            final_component(v@) == final_component(v@.subrange(0, end as int)),
        decreases end,
    {
        let ghost p = v@.subrange(0, end as int);
        if end == 0 {
            return None;
        }
        let slash = last_index_in(v, 0, end, '/');
        let start = match slash {
            Some(i) => i + 1,
            None => 0,
        };
        assert(p.subrange(last_index(p, '/') + 1, p.len() as int) =~= v@.subrange(
            start as int,
            end as int,
        ));
        let single_dot = end - start == 1 && v[start] == '.';
        if start == end || single_dot {
            proof {
                if single_dot {
                    assert(v@.subrange(start as int, end as int) =~= seq!['.']);
                } else {
                    assert(v@.subrange(start as int, end as int).len() == 0);
                }
            }
            match slash {
                None => {
                    return None;
                },
                Some(i) => {
                    assert(p.subrange(0, i as int) =~= v@.subrange(0, i as int));
                    end = i;
                },
            }
        } else {
            proof {
                if v@.subrange(start as int, end as int) == seq!['.'] {
                    assert(v@.subrange(start as int, end as int)[0] == '.');
                }
            }
            return Some((start, end));
        }
    }
}

/// The extension of a path, as `Path::extension` computes it.
pub fn extension(path: &str) -> (r: Option<&str>)
    ensures
        match r {
            Some(e) => extension_of(path@) == Some(e@) && (is_ascii_text(path@) ==> is_ascii_text(e@)),
            None => extension_of(path@) is None,
        },
{
    let v = chars_of(path);
    match final_component_bounds(&v) {
        None => None,
        Some((start, end)) => {
            let ghost f = v@.subrange(start as int, end as int);
            let dot_dot = end - start == 2 && v[start] == '.' && v[start + 1] == '.';
            if dot_dot {
                assert(f =~= seq!['.', '.']);
                return None;
            }
            proof {
                if f == seq!['.', '.'] {
                    assert(f[0] == '.' && f[1] == '.');
                }
            }
            match last_index_in(&v, start, end, '.') {
                None => None,
                Some(d) => {
                    if d == start {
                        None
                    } else {
                        let e = path.substring_char(d + 1, end);
                        assert(e@ =~= f.subrange((d - start) + 1, f.len() as int));
                        Some(e)
                    }
                },
            }
        },
    }
}

/// True when `list` names `s`.
fn listed(s: &str, list: &Vec<&str>) -> (r: bool)
    ensures
        r == exists|i: int| 0 <= i < list@.len() && #[trigger] list@[i]@ == s@,
{
    let mut i: usize = 0;
    while i < list.len()
        invariant
            i <= list@.len(),
            forall|k: int| 0 <= k < i ==> #[trigger] list@[k]@ != s@,
        decreases list.len() - i,
    {
        if same_text(list[i], s) {
            return true;
        }
        i += 1;
    }
    false
}

/// Looks an already lower-cased extension up in the extension lists.
pub fn media_type_for_extension(ext: &str) -> (r: Option<MediaType>)
    ensures
        r == media_for_extension(ext@),
{
    let video = vec!["mkv", "mp4", "avi", "mov", "wmv", "flv", "webm", "m4v", "ts"];
    let audio = vec!["flac", "mp3", "aac", "ogg", "opus", "wav", "m4a", "alac", "ape", "wv"];
    let subtitle = vec!["srt", "sub", "ass", "ssa", "vtt"];
    assert(forall|i: int| 0 <= i < video@.len() ==> video@[i]@ == video_extensions()[i]);
    assert(forall|i: int| 0 <= i < audio@.len() ==> audio@[i]@ == audio_extensions()[i]);
    assert(forall|i: int| 0 <= i < subtitle@.len() ==> subtitle@[i]@ == subtitle_extensions()[i]);
    let is_video = listed(ext, &video);
    let is_audio = listed(ext, &audio);
    let is_subtitle = listed(ext, &subtitle);
    proof {
        if video_extensions().contains(ext@) {
            let i = choose|i: int| 0 <= i < video_extensions().len() && video_extensions()[i] == ext@;
            assert(video@[i]@ == ext@);
        }
        if audio_extensions().contains(ext@) {
            let i = choose|i: int| 0 <= i < audio_extensions().len() && audio_extensions()[i] == ext@;
            assert(audio@[i]@ == ext@);
        }
        if subtitle_extensions().contains(ext@) {
            let i = choose|i: int|
                0 <= i < subtitle_extensions().len() && subtitle_extensions()[i] == ext@;
            assert(subtitle@[i]@ == ext@);
        }
    }
    if is_video {
        Some(MediaType::Video)
    } else if is_audio {
        Some(MediaType::Audio)
    } else if is_subtitle {
        Some(MediaType::Subtitle)
    } else {
        None
    }
}

impl MediaType {
    /// Media type from put.io's file type: `AUDIO` and `VIDEO` only.
    pub fn from_file_type_str(file_type: &str) -> (r: Option<MediaType>)
        ensures
            r == media_for_file_type(file_type@),
    {
        if same_text(file_type, "AUDIO") {
            Some(MediaType::Audio)
        } else if same_text(file_type, "VIDEO") {
            Some(MediaType::Video)
        } else {
            None
        }
    }

    /// Media type from the file name's extension, whatever its case.
    pub fn from_file_name(file_name: &str) -> (r: Option<MediaType>)
        ensures
            r == media_for_file_name(file_name@),
            is_ascii_text(file_name@) ==> r == media_for_extension(
                ascii_lowercase(
                    match extension_of(file_name@) {
                        Some(e) => e,
                        None => Seq::<char>::empty(),
                    },
                ),
            ),
    {
        let ext = match extension(file_name) {
            Some(e) => e,
            None => {
                proof {
                    reveal_strlit("");
                }
                assert(""@ =~= Seq::<char>::empty());
                ""
            },
        };
        let lower = to_lowercase(ext);
        media_type_for_extension(lower.as_str())
    }
}

} // verus!

verus! {

/// The documented extensions: video `mkv`, `mp4`, `avi`, `mov`, `wmv`,
/// `flv`, `webm`, `m4v`, `ts`; audio `flac`, `mp3`, `aac`, `ogg`, `opus`,
/// `wav`, `m4a`, `alac`, `ape`, `wv`; subtitles `srt`, `sub`, `ass`, `ssa`,
/// `vtt`. Each gives its media type, and no other lower-cased extension gives
/// one. put.io's file types `AUDIO` and `VIDEO` give audio and video, and no
/// other file type gives a media type.
pub proof fn law_documented_media_types(ext: Seq<char>, file_type: Seq<char>)
    ensures
        media_for_extension("mkv"@) == Some(MediaType::Video),
        media_for_extension("mp4"@) == Some(MediaType::Video),
        media_for_extension("avi"@) == Some(MediaType::Video),
        media_for_extension("mov"@) == Some(MediaType::Video),
        media_for_extension("wmv"@) == Some(MediaType::Video),
        media_for_extension("flv"@) == Some(MediaType::Video),
        media_for_extension("webm"@) == Some(MediaType::Video),
        media_for_extension("m4v"@) == Some(MediaType::Video),
        media_for_extension("ts"@) == Some(MediaType::Video),
        media_for_extension("flac"@) == Some(MediaType::Audio),
        media_for_extension("mp3"@) == Some(MediaType::Audio),
        media_for_extension("aac"@) == Some(MediaType::Audio),
        media_for_extension("ogg"@) == Some(MediaType::Audio),
        media_for_extension("opus"@) == Some(MediaType::Audio),
        media_for_extension("wav"@) == Some(MediaType::Audio),
        media_for_extension("m4a"@) == Some(MediaType::Audio),
        media_for_extension("alac"@) == Some(MediaType::Audio),
        media_for_extension("ape"@) == Some(MediaType::Audio),
        media_for_extension("wv"@) == Some(MediaType::Audio),
        media_for_extension("srt"@) == Some(MediaType::Subtitle),
        media_for_extension("sub"@) == Some(MediaType::Subtitle),
        media_for_extension("ass"@) == Some(MediaType::Subtitle),
        media_for_extension("ssa"@) == Some(MediaType::Subtitle),
        media_for_extension("vtt"@) == Some(MediaType::Subtitle),
        media_for_extension(ext) is Some ==> (ext == "mkv"@ || ext == "mp4"@ || ext == "avi"@
            || ext == "mov"@ || ext == "wmv"@ || ext == "flv"@ || ext == "webm"@ || ext == "m4v"@
            || ext == "ts"@ || ext == "flac"@ || ext == "mp3"@ || ext == "aac"@ || ext == "ogg"@
            || ext == "opus"@ || ext == "wav"@ || ext == "m4a"@ || ext == "alac"@ || ext == "ape"@
            || ext == "wv"@ || ext == "srt"@ || ext == "sub"@ || ext == "ass"@ || ext == "ssa"@
            || ext == "vtt"@),
        media_for_file_type("AUDIO"@) == Some(MediaType::Audio),
        media_for_file_type("VIDEO"@) == Some(MediaType::Video),
        media_for_file_type(file_type) is Some ==> (file_type == "AUDIO"@ || file_type == "VIDEO"@),
{
    reveal_strlit("mkv");
    reveal_strlit("mp4");
    reveal_strlit("avi");
    reveal_strlit("mov");
    reveal_strlit("wmv");
    reveal_strlit("flv");
    reveal_strlit("webm");
    reveal_strlit("m4v");
    reveal_strlit("ts");
    reveal_strlit("flac");
    reveal_strlit("mp3");
    reveal_strlit("aac");
    reveal_strlit("ogg");
    reveal_strlit("opus");
    reveal_strlit("wav");
    reveal_strlit("m4a");
    reveal_strlit("alac");
    reveal_strlit("ape");
    reveal_strlit("wv");
    reveal_strlit("srt");
    reveal_strlit("sub");
    reveal_strlit("ass");
    reveal_strlit("ssa");
    reveal_strlit("vtt");
    reveal_strlit("AUDIO");
    reveal_strlit("VIDEO");
    assert("flac"@.len() != "mkv"@.len());
    assert("flac"@.len() != "mp4"@.len());
    assert("flac"@.len() != "avi"@.len());
    assert("flac"@.len() != "mov"@.len());
    assert("flac"@.len() != "wmv"@.len());
    assert("flac"@.len() != "flv"@.len());
    assert("flac"@[0] != "webm"@[0]);
    assert("flac"@.len() != "m4v"@.len());
    assert("flac"@.len() != "ts"@.len());
    assert("mp3"@[1] != "mkv"@[1]);
    assert("mp3"@[2] != "mp4"@[2]);
    assert("mp3"@[0] != "avi"@[0]);
    assert("mp3"@[1] != "mov"@[1]);
    assert("mp3"@[0] != "wmv"@[0]);
    assert("mp3"@[0] != "flv"@[0]);
    assert("mp3"@.len() != "webm"@.len());
    assert("mp3"@[1] != "m4v"@[1]);
    assert("mp3"@.len() != "ts"@.len());
    assert("aac"@[0] != "mkv"@[0]);
    assert("aac"@[0] != "mp4"@[0]);
    assert("aac"@[1] != "avi"@[1]);
    assert("aac"@[0] != "mov"@[0]);
    assert("aac"@[0] != "wmv"@[0]);
    assert("aac"@[0] != "flv"@[0]);
    assert("aac"@.len() != "webm"@.len());
    assert("aac"@[0] != "m4v"@[0]);
    assert("aac"@.len() != "ts"@.len());
    assert("ogg"@[0] != "mkv"@[0]);
    assert("ogg"@[0] != "mp4"@[0]);
    assert("ogg"@[0] != "avi"@[0]);
    assert("ogg"@[0] != "mov"@[0]);
    assert("ogg"@[0] != "wmv"@[0]);
    assert("ogg"@[0] != "flv"@[0]);
    assert("ogg"@.len() != "webm"@.len());
    assert("ogg"@[0] != "m4v"@[0]);
    assert("ogg"@.len() != "ts"@.len());
    assert("opus"@.len() != "mkv"@.len());
    assert("opus"@.len() != "mp4"@.len());
    assert("opus"@.len() != "avi"@.len());
    assert("opus"@.len() != "mov"@.len());
    assert("opus"@.len() != "wmv"@.len());
    assert("opus"@.len() != "flv"@.len());
    assert("opus"@[0] != "webm"@[0]);
    assert("opus"@.len() != "m4v"@.len());
    assert("opus"@.len() != "ts"@.len());
    assert("wav"@[0] != "mkv"@[0]);
    assert("wav"@[0] != "mp4"@[0]);
    assert("wav"@[0] != "avi"@[0]);
    assert("wav"@[0] != "mov"@[0]);
    assert("wav"@[1] != "wmv"@[1]);
    assert("wav"@[0] != "flv"@[0]);
    assert("wav"@.len() != "webm"@.len());
    assert("wav"@[0] != "m4v"@[0]);
    assert("wav"@.len() != "ts"@.len());
    assert("m4a"@[1] != "mkv"@[1]);
    assert("m4a"@[1] != "mp4"@[1]);
    assert("m4a"@[0] != "avi"@[0]);
    assert("m4a"@[1] != "mov"@[1]);
    assert("m4a"@[0] != "wmv"@[0]);
    assert("m4a"@[0] != "flv"@[0]);
    assert("m4a"@.len() != "webm"@.len());
    assert("m4a"@[2] != "m4v"@[2]);
    assert("m4a"@.len() != "ts"@.len());
    assert("alac"@.len() != "mkv"@.len());
    assert("alac"@.len() != "mp4"@.len());
    assert("alac"@.len() != "avi"@.len());
    assert("alac"@.len() != "mov"@.len());
    assert("alac"@.len() != "wmv"@.len());
    assert("alac"@.len() != "flv"@.len());
    assert("alac"@[0] != "webm"@[0]);
    assert("alac"@.len() != "m4v"@.len());
    assert("alac"@.len() != "ts"@.len());
    assert("ape"@[0] != "mkv"@[0]);
    assert("ape"@[0] != "mp4"@[0]);
    assert("ape"@[1] != "avi"@[1]);
    assert("ape"@[0] != "mov"@[0]);
    assert("ape"@[0] != "wmv"@[0]);
    assert("ape"@[0] != "flv"@[0]);
    assert("ape"@.len() != "webm"@.len());
    assert("ape"@[0] != "m4v"@[0]);
    assert("ape"@.len() != "ts"@.len());
    assert("wv"@.len() != "mkv"@.len());
    assert("wv"@.len() != "mp4"@.len());
    assert("wv"@.len() != "avi"@.len());
    assert("wv"@.len() != "mov"@.len());
    assert("wv"@.len() != "wmv"@.len());
    assert("wv"@.len() != "flv"@.len());
    assert("wv"@.len() != "webm"@.len());
    assert("wv"@.len() != "m4v"@.len());
    assert("wv"@[0] != "ts"@[0]);
    assert("srt"@[0] != "mkv"@[0]);
    assert("srt"@[0] != "mp4"@[0]);
    assert("srt"@[0] != "avi"@[0]);
    assert("srt"@[0] != "mov"@[0]);
    assert("srt"@[0] != "wmv"@[0]);
    assert("srt"@[0] != "flv"@[0]);
    assert("srt"@.len() != "webm"@.len());
    assert("srt"@[0] != "m4v"@[0]);
    assert("srt"@.len() != "ts"@.len());
    assert("srt"@.len() != "flac"@.len());
    assert("srt"@[0] != "mp3"@[0]);
    assert("srt"@[0] != "aac"@[0]);
    assert("srt"@[0] != "ogg"@[0]);
    assert("srt"@.len() != "opus"@.len());
    assert("srt"@[0] != "wav"@[0]);
    assert("srt"@[0] != "m4a"@[0]);
    assert("srt"@.len() != "alac"@.len());
    assert("srt"@[0] != "ape"@[0]);
    assert("srt"@.len() != "wv"@.len());
    assert("sub"@[0] != "mkv"@[0]);
    assert("sub"@[0] != "mp4"@[0]);
    assert("sub"@[0] != "avi"@[0]);
    assert("sub"@[0] != "mov"@[0]);
    assert("sub"@[0] != "wmv"@[0]);
    assert("sub"@[0] != "flv"@[0]);
    assert("sub"@.len() != "webm"@.len());
    assert("sub"@[0] != "m4v"@[0]);
    assert("sub"@.len() != "ts"@.len());
    assert("sub"@.len() != "flac"@.len());
    assert("sub"@[0] != "mp3"@[0]);
    assert("sub"@[0] != "aac"@[0]);
    assert("sub"@[0] != "ogg"@[0]);
    assert("sub"@.len() != "opus"@.len());
    assert("sub"@[0] != "wav"@[0]);
    assert("sub"@[0] != "m4a"@[0]);
    assert("sub"@.len() != "alac"@.len());
    assert("sub"@[0] != "ape"@[0]);
    assert("sub"@.len() != "wv"@.len());
    assert("ass"@[0] != "mkv"@[0]);
    assert("ass"@[0] != "mp4"@[0]);
    assert("ass"@[1] != "avi"@[1]);
    assert("ass"@[0] != "mov"@[0]);
    assert("ass"@[0] != "wmv"@[0]);
    assert("ass"@[0] != "flv"@[0]);
    assert("ass"@.len() != "webm"@.len());
    assert("ass"@[0] != "m4v"@[0]);
    assert("ass"@.len() != "ts"@.len());
    assert("ass"@.len() != "flac"@.len());
    assert("ass"@[0] != "mp3"@[0]);
    assert("ass"@[1] != "aac"@[1]);
    assert("ass"@[0] != "ogg"@[0]);
    assert("ass"@.len() != "opus"@.len());
    assert("ass"@[0] != "wav"@[0]);
    assert("ass"@[0] != "m4a"@[0]);
    assert("ass"@.len() != "alac"@.len());
    assert("ass"@[1] != "ape"@[1]);
    assert("ass"@.len() != "wv"@.len());
    assert("ssa"@[0] != "mkv"@[0]);
    assert("ssa"@[0] != "mp4"@[0]);
    assert("ssa"@[0] != "avi"@[0]);
    assert("ssa"@[0] != "mov"@[0]);
    assert("ssa"@[0] != "wmv"@[0]);
    assert("ssa"@[0] != "flv"@[0]);
    assert("ssa"@.len() != "webm"@.len());
    assert("ssa"@[0] != "m4v"@[0]);
    assert("ssa"@.len() != "ts"@.len());
    assert("ssa"@.len() != "flac"@.len());
    assert("ssa"@[0] != "mp3"@[0]);
    assert("ssa"@[0] != "aac"@[0]);
    assert("ssa"@[0] != "ogg"@[0]);
    assert("ssa"@.len() != "opus"@.len());
    assert("ssa"@[0] != "wav"@[0]);
    assert("ssa"@[0] != "m4a"@[0]);
    assert("ssa"@.len() != "alac"@.len());
    assert("ssa"@[0] != "ape"@[0]);
    assert("ssa"@.len() != "wv"@.len());
    assert("vtt"@[0] != "mkv"@[0]);
    assert("vtt"@[0] != "mp4"@[0]);
    assert("vtt"@[0] != "avi"@[0]);
    assert("vtt"@[0] != "mov"@[0]);
    assert("vtt"@[0] != "wmv"@[0]);
    assert("vtt"@[0] != "flv"@[0]);
    assert("vtt"@.len() != "webm"@.len());
    assert("vtt"@[0] != "m4v"@[0]);
    assert("vtt"@.len() != "ts"@.len());
    assert("vtt"@.len() != "flac"@.len());
    assert("vtt"@[0] != "mp3"@[0]);
    assert("vtt"@[0] != "aac"@[0]);
    assert("vtt"@[0] != "ogg"@[0]);
    assert("vtt"@.len() != "opus"@.len());
    assert("vtt"@[0] != "wav"@[0]);
    assert("vtt"@[0] != "m4a"@[0]);
    assert("vtt"@.len() != "alac"@.len());
    assert("vtt"@[0] != "ape"@[0]);
    assert("vtt"@.len() != "wv"@.len());
    lemma_video_list(ext);
    lemma_audio_list(ext);
    lemma_subtitle_list(ext);
    lemma_video_list("mkv"@);
    lemma_audio_list("mkv"@);
    lemma_subtitle_list("mkv"@);
    lemma_video_list("mp4"@);
    lemma_audio_list("mp4"@);
    lemma_subtitle_list("mp4"@);
    lemma_video_list("avi"@);
    lemma_audio_list("avi"@);
    lemma_subtitle_list("avi"@);
    lemma_video_list("mov"@);
    lemma_audio_list("mov"@);
    lemma_subtitle_list("mov"@);
    lemma_video_list("wmv"@);
    lemma_audio_list("wmv"@);
    lemma_subtitle_list("wmv"@);
    lemma_video_list("flv"@);
    lemma_audio_list("flv"@);
    lemma_subtitle_list("flv"@);
    lemma_video_list("webm"@);
    lemma_audio_list("webm"@);
    lemma_subtitle_list("webm"@);
    lemma_video_list("m4v"@);
    lemma_audio_list("m4v"@);
    lemma_subtitle_list("m4v"@);
    lemma_video_list("ts"@);
    lemma_audio_list("ts"@);
    lemma_subtitle_list("ts"@);
    lemma_video_list("flac"@);
    lemma_audio_list("flac"@);
    lemma_subtitle_list("flac"@);
    lemma_video_list("mp3"@);
    lemma_audio_list("mp3"@);
    lemma_subtitle_list("mp3"@);
    lemma_video_list("aac"@);
    lemma_audio_list("aac"@);
    lemma_subtitle_list("aac"@);
    lemma_video_list("ogg"@);
    lemma_audio_list("ogg"@);
    lemma_subtitle_list("ogg"@);
    lemma_video_list("opus"@);
    lemma_audio_list("opus"@);
    lemma_subtitle_list("opus"@);
    lemma_video_list("wav"@);
    lemma_audio_list("wav"@);
    lemma_subtitle_list("wav"@);
    lemma_video_list("m4a"@);
    lemma_audio_list("m4a"@);
    lemma_subtitle_list("m4a"@);
    lemma_video_list("alac"@);
    lemma_audio_list("alac"@);
    lemma_subtitle_list("alac"@);
    lemma_video_list("ape"@);
    lemma_audio_list("ape"@);
    lemma_subtitle_list("ape"@);
    lemma_video_list("wv"@);
    lemma_audio_list("wv"@);
    lemma_subtitle_list("wv"@);
    lemma_video_list("srt"@);
    lemma_audio_list("srt"@);
    lemma_subtitle_list("srt"@);
    lemma_video_list("sub"@);
    lemma_audio_list("sub"@);
    lemma_subtitle_list("sub"@);
    lemma_video_list("ass"@);
    lemma_audio_list("ass"@);
    lemma_subtitle_list("ass"@);
    lemma_video_list("ssa"@);
    lemma_audio_list("ssa"@);
    lemma_subtitle_list("ssa"@);
    lemma_video_list("vtt"@);
    lemma_audio_list("vtt"@);
    lemma_subtitle_list("vtt"@);
    assert("AUDIO"@[0] != "VIDEO"@[0]);
}

proof fn lemma_video_list(e: Seq<char>)
    ensures
        video_extensions().contains(e) <==> (e == "mkv"@ || e == "mp4"@ || e == "avi"@ || e == "mov"@ || e == "wmv"@ || e == "flv"@ || e == "webm"@ || e == "m4v"@ || e == "ts"@),
{
    reveal_strlit("mkv");
    reveal_strlit("mp4");
    reveal_strlit("avi");
    reveal_strlit("mov");
    reveal_strlit("wmv");
    reveal_strlit("flv");
    reveal_strlit("webm");
    reveal_strlit("m4v");
    reveal_strlit("ts");
    assert(video_extensions().len() == 9);
    assert(video_extensions()[0] == "mkv"@);
    assert(video_extensions()[1] == "mp4"@);
    assert(video_extensions()[2] == "avi"@);
    assert(video_extensions()[3] == "mov"@);
    assert(video_extensions()[4] == "wmv"@);
    assert(video_extensions()[5] == "flv"@);
    assert(video_extensions()[6] == "webm"@);
    assert(video_extensions()[7] == "m4v"@);
    assert(video_extensions()[8] == "ts"@);
    if video_extensions().contains(e) {
        let i = choose|i: int| 0 <= i < video_extensions().len() && video_extensions()[i] == e;
        assert(0 <= i < 9);
    }
}

proof fn lemma_audio_list(e: Seq<char>)
    ensures
        audio_extensions().contains(e) <==> (e == "flac"@ || e == "mp3"@ || e == "aac"@ || e == "ogg"@ || e == "opus"@ || e == "wav"@ || e == "m4a"@ || e == "alac"@ || e == "ape"@ || e == "wv"@),
{
    reveal_strlit("flac");
    reveal_strlit("mp3");
    reveal_strlit("aac");
    reveal_strlit("ogg");
    reveal_strlit("opus");
    reveal_strlit("wav");
    reveal_strlit("m4a");
    reveal_strlit("alac");
    reveal_strlit("ape");
    reveal_strlit("wv");
    assert(audio_extensions().len() == 10);
    assert(audio_extensions()[0] == "flac"@);
    assert(audio_extensions()[1] == "mp3"@);
    assert(audio_extensions()[2] == "aac"@);
    assert(audio_extensions()[3] == "ogg"@);
    assert(audio_extensions()[4] == "opus"@);
    assert(audio_extensions()[5] == "wav"@);
    assert(audio_extensions()[6] == "m4a"@);
    assert(audio_extensions()[7] == "alac"@);
    assert(audio_extensions()[8] == "ape"@);
    assert(audio_extensions()[9] == "wv"@);
    if audio_extensions().contains(e) {
        let i = choose|i: int| 0 <= i < audio_extensions().len() && audio_extensions()[i] == e;
        assert(0 <= i < 10);
    }
}

proof fn lemma_subtitle_list(e: Seq<char>)
    ensures
        subtitle_extensions().contains(e) <==> (e == "srt"@ || e == "sub"@ || e == "ass"@ || e == "ssa"@ || e == "vtt"@),
{
    reveal_strlit("srt");
    reveal_strlit("sub");
    reveal_strlit("ass");
    reveal_strlit("ssa");
    reveal_strlit("vtt");
    assert(subtitle_extensions().len() == 5);
    assert(subtitle_extensions()[0] == "srt"@);
    assert(subtitle_extensions()[1] == "sub"@);
    assert(subtitle_extensions()[2] == "ass"@);
    assert(subtitle_extensions()[3] == "ssa"@);
    assert(subtitle_extensions()[4] == "vtt"@);
    if subtitle_extensions().contains(e) {
        let i = choose|i: int| 0 <= i < subtitle_extensions().len() && subtitle_extensions()[i] == e;
        assert(0 <= i < 5);
    }
}

} // verus!
