//! Where files go: output directories, the names tried one after another
//! until a free one is found, the routing of videos and the library layout.

use vstd::prelude::*;
use vstd::string::*;
use crate::number::{decimal, decimal_chars, lemma_decimal_injective};
use crate::paths::{
    body_start, component_start, extension, file_stem, last_dot, lemma_last_dot, name_extension,
    name_stem, path_extension, path_file_name, path_file_stem, trim_trailing,
};
use crate::text::{
    chars_of, contains, occurs_at, occurs_in, replace, replace_nonempty, replaced, same_text,
    slice_chars, string_of,
};

verus! {

/// The characters of `s` followed by those of `t`.
pub fn concat(s: &str, t: &str) -> (r: String)
    ensures
        r@ == s@ + t@,
{
    let mut r = s.to_owned();
    r.append(t);
    r
}

pub open spec fn join_path(dir: Seq<char>, name: Seq<char>) -> Seq<char> {
    dir + seq!['/'] + name
}

/// `dir/name`.
pub fn join(dir: &str, name: &str) -> (r: String)
    ensures
        r@ == join_path(dir@, name@),
{
    proof {
        reveal_strlit("/");
        assert("/"@ =~= seq!['/']);
    }
    let d = concat(dir, "/");
    concat(d.as_str(), name)
}

/// The path tried at a given attempt: `dir/first` at the first attempt, then
/// `dir/stem-N` followed by `tail`, with N the attempt number.
pub open spec fn candidate(
    dir: Seq<char>,
    first: Seq<char>,
    stem: Seq<char>,
    tail: Seq<char>,
    attempt: nat,
) -> Seq<char> {
    if attempt == 0 {
        join_path(dir, first)
    } else {
        join_path(dir, stem + seq!['-'] + decimal(attempt) + tail)
    }
}

/// The path to try at `attempt` when looking for a name that is not taken.
pub fn candidate_path(dir: &str, first: &str, stem: &str, tail: &str, attempt: u64) -> (r: String)
    ensures
        r@ == candidate(dir@, first@, stem@, tail@, attempt as nat),
{
    if attempt == 0 {
        join(dir, first)
    } else {
        proof {
            reveal_strlit("-");
            assert("-"@ =~= seq!['-']);
        }
        let n = string_of(&decimal_chars(attempt));
        let a = concat(stem, "-");
        let b = concat(a.as_str(), n.as_str());
        let c = concat(b.as_str(), tail);
        join(dir, c.as_str())
    }
}

/// Two attempts never try the same path, as long as the first name is no
/// longer than the stem and the tail together.
pub proof fn law_candidates_distinct(
    dir: Seq<char>,
    first: Seq<char>,
    stem: Seq<char>,
    tail: Seq<char>,
    i: nat,
    j: nat,
)
    requires
        i != j,
        first.len() <= stem.len() + tail.len(),
    ensures
        candidate(dir, first, stem, tail, i) != candidate(dir, first, stem, tail, j),
{
    let ci = candidate(dir, first, stem, tail, i);
    let cj = candidate(dir, first, stem, tail, j);
    if i == 0 || j == 0 {
        let k = if i == 0 { j } else { i };
        assert(decimal(k).len() >= 1) by {
            if k >= 10 {
                assert(decimal(k) == decimal(k / 10).push(crate::number::digit_char(k % 10)));
            }
        }
        assert(ci.len() != cj.len());
    } else if ci == cj {
        let p = dir + seq!['/'] + stem + seq!['-'];
        let di = decimal(i);
        let dj = decimal(j);
        assert(ci =~= p + di + tail);
        assert(cj =~= p + dj + tail);
        assert(di.len() == dj.len());
        assert forall|k: int| 0 <= k < di.len() implies di[k] == dj[k] by {
            assert(ci[p.len() + k] == di[k]);
            assert(cj[p.len() + k] == dj[k]);
        }
        assert(di =~= dj);
        lemma_decimal_injective(i, j);
    }
}

/// The path an edited image is written to at a given attempt:
/// `dir/stem.ext`, then `dir/stem-N.ext`.
pub fn image_output_candidate(dir: &str, stem: &str, ext: &str, attempt: u64) -> (r: String)
    ensures
        r@ == candidate(dir@, stem@ + seq!['.'] + ext@, stem@, seq!['.'] + ext@, attempt as nat),
{
    proof {
        reveal_strlit(".");
        assert("."@ =~= seq!['.']);
    }
    let tail = concat(".", ext);
    let first = concat(stem, tail.as_str());
    assert(first@ =~= stem@ + seq!['.'] + ext@);
    candidate_path(dir, first.as_str(), stem, tail.as_str(), attempt)
}

pub open spec fn bunched(stem: Seq<char>, ext: Seq<char>) -> Seq<char> {
    stem + seq!['-', 'b', 'u', 'n', 'c', 'h', 'e', 'd', '.'] + ext
}

/// `stem-bunched.ext`, the name of an edited image when there is no output
/// directory.
pub fn bunched_name(stem: &str, ext: &str) -> (r: String)
    ensures
        r@ == bunched(stem@, ext@),
{
    proof {
        reveal_strlit("-bunched.");
        assert("-bunched."@ =~= seq!['-', 'b', 'u', 'n', 'c', 'h', 'e', 'd', '.']);
    }
    let a = concat(stem, "-bunched.");
    concat(a.as_str(), ext)
}

/// A directory to write into, and whether it may have to be made first
/// (not when it is the output directory itself).
#[derive(Debug)]
pub struct OutputDirectory {
    pub path: String,
    pub create_if_missing: bool,
}

/// The output directory for a file: its parent directory with the input
/// directory replaced by the target everywhere in it.
pub fn output_directory(parent: &str, input_dir: &str, target: &str) -> (r: OutputDirectory)
    ensures
        r.path@ == replaced(parent@, input_dir@, target@),
        r.create_if_missing == (r.path@ != target@),
{
    let path = replace(parent, input_dir, target);
    let same = same_text(path.as_str(), target);
    OutputDirectory { path, create_if_missing: !same }
}

/// Whether the stem holds the ignore mask, when there is one.
pub fn is_ignored(stem: &str, mask: Option<&str>) -> (b: bool)
    ensures
        b == (match mask {
            Some(m) => occurs_in(stem@, m@),
            None => false,
        }),
{
    match mask {
        Some(m) => contains(stem, m),
        None => false,
    }
}

/// The kind of a media file.
#[derive(Debug, Clone, Copy, PartialEq, Eq, Structural)]
pub enum MediaKind {
    Image,
    Video,
}

/// Files with the extension `mp4` are videos, all others images.
pub fn media_kind(ext: &str) -> (k: MediaKind)
    ensures
        k == (if ext@ == seq!['m', 'p', '4'] { MediaKind::Video } else { MediaKind::Image }),
{
    proof {
        reveal_strlit("mp4");
        assert("mp4"@ =~= seq!['m', 'p', '4']);
    }
    if same_text(ext, "mp4") {
        MediaKind::Video
    } else {
        MediaKind::Image
    }
}

/// The directory, relative to the output directory, that separated videos go to.
pub open spec fn videos_dir() -> Seq<char> {
    seq!['.', '.', '/', 'v', 'i', 'd', 'e', 'o']
}

fn videos_dir_text() -> (r: String)
    ensures
        r@ == videos_dir(),
{
    proof {
        reveal_strlit("../video");
        assert("../video"@ =~= videos_dir());
    }
    "../video".to_owned()
}

/// A file path without a parent directory.
#[derive(Debug, Clone, Copy, PartialEq, Eq, Structural)]
pub enum PathError {
    NoParent,
}

/// What happens to a video.
#[derive(Debug)]
pub enum VideoRoute {
    /// Copied into this directory.
    CopyTo(OutputDirectory),
    /// Moved into this directory, made first when missing.
    MoveTo(String),
    /// Left where it is.
    Stay,
}

/// The meaning of a `VideoRoute`, as plain text.
pub enum RouteView {
    CopyTo(Seq<char>, bool),
    MoveTo(Seq<char>),
    Stay,
}

pub open spec fn route_view(r: VideoRoute) -> RouteView {
    match r {
        VideoRoute::CopyTo(d) => RouteView::CopyTo(d.path@, d.create_if_missing),
        VideoRoute::MoveTo(d) => RouteView::MoveTo(d@),
        VideoRoute::Stay => RouteView::Stay,
    }
}

/// Where a video goes. With an output directory it is copied: into
/// `target/../video` when videos are separated, else into its parent with the
/// input directory replaced by the target. Without one, separated videos are
/// moved to `input/../video`, unless their parent already holds `../video`.
pub open spec fn video_route(
    input: Seq<char>,
    parent: Option<Seq<char>>,
    target: Option<Seq<char>>,
    separate: bool,
) -> Result<RouteView, PathError> {
    match target {
        Some(t) => if separate {
            let d = join_path(t, videos_dir());
            Ok(RouteView::CopyTo(d, d != t))
        } else {
            match parent {
                Some(p) => {
                    let d = replaced(p, input, t);
                    Ok(RouteView::CopyTo(d, d != t))
                },
                None => Err(PathError::NoParent),
            }
        },
        None => if separate {
            match parent {
                Some(p) => if occurs_in(p, videos_dir()) {
                    Ok(RouteView::Stay)
                } else {
                    Ok(RouteView::MoveTo(join_path(input, videos_dir())))
                },
                None => Err(PathError::NoParent),
            }
        } else {
            Ok(RouteView::Stay)
        },
    }
}

pub open spec fn opt_str_view(o: Option<&str>) -> Option<Seq<char>> {
    match o {
        Some(s) => Some(s@),
        None => None,
    }
}

/// Decides where a video goes.
pub fn route_video(
    input_dir: &str,
    parent: Option<&str>,
    target: Option<&str>,
    separate_videos: bool,
) -> (r: Result<VideoRoute, PathError>)
    ensures
        match r {
            Ok(x) => video_route(input_dir@, opt_str_view(parent), opt_str_view(target), separate_videos)
                == Ok::<RouteView, PathError>(route_view(x)),
            Err(e) => video_route(input_dir@, opt_str_view(parent), opt_str_view(target), separate_videos)
                == Err::<RouteView, PathError>(e),
        },
{
    let videos = videos_dir_text();
    match target {
        Some(t) => {
            if separate_videos {
                let d = join(t, videos.as_str());
                let same = same_text(d.as_str(), t);
                Ok(VideoRoute::CopyTo(OutputDirectory { path: d, create_if_missing: !same }))
            } else {
                match parent {
                    Some(p) => Ok(VideoRoute::CopyTo(output_directory(p, input_dir, t))),
                    None => Err(PathError::NoParent),
                }
            }
        },
        None => {
            if separate_videos {
                match parent {
                    Some(p) => {
                        if contains(p, videos.as_str()) {
                            Ok(VideoRoute::Stay)
                        } else {
                            Ok(VideoRoute::MoveTo(join(input_dir, videos.as_str())))
                        }
                    },
                    None => Err(PathError::NoParent),
                }
            } else {
                Ok(VideoRoute::Stay)
            }
        },
    }
}


/// The copy of an ignored image at a given attempt: `dir/name`, then
/// `dir/name-N.ext`.
pub fn ignored_copy_candidate(dir: &str, name: &str, ext: &str, attempt: u64) -> (r: String)
    ensures
        r@ == candidate(dir@, name@, name@, seq!['.'] + ext@, attempt as nat),
{
    proof {
        reveal_strlit(".");
        assert("."@ =~= seq!['.']);
    }
    let tail = concat(".", ext);
    candidate_path(dir, name, name, tail.as_str(), attempt)
}

/// The copy of a video at a given attempt: `dir/name`, then `dir/name-N`.
pub fn video_copy_candidate(dir: &str, name: &str, attempt: u64) -> (r: String)
    ensures
        r@ == candidate(dir@, name@, name@, Seq::<char>::empty(), attempt as nat),
{
    proof {
        reveal_strlit("");
        assert(""@ =~= Seq::<char>::empty());
    }
    candidate_path(dir, name, name, "", attempt)
}

pub open spec fn default_extension(for_video: bool) -> Seq<char> {
    if for_video {
        seq!['m', 'p', '4']
    } else {
        seq!['p', 'n', 'g']
    }
}

/// The stem and the extension of a file name, with `noname` for a missing
/// stem and `mp4` (videos) or `png` (images) for a missing extension.
pub open spec fn separated(f: Seq<char>, for_video: bool) -> (Seq<char>, Seq<char>) {
    (
        match path_file_stem(f) {
            Some(x) => x,
            None => seq!['n', 'o', 'n', 'a', 'm', 'e'],
        },
        match path_extension(f) {
            Some(x) => x,
            None => default_extension(for_video),
        },
    )
}

/// Splits a file name into stem and extension, filling in defaults.
pub fn separate_filename(filename: &str, for_video: bool) -> (r: (String, String))
    ensures
        (r.0@, r.1@) == separated(filename@, for_video),
{
    proof {
        reveal_strlit("noname");
        reveal_strlit("mp4");
        reveal_strlit("png");
        assert("noname"@ =~= seq!['n', 'o', 'n', 'a', 'm', 'e']);
        assert("mp4"@ =~= seq!['m', 'p', '4']);
        assert("png"@ =~= seq!['p', 'n', 'g']);
    }
    let name = match file_stem(filename) {
        Some(x) => x,
        None => "noname".to_owned(),
    };
    let ext = match extension(filename) {
        Some(x) => x,
        None => if for_video {
            "mp4".to_owned()
        } else {
            "png".to_owned()
        },
    };
    (name, ext)
}

/// Position of the first `-` or `.` in `s`, or its length.
pub open spec fn group_end(s: Seq<char>) -> int
    decreases s.len(),
{
    if s.len() == 0 {
        0
    } else if s[0] == '-' || s[0] == '.' {
        0
    } else {
        1 + group_end(s.drop_first())
    }
}

proof fn lemma_group_end_is(s: Seq<char>, i: int)
    requires
        0 <= i <= s.len(),
        i < s.len() ==> (s[i] == '-' || s[i] == '.'),
        forall|j: int| 0 <= j < i ==> s[j] != '-' && s[j] != '.',
    ensures
        group_end(s) == i,
    decreases s.len(),
{
    if s.len() > 0 && i > 0 {
        assert forall|j: int| 0 <= j < i - 1 implies s.drop_first()[j] != '-' && s.drop_first()[j]
            != '.' by {
            assert(s.drop_first()[j] == s[j + 1]);
        }
        lemma_group_end_is(s.drop_first(), i - 1);
    }
}

/// The group a file belongs to in the library: its name up to the first `-`
/// or `.`.
pub fn library_group(name: &str) -> (r: String)
    ensures
        r@ == name@.take(group_end(name@)),
{
    let v = chars_of(name);
    let mut i: usize = 0;
    while i < v.len() && v[i] != '-' && v[i] != '.'
        invariant
            v@ == name@,
            i <= v.len(),
            forall|j: int| 0 <= j < i ==> v@[j] != '-' && v@[j] != '.',
        decreases v.len() - i,
    {
        i = i + 1;
    }
    proof {
        lemma_group_end_is(v@, i as int);
    }
    let g = slice_chars(&v, 0, i);
    assert(g@ =~= name@.take(i as int));
    string_of(&g)
}

/// The library directory of a file: `input/video/GROUP` for videos,
/// `input/GROUP` for images.
pub open spec fn library_dir(input: Seq<char>, name: Seq<char>, for_video: bool) -> Seq<char> {
    let g = name.take(group_end(name));
    if for_video {
        join_path(input + seq!['/', 'v', 'i', 'd', 'e', 'o'], g)
    } else {
        join_path(input, g)
    }
}

/// `input/video`, the root of the video library.
pub fn video_library_root(input_dir: &str) -> (r: String)
    ensures
        r@ == input_dir@ + seq!['/', 'v', 'i', 'd', 'e', 'o'],
{
    proof {
        reveal_strlit("/video");
        assert("/video"@ =~= seq!['/', 'v', 'i', 'd', 'e', 'o']);
    }
    concat(input_dir, "/video")
}

/// The directory a file is moved to when the library is built.
pub fn library_directory(input_dir: &str, name: &str, for_video: bool) -> (r: String)
    ensures
        r@ == library_dir(input_dir@, name@, for_video),
{
    let g = library_group(name);
    if for_video {
        let base = video_library_root(input_dir);
        join(base.as_str(), g.as_str())
    } else {
        join(input_dir, g.as_str())
    }
}

/// The path a file is moved to in the library at a given attempt:
/// `dir/name`, then `dir/STEM-N.EXT` with stem and extension separated.
pub fn library_candidate(dir: &str, name: &str, for_video: bool, attempt: u64) -> (r: String)
    ensures
        r@ == candidate(
            dir@,
            name@,
            separated(name@, for_video).0,
            seq!['.'] + separated(name@, for_video).1,
            attempt as nat,
        ),
{
    proof {
        reveal_strlit(".");
        assert("."@ =~= seq!['.']);
    }
    let (stem, ext) = separate_filename(name, for_video);
    let tail = concat(".", ext.as_str());
    candidate_path(dir, name, stem.as_str(), tail.as_str(), attempt)
}


/// A file directly inside the input directory goes directly into the
/// output directory.
pub proof fn law_top_level_goes_to_target(input: Seq<char>, target: Seq<char>)
    requires
        input.len() > 0,
    ensures
        replaced(input, input, target) == target,
{
    assert(input.subrange(0, input.len() as int) =~= input);
    assert(occurs_at(input, input, 0));
    assert(input.skip(input.len() as int) =~= Seq::<char>::empty());
    assert(replace_nonempty(input.skip(input.len() as int), input, target) == Seq::<char>::empty());
    assert(target + Seq::<char>::empty() =~= target);
}

proof fn lemma_component_start_at(s: Seq<char>, b: int, m: int)
    requires
        0 <= b <= m <= s.len(),
        m > b ==> s[m - 1] == '/',
        forall|j: int| m <= j < s.len() ==> s[j] != '/',
    ensures
        component_start(s, b) == m,
    decreases s.len(),
{
    if s.len() > m {
        assert(s.drop_last().len() == s.len() - 1);
        assert forall|j: int| m <= j < s.drop_last().len() implies s.drop_last()[j] != '/' by {
            assert(s.drop_last()[j] == s[j]);
        }
        if m > b {
            assert(s.drop_last()[m - 1] == s[m - 1]);
        }
        lemma_component_start_at(s.drop_last(), b, m);
    }
}

/// The file name of `dir/name` is `name`, for a plain name.
pub proof fn law_file_name_of_join(dir: Seq<char>, name: Seq<char>)
    requires
        plain_name(name),
    ensures
        path_file_name(join_path(dir, name)) == Some(name),
{
    let s = join_path(dir, name);
    let b = body_start(s);
    let m: int = dir.len() as int + 1;
    assert(s[dir.len() as int] == '/');
    assert forall|j: int| m <= j < s.len() implies s[j] != '/' by {
        assert(s[j] == name[j - m]);
    }
    assert(s.last() == name.last());
    assert(s.last() != '/') by {
        assert(name[name.len() - 1] != '/');
    }
    if s.last() == '.' {
        if name.len() == 1 {
            assert(name =~= seq!['.']);
        } else {
            assert(s[s.len() - 2] == name[name.len() - 2]);
            assert(name[name.len() - 2] != '/');
        }
    }
    assert(trim_trailing(s, b) == s);
    lemma_component_start_at(s, b, m);
    assert(s.subrange(m, s.len() as int) =~= name);
}


/// A single path component: not empty, without `/`, neither `.` nor `..`.
pub open spec fn plain_name(n: Seq<char>) -> bool {
    n.len() > 0 && !n.contains('/') && n != seq!['.'] && n != seq!['.', '.']
}

/// The file name of a plain name is the name itself.
pub proof fn law_plain_name_is_file_name(n: Seq<char>)
    requires
        plain_name(n),
    ensures
        path_file_name(n) == Some(n),
{
    assert(n[0] != '/');
    if n.len() > 1 {
        assert(n[1] != '/');
    } else if n[0] == '.' {
        assert(n =~= seq!['.']);
    }
    assert(body_start(n) == 0);
    assert(n.last() != '/') by {
        assert(n[n.len() - 1] != '/');
    }
    if n.last() == '.' {
        if n.len() == 1 {
            assert(n =~= seq!['.']);
        } else {
            assert(n[n.len() - 2] != '/');
        }
    }
    assert(trim_trailing(n, 0) == n);
    assert forall|j: int| 0 <= j < n.len() implies n[j] != '/' by {
        assert(n.contains(n[j]));
    }
    lemma_component_start_at(n, 0, 0);
    assert(n.subrange(0, n.len() as int) =~= n);
}

/// Building the library never tries the same path twice for a file.
pub proof fn law_library_candidates_distinct(
    dir: Seq<char>,
    name: Seq<char>,
    for_video: bool,
    i: nat,
    j: nat,
)
    requires
        plain_name(name),
        i != j,
    ensures
        candidate(dir, name, separated(name, for_video).0, seq!['.'] + separated(name, for_video).1, i)
            != candidate(dir, name, separated(name, for_video).0, seq!['.'] + separated(name, for_video).1, j),
{
    law_plain_name_is_file_name(name);
    lemma_last_dot(name);
    let stem = separated(name, for_video).0;
    let tail = seq!['.'] + separated(name, for_video).1;
    assert(stem == name_stem(name));
    if last_dot(name) > 0 {
        assert(name_extension(name) == Some(name.skip(last_dot(name) + 1)));
        assert(stem.len() == last_dot(name));
        assert(tail.len() == name.len() - last_dot(name));
    }
    assert(name.len() <= stem.len() + tail.len());
    law_candidates_distinct(dir, name, stem, tail, i, j);
}


/// With an output directory and separated videos, every video is copied
/// into `target/../video`, whatever its parent directory is (or whether it
/// has one); the directory may be made since it is not the target itself.
pub proof fn law_separated_videos_go_to_target_video_dir(
    input: Seq<char>,
    parent: Option<Seq<char>>,
    other_parent: Option<Seq<char>>,
    target: Seq<char>,
)
    ensures
        video_route(input, parent, Some(target), true) == Ok::<RouteView, PathError>(
            RouteView::CopyTo(target + seq!['/', '.', '.', '/', 'v', 'i', 'd', 'e', 'o'], true),
        ),
        video_route(input, parent, Some(target), true) == video_route(
            input,
            other_parent,
            Some(target),
            true,
        ),
{
    let d = join_path(target, videos_dir());
    assert(d =~= target + seq!['/', '.', '.', '/', 'v', 'i', 'd', 'e', 'o']);
    assert(d.len() != target.len());
}

} // verus!
