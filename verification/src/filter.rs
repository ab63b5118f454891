//! The category filter: a two-level selector over task status groups and
//! file-name extension groups, and the predicate it induces on tasks.
//!
//! A selector is a path of one or two labels.  A single label names a
//! status group (`unfinished`, `finished`, `failed`, anything else meaning
//! no filter).  A second-level label pairs a status label and an extension
//! group, joined by a dash, as in `finished-music`; its status part uses
//! the same vocabulary as the first level, and an unrecognized extension
//! part means "matches no known extension".

use vstd::prelude::*;
use vstd::string::StringSliceAdditionalSpecFns;

use crate::bytes_util::{bytes_eq, ends_with_lit, is_suffix_of};
use crate::status::DownloadStatus;
use crate::task::{DownloadTask, TaskModel};

verus! {

/// First selector level: which lifecycle states pass the filter.
#[derive(Clone, Copy, Debug, PartialEq, Eq, Structural)]
pub enum StatusGroup {
    All,
    Unfinished,
    Finished,
    Failed,
}

/// Second selector level: which extension family passes the filter.
#[derive(Clone, Copy, Debug, PartialEq, Eq, Structural)]
pub enum ExtGroup {
    Music,
    Video,
    Document,
    Archive,
    Program,
    Other,
}

/// Does a status belong to a status group?  `Unfinished` excludes the two
/// terminal states; `All` filters nothing.
pub open spec fn status_in_group(s: DownloadStatus, g: StatusGroup) -> bool {
    match g {
        StatusGroup::All => true,
        StatusGroup::Unfinished => s != DownloadStatus::Finished && s != DownloadStatus::Failed,
        StatusGroup::Finished => s == DownloadStatus::Finished,
        StatusGroup::Failed => s == DownloadStatus::Failed,
    }
}

/// Executable twin of [`status_in_group`].
pub fn status_matches(s: DownloadStatus, g: StatusGroup) -> (r: bool)
    ensures
        r == status_in_group(s, g),
{
    match g {
        StatusGroup::All => true,
        StatusGroup::Unfinished => !(s == DownloadStatus::Finished || s == DownloadStatus::Failed),
        StatusGroup::Finished => s == DownloadStatus::Finished,
        StatusGroup::Failed => s == DownloadStatus::Failed,
    }
}

// --- The extension taxonomy --------------------------------------------

pub open spec fn is_music_title(t: Seq<u8>) -> bool {
    ||| is_suffix_of(".mp3".spec_bytes(), t)
    ||| is_suffix_of(".wav".spec_bytes(), t)
    ||| is_suffix_of(".aac".spec_bytes(), t)
    ||| is_suffix_of(".ogg".spec_bytes(), t)
    ||| is_suffix_of(".m4a".spec_bytes(), t)
    ||| is_suffix_of(".flac".spec_bytes(), t)
    ||| is_suffix_of(".wma".spec_bytes(), t)
    ||| is_suffix_of(".aiff".spec_bytes(), t)
    ||| is_suffix_of(".opus".spec_bytes(), t)
    ||| is_suffix_of(".dsd".spec_bytes(), t)
}

pub open spec fn is_video_title(t: Seq<u8>) -> bool {
    ||| is_suffix_of(".mp4".spec_bytes(), t)
    ||| is_suffix_of(".avi".spec_bytes(), t)
    ||| is_suffix_of(".mkv".spec_bytes(), t)
    ||| is_suffix_of(".mov".spec_bytes(), t)
    ||| is_suffix_of(".wmv".spec_bytes(), t)
    ||| is_suffix_of(".flv".spec_bytes(), t)
    ||| is_suffix_of(".webm".spec_bytes(), t)
    ||| is_suffix_of(".mpeg".spec_bytes(), t)
    ||| is_suffix_of(".mpg".spec_bytes(), t)
    ||| is_suffix_of(".3gp".spec_bytes(), t)
}

pub open spec fn is_document_title(t: Seq<u8>) -> bool {
    ||| is_suffix_of(".pdf".spec_bytes(), t)
    ||| is_suffix_of(".doc".spec_bytes(), t)
    ||| is_suffix_of(".docx".spec_bytes(), t)
    ||| is_suffix_of(".xls".spec_bytes(), t)
    ||| is_suffix_of(".xlsx".spec_bytes(), t)
    ||| is_suffix_of(".ppt".spec_bytes(), t)
    ||| is_suffix_of(".pptx".spec_bytes(), t)
    ||| is_suffix_of(".txt".spec_bytes(), t)
    ||| is_suffix_of(".rtf".spec_bytes(), t)
    ||| is_suffix_of(".odt".spec_bytes(), t)
}

pub open spec fn is_archive_title(t: Seq<u8>) -> bool {
    ||| is_suffix_of(".zip".spec_bytes(), t)
    ||| is_suffix_of(".rar".spec_bytes(), t)
    ||| is_suffix_of(".tar".spec_bytes(), t)
    ||| is_suffix_of(".gz".spec_bytes(), t)
    ||| is_suffix_of(".7z".spec_bytes(), t)
    ||| is_suffix_of(".bz2".spec_bytes(), t)
    ||| is_suffix_of(".xz".spec_bytes(), t)
    ||| is_suffix_of(".iso".spec_bytes(), t)
    ||| is_suffix_of(".tgz".spec_bytes(), t)
    ||| is_suffix_of(".z".spec_bytes(), t)
}

pub open spec fn is_program_title(t: Seq<u8>) -> bool {
    ||| is_suffix_of(".exe".spec_bytes(), t)
    ||| is_suffix_of(".dll".spec_bytes(), t)
    ||| is_suffix_of(".msi".spec_bytes(), t)
    ||| is_suffix_of(".app".spec_bytes(), t)
    ||| is_suffix_of(".dmg".spec_bytes(), t)
    ||| is_suffix_of(".deb".spec_bytes(), t)
    ||| is_suffix_of(".rpm".spec_bytes(), t)
    ||| is_suffix_of(".sh".spec_bytes(), t)
    ||| is_suffix_of(".bin".spec_bytes(), t)
    ||| is_suffix_of(".jar".spec_bytes(), t)
    ||| is_suffix_of(".apk".spec_bytes(), t)
    ||| is_suffix_of(".xapk".spec_bytes(), t)
}

/// Membership of a title in an extension group; `Other` holds the titles
/// that match no known extension of any group.
pub open spec fn title_in_group(t: Seq<u8>, g: ExtGroup) -> bool {
    match g {
        ExtGroup::Music => is_music_title(t),
        ExtGroup::Video => is_video_title(t),
        ExtGroup::Document => is_document_title(t),
        ExtGroup::Archive => is_archive_title(t),
        ExtGroup::Program => is_program_title(t),
        ExtGroup::Other => !(is_music_title(t) || is_video_title(t) || is_document_title(t)
            || is_archive_title(t) || is_program_title(t)),
    }
}

fn title_is_music(t: &[u8]) -> (r: bool)
    ensures
        r == is_music_title(t@),
{
    ends_with_lit(t, ".mp3") || ends_with_lit(t, ".wav") || ends_with_lit(t, ".aac")
        || ends_with_lit(t, ".ogg") || ends_with_lit(t, ".m4a") || ends_with_lit(t, ".flac")
        || ends_with_lit(t, ".wma") || ends_with_lit(t, ".aiff") || ends_with_lit(t, ".opus")
        || ends_with_lit(t, ".dsd")
}

fn title_is_video(t: &[u8]) -> (r: bool)
    ensures
        r == is_video_title(t@),
{
    ends_with_lit(t, ".mp4") || ends_with_lit(t, ".avi") || ends_with_lit(t, ".mkv")
        || ends_with_lit(t, ".mov") || ends_with_lit(t, ".wmv") || ends_with_lit(t, ".flv")
        || ends_with_lit(t, ".webm") || ends_with_lit(t, ".mpeg") || ends_with_lit(t, ".mpg")
        || ends_with_lit(t, ".3gp")
}

fn title_is_document(t: &[u8]) -> (r: bool)
    ensures
        r == is_document_title(t@),
{
    ends_with_lit(t, ".pdf") || ends_with_lit(t, ".doc") || ends_with_lit(t, ".docx")
        || ends_with_lit(t, ".xls") || ends_with_lit(t, ".xlsx") || ends_with_lit(t, ".ppt")
        || ends_with_lit(t, ".pptx") || ends_with_lit(t, ".txt") || ends_with_lit(t, ".rtf")
        || ends_with_lit(t, ".odt")
}

fn title_is_archive(t: &[u8]) -> (r: bool)
    ensures
        r == is_archive_title(t@),
{
    ends_with_lit(t, ".zip") || ends_with_lit(t, ".rar") || ends_with_lit(t, ".tar")
        || ends_with_lit(t, ".gz") || ends_with_lit(t, ".7z") || ends_with_lit(t, ".bz2")
        || ends_with_lit(t, ".xz") || ends_with_lit(t, ".iso") || ends_with_lit(t, ".tgz")
        || ends_with_lit(t, ".z")
}

fn title_is_program(t: &[u8]) -> (r: bool)
    ensures
        r == is_program_title(t@),
{
    ends_with_lit(t, ".exe") || ends_with_lit(t, ".dll") || ends_with_lit(t, ".msi")
        || ends_with_lit(t, ".app") || ends_with_lit(t, ".dmg") || ends_with_lit(t, ".deb")
        || ends_with_lit(t, ".rpm") || ends_with_lit(t, ".sh") || ends_with_lit(t, ".bin")
        || ends_with_lit(t, ".jar") || ends_with_lit(t, ".apk") || ends_with_lit(t, ".xapk")
}

/// Executable twin of [`title_in_group`].
pub fn title_matches(t: &[u8], g: ExtGroup) -> (r: bool)
    ensures
        r == title_in_group(t@, g),
{
    match g {
        ExtGroup::Music => title_is_music(t),
        ExtGroup::Video => title_is_video(t),
        ExtGroup::Document => title_is_document(t),
        ExtGroup::Archive => title_is_archive(t),
        ExtGroup::Program => title_is_program(t),
        ExtGroup::Other => !(title_is_music(t) || title_is_video(t) || title_is_document(t)
            || title_is_archive(t) || title_is_program(t)),
    }
}

// --- Selector labels ---------------------------------------------------

/// Status group named by a label; an unknown label filters nothing.
pub open spec fn spec_status_group_of_label(l: Seq<u8>) -> StatusGroup {
    if l == "unfinished".spec_bytes() {
        StatusGroup::Unfinished
    } else if l == "finished".spec_bytes() {
        StatusGroup::Finished
    } else if l == "failed".spec_bytes() {
        StatusGroup::Failed
    } else {
        StatusGroup::All
    }
}

/// Executable twin of [`spec_status_group_of_label`].
pub fn status_group_of_label(l: &[u8]) -> (g: StatusGroup)
    ensures
        g == spec_status_group_of_label(l@),
{
    if bytes_eq(l, "unfinished".as_bytes()) {
        StatusGroup::Unfinished
    } else if bytes_eq(l, "finished".as_bytes()) {
        StatusGroup::Finished
    } else if bytes_eq(l, "failed".as_bytes()) {
        StatusGroup::Failed
    } else {
        StatusGroup::All
    }
}

/// Extension group named by the part of a second-level label after the
/// dash; an unknown part means [`ExtGroup::Other`].
pub open spec fn spec_ext_group_of_tail(t: Seq<u8>) -> ExtGroup {
    if t == "music".spec_bytes() {
        ExtGroup::Music
    } else if t == "vids".spec_bytes() {
        ExtGroup::Video
    } else if t == "docs".spec_bytes() {
        ExtGroup::Document
    } else if t == "compressed".spec_bytes() {
        ExtGroup::Archive
    } else if t == "programs".spec_bytes() {
        ExtGroup::Program
    } else {
        ExtGroup::Other
    }
}

/// Executable twin of [`spec_ext_group_of_tail`].
pub fn ext_group_of_tail(t: &[u8]) -> (g: ExtGroup)
    ensures
        g == spec_ext_group_of_tail(t@),
{
    if bytes_eq(t, "music".as_bytes()) {
        ExtGroup::Music
    } else if bytes_eq(t, "vids".as_bytes()) {
        ExtGroup::Video
    } else if bytes_eq(t, "docs".as_bytes()) {
        ExtGroup::Document
    } else if bytes_eq(t, "compressed".as_bytes()) {
        ExtGroup::Archive
    } else if bytes_eq(t, "programs".as_bytes()) {
        ExtGroup::Program
    } else {
        ExtGroup::Other
    }
}

/// The first dash of a label sits at `d`.
pub open spec fn first_dash_at(l: Seq<u8>, d: int) -> bool {
    &&& 0 <= d < l.len()
    &&& l[d] == ('-' as u8)
    &&& forall|j: int| 0 <= j < d ==> l[j] != ('-' as u8)
}

/// A second-level label split at its first dash: the status part before
/// it and the extension part after it.  A label without a dash is all
/// status part, with an empty extension part.
pub open spec fn dash_split(l: Seq<u8>) -> (Seq<u8>, Seq<u8>) {
    if exists|d: int| first_dash_at(l, d) {
        let d = choose|d: int| first_dash_at(l, d);
        (l.take(d), l.skip(d + 1))
    } else {
        (l, Seq::<u8>::empty())
    }
}

proof fn lemma_first_dash_unique(l: Seq<u8>, d1: int, d2: int)
    requires
        first_dash_at(l, d1),
        first_dash_at(l, d2),
    ensures
        d1 == d2,
{
    if d1 < d2 {
        assert(l[d1] != ('-' as u8));
    } else if d2 < d1 {
        assert(l[d2] != ('-' as u8));
    }
}

/// The two groups a second-level label selects.
pub open spec fn spec_level_two_groups(l: Seq<u8>) -> (StatusGroup, ExtGroup) {
    let (p, t) = dash_split(l);
    (spec_status_group_of_label(p), spec_ext_group_of_tail(t))
}

/// Split a second-level label at its first dash and name both groups.
pub fn level_two_groups(l: &[u8]) -> (r: (StatusGroup, ExtGroup))
    ensures
        r == spec_level_two_groups(l@),
{
    // Find the first dash.
    let n = l.len();
    let mut dash: Option<usize> = None;
    let mut k: usize = 0;
    while k < n && dash.is_none()
        invariant
            n == l@.len(),
            k <= n,
            match dash {
                Some(d) => d == k && k < n && first_dash_at(l@, d as int),
                None => forall|j: int| 0 <= j < k ==> l@[j] != ('-' as u8),
            },
        decreases (if dash is None { 1int } else { 0int }), n - k,
    {
        if l[k] == ('-' as u8) {
            dash = Some(k);
        } else {
            k += 1;
        }
    }
    match dash {
        Some(d) => {
            let mut prefix: Vec<u8> = Vec::new();
            let mut i: usize = 0;
            proof {
                assert(prefix@ =~= l@.take(0));
            }
            while i < d
                invariant
                    d < n == l@.len(),
                    i <= d,
                    prefix@ == l@.take(i as int),
                decreases d - i,
            {
                prefix.push(l[i]);
                proof {
                    assert(l@.take(i + 1) =~= l@.take(i as int).push(l@[i as int]));
                }
                i += 1;
            }
            let mut tail: Vec<u8> = Vec::new();
            let mut i: usize = d + 1;
            proof {
                assert(tail@ =~= l@.subrange(d + 1, d + 1));
            }
            while i < n
                invariant
                    d < n == l@.len(),
                    d + 1 <= i <= n,
                    tail@ == l@.subrange(d + 1, i as int),
                decreases n - i,
            {
                tail.push(l[i]);
                proof {
                    assert(l@.subrange(d + 1, i + 1) =~= l@.subrange(d + 1, i as int).push(
                        l@[i as int],
                    ));
                }
                i += 1;
            }
            proof {
                let sd = choose|sd: int| first_dash_at(l@, sd);
                lemma_first_dash_unique(l@, sd, d as int);
                assert(tail@ =~= l@.skip(d + 1));
            }
            (status_group_of_label(&prefix), ext_group_of_tail(&tail))
        },
        None => {
            proof {
                if exists|sd: int| first_dash_at(l@, sd) {
                    let sd = choose|sd: int| first_dash_at(l@, sd);
                    assert(l@[sd] != ('-' as u8));
                    assert(false);
                }
            }
            (status_group_of_label(l), ext_group_of_tail(&Vec::new()))
        },
    }
}

// --- The selector predicate --------------------------------------------

/// Does a task pass a selector?  Defined for selectors of one or two
/// labels; any other shape leaves the view untouched and never reaches
/// this predicate.
pub open spec fn task_matches_selector(t: TaskModel, sel: Seq<Seq<u8>>) -> bool {
    if sel.len() == 1 {
        status_in_group(t.status, spec_status_group_of_label(sel[0]))
    } else {
        let (sg, eg) = spec_level_two_groups(sel[1]);
        status_in_group(t.status, sg) && title_in_group(t.title, eg)
    }
}

/// Executable twin of [`task_matches_selector`].
pub fn task_matches(t: &DownloadTask, sel: &Vec<Vec<u8>>) -> (r: bool)
    requires
        sel@.len() == 1 || sel@.len() == 2,
    ensures
        r == task_matches_selector(t@, sel.deep_view()),
{
    proof {
        assert(sel.deep_view().len() == sel@.len());
        assert(sel.deep_view()[0] == sel@[0]@);
        if sel@.len() == 2 {
            assert(sel.deep_view()[1] == sel@[1]@);
        }
    }
    if sel.len() == 1 {
        status_matches(t.status, status_group_of_label(&sel[0]))
    } else {
        let (sg, eg) = level_two_groups(&sel[1]);
        status_matches(t.status, sg) && title_matches(&t.title, eg)
    }
}

} // verus!
