//! Statistics about archive extraction, and the common-stem computation
//! that finds the top-level directory of an archive.
//!
//! The library models paths as strings with `/` separators. A path's
//! segments are its non-empty `/`-separated pieces; the special names `.`
//! and `..` end a comparison, mirroring component normalization.

use vstd::prelude::*;

use crate::ErrorMessage;

verus! {

// --- Path segments ---------------------------------------------------------

/// The first index at or after `i` where a segment ends: a `/` or the end.
pub open spec fn seg_end(s: Seq<char>, i: int) -> int
    decreases s.len() - i,
{
    if 0 <= i < s.len() && s[i] != '/' {
        seg_end(s, i + 1)
    } else {
        i
    }
}

/// `seg_end` never moves backwards.
pub proof fn lemma_seg_end_ge(s: Seq<char>, i: int)
    ensures
        seg_end(s, i) >= i,
        0 <= i < s.len() && s[i] != '/' ==> seg_end(s, i) >= i + 1,
        seg_end(s, i) <= s.len() || seg_end(s, i) == i,
    decreases s.len() - i,
{
    if 0 <= i < s.len() && s[i] != '/' {
        lemma_seg_end_ge(s, i + 1);
    }
}

/// The segments of `s` from position `i` on: non-empty runs of characters
/// between slashes.
pub open spec fn segments_from(s: Seq<char>, i: int) -> Seq<Seq<char>>
    decreases s.len() - i,
    via segments_from_decreases
{
    if i < 0 || i >= s.len() {
        Seq::empty()
    } else if s[i] == '/' {
        segments_from(s, i + 1)
    } else {
        seq![s.subrange(i, seg_end(s, i))] + segments_from(s, seg_end(s, i))
    }
}

#[via_fn]
proof fn segments_from_decreases(s: Seq<char>, i: int) {
    lemma_seg_end_ge(s, i);
}

/// The segments of a whole path.
pub open spec fn path_segments(s: Seq<char>) -> Seq<Seq<char>> {
    segments_from(s, 0)
}

/// Split a path into its segments.
pub fn split_segments(path: &str) -> (r: Vec<String>)
    ensures
        r@.len() == path_segments(path@).len(),
        forall|k: int|
            0 <= k < r@.len() ==> (#[trigger] r@[k])@ == path_segments(path@)[k],
{
    let len = path.unicode_len();
    let mut segs: Vec<String> = Vec::new();
    let mut i: usize = 0;
    while i < len
        invariant
            len == path@.len(),
            i <= len,
            path_segments(path@) =~= seqs_view(segs@) + segments_from(path@, i as int),
        decreases len - i,
    {
        let c = path.get_char(i);
        if c == '/' {
            i = i + 1;
        } else {
            let start = i;
            let mut j: usize = i;
            while j < len
                invariant_except_break
                    len == path@.len(),
                    start <= j <= len,
                    seg_end(path@, start as int) == seg_end(path@, j as int),
                ensures
                    len == path@.len(),
                    start <= j <= len,
                    seg_end(path@, start as int) == seg_end(path@, j as int),
                    j == len || path@[j as int] == '/',
                decreases len - j,
            {
                let cj = path.get_char(j);
                if cj == '/' {
                    break;
                }
                j = j + 1;
            }
            proof {
                assert(seg_end(path@, j as int) == j);
            }
            let seg = path.substring_char(start, j);
            let owned: String = seg.to_owned();
            let ghost before = segs@;
            segs.push(owned);
            proof {
                assert(seqs_view(segs@) =~= seqs_view(before).push(owned@));
                assert(segments_from(path@, start as int) =~= seq![
                    path@.subrange(start as int, j as int),
                ] + segments_from(path@, j as int));
                assert(seqs_view(segs@) + segments_from(path@, j as int) =~= seqs_view(before)
                    + segments_from(path@, start as int));
            }
            i = j;
        }
    }
    proof {
        assert(segments_from(path@, len as int) =~= Seq::<Seq<char>>::empty());
        assert(path_segments(path@) =~= seqs_view(segs@));
    }
    segs
}

/// The views of a vector of strings.
pub open spec fn seqs_view(v: Seq<String>) -> Seq<Seq<char>> {
    Seq::new(v.len(), |i: int| v[i]@)
}

// --- Common stem -----------------------------------------------------------

/// The longest shared prefix of two segment lists, stopping at the special
/// names `.` and `..`.
pub open spec fn common_segs(a: Seq<Seq<char>>, b: Seq<Seq<char>>) -> Seq<Seq<char>>
    decreases a.len(),
{
    if a.len() > 0 && b.len() > 0 && a[0] == b[0] && a[0] != "."@ && a[0] != ".."@ {
        seq![a[0]] + common_segs(a.drop_first(), b.drop_first())
    } else {
        Seq::empty()
    }
}

/// Segments joined with `/` separators.
pub open spec fn join_segs(segs: Seq<Seq<char>>) -> Seq<char>
    decreases segs.len(),
{
    if segs.len() == 0 {
        Seq::empty()
    } else if segs.len() == 1 {
        segs[0]
    } else {
        segs[0] + seq!['/'] + join_segs(segs.drop_first())
    }
}

/// The longest common leading path of two paths, if they share any:
/// the common prefix of their segment lists, joined with `/`.
pub fn common_stem(p1: &str, p2: &str) -> (r: Option<String>)
    ensures
        ({
            let common = common_segs(path_segments(p1@), path_segments(p2@));
            match r {
                None => common.len() == 0,
                Some(s) => common.len() > 0 && s@ == join_segs(common),
            }
        }),
{
    let a = split_segments(p1);
    let b = split_segments(p2);
    let ghost sa = path_segments(p1@);
    let ghost sb = path_segments(p2@);
    let n: usize = if a.len() < b.len() {
        a.len()
    } else {
        b.len()
    };
    let mut out = String::new();
    let mut i: usize = 0;
    while i < n
        invariant_except_break
            n <= sa.len() && n <= sb.len(),
            a@.len() == sa.len() && b@.len() == sb.len(),
            forall|k: int| 0 <= k < sa.len() ==> (#[trigger] a@[k])@ == sa[k],
            forall|k: int| 0 <= k < sb.len() ==> (#[trigger] b@[k])@ == sb[k],
            n == if sa.len() < sb.len() { sa.len() } else { sb.len() },
            i <= n,
            common_segs(sa, sb).len() >= i,
            out@ == join_segs(sa.take(i as int)),
        ensures
            i <= n,
            common_segs(sa, sb).len() >= i,
            i < n ==> common_segs(sa, sb).len() == i,
            out@ == join_segs(sa.take(i as int)),
        decreases n - i,
    {
        proof {
            assert(a@[i as int]@ == sa[i as int]);
            assert(b@[i as int]@ == sb[i as int]);
        }
        let sega: &String = &a[i];
        let segb: &String = &b[i];
        let same = strings_equal(sega.as_str(), segb.as_str());
        let is_dot = strings_equal(sega.as_str(), ".");
        let is_dotdot = strings_equal(sega.as_str(), "..");
        proof {
            assert(same == (sa[i as int] == sb[i as int]));
            assert(is_dot == (sa[i as int] == "."@));
            assert(is_dotdot == (sa[i as int] == ".."@));
        }
        if !same || is_dot || is_dotdot {
            proof {
                lemma_common_segs_stops(sa, sb, i as int);
            }
            break;
        }
        if i > 0 {
            out.push('/');
        }
        append_str(&mut out, sega.as_str());
        proof {
            lemma_join_segs_take(sa, i as int);
            lemma_common_segs_extends(sa, sb, i as int);
        }
        i = i + 1;
    }
    proof {
        lemma_common_segs_bounded(sa, sb);
        assert(common_segs(sa, sb).len() == i);
    }
    if i == 0 {
        None
    } else {
        proof {
            lemma_common_segs_is_prefix(sa, sb, i as int);
        }
        Some(out)
    }
}

/// If the first `i` segments agree (and are ordinary names), the common
/// prefix has at least `i + 1` entries exactly when position `i` also
/// agrees.
proof fn lemma_common_segs_len(a: Seq<Seq<char>>, b: Seq<Seq<char>>, i: int)
    requires
        0 <= i,
        common_segs(a, b).len() >= i,
    ensures
        common_segs(a, b).len() == i ==> !(i < a.len() && i < b.len() && a[i] == b[i] && a[i]
            != "."@ && a[i] != ".."@),
        common_segs(a, b).len() > i ==> i < a.len() && i < b.len() && a[i] == b[i] && a[i] != "."@
            && a[i] != ".."@,
    decreases i,
{
    if a.len() > 0 && b.len() > 0 && a[0] == b[0] && a[0] != "."@ && a[0] != ".."@ {
        if i > 0 {
            lemma_common_segs_len(a.drop_first(), b.drop_first(), i - 1);
            if i < a.len() && i < b.len() {
                assert(a.drop_first()[i - 1] == a[i] && b.drop_first()[i - 1] == b[i]);
            }
            lemma_common_segs_bounded(a, b);
        }
    } else {
        assert(common_segs(a, b).len() == 0);
    }
}

/// If position `i` breaks the agreement, the common prefix has exactly `i`
/// entries.
proof fn lemma_common_segs_stops(a: Seq<Seq<char>>, b: Seq<Seq<char>>, i: int)
    requires
        0 <= i < a.len(),
        i < b.len(),
        common_segs(a, b).len() >= i,
        !(a[i] == b[i] && a[i] != "."@ && a[i] != ".."@),
    ensures
        common_segs(a, b).len() == i,
{
    lemma_common_segs_len(a, b, i);
}

/// If position `i` agrees, the common prefix has more than `i` entries.
proof fn lemma_common_segs_extends(a: Seq<Seq<char>>, b: Seq<Seq<char>>, i: int)
    requires
        0 <= i < a.len(),
        i < b.len(),
        common_segs(a, b).len() >= i,
        a[i] == b[i],
        a[i] != "."@,
        a[i] != ".."@,
    ensures
        common_segs(a, b).len() >= i + 1,
    decreases i,
{
    if a.len() > 0 && b.len() > 0 && a[0] == b[0] && a[0] != "."@ && a[0] != ".."@ {
        if i > 0 {
            lemma_common_segs_extends(a.drop_first(), b.drop_first(), i - 1);
        }
    } else {
        assert(i == 0);
        assert(false);
    }
}

/// The common prefix is never longer than either list.
proof fn lemma_common_segs_bounded(a: Seq<Seq<char>>, b: Seq<Seq<char>>)
    ensures
        common_segs(a, b).len() <= a.len(),
        common_segs(a, b).len() <= b.len(),
    decreases a.len(),
{
    if a.len() > 0 && b.len() > 0 && a[0] == b[0] && a[0] != "."@ && a[0] != ".."@ {
        lemma_common_segs_bounded(a.drop_first(), b.drop_first());
    }
}

/// The common prefix of length `i` is the first `i` segments.
proof fn lemma_common_segs_is_prefix(a: Seq<Seq<char>>, b: Seq<Seq<char>>, i: int)
    requires
        0 <= i,
        common_segs(a, b).len() == i,
    ensures
        common_segs(a, b) =~= a.take(i),
    decreases i,
{
    lemma_common_segs_bounded(a, b);
    if a.len() > 0 && b.len() > 0 && a[0] == b[0] && a[0] != "."@ && a[0] != ".."@ {
        let rest = common_segs(a.drop_first(), b.drop_first());
        if i > 0 {
            lemma_common_segs_is_prefix(a.drop_first(), b.drop_first(), i - 1);
            assert(common_segs(a, b) =~= seq![a[0]] + rest);
            assert(a.take(i) =~= seq![a[0]] + a.drop_first().take(i - 1));
        }
    } else {
        assert(i == 0);
        assert(a.take(0) =~= Seq::<Seq<char>>::empty());
    }
}

/// Joining one more segment appends a separator and the segment.
proof fn lemma_join_segs_take(a: Seq<Seq<char>>, i: int)
    requires
        0 <= i < a.len(),
    ensures
        i == 0 ==> join_segs(a.take(1)) =~= a[0],
        i > 0 ==> join_segs(a.take(i + 1)) =~= join_segs(a.take(i)) + seq!['/'] + a[i],
    decreases i,
{
    if i == 0 {
        assert(a.take(1).len() == 1);
        assert(a.take(1)[0] == a[0]);
    } else {
        lemma_join_segs_take(a.drop_first(), i - 1);
        assert(a.take(i + 1).drop_first() =~= a.drop_first().take(i));
        assert(a.take(i).drop_first() =~= a.drop_first().take(i - 1));
        if i == 1 {
            assert(join_segs(a.take(2)) =~= a[0] + seq!['/'] + a[1]);
            assert(join_segs(a.take(1)) =~= a[0]);
        } else {
            assert(join_segs(a.take(i + 1)) =~= a.take(i + 1)[0] + seq!['/'] + join_segs(
                a.take(i + 1).drop_first(),
            ));
            assert(join_segs(a.take(i)) =~= a.take(i)[0] + seq!['/'] + join_segs(
                a.take(i).drop_first(),
            ));
            assert(a.drop_first()[i - 1] == a[i]);
        }
    }
}

/// Compare two strings for equality.
pub fn strings_equal(a: &str, b: &str) -> (r: bool)
    ensures
        r == (a@ == b@),
{
    let la = a.unicode_len();
    let lb = b.unicode_len();
    if la != lb {
        return false;
    }
    let mut i: usize = 0;
    while i < la
        invariant
            la == a@.len() && la == b@.len(),
            i <= la,
            forall|k: int| 0 <= k < i ==> a@[k] == b@[k],
        decreases la - i,
    {
        if a.get_char(i) != b.get_char(i) {
            return false;
        }
        i = i + 1;
    }
    proof {
        assert(a@ =~= b@);
    }
    true
}

/// Append `s` to `out`.
pub fn append_str(out: &mut String, s: &str)
    ensures
        final(out)@ == old(out)@ + s@,
{
    let len = s.unicode_len();
    let mut i: usize = 0;
    while i < len
        invariant
            len == s@.len(),
            i <= len,
            out@ == old(out)@ + s@.take(i as int),
        decreases len - i,
    {
        let c = s.get_char(i);
        proof {
            assert(s@.take(i + 1) =~= s@.take(i as int).push(s@[i as int]));
        }
        out.push(c);
        i = i + 1;
    }
    proof {
        assert(s@.take(len as int) =~= s@);
    }
}

// --- Zip statistics --------------------------------------------------------

/// Statistics about one archive extraction.
#[derive(Debug)]
pub struct ZipStats {
    /// The number of regular files extracted.
    pub extracted: usize,
    /// The longest path prefix shared by every entry, if any: the
    /// archive's top-level directory.
    pub top_level_dir: Option<String>,
}

impl ZipStats {
    /// An extraction that has processed no entries yet.
    pub fn new() -> (r: ZipStats)
        ensures
            r.extracted == 0,
            r.top_level_dir is None,
    {
        ZipStats { extracted: 0, top_level_dir: None }
    }

    /// Fold one archive entry into the statistics: entry `index` has path
    /// `name` and is a directory exactly when `is_dir`.
    pub fn record_entry(&mut self, index: usize, name: &str, is_dir: bool)
        requires
            old(self).extracted < usize::MAX,
        ensures
            final(self).extracted as int == if is_dir {
                old(self).extracted as int
            } else {
                old(self).extracted + 1
            },
            ({
                let t = final(self).top_level_dir;
                if index == 0 {
                    t matches Some(s) && s@ == name@
                } else {
                    match old(self).top_level_dir {
                        None => t is None,
                        Some(prev) => {
                            let common = common_segs(
                                path_segments(prev@),
                                path_segments(name@),
                            );
                            match t {
                                None => common.len() == 0,
                                Some(s) => common.len() > 0 && s@ == join_segs(common),
                            }
                        },
                    }
                }
            }),
    {
        if index == 0 {
            self.top_level_dir = Some(name.to_owned());
        } else {
            let next = match &self.top_level_dir {
                None => None,
                Some(prev) => common_stem(prev.as_str(), name),
            };
            self.top_level_dir = next;
        }
        if !is_dir {
            self.extracted = self.extracted + 1;
        }
    }
}

/// An error from reading or extracting an archive.
#[derive(Debug)]
pub enum ZipError {
    /// The archive could not be opened.
    OpenArchive { archive: String, message: ErrorMessage },
    /// The archive could not be read as a zip file.
    ReadArchive { archive: String, message: ErrorMessage },
    /// A file could not be copied out of the archive.
    Io { archive: String, file_name: String, message: ErrorMessage },
    /// A directory for extracted output could not be made.
    MakeDir { path: String, message: ErrorMessage },
}

/// The text of a [`ZipError`].
pub open spec fn spec_zip_error_message(e: ZipError) -> Seq<char> {
    match e {
        ZipError::OpenArchive { archive, message } => "Could not open zip archive `"@ + archive@
            + "': "@ + message.0@,
        ZipError::ReadArchive { archive, message } => "could not read zip archive `"@ + archive@
            + "': "@ + message.0@,
        ZipError::Io { archive, file_name, message } => "IO error while extracting file `"@
            + file_name@ + "' from archive `"@ + archive@ + "': "@ + message.0@,
        ZipError::MakeDir { path, message } => "could not make required directory `"@ + path@
            + "': "@ + message.0@,
    }
}

impl ZipError {
    /// Render the error as human-readable text.
    pub fn message(&self) -> (r: String)
        ensures
            r@ == spec_zip_error_message(*self),
    {
        let mut out = String::new();
        match self {
            ZipError::OpenArchive { archive, message } => {
                out.append("Could not open zip archive `");
                out.append(archive.as_str());
                out.append("': ");
                out.append(message.0.as_str());
            },
            ZipError::ReadArchive { archive, message } => {
                out.append("could not read zip archive `");
                out.append(archive.as_str());
                out.append("': ");
                out.append(message.0.as_str());
            },
            ZipError::Io { archive, file_name, message } => {
                out.append("IO error while extracting file `");
                out.append(file_name.as_str());
                out.append("' from archive `");
                out.append(archive.as_str());
                out.append("': ");
                out.append(message.0.as_str());
            },
            ZipError::MakeDir { path, message } => {
                out.append("could not make required directory `");
                out.append(path.as_str());
                out.append("': ");
                out.append(message.0.as_str());
            },
        }
        out
    }
}

} // verus!
