use vstd::prelude::*;
use vstd::string::StrSliceExecFns;
use crate::error::InstallError;
use crate::text::{ends_with, str_ends_with, str_eq};

verus! {

/// The two archive layouts extraction understands.
#[derive(Clone, Copy, Debug, PartialEq, Eq, Structural)]
pub enum ArchiveFormat {
    TarGz,
    Zip,
}

/// The format an archive file name announces, if any.
pub open spec fn archive_format_of(name: Seq<char>) -> Option<ArchiveFormat> {
    if ends_with(name, ".tar.gz"@) || ends_with(name, ".tgz"@) {
        Some(ArchiveFormat::TarGz)
    } else if ends_with(name, ".zip"@) {
        Some(ArchiveFormat::Zip)
    } else {
        None
    }
}

/// Dispatch on the archive file name's extension; any other extension is
/// unsupported.
pub fn classify_archive(file_name: &str) -> (r: Result<ArchiveFormat, InstallError>)
    ensures
        match archive_format_of(file_name@) {
            Some(f) => r matches Ok(g) && g == f,
            None => r matches Err(e) && e is UnsupportedArchiveFormat,
        },
{
    if str_ends_with(file_name, ".tar.gz") || str_ends_with(file_name, ".tgz") {
        Ok(ArchiveFormat::TarGz)
    } else if str_ends_with(file_name, ".zip") {
        Ok(ArchiveFormat::Zip)
    } else {
        Err(InstallError::UnsupportedArchiveFormat)
    }
}

/// Path separators as they occur in archive entry names.
pub open spec fn is_sep(c: char) -> bool {
    c == '/' || c == '\\'
}

/// Split an entry name at every separator, `cur` being the piece read so
/// far.
pub open spec fn split_segments(s: Seq<char>, cur: Seq<char>) -> Seq<Seq<char>>
    decreases s.len(),
{
    if s.len() == 0 {
        seq![cur]
    } else if is_sep(s[0]) {
        seq![cur] + split_segments(s.drop_first(), Seq::empty())
    } else {
        split_segments(s.drop_first(), cur.push(s[0]))
    }
}

pub open spec fn raw_segments(s: Seq<char>) -> Seq<Seq<char>> {
    split_segments(s, Seq::empty())
}

/// An entry name whose destination would not stay under the target
/// directory: an absolute path, or one with a parent-directory segment.
pub open spec fn escapes_target(s: Seq<char>) -> bool {
    (s.len() > 0 && is_sep(s[0])) || raw_segments(s).contains(".."@)
}

/// Whether a raw segment survives normalization.
pub open spec fn keeps_segment(seg: Seq<char>) -> bool {
    seg.len() > 0 && seg != "."@
}

/// The path segments an entry materializes under the target directory:
/// empty and current-directory segments dropped.
pub open spec fn kept_segments(s: Seq<char>) -> Seq<Seq<char>> {
    raw_segments(s).filter(|seg: Seq<char>| keeps_segment(seg))
}

proof fn lemma_filter_push<A>(s: Seq<A>, x: A, pred: spec_fn(A) -> bool)
    ensures
        s.push(x).filter(pred) == if pred(x) {
            s.filter(pred).push(x)
        } else {
            s.filter(pred)
        },
{
    reveal(Seq::filter);
    assert(s.push(x).drop_last() =~= s);
    assert(s.push(x).last() == x);
}

proof fn lemma_filter_subset<A>(s: Seq<A>, pred: spec_fn(A) -> bool, i: int)
    requires
        0 <= i < s.filter(pred).len(),
    ensures
        s.contains(s.filter(pred)[i]),
    decreases s.len(),
{
    reveal(Seq::filter);
    if s.len() > 0 {
        let f = s.filter(pred);
        let d = s.drop_last().filter(pred);
        if pred(s.last()) && i == f.len() - 1 {
            assert(f[i] == s.last());
            assert(s[s.len() - 1] == s.last());
        } else {
            assert(f[i] == d[i]);
            lemma_filter_subset(s.drop_last(), pred, i);
            let j = choose|j: int| 0 <= j < s.drop_last().len() && s.drop_last()[j] == d[i];
            assert(s[j] == d[i]);
        }
    }
}

proof fn lemma_push_contains<A>(s: Seq<A>, x: A, y: A)
    ensures
        s.push(x).contains(y) <==> (s.contains(y) || x == y),
{
    let p = s.push(x);
    if s.contains(y) {
        let i = choose|i: int| 0 <= i < s.len() && s[i] == y;
        assert(p[i] == y);
    }
    if x == y {
        assert(p[s.len() as int] == y);
    }
    if p.contains(y) {
        let i = choose|i: int| 0 <= i < p.len() && p[i] == y;
        if i < s.len() {
            assert(s[i] == y);
        }
    }
}

/// The zip-slip guard: `None` exactly for entry names whose destination
/// would escape the target directory (those entries are skipped); otherwise
/// the normalized path segments to materialize.
pub fn sanitize_entry_path(name: &str) -> (r: Option<Vec<String>>)
    ensures
        match r {
            Some(segs) => !escapes_target(name@) && segs@.map_values(|t: String| t@)
                == kept_segments(name@),
            None => escapes_target(name@),
        },
{
    let ghost s = name@;
    let ghost keep = |seg: Seq<char>| keeps_segment(seg);
    let n = name.unicode_len();
    if n > 0 {
        let c0 = name.get_char(0);
        if c0 == '/' || c0 == '\\' {
            return None;
        }
    }
    let mut segs: Vec<String> = Vec::new();
    let mut found_parent = false;
    let mut seg_start: usize = 0;
    let mut i: usize = 0;
    let ghost mut done = Seq::<Seq<char>>::empty();
    proof {
        assert(s.skip(0) =~= s);
        assert(s.subrange(0, 0) =~= Seq::<char>::empty());
        assert(done + split_segments(s.skip(0), s.subrange(0, 0)) =~= raw_segments(s));
        assert(segs@.map_values(|t: String| t@) =~= done.filter(keep));
    }
    while i < n
        invariant
            s == name@,
            n == s.len(),
            0 <= seg_start <= i <= n,
            keep == (|seg: Seq<char>| keeps_segment(seg)),
            raw_segments(s) == done + split_segments(
                s.skip(i as int),
                s.subrange(seg_start as int, i as int),
            ),
            found_parent == done.contains(".."@),
            segs@.map_values(|t: String| t@) == done.filter(keep),
        decreases n - i,
    {
        let c = name.get_char(i);
        proof {
            assert(s.skip(i as int)[0] == s[i as int]);
            assert(s.skip(i as int).drop_first() =~= s.skip(i + 1));
        }
        if c == '/' || c == '\\' {
            let ghost cur = s.subrange(seg_start as int, i as int);
            let piece = name.substring_char(seg_start, i);
            proof {
                assert(piece@ =~= cur);
                assert(done + (seq![cur] + split_segments(s.skip(i + 1), Seq::<char>::empty()))
                    =~= done.push(cur) + split_segments(s.skip(i + 1), Seq::<char>::empty()));
                lemma_push_contains(done, cur, ".."@);
                lemma_filter_push(done, cur, keep);
            }
            if str_eq(piece, "..") {
                found_parent = true;
            }
            let keep_piece = piece.unicode_len() > 0 && !str_eq(piece, ".");
            if keep_piece {
                segs.push(String::from_str(piece));
                proof {
                    assert(segs@.map_values(|t: String| t@) =~= done.filter(keep).push(cur));
                }
            }
            proof {
                done = done.push(cur);
            }
            seg_start = i + 1;
            i = i + 1;
            proof {
                assert(s.subrange(seg_start as int, i as int) =~= Seq::<char>::empty());
            }
        } else {
            proof {
                assert(s.subrange(seg_start as int, i as int).push(s[i as int]) =~= s.subrange(
                    seg_start as int,
                    i + 1,
                ));
            }
            i = i + 1;
        }
    }
    let ghost cur = s.subrange(seg_start as int, n as int);
    let piece = name.substring_char(seg_start, n);
    proof {
        assert(piece@ =~= cur);
        assert(s.skip(n as int).len() == 0);
        assert(split_segments(s.skip(n as int), cur) =~= seq![cur]);
        assert(raw_segments(s) =~= done.push(cur));
        lemma_push_contains(done, cur, ".."@);
        lemma_filter_push(done, cur, keep);
    }
    if str_eq(piece, "..") {
        found_parent = true;
    }
    let keep_piece = piece.unicode_len() > 0 && !str_eq(piece, ".");
    if keep_piece {
        segs.push(String::from_str(piece));
        proof {
            assert(segs@.map_values(|t: String| t@) =~= done.filter(keep).push(cur));
        }
    }
    proof {
        done = done.push(cur);
    }
    if found_parent {
        return None;
    }
    assert(!escapes_target(s));
    Some(segs)
}

/// Every segment the guard hands back is a plain, non-empty name: never a
/// parent-directory marker, never empty, and free of separators — so the
/// joined destination stays under the target directory.
pub proof fn lemma_sanitized_segments_confined(name: Seq<char>)
    ensures
        forall|i: int|
            0 <= i < kept_segments(name).len() ==> {
                let seg = #[trigger] kept_segments(name)[i];
                seg.len() > 0 && (escapes_target(name) || seg != ".."@)
            },
        forall|i: int, j: int|
            0 <= i < kept_segments(name).len() && 0 <= j < kept_segments(name)[i].len() ==> !is_sep(
                #[trigger] kept_segments(name)[i][j],
            ),
{
    let raw = raw_segments(name);
    let kept = kept_segments(name);
    let keep = |seg: Seq<char>| keeps_segment(seg);
    assert forall|i: int| 0 <= i < kept.len() implies {
        let seg = #[trigger] kept[i];
        seg.len() > 0 && (escapes_target(name) || seg != ".."@)
    } by {
        raw.lemma_filter_pred(keep, i);
        lemma_filter_subset(raw, keep, i);
        if kept[i] == ".."@ {
            assert(escapes_target(name));
        }
    }
    assert forall|i: int, j: int|
        0 <= i < kept.len() && 0 <= j < kept[i].len() implies !is_sep(#[trigger] kept[i][j]) by {
        lemma_filter_subset(raw, keep, i);
        let k = choose|k: int| 0 <= k < raw.len() && raw[k] == kept[i];
        lemma_raw_segments_no_sep(name, Seq::empty());
        assert(!is_sep(raw[k][j]));
    }
}

/// No piece that `split_segments` produces contains a separator, provided
/// the accumulated piece does not.
proof fn lemma_raw_segments_no_sep(s: Seq<char>, cur: Seq<char>)
    requires
        forall|j: int| 0 <= j < cur.len() ==> !is_sep(#[trigger] cur[j]),
    ensures
        forall|k: int, j: int|
            0 <= k < split_segments(s, cur).len() && 0 <= j < split_segments(s, cur)[k].len()
                ==> !is_sep(#[trigger] split_segments(s, cur)[k][j]),
    decreases s.len(),
{
    let out = split_segments(s, cur);
    if s.len() == 0 {
        assert forall|k: int, j: int| 0 <= k < out.len() && 0 <= j < out[k].len() implies !is_sep(
            #[trigger] out[k][j],
        ) by {
            assert(out[k] == cur);
        }
    } else if is_sep(s[0]) {
        let rest = split_segments(s.drop_first(), Seq::<char>::empty());
        lemma_raw_segments_no_sep(s.drop_first(), Seq::empty());
        assert forall|k: int, j: int| 0 <= k < out.len() && 0 <= j < out[k].len() implies !is_sep(
            #[trigger] out[k][j],
        ) by {
            if k == 0 {
                assert(out[k] == cur);
            } else {
                assert(out[k] == rest[k - 1]);
                assert(!is_sep(rest[k - 1][j]));
            }
        }
    } else {
        assert forall|j: int| 0 <= j < cur.push(s[0]).len() implies !is_sep(
            #[trigger] cur.push(s[0])[j],
        ) by {
            if j < cur.len() {
                assert(cur.push(s[0])[j] == cur[j]);
            }
        }
        lemma_raw_segments_no_sep(s.drop_first(), cur.push(s[0]));
        let rest = split_segments(s.drop_first(), cur.push(s[0]));
        assert(out == rest);
        assert forall|k: int, j: int| 0 <= k < out.len() && 0 <= j < out[k].len() implies !is_sep(
            #[trigger] out[k][j],
        ) by {
            assert(!is_sep(rest[k][j]));
        }
    }
}

} // verus!
