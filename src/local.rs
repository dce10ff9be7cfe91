//! Picking the media files of a local directory tree.
use vstd::prelude::*;
use crate::classify::{
    assignment, classified_assignment, classify_folded, file_ok, file_view, fold_codes,
    folded_codes, mismatch_view, views, wrong_pattern, Classification, FileInfo, Mismatch,
};
use crate::error::SyncError;
use crate::media::{extension_of, is_media_file, media_name};
use crate::text::{lower_of, lowercase};

verus! {

/// One entry met while walking a local tree.
#[derive(Clone, Debug)]
pub struct LocalEntry {
    /// The full path of the entry.
    pub path: String,
    /// The last component of the path.
    pub file_name: String,
    /// Whether the entry is a regular file.
    pub is_file: bool,
}

/// The record that a walked entry gives, if any.
pub open spec fn local_pick(e: LocalEntry, codes: Seq<String>) -> Option<
    (Seq<char>, Seq<char>, Seq<char>, u32),
> {
    if e.is_file && media_name(extension_of(e.file_name@)) {
        match assignment(lower_of(e.file_name@), views(codes), folded_codes(codes)) {
            Some((code, photo)) => Some((e.file_name@, e.path@, code, photo)),
            None => None,
        }
    } else {
        None
    }
}

/// The records that walked entries give, in walking order.
pub open spec fn local_selection(entries: Seq<LocalEntry>, codes: Seq<String>) -> Seq<
    (Seq<char>, Seq<char>, Seq<char>, u32),
>
    decreases entries.len(),
{
    if entries.len() == 0 {
        Seq::empty()
    } else {
        let rest = local_selection(entries.drop_last(), codes);
        match local_pick(entries.last(), codes) {
            Some(v) => rest.push(v),
            None => rest,
        }
    }
}

/// The media files of a walked local tree that belong to `codes`. The walk
/// fails where its root is not a directory.
pub fn local_files(root_is_dir: bool, entries: &Vec<LocalEntry>, codes: &Vec<String>) -> (r:
    Result<Vec<FileInfo>, SyncError>)
    ensures
        !root_is_dir ==> r == Err::<Vec<FileInfo>, SyncError>(SyncError::Enumeration),
        root_is_dir ==> (r matches Ok(v) && v@.map_values(|f: FileInfo| file_view(f))
            == local_selection(entries@, codes@) && forall|k: int|
            0 <= k < v@.len() ==> file_ok(#[trigger] v@[k], codes@)),
{
    if !root_is_dir {
        return Err(SyncError::Enumeration);
    }
    let folded = fold_codes(codes);
    let mut out: Vec<FileInfo> = Vec::new();
    let mut i: usize = 0;
    while i < entries.len()
        invariant
            i <= entries@.len(),
            views(folded@) == folded_codes(codes@),
            folded@.len() == codes@.len(),
            out@.map_values(|f: FileInfo| file_view(f)) == local_selection(
                entries@.subrange(0, i as int),
                codes@,
            ),
            forall|k: int| 0 <= k < out@.len() ==> file_ok(#[trigger] out@[k], codes@),
        decreases entries@.len() - i,
    {
        let e = &entries[i];
        proof {
            assert(entries@.subrange(0, i as int + 1).drop_last() =~= entries@.subrange(0, i as int));
        }
        let ghost before = out@;
        if e.is_file && is_media_file(e.file_name.as_str()) {
            let folded_name = lowercase(e.file_name.as_str());
            let c = classify_folded(folded_name.as_str(), codes, &folded);
            proof {
                classified_assignment(c, folded_name@, views(codes@), views(folded@));
            }
            match c {
                Classification::Matched { code, photo } => {
                    let f = FileInfo {
                        name: e.file_name.clone(),
                        path: e.path.clone(),
                        articul: code,
                        photo_number: photo,
                    };
                    out.push(f);
                    assert(out@.map_values(|f: FileInfo| file_view(f)) =~= before.map_values(
                        |f: FileInfo| file_view(f),
                    ).push(file_view(f)));
                },
                _ => {},
            }
        }
        i = i + 1;
    }
    assert(entries@.subrange(0, i as int) =~= entries@);
    Ok(out)
}

/// The mismatch that a walked entry gives, if any.
pub open spec fn local_mismatch(e: LocalEntry, codes: Seq<String>) -> Option<
    (Seq<char>, Seq<char>, Seq<char>),
> {
    if e.is_file && media_name(extension_of(e.file_name@)) {
        match wrong_pattern(lower_of(e.file_name@), views(codes), folded_codes(codes)) {
            Some(code) => Some((e.file_name@, e.path@, code)),
            None => None,
        }
    } else {
        None
    }
}

/// The mismatches that walked entries give, in walking order.
pub open spec fn local_mismatches_of(entries: Seq<LocalEntry>, codes: Seq<String>) -> Seq<
    (Seq<char>, Seq<char>, Seq<char>),
>
    decreases entries.len(),
{
    if entries.len() == 0 {
        Seq::empty()
    } else {
        let rest = local_mismatches_of(entries.drop_last(), codes);
        match local_mismatch(entries.last(), codes) {
            Some(v) => rest.push(v),
            None => rest,
        }
    }
}

/// The media files of a walked local tree whose name starts with one of
/// `codes` but has the wrong shape, for reporting.
pub fn local_mismatches(entries: &Vec<LocalEntry>, codes: &Vec<String>) -> (r: Vec<Mismatch>)
    ensures
        r@.map_values(|m: Mismatch| mismatch_view(m)) == local_mismatches_of(entries@, codes@),
{
    let folded = fold_codes(codes);
    let mut out: Vec<Mismatch> = Vec::new();
    let mut i: usize = 0;
    while i < entries.len()
        invariant
            i <= entries@.len(),
            views(folded@) == folded_codes(codes@),
            folded@.len() == codes@.len(),
            out@.map_values(|m: Mismatch| mismatch_view(m)) == local_mismatches_of(
                entries@.subrange(0, i as int),
                codes@,
            ),
        decreases entries@.len() - i,
    {
        let e = &entries[i];
        proof {
            assert(entries@.subrange(0, i as int + 1).drop_last() =~= entries@.subrange(0, i as int));
        }
        let ghost before = out@;
        if e.is_file && is_media_file(e.file_name.as_str()) {
            let folded_name = lowercase(e.file_name.as_str());
            let c = classify_folded(folded_name.as_str(), codes, &folded);
            proof {
                classified_assignment(c, folded_name@, views(codes@), views(folded@));
            }
            match c {
                Classification::WrongPattern { code } => {
                    let m = Mismatch { name: e.file_name.clone(), path: e.path.clone(), code };
                    let ghost mv = mismatch_view(m);
                    out.push(m);
                    assert(out@.map_values(|m: Mismatch| mismatch_view(m)) =~= before.map_values(
                        |m: Mismatch| mismatch_view(m),
                    ).push(mv));
                },
                _ => {},
            }
        }
        i = i + 1;
    }
    assert(entries@.subrange(0, i as int) =~= entries@);
    out
}

} // verus!
