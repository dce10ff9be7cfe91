//! Walking a remote share page by page, as a state machine.
//!
//! The caller performs each request that `next_request` describes and hands
//! the outcome to `on_page`. The walk lists a directory in pages until a page
//! comes back empty, then descends into its subdirectories in listing order.
//! It stops as soon as every requested code has a matching file.
use vstd::prelude::*;
use vstd::string::*;
use vstd::pervasive::VecAdditionalExecFns;
use crate::classify::{
    assignment, classified_assignment, classify_folded, file_ok, file_view, files_ok, fold_codes,
    folded_codes, mismatch_view, views, wrong_pattern, Classification, FileInfo, Mismatch,
};
use crate::media::{extension_of, is_media_file, media_name};
use crate::text::{joined, lower_of, lowercase, same_text};
use crate::error::SyncError;
use crate::urls::{listing_url, listing_url_of};

verus! {

/// Items requested per page.
pub const PAGE_LIMIT: u64 = 100;

/// Attempts per page when no response arrives.
pub const PAGE_ATTEMPTS: u64 = 3;

/// Pause before retrying a page, in milliseconds.
pub const RETRY_PAUSE_MS: u64 = 5000;

/// Pause between consecutive pages, in milliseconds.
pub const PAGE_PAUSE_MS: u64 = 500;

/// Pause before a further subdirectory or share, in milliseconds.
pub const DESCEND_PAUSE_MS: u64 = 1000;

/// One entry of a listed page.
#[derive(Clone, Debug)]
pub struct ListedItem {
    pub name: String,
    /// `"file"`, `"dir"`, or another kind that is ignored.
    pub item_type: String,
}

/// What came of one page request.
#[derive(Debug)]
pub enum PageOutcome {
    /// A successful response and its items.
    Items(Vec<ListedItem>),
    /// A response with a status outside 2xx.
    Status(u16),
    /// A successful response whose body could not be read.
    Malformed,
    /// No response.
    Transport,
}

/// The request to perform next.
#[derive(Clone, Debug)]
pub struct PageRequest {
    /// The share to list.
    pub root: String,
    pub path: String,
    pub offset: u64,
    pub limit: u64,
    /// How long to pause before sending.
    pub wait_millis: u64,
}

/// Where a walk stands.
#[derive(Clone, Copy, Debug, PartialEq, Eq, Structural)]
pub enum WalkState {
    Listing,
    Finished,
    /// A share's top directory could not be listed.
    Failed,
}

/// A directory being listed or awaiting its subdirectories.
pub struct Frame {
    path: String,
    offset: u64,
    subdirs: Vec<String>,
    next_subdir: usize,
    files: Vec<FileInfo>,
}

/// A walk over one or more shares for a set of vendor codes.
pub struct Traversal {
    roots: Vec<String>,
    start_path: String,
    codes: Vec<String>,
    folded: Vec<String>,
    found: Vec<bool>,
    root_index: usize,
    cur: Frame,
    ancestors: Vec<Frame>,
    attempts: u64,
    wait_millis: u64,
    done_files: Vec<FileInfo>,
    mismatched: Vec<Mismatch>,
    state: WalkState,
}

/// The path of entry `name` inside directory `dir`.
pub open spec fn child_path(dir: Seq<char>, name: Seq<char>) -> Seq<char> {
    if dir == "/"@ {
        "/"@ + name
    } else {
        dir + "/"@ + name
    }
}

/// The record that a listed item in directory `dir` gives, if any.
pub open spec fn item_pick(item: ListedItem, dir: Seq<char>, codes: Seq<String>) -> Option<
    (Seq<char>, Seq<char>, Seq<char>, u32),
> {
    if item.item_type@ == "file"@ && media_name(extension_of(item.name@)) {
        match assignment(lower_of(item.name@), views(codes), folded_codes(codes)) {
            Some((code, photo)) => Some((item.name@, child_path(dir, item.name@), code, photo)),
            None => None,
        }
    } else {
        None
    }
}

/// The records that the items of one page in directory `dir` give, in order.
pub open spec fn page_files(items: Seq<ListedItem>, dir: Seq<char>, codes: Seq<String>) -> Seq<
    (Seq<char>, Seq<char>, Seq<char>, u32),
>
    decreases items.len(),
{
    if items.len() == 0 {
        Seq::empty()
    } else {
        let rest = page_files(items.drop_last(), dir, codes);
        match item_pick(items.last(), dir, codes) {
            Some(v) => rest.push(v),
            None => rest,
        }
    }
}

/// The mismatch that a listed item in directory `dir` gives, if any.
pub open spec fn item_mismatch(item: ListedItem, dir: Seq<char>, codes: Seq<String>) -> Option<
    (Seq<char>, Seq<char>, Seq<char>),
> {
    if item.item_type@ == "file"@ && media_name(extension_of(item.name@)) {
        match wrong_pattern(lower_of(item.name@), views(codes), folded_codes(codes)) {
            Some(code) => Some((item.name@, child_path(dir, item.name@), code)),
            None => None,
        }
    } else {
        None
    }
}

/// The mismatches that the items of one page in directory `dir` give, in order.
pub open spec fn page_mismatches(items: Seq<ListedItem>, dir: Seq<char>, codes: Seq<String>) -> Seq<
    (Seq<char>, Seq<char>, Seq<char>),
>
    decreases items.len(),
{
    if items.len() == 0 {
        Seq::empty()
    } else {
        let rest = page_mismatches(items.drop_last(), dir, codes);
        match item_mismatch(items.last(), dir, codes) {
            Some(v) => rest.push(v),
            None => rest,
        }
    }
}

/// The subdirectories of a directory not yet entered, in order.
pub closed spec fn queue_of(f: Frame) -> Seq<Seq<char>> {
    f.subdirs@.subrange(f.next_subdir as int, f.subdirs@.len() as int).map_values(|p: String| p@)
}

/// The index of the deepest directory of `anc` that still has a subdirectory
/// to enter.
pub closed spec fn nearest_pending(anc: Seq<Frame>) -> Option<int>
    decreases anc.len(),
{
    if anc.len() == 0 {
        None
    } else if queue_of(anc.last()).len() > 0 {
        Some(anc.len() - 1)
    } else {
        nearest_pending(anc.drop_last())
    }
}

proof fn nearest_pending_is(anc: Seq<Frame>, d: int)
    requires
        0 <= d < anc.len(),
        queue_of(anc[d]).len() > 0,
        forall|k: int| d < k < anc.len() ==> (#[trigger] queue_of(anc[k])).len() == 0,
    ensures
        nearest_pending(anc) == Some(d),
    decreases anc.len(),
{
    if d < anc.len() - 1 {
        assert(queue_of(anc[anc.len() - 1]).len() == 0);
        let a = anc.drop_last();
        assert forall|k: int| d < k < a.len() implies (#[trigger] queue_of(a[k])).len() == 0 by {
            assert(a[k] == anc[k]);
            assert(queue_of(anc[k]).len() == 0);
        }
        assert(a[d] == anc[d]);
        nearest_pending_is(a, d);
    }
}

proof fn nearest_pending_bounds(anc: Seq<Frame>)
    ensures
        nearest_pending(anc) matches Some(k) ==> 0 <= k < anc.len() && queue_of(anc[k]).len() > 0,
    decreases anc.len(),
{
    if anc.len() > 0 && queue_of(anc.last()).len() == 0 {
        nearest_pending_bounds(anc.drop_last());
        if let Some(k) = nearest_pending(anc.drop_last()) {
            assert(anc.drop_last()[k] == anc[k]);
        }
    }
}

proof fn nearest_pending_none(anc: Seq<Frame>)
    requires
        forall|k: int| 0 <= k < anc.len() ==> (#[trigger] queue_of(anc[k])).len() == 0,
    ensures
        nearest_pending(anc) is None,
    decreases anc.len(),
{
    if anc.len() > 0 {
        assert(queue_of(anc[anc.len() - 1]).len() == 0);
        let a = anc.drop_last();
        assert forall|k: int| 0 <= k < a.len() implies (#[trigger] queue_of(a[k])).len() == 0 by {
            assert(a[k] == anc[k]);
            assert(queue_of(anc[k]).len() == 0);
        }
        nearest_pending_none(a);
    }
}

/// `after` is where the walk goes once the current directory of `before` is
/// done with or left out: into the next subdirectory of the deepest enclosing
/// directory that has one, or else to the top of the next share, or else the
/// walk is over.
pub open spec fn moves_on(before: Traversal, after: Traversal) -> bool {
    match before.pending_above() {
        Some(k) => {
            &&& after.state() == WalkState::Listing
            &&& after.position() == (before.position().0, before.ancestor_queued(k as int)[0], 0u64)
            &&& after.depth() == k + 1
            &&& after.queued().len() == 0
        },
        None => if before.root_index() + 1 < before.roots().len() {
            &&& after.state() == WalkState::Listing
            &&& after.position() == (
                before.roots()[before.root_index() + 1int]@,
                before.start(),
                0u64,
            )
            &&& after.depth() == 0
        } else {
            after.state() == WalkState::Finished
        },
    }
}

/// The paths of the subdirectories listed on one page of directory `dir`, in order.
pub open spec fn page_dirs(items: Seq<ListedItem>, dir: Seq<char>) -> Seq<Seq<char>>
    decreases items.len(),
{
    if items.len() == 0 {
        Seq::empty()
    } else {
        let rest = page_dirs(items.drop_last(), dir);
        let it = items.last();
        if it.item_type@ == "dir"@ {
            rest.push(child_path(dir, it.name@))
        } else {
            rest
        }
    }
}

/// Some record of `recs` belongs to `code`.
pub open spec fn has_code(recs: Seq<(Seq<char>, Seq<char>, Seq<char>, u32)>, code: Seq<char>) -> bool {
    exists|k: int| 0 <= k < recs.len() && (#[trigger] recs[k]).2 == code
}

/// The files of `frames`, in order.
pub closed spec fn frame_files(frames: Seq<Frame>) -> Seq<FileInfo>
    decreases frames.len(),
{
    if frames.len() == 0 {
        Seq::empty()
    } else {
        frame_files(frames.drop_last()) + frames.last().files@
    }
}

/// The path of entry `name` inside directory `dir`.
pub fn join_child(dir: &str, name: &str) -> (r: String)
    ensures
        r@ == child_path(dir@, name@),
{
    if same_text(dir, "/") {
        joined("/", name)
    } else {
        let d = joined(dir, "/");
        joined(d.as_str(), name)
    }
}

/// Files valid on their own stay valid side by side.
pub proof fn files_ok_concat(a: Seq<FileInfo>, b: Seq<FileInfo>, codes: Seq<String>)
    ensures
        files_ok(a + b, codes) <==> files_ok(a, codes) && files_ok(b, codes),
{
    if files_ok(a, codes) && files_ok(b, codes) {
        assert forall|k: int| 0 <= k < (a + b).len() implies file_ok(#[trigger] (a + b)[k], codes) by {
            if k >= a.len() {
                assert((a + b)[k] == b[k - a.len()]);
            }
        }
    }
    if files_ok(a + b, codes) {
        assert forall|k: int| 0 <= k < a.len() implies file_ok(#[trigger] a[k], codes) by {
            assert((a + b)[k] == a[k]);
        }
        assert forall|k: int| 0 <= k < b.len() implies file_ok(#[trigger] b[k], codes) by {
            assert((a + b)[k + a.len()] == b[k]);
        }
    }
}

/// Marks as found every position of `codes` that holds `code`.
fn mark_found(found: &mut Vec<bool>, codes: &Vec<String>, code: &str)
    requires
        old(found)@.len() == codes@.len(),
    ensures
        final(found)@.len() == old(found)@.len(),
        forall|j: int|
            0 <= j < codes@.len() ==> #[trigger] final(found)@[j] == (old(found)@[j] || codes@[j]@
                == code@),
{
    let mut j: usize = 0;
    while j < codes.len()
        invariant
            j <= codes@.len(),
            found@.len() == codes@.len(),
            forall|t: int|
                0 <= t < j ==> #[trigger] found@[t] == (old(found)@[t] || codes@[t]@ == code@),
            forall|t: int| j <= t < codes@.len() ==> #[trigger] found@[t] == old(found)@[t],
        decreases codes@.len() - j,
    {
        if same_text(codes[j].as_str(), code) {
            found.set(j, true);
        }
        j = j + 1;
    }
}

/// Adds the media files of one page to `cur` and queues its subdirectories.
fn absorb_page(
    cur: &mut Frame,
    found: &mut Vec<bool>,
    codes: &Vec<String>,
    folded: &Vec<String>,
    items: &Vec<ListedItem>,
    mismatched: &mut Vec<Mismatch>,
)
    requires
        codes@.len() == folded@.len(),
        codes@.len() == old(found)@.len(),
        views(folded@) == folded_codes(codes@),
        old(cur).next_subdir <= old(cur).subdirs@.len(),
    ensures
        final(found)@.len() == old(found)@.len(),
        final(cur).path == old(cur).path,
        final(cur).offset == old(cur).offset,
        final(cur).next_subdir == old(cur).next_subdir,
        final(cur).next_subdir <= final(cur).subdirs@.len(),
        final(cur).files@.len() >= old(cur).files@.len(),
        final(cur).files@.subrange(0, old(cur).files@.len() as int) == old(cur).files@,
        forall|k: int|
            old(cur).files@.len() <= k < final(cur).files@.len() ==> file_ok(
                #[trigger] final(cur).files@[k],
                codes@,
            ),
        final(cur).files@.map_values(|f: FileInfo| file_view(f)) == old(cur).files@.map_values(
            |f: FileInfo| file_view(f),
        ) + page_files(items@, old(cur).path@, codes@),
        final(cur).subdirs@.map_values(|p: String| p@) == old(cur).subdirs@.map_values(
            |p: String| p@,
        ) + page_dirs(items@, old(cur).path@),
        forall|j: int|
            0 <= j < codes@.len() ==> #[trigger] final(found)@[j] == (old(found)@[j] || has_code(
                page_files(items@, old(cur).path@, codes@),
                codes@[j]@,
            )),
        final(mismatched)@.map_values(|m: Mismatch| mismatch_view(m)) == old(
            mismatched,
        )@.map_values(|m: Mismatch| mismatch_view(m)) + page_mismatches(
            items@,
            old(cur).path@,
            codes@,
        ),
{
    proof {
        reveal_strlit("file");
        reveal_strlit("dir");
        assert("file"@.len() != "dir"@.len());
    }
    let ghost start = cur.files@.len();
    let ghost old_files = cur.files@;
    let ghost old_found = found@;
    let ghost dir = cur.path@;
    let mut i: usize = 0;
    while i < items.len()
        invariant
            i <= items@.len(),
            codes@.len() == folded@.len(),
            codes@.len() == found@.len(),
            views(folded@) == folded_codes(codes@),
            cur.path == old(cur).path,
            cur.offset == old(cur).offset,
            cur.next_subdir == old(cur).next_subdir,
            cur.next_subdir <= cur.subdirs@.len(),
            cur.files@.len() >= start,
            cur.files@.subrange(0, start as int) == old_files,
            forall|k: int| start <= k < cur.files@.len() ==> file_ok(#[trigger] cur.files@[k], codes@),
            dir == cur.path@,
            mismatched@.map_values(|m: Mismatch| mismatch_view(m)) == old(mismatched)@.map_values(
                |m: Mismatch| mismatch_view(m),
            ) + page_mismatches(items@.subrange(0, i as int), dir, codes@),
            cur.files@.map_values(|f: FileInfo| file_view(f)) == old_files.map_values(
                |f: FileInfo| file_view(f),
            ) + page_files(items@.subrange(0, i as int), dir, codes@),
            "file"@ != "dir"@,
            cur.subdirs@.map_values(|p: String| p@) == old(cur).subdirs@.map_values(|p: String| p@)
                + page_dirs(items@.subrange(0, i as int), dir),
            old_found.len() == codes@.len(),
            forall|j: int|
                0 <= j < codes@.len() ==> #[trigger] found@[j] == (old_found[j] || has_code(
                    page_files(items@.subrange(0, i as int), dir, codes@),
                    codes@[j]@,
                )),
        decreases items@.len() - i,
    {
        let item = &items[i];
        let ghost prev = page_files(items@.subrange(0, i as int), dir, codes@);
        let ghost before_files = cur.files@;
        let ghost before_dirs = cur.subdirs@;
        let ghost before_mis = mismatched@;
        proof {
            assert(items@.subrange(0, i as int + 1).drop_last() =~= items@.subrange(0, i as int));
            assert(items@.subrange(0, i as int + 1).last() == *item);
        }
        let item_path = join_child(cur.path.as_str(), item.name.as_str());
        if same_text(item.item_type.as_str(), "file") {
            if is_media_file(item.name.as_str()) {
                let folded_name = lowercase(item.name.as_str());
                let c = classify_folded(folded_name.as_str(), codes, folded);
                proof {
                    classified_assignment(c, folded_name@, views(codes@), views(folded@));
                }
                match c {
                    Classification::Matched { code, photo } => {
                        let ghost found_before = found@;
                        mark_found(found, codes, code.as_str());
                        let f = FileInfo {
                            name: item.name.clone(),
                            path: item_path,
                            articul: code,
                            photo_number: photo,
                        };
                        let ghost before = cur.files@;
                        let ghost rec = file_view(f);
                        cur.files.push(f);
                        assert(cur.files@.subrange(0, start as int) =~= before.subrange(0, start as int));
                        proof {
                            assert(cur.files@.map_values(|f: FileInfo| file_view(f)) =~= before.map_values(
                                |f: FileInfo| file_view(f),
                            ).push(rec));
                            let next = prev.push(rec);
                            assert forall|j: int| 0 <= j < codes@.len() implies #[trigger] found@[j] == (old_found[j] || has_code(next, codes@[j]@)) by {
                                if has_code(next, codes@[j]@) && !has_code(prev, codes@[j]@) {
                                    assert(next[prev.len() as int].2 == codes@[j]@);
                                }
                                if has_code(prev, codes@[j]@) {
                                    let k = choose|k: int| 0 <= k < prev.len() && (#[trigger] prev[k]).2 == codes@[j]@;
                                    assert(next[k] == prev[k]);
                                }
                                if codes@[j]@ == code@ {
                                    assert(next[prev.len() as int].2 == codes@[j]@);
                                }
                            }
                        }
                    },
                    Classification::WrongPattern { code } => {
                        let m = Mismatch { name: item.name.clone(), path: item_path, code };
                        let ghost mv = mismatch_view(m);
                        mismatched.push(m);
                        assert(mismatched@.map_values(|m: Mismatch| mismatch_view(m)) =~= before_mis.map_values(
                            |m: Mismatch| mismatch_view(m),
                        ).push(mv));
                    },
                    _ => {},
                }
            }
        } else if same_text(item.item_type.as_str(), "dir") {
            cur.subdirs.push(item_path);
            assert(cur.subdirs@.map_values(|p: String| p@) =~= before_dirs.map_values(|p: String| p@).push(
                item_path@,
            ));
        }
        i = i + 1;
    }
    assert(items@.subrange(0, i as int) =~= items@);
}

impl Frame {
    fn new(path: String) -> (r: Frame)
        ensures
            r.path == path,
            r.offset == 0,
            r.subdirs@.len() == 0,
            r.next_subdir == 0,
            r.files@.len() == 0,
    {
        Frame { path, offset: 0, subdirs: Vec::new(), next_subdir: 0, files: Vec::new() }
    }
}

impl PageRequest {
    /// The address to send this request to.
    pub fn url(&self) -> (r: String)
        ensures
            r@ == listing_url_of(self.root@, self.path@, self.limit, self.offset),
    {
        listing_url(self.root.as_str(), self.path.as_str(), self.limit, self.offset)
    }
}

impl Traversal {
    pub closed spec fn codes(&self) -> Seq<String> {
        self.codes@
    }

    pub closed spec fn state(&self) -> WalkState {
        self.state
    }

    /// For each requested code, whether a matching file has been seen.
    pub closed spec fn found(&self) -> Seq<bool> {
        self.found@
    }

    /// Every requested code has a matching file.
    pub closed spec fn all_found(&self) -> bool {
        forall|j: int| 0 <= j < self.found@.len() ==> #[trigger] self.found@[j]
    }

    /// All codes are found exactly when each one is.
    pub proof fn all_found_is_each_found(&self)
        ensures
            self.all_found() <==> forall|j: int|
                0 <= j < self.found().len() ==> #[trigger] self.found()[j],
    {
        if self.all_found() {
            assert forall|j: int| 0 <= j < self.found().len() implies #[trigger] self.found()[j] by {
                assert(self.found@[j]);
            }
        }
        if forall|j: int| 0 <= j < self.found().len() ==> #[trigger] self.found()[j] {
            assert forall|j: int| 0 <= j < self.found@.len() implies #[trigger] self.found@[j] by {
                assert(self.found()[j]);
            }
        }
    }

    /// The files collected so far, in the order in which they will be returned.
    pub closed spec fn collected(&self) -> Seq<FileInfo> {
        self.done_files@ + frame_files(self.ancestors@) + self.cur.files@
    }

    /// Failed attempts of the page now requested.
    pub closed spec fn attempts(&self) -> nat {
        self.attempts as nat
    }

    /// The share and the position of the page now requested.
    pub closed spec fn position(&self) -> (Seq<char>, Seq<char>, u64) {
        (self.roots@[self.root_index as int]@, self.cur.path@, self.cur.offset)
    }

    /// Directories entered and not yet left, below the current share's top.
    pub closed spec fn depth(&self) -> nat {
        self.ancestors@.len()
    }

    pub closed spec fn wait(&self) -> u64 {
        self.wait_millis
    }

    pub closed spec fn roots(&self) -> Seq<String> {
        self.roots@
    }

    /// The directory listed at the top of each share.
    pub closed spec fn start(&self) -> Seq<char> {
        self.start_path@
    }

    /// The index of the share being walked.
    pub closed spec fn root_index(&self) -> nat {
        self.root_index as nat
    }

    /// Subdirectories of the current directory not yet entered, in order.
    pub closed spec fn queued(&self) -> Seq<Seq<char>> {
        queue_of(self.cur)
    }

    /// Subdirectories not yet entered of the `k`-th enclosing directory,
    /// counted from the share's top.
    pub closed spec fn ancestor_queued(&self, k: int) -> Seq<Seq<char>> {
        queue_of(self.ancestors@[k])
    }

    /// The deepest enclosing directory that still has a subdirectory to enter.
    pub closed spec fn pending_above(&self) -> Option<nat> {
        match nearest_pending(self.ancestors@) {
            Some(k) => Some(k as nat),
            None => None,
        }
    }

    /// Files whose name starts with a code but has the wrong shape, as met.
    pub closed spec fn mismatches(&self) -> Seq<(Seq<char>, Seq<char>, Seq<char>)> {
        self.mismatched@.map_values(|m: Mismatch| mismatch_view(m))
    }

    /// The files collected in the current directory and below it.
    pub closed spec fn current_files(&self) -> Seq<FileInfo> {
        self.cur.files@
    }

    closed spec fn inv(&self) -> bool {
        &&& self.codes@.len() == self.folded@.len()
        &&& self.codes@.len() == self.found@.len()
        &&& views(self.folded@) == folded_codes(self.codes@)
        &&& self.attempts < PAGE_ATTEMPTS
        &&& self.cur.next_subdir <= self.cur.subdirs@.len()
        &&& forall|k: int|
            0 <= k < self.ancestors@.len() ==> #[trigger] self.ancestors@[k].next_subdir
                <= self.ancestors@[k].subdirs@.len()
        &&& files_ok(self.collected(), self.codes@)
    }

    pub closed spec fn wf(&self) -> bool {
        &&& self.inv()
        &&& self.state == WalkState::Listing ==> self.root_index < self.roots@.len()
            && !self.all_found()
        &&& self.state != WalkState::Listing ==> self.ancestors@.len() == 0
            && self.cur.files@.len() == 0
    }

    /// Starts a walk of `path` in each of `roots`, in order, for `codes`.
    pub fn new(roots: Vec<String>, codes: Vec<String>, path: String) -> (r: Traversal)
        ensures
            r.wf(),
            r.codes() == codes@,
            r.found().len() == codes@.len(),
            forall|j: int| 0 <= j < codes@.len() ==> !#[trigger] r.found()[j],
            r.collected().len() == 0,
            r.mismatches().len() == 0,
            r.attempts() == 0,
            r.roots() == roots@,
            r.start() == path@,
            r.root_index() == 0,
            r.depth() == 0,
            r.queued().len() == 0,
            roots@.len() > 0 ==> r.position() == (roots@[0]@, path@, 0u64),
            r.state() == (if roots@.len() > 0 && codes@.len() > 0 {
                WalkState::Listing
            } else {
                WalkState::Finished
            }),
    {
        let folded = fold_codes(&codes);
        let mut found: Vec<bool> = Vec::new();
        let mut i: usize = 0;
        while i < codes.len()
            invariant
                i <= codes@.len(),
                found@.len() == i,
                forall|j: int| 0 <= j < i ==> !#[trigger] found@[j],
            decreases codes@.len() - i,
        {
            found.push(false);
            i = i + 1;
        }
        let state = if roots.len() > 0 && codes.len() > 0 {
            WalkState::Listing
        } else {
            WalkState::Finished
        };
        let cur = Frame::new(path.clone());
        let t = Traversal {
            roots,
            start_path: path,
            codes,
            folded,
            found,
            root_index: 0,
            cur,
            ancestors: Vec::new(),
            attempts: 0,
            wait_millis: 0,
            done_files: Vec::new(),
            mismatched: Vec::new(),
            state,
        };
        proof {
            if t.codes@.len() > 0 {
                assert(!t.found@[0]);
            }
            assert(t.collected() =~= Seq::empty());
            assert(t.mismatches() =~= Seq::empty());
            assert(t.queued() =~= Seq::empty());
        }
        t
    }

    /// Whether every requested code has a matching file.
    pub fn all_found_now(&self) -> (r: bool)
        ensures
            r == self.all_found(),
    {
        let mut j: usize = 0;
        while j < self.found.len()
            invariant
                j <= self.found@.len(),
                forall|t: int| 0 <= t < j ==> #[trigger] self.found@[t],
            decreases self.found@.len() - j,
        {
            if !self.found[j] {
                return false;
            }
            j = j + 1;
        }
        true
    }

    pub fn walk_state(&self) -> (r: WalkState)
        ensures
            r == self.state(),
    {
        self.state
    }

    /// Moves every collected file into the result and ends the walk.
    fn finish(&mut self)
        requires
            old(self).inv(),
        ensures
            final(self).wf(),
            final(self).state == WalkState::Finished,
            final(self).collected() == old(self).collected(),
            final(self).codes@ == old(self).codes@,
            final(self).found@ == old(self).found@,
            final(self).mismatched@ == old(self).mismatched@,
    {
        while self.ancestors.len() > 0
            invariant
                self.inv(),
                self.collected() == old(self).collected(),
                self.codes@ == old(self).codes@,
                self.found@ == old(self).found@,
                self.mismatched@ == old(self).mismatched@,
            decreases self.ancestors@.len(),
        {
            let ghost before = self.collected();
            let ghost anc = self.ancestors@;
            let mut parent = match self.ancestors.pop() {
                Some(p) => p,
                None => Frame::new(String::new()),
            };
            assert(anc.drop_last() =~= self.ancestors@);
            parent.files.append(&mut self.cur.files);
            std::mem::swap(&mut self.cur, &mut parent);
            proof {
                assert(self.collected() =~= before);
            }
        }
        let ghost before = self.collected();
        self.done_files.append(&mut self.cur.files);
        self.cur.next_subdir = 0;
        self.cur.subdirs = Vec::new();
        self.state = WalkState::Finished;
        proof {
            assert(self.collected() =~= before);
        }
    }

    /// The current directory has no further pages: descend into its next
    /// subdirectory, or go back up, or on to the next share.
    fn settle(&mut self)
        requires
            old(self).inv(),
            old(self).state == WalkState::Listing,
            old(self).root_index < old(self).roots@.len(),
            !old(self).all_found(),
        ensures
            final(self).wf(),
            final(self).codes@ == old(self).codes@,
            final(self).collected() == old(self).collected(),
            final(self).attempts == old(self).attempts,
            final(self).found@ == old(self).found@,
            final(self).roots@ == old(self).roots@,
            final(self).start_path == old(self).start_path,
            old(self).queued().len() > 0 ==> {
                &&& final(self).state == WalkState::Listing
                &&& final(self).root_index == old(self).root_index
                &&& final(self).cur.path@ == old(self).queued()[0]
                &&& final(self).cur.offset == 0
                &&& final(self).ancestors@.len() == old(self).ancestors@.len() + 1
                &&& final(self).queued().len() == 0
            },
            final(self).mismatched@ == old(self).mismatched@,
            old(self).queued().len() == 0 ==> moves_on(*old(self), *final(self)),
    {
        loop
            invariant
                self.inv(),
                self.state == WalkState::Listing,
                self.root_index < self.roots@.len(),
                !self.all_found(),
                self.codes@ == old(self).codes@,
                self.collected() == old(self).collected(),
                self.attempts == old(self).attempts,
                self.found@ == old(self).found@,
                self.roots@ == old(self).roots@,
                self.start_path == old(self).start_path,
                self.ancestors@.len() < old(self).ancestors@.len() ==> old(self).queued().len() == 0,
                self.ancestors@.len() == old(self).ancestors@.len() ==> (self.cur == old(self).cur
                    && self.root_index == old(self).root_index),
                self.ancestors@.len() <= old(self).ancestors@.len(),
                self.mismatched@ == old(self).mismatched@,
                forall|k: int|
                    0 <= k < self.ancestors@.len() ==> queue_of(#[trigger] self.ancestors@[k])
                        == queue_of(old(self).ancestors@[k]),
                self.ancestors@.len() < old(self).ancestors@.len() ==> queue_of(self.cur) == queue_of(
                    old(self).ancestors@[self.ancestors@.len() as int],
                ) && self.root_index == old(self).root_index,
                forall|k: int|
                    self.ancestors@.len() < k < old(self).ancestors@.len() ==> (#[trigger] queue_of(
                        old(self).ancestors@[k],
                    )).len() == 0,
            decreases self.ancestors@.len(), self.roots@.len() - self.root_index,
        {
            let ghost before = self.collected();
            let ghost q = self.queued();
            let ghost prev_cur = self.cur;
            if self.cur.next_subdir < self.cur.subdirs.len() {
                assert(q[0] == self.cur.subdirs@[self.cur.next_subdir as int]@);
                proof {
                    if self.ancestors@.len() < old(self).ancestors@.len() {
                        nearest_pending_is(old(self).ancestors@, self.ancestors@.len() as int);
                    }
                }
                let first = self.cur.next_subdir == 0;
                let child = self.cur.subdirs[self.cur.next_subdir].clone();
                self.cur.next_subdir = self.cur.next_subdir + 1;
                let mut frame = Frame::new(child);
                std::mem::swap(&mut self.cur, &mut frame);
                let ghost anc = self.ancestors@;
                self.ancestors.push(frame);
                assert(self.ancestors@.drop_last() =~= anc);
                self.wait_millis = if first {
                    0
                } else {
                    DESCEND_PAUSE_MS
                };
                assert(self.collected() =~= before);
                assert(self.queued() =~= Seq::<Seq<char>>::empty());
                return;
            }
            assert(queue_of(prev_cur).len() == 0);
            if self.ancestors.len() > 0 {
                let ghost anc = self.ancestors@;
                let mut parent = match self.ancestors.pop() {
                    Some(p) => p,
                    None => Frame::new(String::new()),
                };
                assert(anc.drop_last() =~= self.ancestors@);
                parent.files.append(&mut self.cur.files);
                std::mem::swap(&mut self.cur, &mut parent);
                assert(self.collected() =~= before);
                if self.all_found_now() {
                    self.finish();
                    return;
                }
            } else {
                proof {
                    assert forall|k: int| 0 <= k < old(self).ancestors@.len() implies (#[trigger] queue_of(
                        old(self).ancestors@[k],
                    )).len() == 0 by {
                        if k == 0 {
                            assert(queue_of(prev_cur).len() == 0);
                        }
                    }
                    nearest_pending_none(old(self).ancestors@);
                }
                self.done_files.append(&mut self.cur.files);
                assert(self.collected() =~= before);
                let n_roots = self.roots.len();
                assert(self.root_index < n_roots);
                self.root_index = self.root_index + 1;
                self.cur = Frame::new(self.start_path.clone());
                assert(self.collected() =~= before);
                if self.root_index < self.roots.len() {
                    self.wait_millis = DESCEND_PAUSE_MS;
                    assert(self.inv());
                    assert(!self.all_found());
                    return;
                } else {
                    self.state = WalkState::Finished;
                    return;
                }
            }
        }
    }

    /// The current directory could not be listed: a share's top directory
    /// fails the walk, a subdirectory is left out with its files.
    fn fail_frame(&mut self)
        requires
            old(self).inv(),
            old(self).state == WalkState::Listing,
            old(self).root_index < old(self).roots@.len(),
            !old(self).all_found(),
        ensures
            final(self).wf(),
            final(self).codes@ == old(self).codes@,
            final(self).mismatched@ == old(self).mismatched@,
            old(self).ancestors@.len() == 0 ==> final(self).state == WalkState::Failed,
            old(self).ancestors@.len() > 0 ==> {
                &&& moves_on(*old(self), *final(self))
                &&& final(self).found@ == old(self).found@
                &&& final(self).collected() + old(self).cur.files@ == old(self).collected()
            },
    {
        if self.ancestors.len() == 0 {
            self.cur = Frame::new(String::new());
            self.state = WalkState::Failed;
            proof {
                files_ok_concat(self.done_files@, frame_files(self.ancestors@), self.codes@);
                assert(self.collected() =~= old(self).done_files@ + frame_files(old(self).ancestors@));
                files_ok_concat(old(self).done_files@ + frame_files(old(self).ancestors@), old(self).cur.files@, self.codes@);
            }
        } else {
            let ghost anc = self.ancestors@;
            let parent = match self.ancestors.pop() {
                Some(p) => p,
                None => Frame::new(String::new()),
            };
            assert(anc.drop_last() =~= self.ancestors@);
            self.cur = parent;
            proof {
                files_ok_concat(old(self).done_files@ + frame_files(old(self).ancestors@), old(self).cur.files@, self.codes@);
                assert(old(self).done_files@ + frame_files(old(self).ancestors@) =~= self.collected());
            }
            let ghost mid = *self;
            assert(mid.ancestors@ == old(self).ancestors@.drop_last());
            assert(mid.cur == old(self).ancestors@.last());
            if self.all_found_now() {
                self.finish();
            } else {
                self.settle();
                proof {
                    if queue_of(mid.cur).len() > 0 {
                        assert(nearest_pending(old(self).ancestors@) == Some(
                            old(self).ancestors@.len() - 1,
                        ));
                    } else {
                        assert(nearest_pending(old(self).ancestors@) == nearest_pending(
                            mid.ancestors@,
                        ));
                        nearest_pending_bounds(mid.ancestors@);
                        match nearest_pending(mid.ancestors@) {
                            Some(k) => {
                                assert(mid.ancestors@[k] == old(self).ancestors@[k]);
                            },
                            None => {},
                        }
                    }
                    assert(self.collected() + old(self).cur.files@ =~= old(self).collected());
                }
            }
        }
    }

    /// Takes the outcome of the request that `next_request` described.
    pub fn on_page(&mut self, outcome: PageOutcome)
        requires
            old(self).wf(),
            old(self).state() == WalkState::Listing,
        ensures
            final(self).wf(),
            final(self).codes() == old(self).codes(),
            outcome is Transport && old(self).attempts() + 1 < PAGE_ATTEMPTS ==> {
                &&& final(self).state() == WalkState::Listing
                &&& final(self).position() == old(self).position()
                &&& final(self).depth() == old(self).depth()
                &&& final(self).queued() == old(self).queued()
                &&& final(self).found() == old(self).found()
                &&& final(self).attempts() == old(self).attempts() + 1
                &&& final(self).wait() == RETRY_PAUSE_MS
                &&& final(self).collected() == old(self).collected()
                &&& final(self).mismatches() == old(self).mismatches()
            },
            (outcome is Status || outcome is Malformed || (outcome is Transport
                && old(self).attempts() + 1 >= PAGE_ATTEMPTS)) ==> {
                &&& final(self).mismatches() == old(self).mismatches()
                &&& old(self).depth() == 0 ==> final(self).state() == WalkState::Failed
                &&& old(self).depth() > 0 ==> {
                    &&& moves_on(*old(self), *final(self))
                    &&& final(self).found() == old(self).found()
                    &&& final(self).collected() + old(self).current_files() == old(self).collected()
                }
            },
            final(self).found().len() == final(self).codes().len(),
            outcome matches PageOutcome::Items(items) ==> (items@.len() == 0 ==> {
                &&& final(self).collected() == old(self).collected()
                &&& final(self).found() == old(self).found()
                &&& final(self).mismatches() == old(self).mismatches()
                &&& old(self).queued().len() > 0 ==> {
                    &&& final(self).state() == WalkState::Listing
                    &&& final(self).position() == (
                        old(self).position().0,
                        old(self).queued()[0],
                        0u64,
                    )
                    &&& final(self).depth() == old(self).depth() + 1
                    &&& final(self).queued().len() == 0
                }
                &&& old(self).queued().len() == 0 ==> moves_on(*old(self), *final(self))
            }),
            outcome matches PageOutcome::Items(items) ==> (items@.len() > 0
                && old(self).position().2 + PAGE_LIMIT <= u64::MAX ==> {
                &&& final(self).collected().map_values(|f: FileInfo| file_view(f)) == old(self).collected().map_values(|f: FileInfo| file_view(f)) + page_files(
                    items@,
                    old(self).position().1,
                    old(self).codes(),
                )
                &&& final(self).mismatches() == old(self).mismatches() + page_mismatches(
                    items@,
                    old(self).position().1,
                    old(self).codes(),
                )
                &&& forall|j: int|
                    0 <= j < old(self).codes().len() ==> #[trigger] final(self).found()[j] == (old(self).found()[j] || has_code(
                        page_files(items@, old(self).position().1, old(self).codes()),
                        old(self).codes()[j]@,
                    ))
                &&& final(self).all_found() ==> final(self).state() == WalkState::Finished
                &&& !final(self).all_found() ==> {
                    &&& final(self).state() == WalkState::Listing
                    &&& final(self).queued() == old(self).queued() + page_dirs(
                        items@,
                        old(self).position().1,
                    )
                    &&& final(self).position() == (
                        old(self).position().0,
                        old(self).position().1,
                        (old(self).position().2 + PAGE_LIMIT) as u64,
                    )
                    &&& final(self).attempts() == 0
                    &&& final(self).wait() == PAGE_PAUSE_MS
                }
            }),
    {
        match outcome {
            PageOutcome::Transport => {
                if self.attempts + 1 < PAGE_ATTEMPTS {
                    self.attempts = self.attempts + 1;
                    self.wait_millis = RETRY_PAUSE_MS;
                } else {
                    self.attempts = 0;
                    self.fail_frame();
                }
            },
            PageOutcome::Status(_) | PageOutcome::Malformed => {
                self.attempts = 0;
                self.fail_frame();
            },
            PageOutcome::Items(items) => {
                self.attempts = 0;
                if items.len() == 0 {
                    self.settle();
                } else if self.cur.offset > u64::MAX - PAGE_LIMIT {
                    self.fail_frame();
                } else {
                    let ghost before = self.collected();
                    let ghost head = self.done_files@ + frame_files(self.ancestors@);
                    let ghost old_cur = self.cur.files@;
                    absorb_page(
                        &mut self.cur,
                        &mut self.found,
                        &self.codes,
                        &self.folded,
                        &items,
                        &mut self.mismatched,
                    );
                    proof {
                        let added = self.cur.files@.subrange(old_cur.len() as int, self.cur.files@.len() as int);
                        assert(self.cur.files@ =~= old_cur + added);
                        files_ok_concat(head, old_cur, self.codes@);
                        assert forall|k: int| 0 <= k < added.len() implies file_ok(#[trigger] added[k], self.codes@) by {
                            assert(added[k] == self.cur.files@[k + old_cur.len()]);
                        }
                        files_ok_concat(old_cur, added, self.codes@);
                        files_ok_concat(head, self.cur.files@, self.codes@);
                        assert(self.collected() =~= head + self.cur.files@);
                        assert(before =~= head + old_cur);
                        assert((head + old_cur).map_values(|f: FileInfo| file_view(f)) =~= head.map_values(
                            |f: FileInfo| file_view(f),
                        ) + old_cur.map_values(|f: FileInfo| file_view(f)));
                        assert((head + self.cur.files@).map_values(|f: FileInfo| file_view(f)) =~= head.map_values(
                            |f: FileInfo| file_view(f),
                        ) + self.cur.files@.map_values(|f: FileInfo| file_view(f)));
                        let sd = self.cur.subdirs@;
                        let osd = old(self).cur.subdirs@;
                        let nx = self.cur.next_subdir as int;
                        assert(sd.map_values(|p: String| p@) == osd.map_values(|p: String| p@) + page_dirs(items@, old(self).cur.path@));
                        assert(self.queued() =~= sd.map_values(|p: String| p@).subrange(nx, sd.len() as int));
                        assert(old(self).queued() =~= osd.map_values(|p: String| p@).subrange(nx, osd.len() as int));
                        let a = osd.map_values(|p: String| p@);
                        let b = page_dirs(items@, old(self).cur.path@);
                        assert(nx <= a.len());
                        assert((a + b).subrange(nx, (a + b).len() as int) =~= a.subrange(nx, a.len() as int) + b);
                        assert(sd.len() == (a + b).len());
                        assert(self.queued() =~= old(self).queued() + page_dirs(items@, old(self).cur.path@));
                        assert(self.collected().map_values(|f: FileInfo| file_view(f)) =~= before.map_values(
                            |f: FileInfo| file_view(f),
                        ) + page_files(items@, old(self).cur.path@, self.codes@));
                    }
                    self.cur.offset = self.cur.offset + PAGE_LIMIT;
                    self.wait_millis = PAGE_PAUSE_MS;
                    if self.all_found_now() {
                        self.finish();
                    }
                }
            },
        }
    }

    /// The outcome of a finished walk: the files in the order found, or the
    /// failure of a share's top directory.
    pub fn into_result(self) -> (r: Result<Vec<FileInfo>, SyncError>)
        requires
            self.wf(),
            self.state() != WalkState::Listing,
        ensures
            self.state() == WalkState::Finished ==> (r matches Ok(v) && v@ == self.collected()),
            self.state() == WalkState::Failed ==> r == Err::<Vec<FileInfo>, SyncError>(
                SyncError::Enumeration,
            ),
            r matches Ok(v) ==> files_ok(v@, self.codes()),
    {
        match self.state {
            WalkState::Failed => Err(SyncError::Enumeration),
            _ => {
                proof {
                    assert(self.collected() =~= self.done_files@);
                }
                Ok(self.done_files)
            },
        }
    }

    /// Files met so far whose name starts with a code but has the wrong shape.
    pub fn mismatched(&self) -> (r: &Vec<Mismatch>)
        ensures
            r@.map_values(|m: Mismatch| mismatch_view(m)) == self.mismatches(),
    {
        &self.mismatched
    }

    /// The request to perform next; none once the walk is over.
    pub fn next_request(&self) -> (r: Option<PageRequest>)
        requires
            self.wf(),
        ensures
            r is Some <==> self.state() == WalkState::Listing,
            self.all_found() ==> r is None,
            r matches Some(q) ==> {
                &&& q.root@ == self.position().0
                &&& q.path@ == self.position().1
                &&& q.offset == self.position().2
                &&& q.limit == PAGE_LIMIT
                &&& q.wait_millis == self.wait()
            },
    {
        if self.state != WalkState::Listing {
            return None;
        }
        Some(
            PageRequest {
                root: self.roots[self.root_index].clone(),
                path: self.cur.path.clone(),
                offset: self.cur.offset,
                limit: PAGE_LIMIT,
                wait_millis: self.wait_millis,
            },
        )
    }
}

/// Once every requested code has a matching file, the walk asks for nothing more.
pub proof fn walk_stops_once_all_found(t: &Traversal)
    requires
        t.wf(),
        t.all_found(),
    ensures
        t.state() != WalkState::Listing,
{
}

} // verus!
