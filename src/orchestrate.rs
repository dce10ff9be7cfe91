//! The decisions made for each vendor code of a run.
use vstd::prelude::*;
use crate::classify::FileInfo;
use crate::error::SyncError;
use crate::upload::files_for_code;

verus! {

/// What to do for one vendor code once its product has been looked up.
#[derive(Debug)]
pub enum CodePlan {
    /// Record the code as failed.
    Skip { error: SyncError },
    /// Upload `files`, in this order, to product `nm_id`.
    Upload { nm_id: i64, files: Vec<FileInfo> },
}

/// Decides for `code` from the product lookup and the enumerated files: a
/// failed lookup or no file of the code skips it.
pub fn plan_code(product: Result<i64, SyncError>, files: &Vec<FileInfo>, code: &str) -> (r:
    CodePlan)
    ensures
        match product {
            Err(e) => r == (CodePlan::Skip { error: e }),
            Ok(nm_id) => {
                let mine = files@.filter(|f: FileInfo| f.articul@ == code@);
                if mine.len() == 0 {
                    r == (CodePlan::Skip { error: SyncError::NotFound })
                } else {
                    r matches CodePlan::Upload { nm_id: id, files: fs } && id == nm_id && fs@
                        == mine
                }
            },
        },
{
    match product {
        Err(e) => CodePlan::Skip { error: e },
        Ok(nm_id) => {
            let mine = files_for_code(files, code);
            if mine.len() == 0 {
                CodePlan::Skip { error: SyncError::NotFound }
            } else {
                CodePlan::Upload { nm_id, files: mine }
            }
        },
    }
}

} // verus!
