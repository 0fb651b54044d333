use vstd::prelude::*;

verus! {

/// Longest path, in bytes, that a file dialog may return.
pub const MAX_PATH_BYTES: usize = 8192;

/// Why a file dialog's answer was refused.
#[derive(Clone, Copy, Debug, PartialEq, Eq, Structural)]
pub enum PathError {
    /// Empty, too long, or holding a NUL byte or more than one line.
    Invalid,
    /// Not an absolute local path.
    NotAbsolute,
}

impl PathError {
    pub fn message(self) -> (r: &'static str)
        ensures
            self == PathError::Invalid ==> r@ == "File picker returned an invalid path"@,
            self == PathError::NotAbsolute ==> r@
                == "File picker must return a local absolute path"@,
    {
        match self {
            PathError::Invalid => "File picker returned an invalid path",
            PathError::NotAbsolute => "File picker must return a local absolute path",
        }
    }
}

/// The dialog output without one trailing newline.
pub open spec fn without_final_newline(bytes: Seq<u8>) -> Seq<u8> {
    if bytes.len() > 0 && bytes.last() == 10u8 {
        bytes.drop_last()
    } else {
        bytes
    }
}

/// A path a dialog may return: one non-empty line, bounded, without NUL.
pub open spec fn well_formed_path(path: Seq<u8>) -> bool {
    &&& path.len() > 0
    &&& path.len() <= MAX_PATH_BYTES
    &&& !path.contains(0u8)
    &&& !path.contains(10u8)
}

/// An absolute path on a Unix system starts at the root directory.
pub open spec fn absolute_path(path: Seq<u8>) -> bool {
    path.len() > 0 && path[0] == 47u8
}

/// The result of reading a dialog's output.
pub open spec fn selected_path_result(bytes: Seq<u8>) -> Result<Seq<u8>, PathError> {
    let path = without_final_newline(bytes);
    if !well_formed_path(path) {
        Err(PathError::Invalid)
    } else if !absolute_path(path) {
        Err(PathError::NotAbsolute)
    } else {
        Ok(path)
    }
}

fn contains_byte(bytes: &Vec<u8>, b: u8) -> (r: bool)
    ensures
        r == bytes@.contains(b),
{
    let mut i: usize = 0;
    while i < bytes.len()
        invariant
            i <= bytes@.len(),
            forall|j: int| 0 <= j < i ==> bytes@[j] != b,
        decreases bytes@.len() - i,
    {
        if bytes[i] == b {
            return true;
        }
        i = i + 1;
    }
    false
}

/// Checks a file dialog's output: one absolute local path, optionally ended
/// by a newline, which is dropped.
pub fn selected_path(bytes: Vec<u8>) -> (r: Result<Vec<u8>, PathError>)
    ensures
        match (r, selected_path_result(bytes@)) {
            (Ok(p), Ok(q)) => p@ == q,
            (Err(e), Err(f)) => e == f,
            _ => false,
        },
{
    let mut bytes = bytes;
    let ghost original = bytes@;
    if bytes.len() > 0 && bytes[bytes.len() - 1] == 10u8 {
        bytes.pop();
    }
    assert(bytes@ == without_final_newline(original));
    if bytes.len() == 0 || bytes.len() > 8192 || contains_byte(&bytes, 0u8) || contains_byte(
        &bytes,
        10u8,
    ) {
        return Err(PathError::Invalid);
    }
    if bytes[0] != 47u8 {
        return Err(PathError::NotAbsolute);
    }
    Ok(bytes)
}

/// How a file dialog process ended.
#[derive(Clone, Copy, Debug, PartialEq, Eq, Structural)]
pub enum DialogExit {
    /// The user cancelled (exit code 1).
    Cancelled,
    /// The dialog failed or exited unexpectedly.
    Failed,
    /// The dialog succeeded; its output holds the chosen path.
    Chosen,
}

/// Reads a dialog's exit status: code 1 is a cancel, any other failure is an
/// error, and success means a path was written.
pub fn dialog_exit(code: Option<i32>, success: bool) -> (r: DialogExit)
    ensures
        code == Some(1i32) ==> r == DialogExit::Cancelled,
        code != Some(1i32) && !success ==> r == DialogExit::Failed,
        code != Some(1i32) && success ==> r == DialogExit::Chosen,
{
    match code {
        Some(1i32) => DialogExit::Cancelled,
        _ => if success {
            DialogExit::Chosen
        } else {
            DialogExit::Failed
        },
    }
}

/// A cancelled dialog and a successful one with empty output are told apart:
/// the first is no choice, the second an error.
pub proof fn lemma_cancel_differs_from_empty_output(bytes: Seq<u8>)
    requires
        bytes.len() == 0 || bytes == seq![10u8],
    ensures
        selected_path_result(bytes) == Err::<Seq<u8>, PathError>(PathError::Invalid),
{
}

} // verus!
