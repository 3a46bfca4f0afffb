//! Taking a document under edit, recording a stored one, and naming the file
//! that an edited document is stored in.

use vstd::prelude::*;
use vstd::string::*;
use crate::editor_ops::Reindex;
use crate::editor_state::{Editor, EditorState};
use crate::error::AppError;
use crate::types::FileData;

verus! {

/// The place of the last dot of a file name, or -1 where it has none.
pub open spec fn last_dot(name: Seq<char>) -> int
    decreases name.len(),
{
    if name.len() == 0 {
        -1
    } else if name.last() == '.' {
        name.len() - 1
    } else {
        last_dot(name.drop_last())
    }
}

/// A file name without its extension: what stands before its last dot, or
/// all of it where it has no dot.
pub open spec fn stem(name: Seq<char>) -> Seq<char> {
    if last_dot(name) < 0 {
        name
    } else {
        name.take(last_dot(name))
    }
}

/// The name under which an edited document is stored by default.
pub open spec fn default_save_path(name: Seq<char>) -> Seq<char> {
    stem(name) + "_edited.xlsx"@
}

/// Names the file in which the edited version of `file_name` is stored by
/// default: the name without its extension, then `_edited.xlsx`.
pub fn do_get_default_save_path(file_name: String) -> (path: String)
    ensures
        path@ == default_save_path(file_name@),
{
    let name = file_name.as_str();
    let length = name.unicode_len();
    let mut dot: Option<usize> = None;
    let mut i: usize = 0;
    for c in it: name.chars()
        invariant
            it.seq() == name@,
            i == it.index(),
            length == name@.len(),
            match dot {
                Some(at) => at == last_dot(name@.take(i as int)) && at < i,
                None => last_dot(name@.take(i as int)) == -1,
            },
    {
        assert(name@.take(i + 1).drop_last() =~= name@.take(i as int));
        assert(name@.take(i + 1).last() == c);
        if c == '.' {
            dot = Some(i);
        }
        i = i + 1;
    }
    assert(name@.take(i as int) =~= name@);
    let base = match dot {
        Some(at) => name.substring_char(0, at),
        None => name,
    };
    assert(base@ =~= stem(name@));
    String::from_str(base).concat("_edited.xlsx")
}

/// Takes a document under edit, in place of the one that was, with nothing
/// to undo or redo. Its indexes are left to be built.
pub fn do_init_file(state: &mut Option<EditorState>, file_data: FileData) -> (result: Result<
    Reindex,
    AppError,
>)
    ensures
        *final(state) matches Some(editor) && editor@ == (Editor {
            document: file_data@,
            history: Seq::empty(),
            redo_stack: Seq::empty(),
            can_undo: false,
            can_redo: false,
        }),
        result matches Ok(Reindex::AllSheets),
{
    *state = Some(EditorState::new(file_data));
    Ok(Reindex::AllSheets)
}

/// Records a document that was stored as the one under edit. The history and
/// the redo stack stay as they are. Does nothing where no document is loaded.
pub fn do_save_file(state: &mut Option<EditorState>, file_data: FileData) -> (result: Result<
    (),
    AppError,
>)
    ensures
        result is Ok,
        match *old(state) {
            None => *final(state) is None,
            Some(before) => *final(state) matches Some(after) && after@ == (Editor {
                document: file_data@,
                ..before@
            }),
        },
{
    match state {
        None => {},
        Some(editor) => {
            editor.file_data = file_data;
        },
    }
    Ok(())
}

} // verus!
