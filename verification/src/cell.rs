//! The cell that holds the name of a connection: it is written at most once.

use once_cell::unsync::OnceCell;
use vstd::prelude::*;

verus! {

/// `once_cell::unsync::OnceCell`, a cell that can be written to once; nothing
/// is known of what is inside but what the functions below say.
#[verifier::external_type_specification]
#[verifier::external_body]
#[verifier::reject_recursive_types(T)]
pub struct ExOnceCell<T>(OnceCell<T>);

/// What a cell of text holds: no text, or one.
pub uninterp spec fn spec_cell_texts(cell: OnceCell<String>) -> Seq<Seq<char>>;

/// The text that a cell holds, if it holds one.
pub open spec fn spec_cell_text(cell: OnceCell<String>) -> Option<Seq<char>> {
    if spec_cell_texts(cell).len() > 0 {
        Some(spec_cell_texts(cell)[0])
    } else {
        None
    }
}

/// `once_cell::unsync::OnceCell::new` makes a cell that holds nothing.
#[verifier::external_body]
pub(crate) fn cell_new() -> (cell: OnceCell<String>)
    ensures
        spec_cell_texts(cell) == Seq::<Seq<char>>::empty(),
{
    OnceCell::new()
}

/// `once_cell::unsync::OnceCell::get` hands out what the cell holds, and
/// nothing where the cell holds nothing.
#[verifier::external_body]
pub(crate) fn cell_get(cell: &OnceCell<String>) -> (r: Option<&String>)
    ensures
        match r {
            Some(s) => spec_cell_texts(*cell) == seq![s@],
            None => spec_cell_texts(*cell) == Seq::<Seq<char>>::empty(),
        },
{
    cell.get()
}

/// `once_cell::unsync::OnceCell::set` fills a cell that holds nothing and
/// succeeds; a cell that holds a value keeps it, and the new value is handed
/// back as the error.
#[verifier::external_body]
pub(crate) fn cell_set(cell: &mut OnceCell<String>, value: String) -> (r: Result<(), String>)
    ensures
        match r {
            Ok(()) => spec_cell_texts(*old(cell)).len() == 0 && spec_cell_texts(*final(cell))
                == seq![value@],
            Err(back) => back == value && spec_cell_texts(*old(cell)).len() > 0
                && spec_cell_texts(*final(cell)) == spec_cell_texts(*old(cell)),
        },
{
    cell.set(value)
}

} // verus!
