//! Observable cells and lists: the state that a view subscribes to.
//!
//! `futures_signals::signal::Mutable` is a cell, and
//! `futures_signals::signal_vec::MutableVec` a vector, that tell their
//! subscribers about every change. The library keeps its state in them, so
//! that a view re-renders exactly what changed and never misses a change.
//!
//! Verus does not look inside either. What a cell or a list holds has a name
//! here, and the functions of this module that reach into one are believed,
//! not proved: each says in its doc comment which method it stands for and
//! what is claimed of it.
//!
//! Both have interior mutability. Every function here that changes one asks
//! for `&mut`, and the library never clones a cell or a list that it owns, so
//! inside verified code a value only changes through the borrow that the
//! contract speaks of. Subscribers read; they do not write.
//!
//! Both guard their value with a lock. Every function here takes the lock
//! for the length of one call and gives it back; none is held when a
//! function of the library returns. A caller that holds a lock of its own on
//! a cell while it calls the library would wait for itself.

use futures_signals::signal::Mutable;
use futures_signals::signal_vec::MutableVec;
use vstd::prelude::*;

verus! {

/// `futures_signals::signal::Mutable`, carried as it is: nothing inside it
/// is seen.
#[verifier::external_type_specification]
#[verifier::external_body]
#[verifier::reject_recursive_types(A)]
pub struct ExMutable<A>(Mutable<A>);

/// `futures_signals::signal_vec::MutableVec`, carried as it is: nothing
/// inside it is seen.
#[verifier::external_type_specification]
#[verifier::external_body]
#[verifier::reject_recursive_types(A)]
pub struct ExMutableVec<A>(MutableVec<A>);

/// The number that a cell holds: a size in pixels, or a permission mode.
pub uninterp spec fn number_in(cell: Mutable<u32>) -> u32;

/// The flag that a cell holds.
pub uninterp spec fn flag_in(cell: Mutable<bool>) -> bool;

/// The identifier that a cell holds, if it holds one.
pub uninterp spec fn choice_in(cell: Mutable<Option<usize>>) -> Option<usize>;

/// The screen position that a cell holds, as `(x, y)`.
pub uninterp spec fn point_in(cell: Mutable<(i32, i32)>) -> (i32, i32);

/// The text that a cell holds.
pub uninterp spec fn text_in(cell: Mutable<String>) -> Seq<char>;

/// The bytes that a cell holds.
pub uninterp spec fn bytes_in(cell: Mutable<Vec<u8>>) -> Seq<u8>;

/// The identifiers that an observable list holds, first to last.
pub uninterp spec fn ids_of(list: MutableVec<usize>) -> Seq<usize>;

/// `Mutable::new`: the new cell holds `value`.
#[verifier::external_body]
pub(crate) fn number_cell(value: u32) -> (cell: Mutable<u32>)
    ensures
        number_in(cell) == value,
{
    Mutable::new(value)
}

/// `ReadOnlyMutable::get`, reached through `Mutable`: what the cell holds.
#[verifier::external_body]
pub(crate) fn number_get(cell: &Mutable<u32>) -> (value: u32)
    ensures
        value == number_in(*cell),
{
    cell.get()
}

/// `Mutable::set`: the cell holds `value` afterwards.
#[verifier::external_body]
pub(crate) fn number_set(cell: &mut Mutable<u32>, value: u32)
    ensures
        number_in(*final(cell)) == value,
{
    cell.set(value)
}

/// `Mutable::new`: the new cell holds `value`.
#[verifier::external_body]
pub(crate) fn flag_cell(value: bool) -> (cell: Mutable<bool>)
    ensures
        flag_in(cell) == value,
{
    Mutable::new(value)
}

/// `ReadOnlyMutable::get`, reached through `Mutable`: what the cell holds.
#[verifier::external_body]
pub(crate) fn flag_get(cell: &Mutable<bool>) -> (value: bool)
    ensures
        value == flag_in(*cell),
{
    cell.get()
}

/// `Mutable::set_neq`: the cell holds `value` afterwards, whether or not it
/// did before. (Subscribers are told only if it did not.)
#[verifier::external_body]
pub(crate) fn flag_set(cell: &mut Mutable<bool>, value: bool)
    ensures
        flag_in(*final(cell)) == value,
{
    cell.set_neq(value)
}

/// `Mutable::new`: the new cell holds `value`.
#[verifier::external_body]
pub(crate) fn choice_cell(value: Option<usize>) -> (cell: Mutable<Option<usize>>)
    ensures
        choice_in(cell) == value,
{
    Mutable::new(value)
}

/// `ReadOnlyMutable::get`, reached through `Mutable`: what the cell holds.
#[verifier::external_body]
pub(crate) fn choice_get(cell: &Mutable<Option<usize>>) -> (value: Option<usize>)
    ensures
        value == choice_in(*cell),
{
    cell.get()
}

/// `Mutable::set`: the cell holds `value` afterwards.
#[verifier::external_body]
pub(crate) fn choice_set(cell: &mut Mutable<Option<usize>>, value: Option<usize>)
    ensures
        choice_in(*final(cell)) == value,
{
    cell.set(value)
}

/// `Mutable::new`: the new cell holds `value`.
#[verifier::external_body]
pub(crate) fn point_cell(value: (i32, i32)) -> (cell: Mutable<(i32, i32)>)
    ensures
        point_in(cell) == value,
{
    Mutable::new(value)
}

/// `ReadOnlyMutable::get`, reached through `Mutable`: what the cell holds.
#[verifier::external_body]
pub(crate) fn point_get(cell: &Mutable<(i32, i32)>) -> (value: (i32, i32))
    ensures
        value == point_in(*cell),
{
    cell.get()
}

/// `Mutable::set`: the cell holds `value` afterwards.
#[verifier::external_body]
pub(crate) fn point_set(cell: &mut Mutable<(i32, i32)>, value: (i32, i32))
    ensures
        point_in(*final(cell)) == value,
{
    cell.set(value)
}

/// `Mutable::new`: the new cell holds `value`.
#[verifier::external_body]
pub(crate) fn text_cell(value: String) -> (cell: Mutable<String>)
    ensures
        text_in(cell) == value@,
{
    Mutable::new(value)
}

/// `ReadOnlyMutable::get_cloned`, reached through `Mutable`: a copy of what
/// the cell holds.
#[verifier::external_body]
pub(crate) fn text_get(cell: &Mutable<String>) -> (value: String)
    ensures
        value@ == text_in(*cell),
{
    cell.get_cloned()
}

/// `Mutable::set`: the cell holds `value` afterwards.
#[verifier::external_body]
pub(crate) fn text_set(cell: &mut Mutable<String>, value: String)
    ensures
        text_in(*final(cell)) == value@,
{
    cell.set(value)
}

/// `Mutable::new`: the new cell holds `value`.
#[verifier::external_body]
pub(crate) fn bytes_cell(value: Vec<u8>) -> (cell: Mutable<Vec<u8>>)
    ensures
        bytes_in(cell) == value@,
{
    Mutable::new(value)
}

/// `ReadOnlyMutable::get_cloned`, reached through `Mutable`: a copy of what
/// the cell holds.
#[verifier::external_body]
pub(crate) fn bytes_get(cell: &Mutable<Vec<u8>>) -> (value: Vec<u8>)
    ensures
        value@ == bytes_in(*cell),
{
    cell.get_cloned()
}

/// `Mutable::set`: the cell holds `value` afterwards.
#[verifier::external_body]
pub(crate) fn bytes_set(cell: &mut Mutable<Vec<u8>>, value: Vec<u8>)
    ensures
        bytes_in(*final(cell)) == value@,
{
    cell.set(value)
}

/// The test that everything but `gone` passes.
pub open spec fn other_than<T>(gone: T) -> spec_fn(T) -> bool {
    |id: T| id != gone
}

/// Whether `id` stays in a list that `gone` is taken out of.
pub(crate) fn differs(id: usize, gone: usize) -> (keep: bool)
    ensures
        keep == (id != gone),
{
    id != gone
}

/// `MutableVec::new_with_values`: the new list holds `values`, in their order.
#[verifier::external_body]
pub(crate) fn list_from(values: Vec<usize>) -> (list: MutableVec<usize>)
    ensures
        ids_of(list) == values@,
{
    MutableVec::new_with_values(values)
}

/// `MutableVec::lock_ref`, copied out with `to_vec`: what the list holds now.
#[verifier::external_body]
pub(crate) fn list_snapshot(list: &MutableVec<usize>) -> (values: Vec<usize>)
    ensures
        values@ == ids_of(*list),
{
    list.lock_ref().to_vec()
}

/// `MutableVecLockMut::push`: `id` is appended, the rest stays as it was.
#[verifier::external_body]
pub(crate) fn list_push(list: &mut MutableVec<usize>, id: usize)
    ensures
        ids_of(*final(list)) == ids_of(*old(list)).push(id),
{
    list.lock_mut().push(id)
}

/// `MutableVecLockMut::retain`, keeping what differs from `gone`: every
/// occurrence of `gone` leaves, the others keep their order.
#[verifier::external_body]
pub(crate) fn list_remove(list: &mut MutableVec<usize>, gone: usize)
    ensures
        ids_of(*final(list)) == ids_of(*old(list)).filter(other_than(gone)),
{
    list.lock_mut().retain(|id| differs(*id, gone))
}

/// `MutableVecLockMut::clear`: the list is empty afterwards.
#[verifier::external_body]
pub(crate) fn list_clear(list: &mut MutableVec<usize>)
    ensures
        ids_of(*final(list)) == Seq::<usize>::empty(),
{
    list.lock_mut().clear()
}

} // verus!
