//! Lists whose memory is asked for before they are filled.
use vstd::prelude::*;

verus! {

/// An empty list with memory for `count` items, or none where that memory cannot be
/// had. The answer depends on the machine, unless nothing is asked for.
pub fn reserved<T>(count: usize) -> (list: Option<Vec<T>>)
    ensures
        list matches Some(list) ==> list@ == Seq::<T>::empty(),
        count == 0 ==> list is Some,
{
    let mut list: Vec<T> = Vec::new();
    if count > 0 && list.try_reserve(count).is_err() {
        None
    } else {
        Some(list)
    }
}

/// An empty list where there is room for what it is to hold.
pub fn list_if<T>(has_room: bool) -> (list: Option<Vec<T>>)
    ensures
        list matches Some(list) ==> list@ == Seq::<T>::empty(),
        has_room == list is Some,
{
    if has_room {
        Some(Vec::new())
    } else {
        None
    }
}

} // verus!
