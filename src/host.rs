use vstd::prelude::*;
use crate::allocator::{PanelId, PanelIdAllocator};
use crate::panel::{EventModel, PanelEvent};

verus! {

/// The script capability `new_window`: takes a fresh id from the shared
/// allocator and returns it with the creation event to publish. Returns
/// `None`, and leaves the allocator as it was, once it is exhausted.
pub fn create_panel(alloc: &mut PanelIdAllocator, name: String) -> (r: Option<(PanelId, PanelEvent)>)
    ensures
        old(alloc).is_exhausted() <==> r.is_none(),
        old(alloc).is_exhausted() ==> final(alloc).spec_next() == old(alloc).spec_next(),
        !old(alloc).is_exhausted() ==> {
            &&& r.unwrap().0 as nat == old(alloc).spec_next()
            &&& r.unwrap().1@ == EventModel::Create(r.unwrap().0, name@)
            &&& final(alloc).spec_next() == old(alloc).spec_next() + 1
        },
{
    match alloc.next_id() {
        Some(id) => Some((id, PanelEvent::Create(id, name))),
        None => None,
    }
}

/// The script capability `write_wnd`: the append event to publish. Any id is
/// accepted here; an id that names no panel is ignored by the registry.
pub fn append_panel(id: PanelId, text: String) -> (r: PanelEvent)
    ensures
        r@ == EventModel::Append(id, text@),
{
    PanelEvent::Append(id, text)
}

} // verus!
