//! Recognising a file drag in progress on this machine, so that it can be
//! carried across to the peer.
//!
//! The system's drag pasteboard is never cleared after a drop or cancel: it
//! keeps the last drag's items indefinitely, so that it has items says
//! nothing. What does change is its generation, which is bumped when a drag
//! starts. So "the generation changed since the last left-mouse-up" means "a
//! drag started during this button hold", and every mouse-up consumes the
//! generation. Once a drag is recognised it stays armed until the button is
//! released, so that a cursor that returns and crosses again mid-drag is
//! still recognised.

use crate::names::{copy_texts, texts};
use vstd::prelude::*;

verus! {

/// What is known of a drag on this machine.
pub struct DragState {
    /// a drag was recognised during the current button hold
    pub armed: bool,
    pub files: Vec<String>,
}

/// What a [`DragState`] says.
#[verifier::ext_equal]
pub struct Held {
    pub armed: bool,
    pub files: Seq<Seq<char>>,
}

impl View for DragState {
    type V = Held;

    open spec fn view(&self) -> Held {
        Held { armed: self.armed, files: texts(self.files@) }
    }
}

impl Held {
    /// No drag.
    pub open spec fn none() -> Held {
        Held { armed: false, files: Seq::empty() }
    }

    /// The state after the pasteboard was looked at: the button is down or
    /// not, the generation changed or not, and these files are on it.
    pub open spec fn looked(self, button_down: bool, modified: bool, files: Seq<Seq<char>>) -> Held {
        if !button_down {
            Held::none()
        } else if modified && files.len() > 0 {
            Held { armed: true, files }
        } else {
            self
        }
    }

    /// The files being dragged.
    pub open spec fn dragged(self) -> Seq<Seq<char>> {
        if self.armed {
            self.files
        } else {
            Seq::empty()
        }
    }
}

impl DragState {
    pub fn new() -> (r: DragState)
        ensures
            r@ == Held::none(),
    {
        let r = DragState { armed: false, files: Vec::new() };
        assert(r@.files =~= Seq::<Seq<char>>::empty());
        r
    }
}

/// Call on every left-mouse-up, captured or not, having consumed the
/// pasteboard's generation: the drag is over.
pub fn on_left_mouse_up(state: &mut DragState)
    ensures
        final(state)@ == Held::none(),
{
    state.armed = false;
    state.files = Vec::new();
    assert(state@.files =~= Seq::<Seq<char>>::empty());
}

/// Files being dragged right now, or none if no file drag is in progress.
/// Called at the moment the cursor crosses to the peer, with whether the
/// left button is down and, where it is, what the pasteboard says: whether
/// its generation changed since it was last looked at, and its files.
pub fn active_drag_files(
    state: &mut DragState,
    button_down: bool,
    modified: bool,
    files: Vec<String>,
) -> (r: Vec<String>)
    ensures
        final(state)@ == old(state)@.looked(button_down, modified, texts(files@)),
        texts(r@) == final(state)@.dragged(),
{
    if !button_down {
        on_left_mouse_up(state);
    } else if modified && files.len() > 0 {
        assert(texts(files@).len() == files@.len());
        state.armed = true;
        state.files = files;
    } else {
        assert(texts(files@).len() == files@.len());
    }
    if state.armed {
        copy_texts(&state.files)
    } else {
        let none: Vec<String> = Vec::new();
        assert(texts(none@) =~= Seq::<Seq<char>>::empty());
        none
    }
}

/// An item on the drag pasteboard.
#[derive(Debug)]
pub struct PasteItem {
    /// it is a file
    pub has_file_url: bool,
    /// it has no data until dropped
    pub promised: bool,
    /// where the file is, if that could be resolved
    pub path: Option<String>,
}

/// Whether an item is a file that can be carried across.
pub open spec fn carried(i: PasteItem) -> bool {
    i.has_file_url && !i.promised && i.path is Some
}

/// The paths of the items that can be carried across, in order.
pub open spec fn carried_paths(items: Seq<PasteItem>) -> Seq<Seq<char>>
    decreases items.len(),
{
    if items.len() == 0 {
        Seq::empty()
    } else if carried(items.last()) {
        carried_paths(items.drop_last()).push(items.last().path->0@)
    } else {
        carried_paths(items.drop_last())
    }
}

/// The files among the items on the drag pasteboard.
pub fn pasteboard_files(items: &Vec<PasteItem>) -> (r: Vec<String>)
    ensures
        texts(r@) == carried_paths(items@),
{
    let mut r: Vec<String> = Vec::new();
    let mut i: usize = 0;
    assert(items@.take(0) =~= Seq::<PasteItem>::empty());
    assert(texts(r@) =~= Seq::<Seq<char>>::empty());
    while i < items.len()
        invariant
            i <= items@.len(),
            texts(r@) == carried_paths(items@.take(i as int)),
        decreases items@.len() - i,
    {
        proof {
            assert(items@.take(i + 1).drop_last() =~= items@.take(i as int));
            assert(items@.take(i + 1).last() == items@[i as int]);
        }
        if items[i].has_file_url && !items[i].promised {
            if let Some(p) = &items[i].path {
                let ghost before = r@;
                r.push(p.clone());
                assert(texts(r@) =~= texts(before).push(p@));
            }
        }
        i = i + 1;
    }
    assert(items@.take(i as int) =~= items@);
    r
}

/* ---------------------------------- laws ---------------------------------- */

/// What an earlier drag left on the pasteboard is not taken for a drag:
/// after a release nothing is dragged until the generation changes.
pub proof fn stale_items_are_not_dragged(files: Seq<Seq<char>>, button_down: bool)
    ensures
        Held::none().looked(button_down, false, files).dragged() == Seq::<Seq<char>>::empty(),
{
}

/// A drag that was recognised stays so for as long as the button is down,
/// with the files it started with.
pub proof fn drags_stay_armed(h: Held, files: Seq<Seq<char>>)
    requires
        h.armed,
    ensures
        h.looked(true, false, files) == h,
{
}

/// A release ends the drag.
pub proof fn releases_end_the_drag(h: Held, modified: bool, files: Seq<Seq<char>>)
    ensures
        h.looked(false, modified, files) == Held::none(),
{
}

} // verus!
