//! The elements placed on the page, in drawing order, together with the
//! selection and the drag in progress.
//!
//! The canvas does not look inside its elements: `E` is whatever the
//! application draws, and `D` the grip a drag keeps (where inside the
//! element the pointer took hold of it).
use vstd::prelude::*;
use crate::choice::{is_last_hit_below, no_hit_below, last_hit_below};

verus! {

/// Elements in drawing order (later ones on top), the selected element and
/// the element being dragged.
pub struct Canvas<E, D> {
    elements: Vec<E>,
    selected: Option<usize>,
    dragging: Option<(usize, D)>,
}

impl<E, D> Canvas<E, D> {
    /// The elements, bottom to top.
    pub closed spec fn items(&self) -> Seq<E> {
        self.elements@
    }

    /// The index of the selected element, if any.
    pub closed spec fn selection(&self) -> Option<usize> {
        self.selected
    }

    /// The element being dragged and its grip, if a drag is in progress.
    pub closed spec fn drag(&self) -> Option<(usize, D)> {
        self.dragging
    }

    /// The selection and the drag refer to elements that exist.
    #[verifier::type_invariant]
    spec fn refers_to_elements(&self) -> bool {
        &&& (self.selected matches Some(i) ==> i < self.elements@.len())
        &&& (self.dragging matches Some((i, _)) ==> i < self.elements@.len())
    }

    /// Takes the page's parts out, leaving an empty page behind.
    fn take_parts(&mut self) -> (parts: (Vec<E>, Option<usize>, Option<(usize, D)>))
        ensures
            parts.0@ == old(self).items(),
            parts.1 == old(self).selection(),
            parts.2 == old(self).drag(),
            parts.1 matches Some(i) ==> i < parts.0@.len(),
            parts.2 matches Some((i, _)) ==> i < parts.0@.len(),
            final(self).items() == Seq::<E>::empty(),
            final(self).selection() is None,
            final(self).drag() is None,
    {
        let mut taken = Canvas { elements: Vec::new(), selected: None, dragging: None };
        std::mem::swap(self, &mut taken);
        proof {
            use_type_invariant(&taken);
        }
        let Canvas { elements, selected, dragging } = taken;
        (elements, selected, dragging)
    }

    /// An empty page.
    pub fn new() -> (c: Self)
        ensures
            c.items() == Seq::<E>::empty(),
            c.selection() is None,
            c.drag() is None,
    {
        Canvas { elements: Vec::new(), selected: None, dragging: None }
    }

    /// How many elements the page holds.
    pub fn len(&self) -> (n: usize)
        ensures
            n == self.items().len(),
    {
        self.elements.len()
    }

    /// The element at `i`.
    pub fn element(&self, i: usize) -> (e: &E)
        requires
            i < self.items().len(),
        ensures
            *e == self.items()[i as int],
    {
        &self.elements[i]
    }

    /// All elements, bottom to top.
    pub fn elements(&self) -> (v: &Vec<E>)
        ensures
            v@ == self.items(),
    {
        &self.elements
    }

    /// The index of the selected element, if any.
    pub fn selected(&self) -> (s: Option<usize>)
        ensures
            s == self.selection(),
            s matches Some(i) ==> i < self.items().len(),
    {
        proof {
            use_type_invariant(self);
        }
        self.selected
    }

    /// Whether element `i` is the selected one.
    pub fn is_selected(&self, i: usize) -> (b: bool)
        ensures
            b == (self.selection() == Some(i)),
    {
        match self.selected {
            Some(s) => s == i,
            None => false,
        }
    }

    /// The element being dragged and its grip, if a drag is in progress.
    pub fn dragging(&self) -> (d: Option<(usize, D)>)
        where D: Copy
        ensures
            d == self.drag(),
            d matches Some((i, _)) ==> i < self.items().len(),
    {
        proof {
            use_type_invariant(self);
        }
        self.dragging
    }

    /// Adds `e` on top of the others and selects it.
    pub fn add_element(&mut self, e: E)
        ensures
            final(self).items() == old(self).items().push(e),
            final(self).selection() == Some(old(self).items().len() as usize),
            final(self).drag() == old(self).drag(),
    {
        let (mut elements, _selected, dragging) = self.take_parts();
        let next = elements.len();
        elements.push(e);
        *self = Canvas { elements, selected: Some(next), dragging };
    }

    /// Puts `e` in place of the element at `i`.
    pub fn set_element(&mut self, i: usize, e: E)
        requires
            i < old(self).items().len(),
        ensures
            final(self).items() == old(self).items().update(i as int, e),
            final(self).selection() == old(self).selection(),
            final(self).drag() == old(self).drag(),
    {
        let (mut elements, selected, dragging) = self.take_parts();
        elements.set(i, e);
        *self = Canvas { elements, selected, dragging };
    }

    /// Drops the selection and any drag.
    pub fn deselect(&mut self)
        ensures
            final(self).items() == old(self).items(),
            final(self).selection() is None,
            final(self).drag() is None,
    {
        proof {
            use_type_invariant(&*self);
        }
        self.selected = None;
        self.dragging = None;
    }

    /// Replaces every element, as opening a document does; nothing stays
    /// selected.
    pub fn replace_elements(&mut self, elements: Vec<E>)
        ensures
            final(self).items() == elements@,
            final(self).selection() is None,
            final(self).drag() is None,
    {
        proof {
            use_type_invariant(&*self);
        }
        self.selected = None;
        self.dragging = None;
        self.elements = elements;
    }

    /// Empties the page, as a new document does.
    pub fn clear(&mut self)
        ensures
            final(self).items() == Seq::<E>::empty(),
            final(self).selection() is None,
            final(self).drag() is None,
    {
        proof {
            use_type_invariant(&*self);
        }
        self.selected = None;
        self.dragging = None;
        self.elements = Vec::new();
    }

    /// Removes the selected element, if there is one; the selection and
    /// any drag end. Tells whether an element was removed.
    pub fn delete_selected(&mut self) -> (removed: bool)
        ensures
            removed == old(self).selection() is Some,
            match old(self).selection() {
                Some(i) => {
                    &&& final(self).items() == old(self).items().remove(i as int)
                    &&& final(self).selection() is None
                    &&& final(self).drag() is None
                },
                None => *final(self) == *old(self),
            },
    {
        proof {
            use_type_invariant(&*self);
        }
        match self.selected {
            Some(i) => {
                let (mut elements, _selected, _dragging) = self.take_parts();
                elements.remove(i);
                *self = Canvas { elements, selected: None, dragging: None };
                true
            },
            None => false,
        }
    }

    /// A press on the page: selects the topmost element that the press
    /// hits (`hits[i]` tells whether it hits element `i`), or nothing when
    /// it hits none, and ends any drag. Returns the new selection.
    pub fn press(&mut self, hits: &Vec<bool>) -> (found: Option<usize>)
        ensures
            final(self).items() == old(self).items(),
            final(self).selection() == found,
            final(self).drag() is None,
            match found {
                Some(i) => is_last_hit_below(hits@, old(self).items().len() as int, i as int),
                None => no_hit_below(hits@, old(self).items().len() as int),
            },
    {
        proof {
            use_type_invariant(&*self);
        }
        let found = last_hit_below(hits, self.elements.len());
        self.dragging = None;
        self.selected = found;
        found
    }

    /// Starts dragging the selected element, held at `grip`; without a
    /// selection nothing is dragged.
    pub fn grab(&mut self, grip: D)
        ensures
            final(self).items() == old(self).items(),
            final(self).selection() == old(self).selection(),
            final(self).drag() == match old(self).selection() {
                Some(i) => Some((i, grip)),
                None => None,
            },
    {
        proof {
            use_type_invariant(&*self);
        }
        match self.selected {
            Some(i) => {
                self.dragging = Some((i, grip));
            },
            None => {
                self.dragging = None;
            },
        }
    }

    /// Ends any drag; the selection stays.
    pub fn release(&mut self)
        ensures
            final(self).items() == old(self).items(),
            final(self).selection() == old(self).selection(),
            final(self).drag() is None,
    {
        proof {
            use_type_invariant(&*self);
        }
        self.dragging = None;
    }

    /// Selects the element whose entry in the layers list reports a click
    /// (`clicks[i]` for element `i`; the last one wins when several do).
    /// Tells whether one did; without a click nothing changes.
    pub fn select_clicked(&mut self, clicks: &Vec<bool>) -> (clicked: bool)
        ensures
            final(self).items() == old(self).items(),
            final(self).drag() == old(self).drag(),
            clicked == !no_hit_below(clicks@, old(self).items().len() as int),
            match final(self).selection() {
                Some(i) => if clicked {
                    is_last_hit_below(clicks@, old(self).items().len() as int, i as int)
                } else {
                    old(self).selection() == Some(i)
                },
                None => !clicked && old(self).selection() is None,
            },
    {
        proof {
            use_type_invariant(&*self);
        }
        match last_hit_below(clicks, self.elements.len()) {
            Some(i) => {
                self.selected = Some(i);
                true
            },
            None => false,
        }
    }
}

/// Adding an element and deleting it at once (it is the selected one after
/// the add) leaves the page's elements as they were.
pub proof fn lemma_add_then_delete<E>(items: Seq<E>, e: E)
    ensures
        items.push(e).remove(items.len() as int) == items,
{
    assert(items.push(e).remove(items.len() as int) =~= items);
}

/// Deleting the selected element keeps the others in their order: the
/// ones below it in place, the ones above it one step lower.
pub proof fn lemma_delete_keeps_order<E>(items: Seq<E>, i: int)
    requires
        0 <= i < items.len(),
    ensures
        items.remove(i).len() == items.len() - 1,
        forall|k: int| 0 <= k < i ==> #[trigger] items.remove(i)[k] == items[k],
        forall|k: int| i <= k < items.len() - 1 ==> #[trigger] items.remove(i)[k] == items[k + 1],
{
}

} // verus!
