//! What the parts of the screen have in common.

use vstd::prelude::*;
use crate::size::Size;
use crate::view::ScreenRow;

verus! {

/// A part of the screen that is drawn anew when it is out of date.
pub trait UIComponent {
    /// What must hold of the component for its methods to be called.
    spec fn ready(&self) -> bool;

    /// The component is out of date on the screen.
    spec fn wants_redraw(&self) -> bool;

    /// The component has the size `size`.
    spec fn has_size(&self, size: Size) -> bool;

    /// Marks the component as out of date, or as drawn.
    fn mark_redraw(&mut self, value: bool)
        requires
            old(self).ready(),
        ensures
            final(self).ready(),
            final(self).wants_redraw() == value,
            forall|size: Size| final(self).has_size(size) == old(self).has_size(size),
    ;

    /// Whether the component is out of date on the screen.
    fn needs_redraw(&self) -> (r: bool)
        ensures
            r == self.wants_redraw(),
    ;

    /// Gives the component the size `size`, and marks it as out of date.
    fn resize(&mut self, size: Size)
        requires
            old(self).ready(),
        ensures
            final(self).ready(),
            final(self).has_size(size),
            final(self).wants_redraw(),
    {
        self.set_size(size);
        self.mark_redraw(true);
    }

    /// Gives the component the size `size`.
    fn set_size(&mut self, size: Size)
        requires
            old(self).ready(),
        ensures
            final(self).ready(),
            final(self).has_size(size),
    ;

    /// The rows of the component if it is out of date, for the caller to put
    /// on the screen and then to mark the component as drawn; `None` if the
    /// screen shows it as it is.
    fn render(&mut self) -> (rows: Option<Vec<ScreenRow>>)
        requires
            old(self).ready(),
        ensures
            final(self).ready(),
            rows is Some <==> old(self).wants_redraw(),
    {
        if self.needs_redraw() {
            Some(self.draw())
        } else {
            None
        }
    }

    /// The rows of the component, from the top.
    fn draw(&mut self) -> (rows: Vec<ScreenRow>)
        requires
            old(self).ready(),
        ensures
            final(self).ready(),
    ;
}

} // verus!
