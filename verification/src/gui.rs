//! A window of components of any kind, drawn in order.
//!
//! Drawing yields the lines to show; putting them on a screen is left to the
//! caller.

use vstd::prelude::*;

verus! {

/// Something a window can draw.
pub trait Component {
    /// The lines the component shows when drawn.
    spec fn drawn(&self) -> Seq<Seq<char>>;

    /// Whether the component's far corner can be told in `u32` coordinates.
    spec fn fits(&self) -> bool;

    /// The corner of the component nearest the origin, and the corner
    /// opposite to it.
    spec fn corners(&self) -> ((u32, u32), (u32, u32));

    /// The lines the component shows.
    fn draw(&self) -> (res: Vec<String>)
        ensures
            lines_of(res@) == self.drawn(),
    ;

    /// The smallest upright rectangle that holds the component.
    fn bounding_box(&self) -> (res: ((u32, u32), (u32, u32)))
        requires
            self.fits(),
        ensures
            res == self.corners(),
    ;
}

/// The characters of each line of a list.
pub open spec fn lines_of(lines: Seq<String>) -> Seq<Seq<char>> {
    Seq::new(lines.len(), |i: int| lines[i]@)
}

/// The rectangle that begins at `pos` and is `width` wide and `height` high.
pub open spec fn rectangle(pos: (u32, u32), width: u32, height: u32) -> ((u32, u32), (u32, u32)) {
    (pos, ((pos.0 + width) as u32, (pos.1 + height) as u32))
}

/// Whether the rectangle's far corner can be told in `u32` coordinates.
pub open spec fn rectangle_fits(pos: (u32, u32), width: u32, height: u32) -> bool {
    pos.0 + width <= u32::MAX && pos.1 + height <= u32::MAX
}

/// A button with a label.
pub struct Button {
    pub pos: (u32, u32),
    pub width: u32,
    pub height: u32,
    pub label: String,
    pub clicked: bool,
}

impl Component for Button {
    open spec fn drawn(&self) -> Seq<Seq<char>> {
        seq!["Button drawn!"@]
    }

    open spec fn fits(&self) -> bool {
        rectangle_fits(self.pos, self.width, self.height)
    }

    open spec fn corners(&self) -> ((u32, u32), (u32, u32)) {
        rectangle(self.pos, self.width, self.height)
    }

    fn draw(&self) -> (res: Vec<String>) {
        let mut res: Vec<String> = Vec::new();
        res.push("Button drawn!".to_owned());
        assert(lines_of(res@) =~= self.drawn());
        res
    }

    fn bounding_box(&self) -> (res: ((u32, u32), (u32, u32))) {
        (self.pos, (self.pos.0 + self.width, self.pos.1 + self.height))
    }
}

/// A box that offers a list of options.
pub struct SelectBox {
    pub pos: (u32, u32),
    pub width: u32,
    pub height: u32,
    pub options: Vec<String>,
}

impl Component for SelectBox {
    open spec fn drawn(&self) -> Seq<Seq<char>> {
        seq!["Drawn SelectBox!"@] + lines_of(self.options@)
    }

    open spec fn fits(&self) -> bool {
        rectangle_fits(self.pos, self.width, self.height)
    }

    open spec fn corners(&self) -> ((u32, u32), (u32, u32)) {
        rectangle(self.pos, self.width, self.height)
    }

    fn draw(&self) -> (res: Vec<String>) {
        let mut res: Vec<String> = Vec::new();
        res.push("Drawn SelectBox!".to_owned());
        let mut i: usize = 0;
        while i < self.options.len()
            invariant
                i <= self.options@.len(),
                res@.len() == i + 1,
                res@[0]@ == "Drawn SelectBox!"@,
                forall|j: int| 0 <= j < i ==> (#[trigger] res@[j + 1])@ == self.options@[j]@,
            decreases self.options@.len() - i,
        {
            res.push(self.options[i].clone());
            i += 1;
        }
        proof {
            assert forall|k: int| 0 <= k < res@.len() implies lines_of(res@)[k]
                == self.drawn()[k] by {
                if k > 0 {
                    assert(res@[(k - 1) + 1]@ == self.options@[k - 1]@);
                }
            }
        }
        assert(lines_of(res@) =~= self.drawn());
        res
    }

    fn bounding_box(&self) -> (res: ((u32, u32), (u32, u32))) {
        (self.pos, (self.pos.0 + self.width, self.pos.1 + self.height))
    }
}

/// A window: a list of components of any kind.
pub struct Window {
    pub components: Vec<Box<dyn Component>>,
}

/// The lines that the first `n` of the components show, one component after
/// the other.
pub open spec fn drawn_by(components: Seq<Box<dyn Component>>, n: int) -> Seq<Seq<char>>
    decreases n,
{
    if n <= 0 {
        Seq::empty()
    } else {
        drawn_by(components, n - 1) + components[n - 1].drawn()
    }
}

impl Window {
    /// What the window shows when run: its greeting, then every component's
    /// lines, in the order of the components.
    pub open spec fn shown(&self) -> Seq<Seq<char>> {
        seq!["Hello Window!"@] + drawn_by(self.components@, self.components@.len() as int)
    }

    /// Draws the window: the greeting, then each component in order.
    pub fn run(&self) -> (res: Vec<String>)
        ensures
            lines_of(res@) == self.shown(),
    {
        let mut res: Vec<String> = Vec::new();
        res.push("Hello Window!".to_owned());
        let mut i: usize = 0;
        while i < self.components.len()
            invariant
                i <= self.components@.len(),
                lines_of(res@) == seq!["Hello Window!"@] + drawn_by(self.components@, i as int),
            decreases self.components@.len() - i,
        {
            let ghost before = res@;
            let mut part = self.components[i].draw();
            let ghost added = part@;
            res.append(&mut part);
            proof {
                assert(lines_of(res@) =~= lines_of(before) + lines_of(added));
            }
            i += 1;
        }
        res
    }
}

} // verus!
