//! A rectangle with whole-number sides: a struct, its methods and an
//! associated constructor.

use vstd::prelude::*;

verus! {

/// A rectangle given by its two sides.
#[derive(Debug)]
pub struct Rectangle {
    pub width: u32,
    pub height: u32,
}

/// What [`run`] works out.
pub struct Walkthrough {
    /// The area of the first rectangle, by the free function.
    pub first_area: u32,
    /// The area of the second rectangle, by the method.
    pub second_area: u32,
    /// Whether the first rectangle can hold the second.
    pub first_holds_second: bool,
    /// A square of side 20.
    pub square: Rectangle,
}

/// The area of `rect`, as a free function.
pub fn area_func(rect: &Rectangle) -> (area: u32)
    requires
        rect.width * rect.height <= u32::MAX,
    ensures
        area == rect.width * rect.height,
{
    rect.width * rect.height
}

impl Rectangle {
    /// The area: width times height.
    pub open spec fn spec_area(&self) -> int {
        self.width * self.height
    }

    /// `self` is at least as wide and at least as high as `other`.
    pub open spec fn spec_can_hold(&self, other: &Rectangle) -> bool {
        self.height >= other.height && self.width >= other.width
    }

    /// The area of the rectangle.
    pub fn area(&self) -> (area: u32)
        requires
            self.spec_area() <= u32::MAX,
        ensures
            area == self.spec_area(),
    {
        self.width * self.height
    }

    /// Whether `other_rect`, unrotated, fits inside `self`.
    pub fn can_hold(&self, other_rect: &Rectangle) -> (fits: bool)
        ensures
            fits == self.spec_can_hold(other_rect),
    {
        (self.height >= other_rect.height) && (self.width >= other_rect.width)
    }

    /// Takes the rectangle and gives nothing back: the value ends here.
    pub fn drop(self) {
    }

    /// The square whose sides are both `size`.
    pub fn square(size: u32) -> (rect: Rectangle)
        ensures
            rect.width == size,
            rect.height == size,
    {
        Rectangle { height: size, width: size }
    }
}

/// Works the module's example: a 30 by 60 rectangle, a second one that takes
/// its width from the first and is 40 high, and a square of side 20.
pub fn run() -> (seen: Walkthrough)
    ensures
        seen.first_area == 1800,
        seen.second_area == 1200,
        seen.first_holds_second,
        seen.square.width == 20 && seen.square.height == 20,
{
    let rect1 = Rectangle { width: 30, height: 60 };
    let first_area = area_func(&rect1);
    let rect2 = Rectangle { height: 40, ..rect1 };
    let second_area = rect2.area();
    let first_holds_second = rect1.can_hold(&rect2);
    rect1.drop();
    Walkthrough { first_area, second_area, first_holds_second, square: Rectangle::square(20) }
}

} // verus!
