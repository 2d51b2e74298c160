//! A row of equal cards, one of which is selected.

use vstd::prelude::*;

verus! {

/// An arrow beside a row of cards.
#[derive(Clone, Copy, Debug, PartialEq, Eq, Structural)]
pub struct Arrow {
    /// The card that it selects.
    pub target: usize,
    pub disabled: bool,
}

/// How a row of cards is shown.
#[derive(Clone, Copy, Debug, PartialEq, Eq)]
pub struct CarouselRow {
    pub selected: usize,
    /// The child of the row to scroll to. Ahead of the cards stands one that
    /// only takes up room.
    pub scroll_to: Option<usize>,
    /// The arrows back and forth, where there is anywhere to go.
    pub arrows: Option<(Arrow, Arrow)>,
}

/// A row of cards whose selection its owner keeps.
#[derive(Clone, Copy, Debug, PartialEq, Eq, Structural)]
pub struct Carousel {
    pub len: usize,
    pub selected: usize,
}

/// The card that is selected: the last one, if that is not there.
pub open spec fn clamped(carousel: Carousel) -> int {
    if carousel.selected < carousel.len {
        carousel.selected as int
    } else {
        carousel.len - 1
    }
}

/// How a row of cards is shown, given which card was selected when it was last
/// shown.
pub open spec fn row_of_cards(carousel: Carousel, shown: Option<usize>) -> Option<CarouselRow> {
    if carousel.len == 0 {
        None
    } else {
        let selected = clamped(carousel);
        Some(
            CarouselRow {
                selected: selected as usize,
                scroll_to: if shown == Some(selected as usize) {
                    None
                } else {
                    Some((selected + 1) as usize)
                },
                arrows: if carousel.len > 1 {
                    Some(
                        (
                            Arrow {
                                target: (if selected == 0 {
                                    0
                                } else {
                                    selected - 1
                                }) as usize,
                                disabled: selected == 0,
                            },
                            Arrow {
                                target: (if selected + 1 < carousel.len {
                                    selected + 1
                                } else {
                                    carousel.len - 1
                                }) as usize,
                                disabled: selected + 1 >= carousel.len,
                            },
                        ),
                    )
                } else {
                    None
                },
            },
        )
    }
}

impl Carousel {
    /// A row without cards.
    pub fn new() -> (r: Carousel)
        ensures
            r == (Carousel { len: 0, selected: 0 }),
    {
        Carousel { len: 0, selected: 0 }
    }

    /// The row with so many cards.
    pub fn len(self, len: usize) -> (r: Carousel)
        ensures
            r == (Carousel { len, ..self }),
    {
        Carousel { len, ..self }
    }

    /// The row with that card selected.
    pub fn selected(self, index: usize) -> (r: Carousel)
        ensures
            r == (Carousel { selected: index, ..self }),
    {
        Carousel { selected: index, ..self }
    }

    /// How the row is shown, given which card was selected when it was last
    /// shown; `None` if there are no cards.
    pub fn render_row(&self, shown: Option<usize>) -> (r: Option<CarouselRow>)
        ensures
            r == row_of_cards(*self, shown),
    {
        if self.len == 0 {
            return None;
        }
        let last: usize = self.len - 1;
        let selected: usize = if self.selected < last {
            self.selected
        } else {
            last
        };
        let scrolled = match shown {
            Some(shown) => shown == selected,
            None => false,
        };
        let scroll_to = if scrolled {
            None
        } else {
            Some(selected + 1)
        };
        let arrows = if self.len > 1 {
            let back: usize = if selected == 0 {
                0
            } else {
                selected - 1
            };
            let forth: usize = if selected + 1 < last {
                selected + 1
            } else {
                last
            };
            Some(
                (
                    Arrow { target: back, disabled: selected == 0 },
                    Arrow { target: forth, disabled: selected + 1 >= self.len },
                ),
            )
        } else {
            None
        };
        Some(CarouselRow { selected, scroll_to, arrows })
    }
}

/// The card that is shown as selected is always there, and so is every card
/// that an arrow selects. An arrow that can be pressed selects a neighbour.
pub proof fn arrows_stay_in_the_row(carousel: Carousel, shown: Option<usize>)
    requires
        carousel.len > 0,
    ensures
        ({
            let row = row_of_cards(carousel, shown)->0;
            &&& row.selected < carousel.len
            &&& row.arrows matches Some((back, forth)) ==> {
                &&& back.target < carousel.len
                &&& forth.target < carousel.len
                &&& !back.disabled ==> back.target == row.selected - 1
                &&& !forth.disabled ==> forth.target == row.selected + 1
            }
        }),
{
}

/// Pressing one arrow and then the other leads back.
pub proof fn back_and_forth_is_no_move(carousel: Carousel, shown: Option<usize>)
    requires
        carousel.len > 1,
        carousel.selected + 1 < carousel.len,
    ensures
        ({
            let (_, forth) = row_of_cards(carousel, shown)->0.arrows->0;
            let moved = Carousel { selected: forth.target, ..carousel };
            let (back, _) = row_of_cards(moved, shown)->0.arrows->0;
            back.target == carousel.selected
        }),
{
}

/// A row shows the card that is selected, or the last one where the selection is
/// beyond; it scrolls there unless it is there already. There are arrows exactly where
/// there is somewhere to go, and each is off at its end of the row.
pub proof fn a_row_shows_the_selected_card(carousel: Carousel, shown: Option<usize>)
    requires
        carousel.len > 0,
    ensures
        ({
            let row = row_of_cards(carousel, shown);
            &&& row is Some
            &&& carousel.selected < carousel.len ==> row->0.selected == carousel.selected
            &&& carousel.selected >= carousel.len ==> row->0.selected + 1 == carousel.len
            &&& row->0.scroll_to is None <==> shown == Some(row->0.selected)
            &&& row->0.scroll_to matches Some(to) ==> to == row->0.selected + 1
            &&& row->0.arrows is Some <==> carousel.len > 1
            &&& row->0.arrows matches Some((back, forth)) ==> {
                &&& back.disabled <==> row->0.selected == 0
                &&& forth.disabled <==> row->0.selected + 1 == carousel.len
            }
        }),
{
}

/// A row without cards is not shown.
pub proof fn an_empty_row_is_not_shown(carousel: Carousel, shown: Option<usize>)
    ensures
        row_of_cards(carousel, shown) is None <==> carousel.len == 0,
{
}

} // verus!
