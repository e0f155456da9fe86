//! A picture of the engine in text, for a person to read.
//!
//! The picture has a line for the time, and between two rules one line for
//! each floor from the highest down to floor 0, with the car and its
//! direction on the floor where it stands and a mark on every floor that is
//! in the backlog.

use crate::elevator::{Direction, Elevator};
use crate::model::ElevatorState;
use vstd::prelude::*;
use vstd::string::*;

verus! {

/// The decimal digit for a number below ten.
pub open spec fn digit(d: nat) -> char {
    if d == 0 {
        '0'
    } else if d == 1 {
        '1'
    } else if d == 2 {
        '2'
    } else if d == 3 {
        '3'
    } else if d == 4 {
        '4'
    } else if d == 5 {
        '5'
    } else if d == 6 {
        '6'
    } else if d == 7 {
        '7'
    } else if d == 8 {
        '8'
    } else {
        '9'
    }
}

/// A number written in decimal digits, without leading zeros.
pub open spec fn decimal(n: nat) -> Seq<char>
    decreases n,
{
    if n < 10 {
        seq![digit(n)]
    } else {
        decimal(n / 10).push(digit(n % 10))
    }
}

/// The sign for a direction: a triangle that points the way, or an `x` for
/// a car at rest.
pub open spec fn sign(direction: Direction) -> char {
    match direction {
        Direction::Up => '▲',
        Direction::Down => '▼',
        Direction::Rest => 'x',
    }
}

/// The line for one floor: its number, then the car with its direction or
/// the empty shaft, then a mark if the floor is in the backlog.
pub open spec fn floor_line(e: ElevatorState, floor: nat) -> Seq<char> {
    decimal(floor) + seq![' '] + (if floor == e.current_floor {
        seq![sign(e.direction), '▮']
    } else {
        seq![' ', '|']
    }) + (if e.backlog.contains(floor) {
        seq!['!']
    } else {
        Seq::<char>::empty()
    }) + seq!['\n']
}

/// The lines for the floors from `top` down to floor 0.
pub open spec fn floor_lines(e: ElevatorState, top: nat) -> Seq<char>
    decreases top,
{
    if top == 0 {
        floor_line(e, 0)
    } else {
        floor_line(e, top) + floor_lines(e, (top - 1) as nat)
    }
}

/// A rule of five dashes.
pub open spec fn rule() -> Seq<char> {
    seq!['-', '-', '-', '-', '-', '\n']
}

/// The whole picture.
pub open spec fn picture(e: ElevatorState) -> Seq<char> {
    seq!['T', ':', ' '] + decimal(e.clock) + seq!['\n'] + rule() + floor_lines(e, e.max_floor)
        + rule()
}

fn digit_text(d: usize) -> (text: &'static str)
    requires
        d < 10,
    ensures
        text@ == seq![digit(d as nat)],
{
    proof {
        reveal_strlit("0");
        reveal_strlit("1");
        reveal_strlit("2");
        reveal_strlit("3");
        reveal_strlit("4");
        reveal_strlit("5");
        reveal_strlit("6");
        reveal_strlit("7");
        reveal_strlit("8");
        reveal_strlit("9");
    }
    let text = if d == 0 {
        "0"
    } else if d == 1 {
        "1"
    } else if d == 2 {
        "2"
    } else if d == 3 {
        "3"
    } else if d == 4 {
        "4"
    } else if d == 5 {
        "5"
    } else if d == 6 {
        "6"
    } else if d == 7 {
        "7"
    } else if d == 8 {
        "8"
    } else {
        "9"
    };
    assert(text@ =~= seq![digit(d as nat)]);
    text
}

/// Writes `n` in decimal at the end of `text`.
fn write_number(text: &mut String, n: usize)
    ensures
        final(text)@ == old(text)@ + decimal(n as nat),
    decreases n,
{
    if n >= 10 {
        write_number(text, n / 10);
    }
    text.append(digit_text(n % 10));
    proof {
        if n >= 10 {
            assert(text@ =~= old(text)@ + decimal((n / 10) as nat).push(digit((n % 10) as nat)));
        }
    }
}

impl Direction {
    /// The sign for the direction, as a text of one character.
    pub fn symbol(&self) -> (text: &'static str)
        ensures
            text@ == seq![sign(*self)],
    {
        proof {
            reveal_strlit("▲");
            reveal_strlit("▼");
            reveal_strlit("x");
        }
        let text = match self {
            Direction::Up => "▲",
            Direction::Down => "▼",
            Direction::Rest => "x",
        };
        assert(text@ =~= seq![sign(*self)]);
        text
    }
}

impl Elevator {
    /// Writes the line for `floor` at the end of `text`.
    fn write_floor(&self, text: &mut String, floor: usize)
        ensures
            final(text)@ == old(text)@ + floor_line(self@, floor as nat),
    {
        proof {
            reveal_strlit(" ");
            reveal_strlit("▮");
            reveal_strlit(" |");
            reveal_strlit("!");
            reveal_strlit("\n");
        }
        write_number(text, floor);
        text.append(" ");
        if floor == self.current_floor {
            text.append(self.direction.symbol());
            text.append("▮");
        } else {
            text.append(" |");
        }
        if self.has_stop(floor) {
            text.append("!");
        }
        text.append("\n");
        assert(text@ =~= old(text)@ + floor_line(self@, floor as nat));
    }

    /// Draws the picture of the engine.
    pub fn render(&self) -> (text: String)
        ensures
            text@ == picture(self@),
    {
        proof {
            reveal_strlit("T: ");
            reveal_strlit("\n");
            reveal_strlit("-----\n");
        }
        let mut text = String::new();
        text.append("T: ");
        write_number(&mut text, self.time);
        text.append("\n");
        text.append("-----\n");
        let ghost head = text@;
        assert(head =~= seq!['T', ':', ' '] + decimal(self@.clock) + seq!['\n'] + rule());
        let mut floor = self.max_floor;
        loop
            invariant_except_break
                floor <= self.max_floor,
                text@ + floor_lines(self@, floor as nat) == head + floor_lines(
                    self@,
                    self@.max_floor,
                ),
            ensures
                text@ == head + floor_lines(self@, self@.max_floor),
            decreases floor,
        {
            let ghost before = text@;
            self.write_floor(&mut text, floor);
            if floor == 0 {
                break ;
            }
            proof {
                assert(before + floor_line(self@, floor as nat) + floor_lines(
                    self@,
                    (floor - 1) as nat,
                ) =~= before + floor_lines(self@, floor as nat));
            }
            floor -= 1;
        }
        text.append("-----\n");
        assert(text@ =~= picture(self@));
        text
    }
}

} // verus!
