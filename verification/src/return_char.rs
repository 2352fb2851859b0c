//! Small functions that return `char` values, alone, in structs, in arrays and in
//! `Option`s: a program whose return values a debugger is asked to show.
use vstd::prelude::*;

verus! {

pub const X: char = 'X';

pub const O: char = 'O';

/// Two characters side by side.
pub struct Alpha {
    pub c1: char,
    pub c2: char,
}

/// `X` then `O`.
#[inline(never)]
pub fn alpha() -> (res: Alpha)
    ensures
        res.c1 == X,
        res.c2 == O,
{
    let c1 = X;
    let c2 = O;
    Alpha { c1, c2 }
}

/// Three integers and a character.
pub struct Beta {
    pub arr: [i32; 3],
    pub c: char,
}

/// `arr` as given, with `O`.
#[inline(never)]
pub fn beta(arr: [i32; 3]) -> (res: Beta)
    ensures
        res.arr == arr,
        res.c == O,
{
    Beta { arr, c: O }
}

/// A three-by-three grid of characters and one more character.
pub struct Charlie {
    pub arr: [[char; 3]; 3],
    pub c: char,
}

/// `arr` as given, with `X`.
#[inline(never)]
pub fn charlie(arr: [[char; 3]; 3]) -> (res: Charlie)
    ensures
        res.arr == arr,
        res.c == X,
{
    Charlie { arr, c: X }
}

/// `Some(c)` when `a` holds, `None` otherwise.
#[inline(never)]
pub fn delta(a: bool, c: char) -> (res: Option<char>)
    ensures
        res == (if a { Some(c) } else { None::<char> }),
{
    if a {
        Some(c)
    } else {
        None
    }
}

} // verus!
