//! The eight-slot named palette container, the generated `Colors` bundle,
//! and the `Theme` that wraps colors with an optional wallpaper path.

use vstd::prelude::*;

use crate::color::Srgb;

verus! {

/// Exactly eight named slots: black, red, green, yellow, blue, purple, cyan,
/// white. Structural, not ordered; the six non-black/non-white slots form the
/// accent subset, enumerated in the fixed order red, green, yellow, blue,
/// purple, cyan.
#[derive(Clone, Copy, Debug, PartialEq, Eq, Hash)]
pub struct Palette<T> {
    pub black: T,
    pub red: T,
    pub green: T,
    pub yellow: T,
    pub blue: T,
    pub purple: T,
    pub cyan: T,
    pub white: T,
}

impl<T> Palette<T> {
    /// A palette with the same value in every slot.
    pub fn uniform(v: T) -> (r: Self) where T: Copy
        ensures
            r.black == v,
            r.red == v,
            r.green == v,
            r.yellow == v,
            r.blue == v,
            r.purple == v,
            r.cyan == v,
            r.white == v,
    {
        Self { black: v, red: v, green: v, yellow: v, blue: v, purple: v, cyan: v, white: v }
    }

    /// A palette of references to this palette's slots.
    pub fn as_ref(&self) -> (r: Palette<&T>)
        ensures
            r.black == &self.black,
            r.red == &self.red,
            r.green == &self.green,
            r.yellow == &self.yellow,
            r.blue == &self.blue,
            r.purple == &self.purple,
            r.cyan == &self.cyan,
            r.white == &self.white,
    {
        Palette {
            black: &self.black,
            red: &self.red,
            green: &self.green,
            yellow: &self.yellow,
            blue: &self.blue,
            purple: &self.purple,
            cyan: &self.cyan,
            white: &self.white,
        }
    }

    /// Applies `f` to every slot.
    pub fn map<U, F: Fn(T) -> U>(self, f: F) -> (r: Palette<U>)
        requires
            call_requires(f, (self.black,)),
            call_requires(f, (self.red,)),
            call_requires(f, (self.green,)),
            call_requires(f, (self.yellow,)),
            call_requires(f, (self.blue,)),
            call_requires(f, (self.purple,)),
            call_requires(f, (self.cyan,)),
            call_requires(f, (self.white,)),
        ensures
            call_ensures(f, (self.black,), r.black),
            call_ensures(f, (self.red,), r.red),
            call_ensures(f, (self.green,), r.green),
            call_ensures(f, (self.yellow,), r.yellow),
            call_ensures(f, (self.blue,), r.blue),
            call_ensures(f, (self.purple,), r.purple),
            call_ensures(f, (self.cyan,), r.cyan),
            call_ensures(f, (self.white,), r.white),
    {
        Palette {
            black: f(self.black),
            red: f(self.red),
            green: f(self.green),
            yellow: f(self.yellow),
            blue: f(self.blue),
            purple: f(self.purple),
            cyan: f(self.cyan),
            white: f(self.white),
        }
    }

    /// Pairs the slots of this palette with the slots of another.
    pub fn zip<U>(self, other: Palette<U>) -> (r: Palette<(T, U)>)
        ensures
            r.black == (self.black, other.black),
            r.red == (self.red, other.red),
            r.green == (self.green, other.green),
            r.yellow == (self.yellow, other.yellow),
            r.blue == (self.blue, other.blue),
            r.purple == (self.purple, other.purple),
            r.cyan == (self.cyan, other.cyan),
            r.white == (self.white, other.white),
    {
        Palette {
            black: (self.black, other.black),
            red: (self.red, other.red),
            green: (self.green, other.green),
            yellow: (self.yellow, other.yellow),
            blue: (self.blue, other.blue),
            purple: (self.purple, other.purple),
            cyan: (self.cyan, other.cyan),
            white: (self.white, other.white),
        }
    }

    /// The six accent slots, in the fixed enumeration order.
    pub fn accents(self) -> (r: Vec<T>)
        ensures
            r@.len() == 6,
            r@[0] == self.red,
            r@[1] == self.green,
            r@[2] == self.yellow,
            r@[3] == self.blue,
            r@[4] == self.purple,
            r@[5] == self.cyan,
    {
        let mut r: Vec<T> = Vec::new();
        r.push(self.red);
        r.push(self.green);
        r.push(self.yellow);
        r.push(self.blue);
        r.push(self.purple);
        r.push(self.cyan);
        r
    }
}

/// The color "mode": whether the user prefers dark or light themes.
#[derive(Clone, Copy, Debug, PartialEq, Eq, Hash, Structural)]
pub enum ColorMode {
    Dark,
    Light,
}

/// A generated set of colors: the full palette, the six accents ordered by
/// descending bucket population, and the chosen foreground and background.
#[derive(Clone, Debug, PartialEq)]
pub struct Colors<Color> {
    pub palette: Palette<Color>,
    pub accents: Vec<Color>,
    pub foreground: Color,
    pub background: Color,
}

impl<T: Copy> Colors<T> {
    /// Applies `f` to every color the structure holds.
    pub fn map<U, F: Fn(T) -> U>(self, f: F) -> (r: Colors<U>)
        requires
            forall|x: T| call_requires(f, (x,)),
        ensures
            call_ensures(f, (self.palette.black,), r.palette.black),
            call_ensures(f, (self.palette.red,), r.palette.red),
            call_ensures(f, (self.palette.green,), r.palette.green),
            call_ensures(f, (self.palette.yellow,), r.palette.yellow),
            call_ensures(f, (self.palette.blue,), r.palette.blue),
            call_ensures(f, (self.palette.purple,), r.palette.purple),
            call_ensures(f, (self.palette.cyan,), r.palette.cyan),
            call_ensures(f, (self.palette.white,), r.palette.white),
            call_ensures(f, (self.foreground,), r.foreground),
            call_ensures(f, (self.background,), r.background),
            r.accents@.len() == self.accents@.len(),
            forall|i: int|
                0 <= i < self.accents@.len() ==> call_ensures(
                    f,
                    (self.accents@[i],),
                    #[trigger] r.accents@[i],
                ),
    {
        let palette = Palette {
            black: f(self.palette.black),
            red: f(self.palette.red),
            green: f(self.palette.green),
            yellow: f(self.palette.yellow),
            blue: f(self.palette.blue),
            purple: f(self.palette.purple),
            cyan: f(self.palette.cyan),
            white: f(self.palette.white),
        };
        let mut accents: Vec<U> = Vec::new();
        let n = self.accents.len();
        let mut i: usize = 0;
        while i < n
            invariant
                n == self.accents@.len(),
                accents@.len() == i,
                i <= n,
                forall|j: int|
                    0 <= j < i ==> call_ensures(f, (self.accents@[j],), #[trigger] accents@[j]),
                forall|x: T| call_requires(f, (x,)),
            decreases n - i,
        {
            let x = self.accents[i];
            accents.push(f(x));
            i = i + 1;
        }
        let foreground = f(self.foreground);
        let background = f(self.background);
        Colors { palette, accents, foreground, background }
    }
}

/// A theme: an optional wallpaper path (as path text bytes) and the colors.
#[derive(Clone, Debug, PartialEq)]
pub struct Theme {
    pub wallpaper: Option<Vec<u8>>,
    pub colors: Colors<Srgb>,
}

} // verus!
