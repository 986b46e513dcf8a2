//! What the screen's widgets decide: buttons and lists of options.
use vstd::prelude::*;

use crate::gamestates::Key;
use crate::math::{spec_inside, Pos, Rect, Size};

verus! {

/// The box of a button labelled with `len` bytes at `pos`: the label and a
/// column on each side, three rows high.
pub fn button_rect(len: usize, pos: Pos) -> (r: Rect)
    requires
        len + 2 <= i32::MAX,
    ensures
        r.pos == pos,
        r.size == (Size { w: (len + 2) as i32, h: 3 }),
{
    Rect { pos, size: Size { w: (len + 2) as i32, h: 3 } }
}

/// A button labelled with `len` bytes at `pos` is clicked when the mouse
/// is on it as the left button goes down.
pub fn button_clicked(len: usize, pos: Pos, mouse: Pos, left_click: bool) -> (r: bool)
    requires
        len + 2 <= i32::MAX,
        i32::MIN <= pos.i + 3 <= i32::MAX,
        i32::MIN <= pos.j + len + 2 <= i32::MAX,
    ensures
        r == (left_click && spec_inside(
            mouse.i as int,
            mouse.j as int,
            pos.i as int,
            pos.j as int,
            len + 2,
            3,
        )),
{
    let rect = button_rect(len, pos);
    mouse.inside(&rect) && left_click
}

/// The option under the cursor and the option chosen, in a list of `n`
/// options whose cursor was on `last`: up and down move the cursor, wrapping
/// around; return chooses the option under it, and so does a click, the
/// later option winning when both happen. A cursor past the end is first
/// brought back to just past the end.
pub open spec fn options_after(n: nat, last: nat, key: Option<Key>, clicked: Option<nat>) -> (nat, Option<nat>) {
    let l = if last < n {
        last
    } else {
        n
    };
    let l2 = if key == Some(Key::Up) {
        ((l as int + n - 1) % (n as int)) as nat
    } else if key == Some(Key::Down) {
        ((l as int + 1) % (n as int)) as nat
    } else {
        l
    };
    let by_key = if key == Some(Key::Return) && l2 < n {
        Some(l2)
    } else {
        None
    };
    let by_click = match clicked {
        Some(c) => if c < n {
            Some(c)
        } else {
            None
        },
        None => None,
    };
    let chosen = match (by_key, by_click) {
        (Some(a), Some(b)) => Some(if a < b {
            b
        } else {
            a
        }),
        (Some(a), None) => Some(a),
        (None, b) => b,
    };
    (l2, chosen)
}

/// Moves the cursor of a list of `n` options and picks the chosen one, as
/// `options_after` says.
pub fn options_select(n: usize, last: &mut usize, key: Option<Key>, clicked: Option<usize>) -> (r: Option<
    usize,
>)
    requires
        n > 0,
    ensures
        ({
            let c = match clicked {
                Some(c) => Some(c as nat),
                None => None,
            };
            let (l, chosen) = options_after(n as nat, *old(last) as nat, key, c);
            &&& *final(last) == l
            &&& match r {
                Some(x) => chosen == Some(x as nat),
                None => chosen is None,
            }
        }),
{
    let l = if *last < n {
        *last
    } else {
        n
    };
    let l2 = if key == Some(Key::Up) {
        proof {
            if l == 0 {
                vstd::arithmetic::div_mod::lemma_small_mod((n - 1) as nat, n as nat);
            } else {
                vstd::arithmetic::div_mod::lemma_mod_add_multiples_vanish(l - 1, n as int);
                vstd::arithmetic::div_mod::lemma_small_mod((l - 1) as nat, n as nat);
            }
        }
        if l == 0 {
            n - 1
        } else {
            l - 1
        }
    } else if key == Some(Key::Down) {
        proof {
            if l + 1 >= n {
                vstd::arithmetic::div_mod::lemma_mod_add_multiples_vanish(l + 1 - n, n as int);
            } else {
                vstd::arithmetic::div_mod::lemma_small_mod((l + 1) as nat, n as nat);
            }
        }
        if l >= n - 1 {
            (l - (n - 1)) % n
        } else {
            l + 1
        }
    } else {
        l
    };
    *last = l2;
    let mut ans: Option<usize> = None;
    for i in 0..n
        invariant
            ans matches Some(a) ==> a < i,
            ans == (if key == Some(Key::Return) && l2 < i {
                match clicked {
                    Some(c) => if c < i && c > l2 { Some(c) } else { Some(l2) },
                    None => Some(l2),
                }
            } else {
                match clicked {
                    Some(c) => if c < i { Some(c) } else { None },
                    None => None,
                }
            }),
    {
        if clicked == Some(i) || (i == l2 && key == Some(Key::Return)) {
            ans = Some(i);
        }
    }
    ans
}

} // verus!
