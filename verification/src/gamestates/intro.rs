//! The opening screen: a sentence typed out letter by letter.
use vstd::prelude::*;

verus! {

/// The sentence of the opening screen.
pub const OPENING_STR: &'static str = "this is functional.";

/// Its length.
pub const OPENING_LEN: usize = 19;

/// How many letters of the sentence show after `time_ms` milliseconds: one
/// more every tenth of a second; once all are out, the last one blinks,
/// half a second on and half a second off.
pub open spec fn revealed_letters(time_ms: u64) -> int {
    let shown = time_ms / 100;
    if shown > OPENING_LEN {
        OPENING_LEN - 1 + ((shown - OPENING_LEN) / 5) % 2
    } else {
        shown as int
    }
}

/// The intro is over two seconds after the sentence is out, or at the first
/// click or key.
pub open spec fn intro_over(time_ms: u64, input: bool) -> bool {
    time_ms / 100 > OPENING_LEN + 5 * 4 || input
}

/// The letters shown after `time_ms`, and whether the intro is over, the
/// player having clicked or pressed a key when `input`.
pub fn intro_frame(time_ms: u64, input: bool) -> (r: (usize, bool))
    ensures
        r.0 == revealed_letters(time_ms),
        r.0 <= OPENING_LEN,
        r.1 == intro_over(time_ms, input),
{
    let shown: u64 = time_ms / 100;
    let over = shown > (OPENING_LEN + 5 * 4) as u64 || input;
    let letters = if shown > OPENING_LEN as u64 {
        OPENING_LEN - 1 + (((shown - OPENING_LEN as u64) / 5) % 2) as usize
    } else {
        shown as usize
    };
    (letters, over)
}

/// The part of the sentence shown after `time_ms`.
pub fn intro_text(time_ms: u64) -> (r: String)
    ensures
        r@ == OPENING_STR@.take(revealed_letters(time_ms)),
{
    proof {
        reveal_strlit("this is functional.");
    }
    let (letters, _) = intro_frame(time_ms, false);
    let chars = crate::util::text::chars_of(OPENING_STR);
    let mut r = String::new();
    for k in 0..letters
        invariant
            chars@ == OPENING_STR@,
            OPENING_STR@.len() == OPENING_LEN,
            letters <= OPENING_LEN,
            r@ == OPENING_STR@.take(k as int),
    {
        crate::util::text::push_char(&mut r, chars[k]);
        assert(OPENING_STR@.take(k + 1) =~= OPENING_STR@.take(k as int).push(chars@[k as int]));
    }
    r
}

} // verus!
