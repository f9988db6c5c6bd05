//! The window selector: the range of items around the focused one that should
//! have their content cached.

use vstd::prelude::*;
use vstd::slice::slice_subrange;

verus! {

/// The number of parts that make up a whole [`Ratio`].
pub const RATIO_WHOLE: u16 = 1000;

/// A share between zero and one, held in thousandths.
#[derive(Clone, Copy, Debug, PartialEq, Eq, Structural)]
pub struct Ratio {
    thousandths: u16,
}

impl View for Ratio {
    type V = nat;

    closed spec fn view(&self) -> nat {
        if self.thousandths <= RATIO_WHOLE {
            self.thousandths as nat
        } else {
            RATIO_WHOLE as nat
        }
    }
}

impl Ratio {
    /// A share is never more than the whole.
    pub proof fn lemma_in_range(self)
        ensures
            self@ <= RATIO_WHOLE,
    {
    }

    /// The share of `thousandths` parts in a thousand; anything above one
    /// thousand is taken as the whole.
    pub fn from_thousandths(thousandths: u16) -> (ratio: Ratio)
        ensures
            ratio@ == if thousandths <= RATIO_WHOLE {
                thousandths as nat
            } else {
                RATIO_WHOLE as nat
            },
    {
        if thousandths <= RATIO_WHOLE {
            Ratio { thousandths }
        } else {
            Ratio { thousandths: RATIO_WHOLE }
        }
    }

    /// The share in thousandths.
    pub fn thousandths(&self) -> (parts: u16)
        ensures
            parts as nat == self@,
            parts <= RATIO_WHOLE,
    {
        if self.thousandths <= RATIO_WHOLE {
            self.thousandths
        } else {
            RATIO_WHOLE
        }
    }

    /// What is left of the whole once this share is taken.
    pub fn complement(&self) -> (rest: Ratio)
        ensures
            rest@ + self@ == RATIO_WHOLE,
    {
        Ratio { thousandths: RATIO_WHOLE - self.thousandths() }
    }
}

/// `thousandths / 1000 * amount`, rounded to the nearest whole number; a value
/// exactly halfway between two whole numbers goes to the even one.
pub open spec fn rounded_share(thousandths: nat, amount: nat) -> nat {
    let scaled = thousandths * amount;
    let whole = scaled / 1000;
    let rest = scaled % 1000;
    if rest < 500 {
        whole
    } else if rest > 500 {
        whole + 1
    } else if whole % 2 == 0 {
        whole
    } else {
        whole + 1
    }
}

/// How many items ahead of the focus a buffer of `buffer_size` items keeps.
pub open spec fn back_share(buffer_size: nat, ratio: nat) -> nat {
    rounded_share(ratio, buffer_size)
}

/// How many items behind the focus a buffer of `buffer_size` items keeps.
pub open spec fn front_share(buffer_size: nat, ratio: nat) -> nat {
    rounded_share((1000 - ratio) as nat, buffer_size)
}

/// The window `[lo, hi)` around `focus_index`, as a pair `(lo, hi)`.
///
/// With no more items than the buffer holds the window is everything. Otherwise
/// it reaches `front` items back and `back` items ahead of the focus; near the
/// start it begins at zero, and where it would run past the end it is the last
/// `buffer_size` items.
pub open spec fn window_bounds(
    total_items: nat,
    focus_index: nat,
    buffer_size: nat,
    ratio: nat,
) -> (nat, nat) {
    let back = back_share(buffer_size, ratio);
    let front = front_share(buffer_size, ratio);
    if total_items <= buffer_size {
        (0, total_items)
    } else if focus_index < front {
        (0, focus_index + back)
    } else if focus_index + back > total_items {
        ((total_items - buffer_size) as nat, total_items)
    } else {
        ((focus_index - front) as nat, focus_index + back)
    }
}

/// A contiguous range `[lo, hi)` of positions in the visible item sequence.
#[derive(Clone, Copy, Debug, PartialEq, Eq, Structural)]
pub struct Window {
    pub lo: usize,
    pub hi: usize,
}

impl Window {
    /// Whether `index` lies in the window.
    pub open spec fn spec_contains(self, index: nat) -> bool {
        self.lo <= index < self.hi
    }

    /// The number of positions in the window.
    pub open spec fn spec_len(self) -> nat {
        if self.lo <= self.hi {
            (self.hi - self.lo) as nat
        } else {
            0
        }
    }

    /// Whether `index` lies in the window.
    pub fn contains(&self, index: usize) -> (inside: bool)
        ensures
            inside == self.spec_contains(index as nat),
    {
        self.lo <= index && index < self.hi
    }

    /// The number of positions in the window.
    pub fn len(&self) -> (count: usize)
        ensures
            count as nat == self.spec_len(),
    {
        if self.lo <= self.hi {
            self.hi - self.lo
        } else {
            0
        }
    }
}

/// A rounded share is the whole number nearest to the exact share and never more
/// than the amount it is a share of.
pub proof fn lemma_rounded_share_bounds(thousandths: nat, amount: nat)
    requires
        thousandths <= 1000,
    ensures
        rounded_share(thousandths, amount) <= amount,
        1000 * rounded_share(thousandths, amount) - thousandths * amount <= 500,
        thousandths * amount - 1000 * rounded_share(thousandths, amount) <= 500,
        thousandths == 0 ==> rounded_share(thousandths, amount) == 0,
        thousandths == 1000 ==> rounded_share(thousandths, amount) == amount,
{
    let scaled = thousandths * amount;
    assert(scaled <= 1000 * amount) by (nonlinear_arith)
        requires
            scaled == thousandths * amount,
            thousandths <= 1000,
    ;
    assert(scaled == 1000 * (scaled / 1000) + scaled % 1000) by (nonlinear_arith);
    if thousandths == 0 {
        assert(scaled == 0) by (nonlinear_arith)
            requires
                scaled == thousandths * amount,
                thousandths == 0,
        ;
    }
    if thousandths == 1000 {
        assert(scaled == 1000 * amount);
    }
}

/// Computes [`rounded_share`].
fn share_of(thousandths: u16, amount: usize) -> (share: usize)
    requires
        thousandths <= 1000,
    ensures
        share as nat == rounded_share(thousandths as nat, amount as nat),
        share <= amount,
{
    proof {
        lemma_rounded_share_bounds(thousandths as nat, amount as nat);
        assert(thousandths as nat * amount as nat <= 1000 * amount as nat) by (nonlinear_arith)
            requires
                thousandths <= 1000,
        ;
    }
    let scaled: u128 = (thousandths as u128) * (amount as u128);
    let whole: u128 = scaled / 1000;
    let rest: u128 = scaled % 1000;
    let rounded: u128 = if rest < 500 {
        whole
    } else if rest > 500 {
        whole + 1
    } else if whole % 2 == 0 {
        whole
    } else {
        whole + 1
    };
    rounded as usize
}

/// Selects the window of items to keep cached around `focus_index`.
///
/// `front_ratio` is the share of the buffer that lies ahead of the focus; the
/// rest lies behind it.
pub fn select(
    total_items: usize,
    focus_index: usize,
    buffer_size: usize,
    front_ratio: Ratio,
) -> (window: Window)
    ensures
        (window.lo as nat, window.hi as nat) == window_bounds(
            total_items as nat,
            focus_index as nat,
            buffer_size as nat,
            front_ratio@,
        ),
        window.lo <= window.hi <= total_items,
        total_items <= buffer_size ==> window.lo == 0 && window.hi == total_items,
        total_items > buffer_size ==> window.spec_len() <= buffer_size + 1,
        total_items > buffer_size && focus_index < total_items ==> (window.spec_contains(
            focus_index as nat,
        ) <==> back_share(buffer_size as nat, front_ratio@) >= 1),
{
    let ratio: u16 = front_ratio.thousandths();
    let back: usize = share_of(ratio, buffer_size);
    let front: usize = share_of(front_ratio.complement().thousandths(), buffer_size);
    proof {
        lemma_shares_fill_buffer(buffer_size as nat, front_ratio@);
    }
    if total_items <= buffer_size {
        Window { lo: 0, hi: total_items }
    } else if focus_index < front {
        Window { lo: 0, hi: focus_index + back }
    } else if focus_index > total_items || back > total_items - focus_index {
        Window { lo: total_items - buffer_size, hi: total_items }
    } else {
        Window { lo: focus_index - front, hi: focus_index + back }
    }
}

/// The two shares of a buffer together differ from its size by at most one.
pub proof fn lemma_shares_fill_buffer(buffer_size: nat, ratio: nat)
    requires
        ratio <= 1000,
    ensures
        back_share(buffer_size, ratio) <= buffer_size,
        front_share(buffer_size, ratio) <= buffer_size,
        back_share(buffer_size, ratio) + front_share(buffer_size, ratio) <= buffer_size + 1,
        back_share(buffer_size, ratio) + front_share(buffer_size, ratio) + 1 >= buffer_size,
{
    let back = back_share(buffer_size, ratio);
    let front = front_share(buffer_size, ratio);
    lemma_rounded_share_bounds(ratio, buffer_size);
    lemma_rounded_share_bounds((1000 - ratio) as nat, buffer_size);
    assert(ratio * buffer_size + (1000 - ratio) * buffer_size == 1000 * buffer_size)
        by (nonlinear_arith)
        requires
            ratio <= 1000,
    ;
}

/// The window lies within the items and is never more than one item longer than
/// the buffer. With no more items than the buffer holds it is all of them. With
/// more, it holds a focus that is one of the items exactly if at least one item
/// of the buffer lies ahead.
pub proof fn lemma_window_bounds(total_items: nat, focus_index: nat, buffer_size: nat, ratio: nat)
    requires
        ratio <= 1000,
    ensures
        window_bounds(total_items, focus_index, buffer_size, ratio).0 <= window_bounds(
            total_items,
            focus_index,
            buffer_size,
            ratio,
        ).1 <= total_items,
        window_bounds(total_items, focus_index, buffer_size, ratio).1 - window_bounds(
            total_items,
            focus_index,
            buffer_size,
            ratio,
        ).0 <= buffer_size + 1,
        total_items <= buffer_size ==> window_bounds(total_items, focus_index, buffer_size, ratio)
            == (0nat, total_items),
        total_items > buffer_size && focus_index < total_items ==> (window_bounds(
            total_items,
            focus_index,
            buffer_size,
            ratio,
        ).0 <= focus_index < window_bounds(total_items, focus_index, buffer_size, ratio).1
            <==> back_share(buffer_size, ratio) >= 1),
{
    lemma_shares_fill_buffer(buffer_size, ratio);
}

/// The part of `vec` that lies in the window around position `idx`, for a buffer
/// of `amount` items of which the share `ratio` lies ahead.
pub fn current_buffer<T>(vec: &Vec<T>, idx: usize, amount: usize, ratio: Ratio) -> (part: &[T])
    ensures
        part@ == vec@.subrange(
            window_bounds(vec@.len(), idx as nat, amount as nat, ratio@).0 as int,
            window_bounds(vec@.len(), idx as nat, amount as nat, ratio@).1 as int,
        ),
{
    let window: Window = select(vec.len(), idx, amount, ratio);
    slice_subrange(vec.as_slice(), window.lo, window.hi)
}

} // verus!
