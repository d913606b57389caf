//! The hot bar: which slot is selected, where slots are drawn, and which
//! slots show a block icon.

use vstd::prelude::*;
use crate::basic::{Cube, GameObjType, PlayerInfo, BAR_SIZE};

verus! {

/// Horizontal distance between neighbouring hot-bar slots.
pub const SLOT_SPACING: isize = 50;

/// A wheel notch: towards the user (`Down`), away from the user (`Up`), or no
/// line movement (`Still`).
#[derive(Clone, Copy, Debug, PartialEq, Eq, Structural)]
pub enum ScrollDir {
    Down,
    Up,
    Still,
}

/// The selected slot after one notch: down moves right, up moves left, and
/// both wrap around the bar's ends.
pub open spec fn scroll_step(i: int, d: ScrollDir) -> int {
    match d {
        ScrollDir::Down => if i == 4 { 0 } else { i + 1 },
        ScrollDir::Up => if i == 0 { 4 } else { i - 1 },
        ScrollDir::Still => i,
    }
}

/// The selected slot after the notches `s`, taken in order.
pub open spec fn scroll_all(i: int, s: Seq<ScrollDir>) -> int
    decreases s.len(),
{
    if s.len() == 0 {
        i
    } else {
        scroll_step(scroll_all(i, s.drop_last()), s.last())
    }
}

/// A selection inside the bar stays inside it, whatever the wheel does.
pub proof fn lemma_scroll_stays_in_bar(i: int, s: Seq<ScrollDir>)
    requires
        0 <= i < BAR_SIZE,
    ensures
        0 <= scroll_all(i, s) < BAR_SIZE,
    decreases s.len(),
{
    if s.len() > 0 {
        lemma_scroll_stays_in_bar(i, s.drop_last());
    }
}

/// Everything of the player's state but the selected slot is the same in `a` and `b`.
pub open spec fn same_but_selection(a: PlayerInfo, b: PlayerInfo) -> bool {
    a == PlayerInfo { player_bar_select_index: a.player_bar_select_index, ..b }
}

/// Whether every wheel notch of `scrolls` that moves right finds the selection
/// below the largest index, starting from slot `index`.
pub open spec fn scrolls_fit(index: usize, scrolls: Seq<ScrollDir>) -> bool {
    forall|k: int| 0 <= k < scrolls.len() && scrolls[k] == ScrollDir::Down
        ==> #[trigger] scroll_all(index as int, scrolls.take(k)) < usize::MAX
}

/// Tests, before `change_select`, that no notch moves the selection past the
/// largest index.
pub fn scroll_fits(index: usize, scrolls: &Vec<ScrollDir>) -> (ok: bool)
    ensures
        ok == scrolls_fit(index, scrolls@),
{
    let n = scrolls.len();
    let mut cur: usize = index;
    let mut k: usize = 0;
    while k < n
        invariant
            n == scrolls@.len(),
            k <= n,
            cur as int == scroll_all(index as int, scrolls@.take(k as int)),
            forall|j: int| 0 <= j < k && scrolls@[j] == ScrollDir::Down
                ==> #[trigger] scroll_all(index as int, scrolls@.take(j)) < usize::MAX,
        decreases n - k,
    {
        let d = scrolls[k];
        if d == ScrollDir::Down && cur == usize::MAX {
            return false;
        }
        cur = match d {
            ScrollDir::Down => if cur == 4 { 0 } else { cur + 1 },
            ScrollDir::Up => if cur == 0 { 4 } else { cur - 1 },
            ScrollDir::Still => cur,
        };
        assert(scrolls@.take(k + 1).drop_last() =~= scrolls@.take(k as int));
        k = k + 1;
    }
    true
}

/// `after` is `before` with the selected slot changed by the wheel notches
/// `scrolls` and then by the number key `digit`.
pub open spec fn change_select_done(
    before: PlayerInfo,
    after: PlayerInfo,
    scrolls: Seq<ScrollDir>,
    digit: Option<usize>,
) -> bool {
    &&& same_but_selection(after, before)
    &&& after.player_bar_select_index == match digit {
        Some(d) => d as int,
        None => scroll_all(before.player_bar_select_index as int, scrolls),
    }
    &&& (before.player_bar_select_index < BAR_SIZE ==> after.player_bar_select_index < BAR_SIZE)
}

/// One notch down moves the selection one slot right, from the last slot back
/// to the first; one notch up moves it one slot left, from the first slot to the last.
pub proof fn lemma_one_notch(before: PlayerInfo, after: PlayerInfo, d: ScrollDir)
    requires
        change_select_done(before, after, seq![d], None),
    ensures
        d == ScrollDir::Down && before.player_bar_select_index < 4
            ==> after.player_bar_select_index == before.player_bar_select_index + 1,
        d == ScrollDir::Down && before.player_bar_select_index == 4 ==> after.player_bar_select_index == 0,
        d == ScrollDir::Up && 0 < before.player_bar_select_index
            ==> after.player_bar_select_index == before.player_bar_select_index - 1,
        d == ScrollDir::Up && before.player_bar_select_index == 0 ==> after.player_bar_select_index == 4,
        d == ScrollDir::Still ==> after.player_bar_select_index == before.player_bar_select_index,
        after.is_controlling == before.is_controlling,
        after.player_bar == before.player_bar,
{
    let i = before.player_bar_select_index as int;
    assert(seq![d].drop_last() =~= Seq::<ScrollDir>::empty());
    assert(scroll_all(i, Seq::<ScrollDir>::empty()) == i);
    assert(scroll_all(i, seq![d]) == scroll_step(i, d));
}

/// A notch down followed by a notch up, or up then down, gives back the slot
/// that was selected.
pub proof fn lemma_down_then_up(s0: PlayerInfo, s1: PlayerInfo, s2: PlayerInfo, d1: ScrollDir, d2: ScrollDir)
    requires
        s0.player_bar_select_index < BAR_SIZE,
        change_select_done(s0, s1, seq![d1], None),
        change_select_done(s1, s2, seq![d2], None),
        (d1 == ScrollDir::Down && d2 == ScrollDir::Up) || (d1 == ScrollDir::Up && d2 == ScrollDir::Down),
    ensures
        s2.player_bar_select_index == s0.player_bar_select_index,
{
    lemma_one_notch(s0, s1, d1);
    lemma_one_notch(s1, s2, d2);
}

/// A pressed number key selects its slot, whatever the wheel did.
pub proof fn lemma_digit_selects(before: PlayerInfo, after: PlayerInfo, scrolls: Seq<ScrollDir>, d: usize)
    requires
        change_select_done(before, after, scrolls, Some(d)),
    ensures
        after.player_bar_select_index == d,
{
}

/// The player changes the selected slot with the wheel notches `scrolls`, then
/// with a number key: `digit` is the slot of the first of the keys 1 to 5 pressed.
pub fn change_select(info: &mut PlayerInfo, scrolls: &Vec<ScrollDir>, digit: Option<usize>)
    requires
        scrolls_fit(old(info).player_bar_select_index, scrolls@),
        digit matches Some(d) ==> d < BAR_SIZE,
    ensures
        change_select_done(*old(info), *final(info), scrolls@, digit),
{
    let ghost start = info.player_bar_select_index as int;
    let n = scrolls.len();
    let mut k: usize = 0;
    while k < n
        invariant
            n == scrolls@.len(),
            k <= n,
            same_but_selection(*info, *old(info)),
            start == old(info).player_bar_select_index as int,
            info.player_bar_select_index as int == scroll_all(start, scrolls@.take(k as int)),
            forall|j: int| 0 <= j < scrolls@.len() && scrolls@[j] == ScrollDir::Down
                ==> #[trigger] scroll_all(start, scrolls@.take(j)) < usize::MAX,
        decreases n - k,
    {
        let idx = info.player_bar_select_index;
        let d = scrolls[k];
        assert(scroll_all(start, scrolls@.take(k as int)) == idx);
        let next: usize = match d {
            ScrollDir::Down => if idx == 4 { 0 } else { idx + 1 },
            ScrollDir::Up => if idx == 0 { 4 } else { idx - 1 },
            ScrollDir::Still => idx,
        };
        info.player_bar_select_index = next;
        assert(scrolls@.take(k + 1).drop_last() =~= scrolls@.take(k as int));
        k = k + 1;
    }
    assert(scrolls@.take(n as int) =~= scrolls@);
    proof {
        if start < BAR_SIZE {
            lemma_scroll_stays_in_bar(start, scrolls@);
        }
    }
    match digit {
        Some(d) => {
            info.player_bar_select_index = d;
        },
        None => {},
    }
}

/// Horizontal offset, from the screen's centre, of hot-bar slot `i`, the slot
/// number taken as a signed integer (wrapping as `as` does).
pub fn bar_slot_offset(i: usize) -> (offset: isize)
    requires
        (i as isize) - 2 >= isize::MIN,
        isize::MIN <= SLOT_SPACING * ((i as isize) - 2) <= isize::MAX,
    ensures
        offset == SLOT_SPACING * ((i as isize) - 2),
        offset == 50 * ((i as isize) - 2),
{
    SLOT_SPACING * ((i as isize) - 2)
}

/// Whether a hot-bar slot holds a block.
pub open spec fn slot_holds_block(slot: (Option<GameObjType>, isize)) -> bool {
    slot.0 matches Some(GameObjType::Cube(_))
}

/// The slots that show a block icon: each slot holding a block, in slot order,
/// with the block kind and the item count written under it.
pub fn bar_icons(bar: &[(Option<GameObjType>, isize); 5]) -> (icons: Vec<(usize, Cube, isize)>)
    ensures
        forall|k: int| 0 <= k < icons@.len() ==> {
            &&& #[trigger] icons@[k].0 < BAR_SIZE
            &&& bar@[icons@[k].0 as int] == (Some(GameObjType::Cube(icons@[k].1)), icons@[k].2)
        },
        forall|k1: int, k2: int| 0 <= k1 < k2 < icons@.len() ==> #[trigger] icons@[k1].0 < #[trigger] icons@[k2].0,
        forall|i: int| 0 <= i < BAR_SIZE && slot_holds_block(#[trigger] bar@[i])
            ==> exists|k: int| 0 <= k < icons@.len() && #[trigger] icons@[k].0 == i,
{
    let mut icons: Vec<(usize, Cube, isize)> = Vec::new();
    let mut i: usize = 0;
    while i < BAR_SIZE
        invariant
            i <= BAR_SIZE,
            forall|k: int| 0 <= k < icons@.len() ==> {
                &&& #[trigger] icons@[k].0 < i
                &&& bar@[icons@[k].0 as int] == (Some(GameObjType::Cube(icons@[k].1)), icons@[k].2)
            },
            forall|k1: int, k2: int| 0 <= k1 < k2 < icons@.len() ==> #[trigger] icons@[k1].0 < #[trigger] icons@[k2].0,
            forall|j: int| 0 <= j < i && slot_holds_block(#[trigger] bar@[j])
                ==> exists|k: int| 0 <= k < icons@.len() && #[trigger] icons@[k].0 == j,
        decreases BAR_SIZE - i,
    {
        let ghost before = icons@;
        match bar[i] {
            (Some(GameObjType::Cube(c)), n) => {
                icons.push((i, c, n));
                assert(icons@[before.len() as int].0 == i);
            },
            _ => {},
        }
        assert forall|j: int| 0 <= j < i + 1 && slot_holds_block(#[trigger] bar@[j])
            implies exists|k: int| 0 <= k < icons@.len() && #[trigger] icons@[k].0 == j by {
            if j < i {
                let k = choose|k: int| 0 <= k < before.len() && #[trigger] before[k].0 == j;
                assert(icons@[k] == before[k]);
            } else {
                assert(icons@[before.len() as int].0 == j);
            }
        }
        i = i + 1;
    }
    icons
}

} // verus!
