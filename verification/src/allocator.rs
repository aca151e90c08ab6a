//! Choosing a colour for a worktree that no other worktree is using.
use vstd::prelude::*;
use vstd::hash_set::StringHashSet;
use crate::color::{
    lemma_fallback_normalized, lemma_index_order_permutation, color_new_spec, default_palette, default_palette_hex, deterministic_fallback_color,
    deterministic_index_order, fallback_hex_spec, hexes, index_order_spec,
    is_permutation_of_range, Color,
};
use crate::hex::{is_normalized_hex, normalize_hex, normalize_hex_spec};
use crate::state::opt_view;

verus! {

/// The number of fallback colours tried once the palette is used up.
pub const FALLBACK_ATTEMPTS: u32 = 1024;

/// Why no colour could be chosen.
#[derive(Debug)]
pub enum AllocError {
    /// The colour already recorded for the worktree is not a `#rrggbb` colour.
    InvalidHex(String),
    /// Every palette colour is in use and fallback colours are not allowed.
    PaletteExhausted,
    /// Every palette colour and every fallback colour is in use.
    FallbackExhausted,
}

/// `AllocError` with its text taken by value.
pub enum AllocFailure {
    InvalidHex(Seq<char>),
    PaletteExhausted,
    FallbackExhausted,
}

impl View for AllocError {
    type V = AllocFailure;

    open spec fn view(&self) -> AllocFailure {
        match self {
            AllocError::InvalidHex(s) => AllocFailure::InvalidHex(s@),
            AllocError::PaletteExhausted => AllocFailure::PaletteExhausted,
            AllocError::FallbackExhausted => AllocFailure::FallbackExhausted,
        }
    }
}

/// The first colour `palette[order[k]]`, from position `k` of `order` on, that
/// is not in `active`.
pub open spec fn first_free_palette(
    palette: Seq<Seq<char>>,
    order: Seq<usize>,
    active: Set<Seq<char>>,
    k: nat,
) -> Option<Seq<char>>
    decreases order.len() - k,
{
    if k >= order.len() {
        None
    } else if !active.contains(palette[order[k as int] as int]) {
        Some(palette[order[k as int] as int])
    } else {
        first_free_palette(palette, order, active, k + 1)
    }
}

/// The first fallback colour of `seed`, from number `attempt` up to
/// `FALLBACK_ATTEMPTS`, that is not in `active`.
pub open spec fn first_free_fallback(seed: Seq<char>, active: Set<Seq<char>>, attempt: nat) -> Option<Seq<char>>
    decreases FALLBACK_ATTEMPTS - attempt,
{
    if attempt >= FALLBACK_ATTEMPTS {
        None
    } else if !active.contains(fallback_hex_spec(seed, attempt as u32)) {
        Some(fallback_hex_spec(seed, attempt as u32))
    } else {
        first_free_fallback(seed, active, attempt + 1)
    }
}

/// The first free palette colour in `order`; else, unless the palette is
/// strict, the first free fallback colour of `seed`.
pub open spec fn choose_in_order(
    palette: Seq<Seq<char>>,
    order: Seq<usize>,
    strict: bool,
    seed: Seq<char>,
    active: Set<Seq<char>>,
) -> Result<Seq<char>, AllocFailure> {
    match first_free_palette(palette, order, active, 0) {
        Some(c) => Ok(c),
        None => if strict {
            Err(AllocFailure::PaletteExhausted)
        } else {
            match first_free_fallback(seed, active, 0) {
                Some(c) => Ok(c),
                None => Err(AllocFailure::FallbackExhausted),
            }
        },
    }
}

/// The choice once no recorded colour can be kept: the first free palette
/// colour in the seed's order; else, unless the palette is strict, the first
/// free fallback colour.
pub open spec fn choose_fresh(
    palette: Seq<Seq<char>>,
    strict: bool,
    seed: Seq<char>,
    active: Set<Seq<char>>,
) -> Result<Seq<char>, AllocFailure> {
    choose_in_order(palette, index_order_spec(seed, palette.len()), strict, seed, active)
}

/// The first position, from `k` on, at which `order` leads to the colour `c`;
/// `-1` when there is none.
pub open spec fn first_position(palette: Seq<Seq<char>>, order: Seq<usize>, c: Seq<char>, k: nat) -> int
    decreases order.len() - k,
{
    if k >= order.len() {
        -1
    } else if palette[order[k as int] as int] == c {
        k as int
    } else {
        first_position(palette, order, c, k + 1)
    }
}

/// `order` turned so that it starts just after the position of `current`
/// (unchanged when there is no current colour or it is not in the palette).
pub open spec fn cycle_order(palette: Seq<Seq<char>>, order: Seq<usize>, current: Option<Seq<char>>) -> Seq<usize> {
    let start = match current {
        Some(c) => first_position(palette, order, c, 0) + 1,
        None => 0,
    };
    order.subrange(start, order.len() as int) + order.subrange(0, start)
}

/// The colour a worktree moves to when its colour is cycled: the next free
/// palette colour after `current` in the seed's order, wrapping around; else,
/// unless the palette is strict, the first free fallback colour.
pub open spec fn cycle_spec(
    palette: Seq<Seq<char>>,
    strict: bool,
    seed: Seq<char>,
    current: Option<Seq<char>>,
    active: Set<Seq<char>>,
) -> Result<Seq<char>, AllocFailure> {
    choose_in_order(palette, cycle_order(palette, index_order_spec(seed, palette.len()), current), strict, seed, active)
}

/// The colour chosen for a worktree with seed `seed`: the colour already
/// recorded for it, normalised, when no active worktree uses it; otherwise
/// `choose_fresh`. A recorded colour that is not a colour is an error.
pub open spec fn allocate_spec(
    palette: Seq<Seq<char>>,
    strict: bool,
    seed: Seq<char>,
    existing: Option<Seq<char>>,
    active: Set<Seq<char>>,
) -> Result<Seq<char>, AllocFailure> {
    match existing {
        None => choose_fresh(palette, strict, seed, active),
        Some(e) => match normalize_hex_spec(e) {
            None => Err(AllocFailure::InvalidHex(e)),
            Some(n) => if !active.contains(n) {
                Ok(n)
            } else {
                choose_fresh(palette, strict, seed, active)
            },
        },
    }
}

/// The palette an allocator is made with: the default palette when none is
/// given, else each given text made into a colour.
pub open spec fn allocator_palette_spec(palette_hex: Seq<String>) -> Seq<Seq<char>> {
    if palette_hex.len() == 0 {
        default_palette_hex()
    } else {
        palette_hex.map_values(|s: String| color_new_spec(s@))
    }
}

/// Picks colours from a palette, falling back to generated colours.
#[derive(Debug, Clone)]
pub struct ColorAllocator {
    palette: Vec<Color>,
    strict_palette: bool,
}

proof fn lemma_first_free_palette_avoids(
    palette: Seq<Seq<char>>,
    order: Seq<usize>,
    active: Set<Seq<char>>,
    k: nat,
)
    ensures
        first_free_palette(palette, order, active, k) matches Some(c) ==> !active.contains(c),
    decreases order.len() - k,
{
    if k < order.len() {
        lemma_first_free_palette_avoids(palette, order, active, k + 1);
    }
}

proof fn lemma_first_free_fallback_avoids(seed: Seq<char>, active: Set<Seq<char>>, attempt: nat)
    ensures
        first_free_fallback(seed, active, attempt) matches Some(c) ==> !active.contains(c),
    decreases FALLBACK_ATTEMPTS - attempt,
{
    if attempt < FALLBACK_ATTEMPTS {
        lemma_first_free_fallback_avoids(seed, active, attempt + 1);
    }
}

proof fn lemma_choose_in_order_avoids(
    palette: Seq<Seq<char>>,
    order: Seq<usize>,
    strict: bool,
    seed: Seq<char>,
    active: Set<Seq<char>>,
)
    ensures
        choose_in_order(palette, order, strict, seed, active) matches Ok(c) ==> !active.contains(c),
{
    lemma_first_free_palette_avoids(palette, order, active, 0);
    lemma_first_free_fallback_avoids(seed, active, 0);
}

/// A colour that is handed out is never one that an active worktree uses.
pub proof fn law_allocation_avoids_active(
    palette: Seq<Seq<char>>,
    strict: bool,
    seed: Seq<char>,
    existing: Option<Seq<char>>,
    active: Set<Seq<char>>,
)
    ensures
        allocate_spec(palette, strict, seed, existing, active) matches Ok(c) ==> !active.contains(c),
{
    lemma_choose_in_order_avoids(palette, index_order_spec(seed, palette.len()), strict, seed, active);
}

proof fn lemma_first_free_palette_none(palette: Seq<Seq<char>>, order: Seq<usize>, active: Set<Seq<char>>, k: nat)
    requires
        forall|j: int| 0 <= j < order.len() ==> #[trigger] order[j] < palette.len(),
        forall|i: int| 0 <= i < palette.len() ==> active.contains(#[trigger] palette[i]),
    ensures
        first_free_palette(palette, order, active, k) is None,
    decreases order.len() - k,
{
    if k < order.len() {
        assert(order[k as int] < palette.len());
        assert(active.contains(palette[order[k as int] as int]));
        lemma_first_free_palette_none(palette, order, active, k + 1);
    }
}

proof fn lemma_first_free_fallback_none(seed: Seq<char>, active: Set<Seq<char>>, attempt: nat)
    requires
        forall|a: u32| a < FALLBACK_ATTEMPTS ==> active.contains(#[trigger] fallback_hex_spec(seed, a)),
    ensures
        first_free_fallback(seed, active, attempt) is None,
    decreases FALLBACK_ATTEMPTS - attempt,
{
    if attempt < FALLBACK_ATTEMPTS {
        assert(active.contains(fallback_hex_spec(seed, attempt as u32)));
        lemma_first_free_fallback_none(seed, active, attempt + 1);
    }
}

proof fn lemma_first_position_range(palette: Seq<Seq<char>>, order: Seq<usize>, c: Seq<char>, k: nat)
    ensures
        -1 <= first_position(palette, order, c, k) < order.len(),
    decreases order.len() - k,
{
    if k < order.len() {
        lemma_first_position_range(palette, order, c, k + 1);
    }
}

proof fn lemma_cycle_order_in_range(palette: Seq<Seq<char>>, order: Seq<usize>, current: Option<Seq<char>>)
    requires
        forall|j: int| 0 <= j < order.len() ==> #[trigger] order[j] < palette.len(),
    ensures
        forall|j: int| 0 <= j < cycle_order(palette, order, current).len() ==> #[trigger] cycle_order(
            palette,
            order,
            current,
        )[j] < palette.len(),
{
    if let Some(c) = current {
        lemma_first_position_range(palette, order, c, 0);
    }
    let start = match current {
        Some(c) => first_position(palette, order, c, 0) + 1,
        None => 0,
    };
    let r = cycle_order(palette, order, current);
    assert forall|j: int| 0 <= j < r.len() implies #[trigger] r[j] < palette.len() by {
        if j < order.len() - start {
            assert(r[j] == order[start + j]);
        } else {
            assert(r[j] == order[j - (order.len() - start)]);
        }
    }
}

/// Cycling fails when every palette colour is in `active` (the current
/// colour among them): with a strict palette as exhausted, and otherwise when
/// every fallback colour is in `active` too.
pub proof fn law_cycle_fails_when_nothing_free(
    palette: Seq<Seq<char>>,
    strict: bool,
    seed: Seq<char>,
    current: Option<Seq<char>>,
    active: Set<Seq<char>>,
)
    requires
        palette.len() <= usize::MAX,
        forall|i: int| 0 <= i < palette.len() ==> active.contains(#[trigger] palette[i]),
    ensures
        strict ==> cycle_spec(palette, strict, seed, current, active) == Err::<Seq<char>, AllocFailure>(
            AllocFailure::PaletteExhausted,
        ),
        (!strict && forall|a: u32| a < FALLBACK_ATTEMPTS ==> active.contains(#[trigger] fallback_hex_spec(seed, a)))
            ==> cycle_spec(palette, strict, seed, current, active) == Err::<Seq<char>, AllocFailure>(
            AllocFailure::FallbackExhausted,
        ),
{
    let order = index_order_spec(seed, palette.len());
    lemma_index_order_permutation(seed, palette.len());
    lemma_cycle_order_in_range(palette, order, current);
    lemma_first_free_palette_none(palette, cycle_order(palette, order, current), active, 0);
    if !strict && forall|a: u32| a < FALLBACK_ATTEMPTS ==> active.contains(#[trigger] fallback_hex_spec(seed, a)) {
        lemma_first_free_fallback_none(seed, active, 0);
    }
}

/// Cycling never lands on a colour in `active`; in particular, when the
/// current colour is among them, never on the current colour.
pub proof fn law_cycle_avoids_active(
    palette: Seq<Seq<char>>,
    strict: bool,
    seed: Seq<char>,
    current: Option<Seq<char>>,
    active: Set<Seq<char>>,
)
    ensures
        cycle_spec(palette, strict, seed, current, active) matches Ok(c) ==> !active.contains(c),
        (current matches Some(x) && active.contains(x)) ==> (cycle_spec(palette, strict, seed, current, active) matches Ok(c) ==> c != current->0),
{
    lemma_choose_in_order_avoids(
        palette,
        cycle_order(palette, index_order_spec(seed, palette.len()), current),
        strict,
        seed,
        active,
    );
}

/// A worktree with no recorded colour gets the colour it would get if its
/// recorded colour were busy: the seeded choice does not depend on whether a
/// colour was recorded, only on whether that colour can be kept.
pub proof fn law_fresh_choice_ignores_busy_recorded(
    palette: Seq<Seq<char>>,
    strict: bool,
    seed: Seq<char>,
    recorded: Seq<char>,
    active: Set<Seq<char>>,
)
    requires
        normalize_hex_spec(recorded) matches Some(n) && active.contains(n),
    ensures
        allocate_spec(palette, strict, seed, None, active) == allocate_spec(palette, strict, seed, Some(recorded), active),
{
}

/// With nothing in use, a worktree without a recorded colour gets the palette
/// colour at the first position of its seeded order
/// (`deterministic_index_order` of the seed): worktrees with different seeds
/// start at their own colours, not at the head of the palette.
pub proof fn law_fresh_choice_follows_seeded_order(palette: Seq<Seq<char>>, strict: bool, seed: Seq<char>)
    requires
        0 < palette.len() <= usize::MAX,
    ensures
        allocate_spec(palette, strict, seed, None, Set::empty()) == Ok::<Seq<char>, AllocFailure>(
            palette[index_order_spec(seed, palette.len())[0] as int],
        ),
{
    lemma_index_order_permutation(seed, palette.len());
}

/// A worktree keeps the colour recorded for it as long as no active worktree
/// uses that colour.
pub proof fn law_free_recorded_colour_is_kept(
    palette: Seq<Seq<char>>,
    strict: bool,
    seed: Seq<char>,
    recorded: Seq<char>,
    active: Set<Seq<char>>,
)
    requires
        normalize_hex_spec(recorded) is Some,
        !active.contains(normalize_hex_spec(recorded)->0),
    ensures
        allocate_spec(palette, strict, seed, Some(recorded), active) == Ok::<Seq<char>, AllocFailure>(
            normalize_hex_spec(recorded)->0,
        ),
{
}

proof fn lemma_first_free_palette_member(
    palette: Seq<Seq<char>>,
    order: Seq<usize>,
    active: Set<Seq<char>>,
    k: nat,
)
    ensures
        first_free_palette(palette, order, active, k) matches Some(c) ==> exists|i: int|
            k <= i < order.len() && c == palette[order[i] as int],
    decreases order.len() - k,
{
    if k < order.len() {
        lemma_first_free_palette_member(palette, order, active, k + 1);
        if !active.contains(palette[order[k as int] as int]) {
            assert(k <= k < order.len());
        }
    }
}

proof fn lemma_first_free_fallback_normalized(seed: Seq<char>, active: Set<Seq<char>>, attempt: nat)
    ensures
        first_free_fallback(seed, active, attempt) matches Some(c) ==> is_normalized_hex(c),
    decreases FALLBACK_ATTEMPTS - attempt,
{
    if attempt < FALLBACK_ATTEMPTS {
        lemma_fallback_normalized(seed, attempt as u32);
        lemma_first_free_fallback_normalized(seed, active, attempt + 1);
    }
}

/// When every palette colour is in normal form, so is every colour handed out.
pub proof fn law_allocation_is_normal_form(
    palette: Seq<Seq<char>>,
    strict: bool,
    seed: Seq<char>,
    existing: Option<Seq<char>>,
    active: Set<Seq<char>>,
)
    requires
        palette.len() <= usize::MAX,
        forall|i: int| 0 <= i < palette.len() ==> is_normalized_hex(#[trigger] palette[i]),
    ensures
        allocate_spec(palette, strict, seed, existing, active) matches Ok(c) ==> is_normalized_hex(c),
{
    if palette.len() > 0 {
        let order = index_order_spec(seed, palette.len());
        lemma_index_order_permutation(seed, palette.len());
        lemma_first_free_palette_member(palette, order, active, 0);
        if let Some(c) = first_free_palette(palette, order, active, 0) {
            let i = choose|i: int| 0 <= i < order.len() && c == palette[order[i] as int];
            assert(order[i] < palette.len());
        }
    }
    lemma_first_free_fallback_normalized(seed, active, 0);
    if let Some(e) = existing {
        if let Some(n) = normalize_hex_spec(e) {
            crate::hex::lemma_normalize_hex_spec_normalized(e);
        }
    }
}

impl ColorAllocator {
    /// The texts of the palette colours, in palette order.
    pub closed spec fn palette_spec(&self) -> Seq<Seq<char>> {
        hexes(self.palette@)
    }

    /// Whether fallback colours are refused.
    pub closed spec fn strict_spec(&self) -> bool {
        self.strict_palette
    }

    /// An allocator over `palette_hex` made into colours, or over the default
    /// palette when `palette_hex` is empty.
    pub fn new(palette_hex: Vec<String>, strict_palette: bool) -> (a: ColorAllocator)
        ensures
            a.palette_spec() == allocator_palette_spec(palette_hex@),
            a.strict_spec() == strict_palette,
    {
        let palette = if palette_hex.len() == 0 {
            default_palette()
        } else {
            let mut colors: Vec<Color> = Vec::new();
            for i in 0..palette_hex.len()
                invariant
                    colors@.len() == i,
                    forall|j: int| 0 <= j < i ==> #[trigger] colors@[j].hex@ == color_new_spec(palette_hex@[j]@),
            {
                colors.push(Color::new(palette_hex[i].as_str()));
            }
            assert(hexes(colors@) =~= palette_hex@.map_values(|s: String| color_new_spec(s@)));
            colors
        };
        ColorAllocator { palette, strict_palette }
    }

    /// The first palette colour, taken in `order`, that is not in `active`.
    fn pick_in_order(&self, order: &Vec<usize>, active_in_use: &StringHashSet) -> (r: Option<String>)
        requires
            forall|k: int| 0 <= k < order@.len() ==> #[trigger] order@[k] < self.palette@.len(),
        ensures
            opt_view(r) == first_free_palette(self.palette_spec(), order@, active_in_use@, 0),
    {
        let ghost pal = self.palette_spec();
        let ghost active = active_in_use@;
        let mut k: usize = 0;
        while k < order.len()
            invariant
                pal == self.palette_spec(),
                active == active_in_use@,
                k <= order@.len(),
                forall|j: int| 0 <= j < order@.len() ==> #[trigger] order@[j] < self.palette@.len(),
                first_free_palette(pal, order@, active, 0) == first_free_palette(pal, order@, active, k as nat),
            decreases order.len() - k,
        {
            let idx = order[k];
            let candidate = self.palette[idx].hex.clone();
            assert(candidate@ == pal[order@[k as int] as int]);
            if !active_in_use.contains(candidate.as_str()) {
                assert(first_free_palette(pal, order@, active, k as nat) == Some(candidate@));
                return Some(candidate);
            }
            k += 1;
        }
        None
    }

    /// The first fallback colour of `seed` that is not in `active`.
    fn pick_fallback(seed: &str, active_in_use: &StringHashSet) -> (r: Option<String>)
        ensures
            opt_view(r) == first_free_fallback(seed@, active_in_use@, 0),
    {
        let ghost active = active_in_use@;
        let mut attempt: u32 = 0;
        while attempt < FALLBACK_ATTEMPTS
            invariant
                active == active_in_use@,
                attempt <= FALLBACK_ATTEMPTS,
                first_free_fallback(seed@, active, 0) == first_free_fallback(seed@, active, attempt as nat),
            decreases FALLBACK_ATTEMPTS - attempt,
        {
            let candidate = deterministic_fallback_color(seed, attempt).hex;
            if !active_in_use.contains(candidate.as_str()) {
                assert(first_free_fallback(seed@, active, attempt as nat) == Some(candidate@));
                return Some(candidate);
            }
            attempt += 1;
        }
        None
    }

    /// The first free palette colour in `order`, else a fallback colour.
    fn choose_in_order_exec(&self, order: &Vec<usize>, seed: &str, active_in_use: &StringHashSet) -> (r: Result<
        String,
        AllocError,
    >)
        requires
            forall|k: int| 0 <= k < order@.len() ==> #[trigger] order@[k] < self.palette@.len(),
        ensures
            match r {
                Ok(c) => choose_in_order(self.palette_spec(), order@, self.strict_spec(), seed@, active_in_use@)
                    == Ok::<Seq<char>, AllocFailure>(c@),
                Err(e) => choose_in_order(self.palette_spec(), order@, self.strict_spec(), seed@, active_in_use@)
                    == Err::<Seq<char>, AllocFailure>(e@),
            },
    {
        match self.pick_in_order(order, active_in_use) {
            Some(c) => Ok(c),
            None => if self.strict_palette {
                Err(AllocError::PaletteExhausted)
            } else {
                match Self::pick_fallback(seed, active_in_use) {
                    Some(c) => Ok(c),
                    None => Err(AllocError::FallbackExhausted),
                }
            },
        }
    }

    fn choose_fresh_exec(&self, seed: &str, active_in_use: &StringHashSet) -> (r: Result<String, AllocError>)
        ensures
            match r {
                Ok(c) => choose_fresh(self.palette_spec(), self.strict_spec(), seed@, active_in_use@)
                    == Ok::<Seq<char>, AllocFailure>(c@),
                Err(e) => choose_fresh(self.palette_spec(), self.strict_spec(), seed@, active_in_use@)
                    == Err::<Seq<char>, AllocFailure>(e@),
            },
    {
        let order = deterministic_index_order(seed, self.palette.len());
        assert(self.palette_spec().len() == self.palette@.len());
        self.choose_in_order_exec(&order, seed, active_in_use)
    }

    /// Moves a worktree with seed `seed` off its `current` colour: the next
    /// palette colour after it in the seed's order, wrapping around, that is
    /// not in `active_in_use`; otherwise, unless the palette is strict, the
    /// first free fallback colour. `active_in_use` is expected to hold the
    /// current colour, so that it is skipped.
    pub fn cycle(&self, seed: &str, current: Option<&str>, active_in_use: &StringHashSet) -> (r: Result<
        String,
        AllocError,
    >)
        ensures
            match r {
                Ok(c) => cycle_spec(
                    self.palette_spec(),
                    self.strict_spec(),
                    seed@,
                    match current { Some(e) => Some(e@), None => None },
                    active_in_use@,
                ) == Ok::<Seq<char>, AllocFailure>(c@),
                Err(e) => cycle_spec(
                    self.palette_spec(),
                    self.strict_spec(),
                    seed@,
                    match current { Some(e) => Some(e@), None => None },
                    active_in_use@,
                ) == Err::<Seq<char>, AllocFailure>(e@),
            },
            r matches Ok(c) ==> !active_in_use@.contains(c@),
    {
        let ghost pal = self.palette_spec();
        let ghost cur = match current { Some(e) => Some(e@), None => None::<Seq<char>> };
        let n = self.palette.len();
        let order = deterministic_index_order(seed, n);
        assert(pal.len() == n);
        let mut start: usize = 0;
        match current {
            Some(cur_str) => {
                let c = String::from_str(cur_str);
                let mut k: usize = 0;
                let mut found = false;
                while k < n
                    invariant_except_break
                        !found,
                        k <= n == order@.len() == pal.len(),
                        pal == self.palette_spec(),
                        first_position(pal, order@, c@, 0) == first_position(pal, order@, c@, k as nat),
                        is_permutation_of_range(order@, n as nat),
                    ensures
                        found ==> k < n && first_position(pal, order@, c@, 0) == k,
                        !found ==> first_position(pal, order@, c@, 0) == -1,
                    decreases n - k,
                {
                    let idx = order[k];
                    assert(self.palette@[idx as int].hex@ == pal[order@[k as int] as int]);
                    if self.palette[idx].hex == c {
                        found = true;
                        break;
                    }
                    k += 1;
                }
                if found {
                    start = k + 1;
                }
            },
            None => {},
        }
        assert(start as int == match cur { Some(x) => first_position(pal, order@, x, 0) + 1, None => 0int });
        let mut rotated: Vec<usize> = Vec::new();
        let mut i: usize = start;
        while i < n
            invariant
                start <= n == order@.len(),
                start <= i <= n,
                rotated@ == order@.subrange(start as int, i as int),
            decreases n - i,
        {
            rotated.push(order[i]);
            i += 1;
            assert(rotated@ =~= order@.subrange(start as int, i as int));
        }
        let mut j: usize = 0;
        while j < start
            invariant
                start <= n == order@.len(),
                j <= start,
                rotated@ == order@.subrange(start as int, n as int) + order@.subrange(0, j as int),
            decreases start - j,
        {
            rotated.push(order[j]);
            j += 1;
            assert(rotated@ =~= order@.subrange(start as int, n as int) + order@.subrange(0, j as int));
        }
        assert(rotated@ == cycle_order(pal, order@, cur));
        assert forall|k: int| 0 <= k < rotated@.len() implies #[trigger] rotated@[k] < self.palette@.len() by {
            if k < n - start {
                assert(rotated@[k] == order@[start + k]);
            } else {
                assert(rotated@[k] == order@[k - (n - start)]);
            }
        }
        proof {
            law_cycle_avoids_active(pal, self.strict_spec(), seed@, cur, active_in_use@);
        }
        self.choose_in_order_exec(&rotated, seed, active_in_use)
    }

    /// Chooses the colour for the worktree with seed `seed`: the colour
    /// recorded for it (`existing`), normalised, when no active worktree uses
    /// it; otherwise the first free palette colour in the seed's order;
    /// otherwise, unless the palette is strict, the first free fallback
    /// colour among `FALLBACK_ATTEMPTS`.
    pub fn allocate(&self, seed: &str, existing: Option<&str>, active_in_use: &StringHashSet) -> (r: Result<
        String,
        AllocError,
    >)
        ensures
            match r {
                Ok(c) => allocate_spec(
                    self.palette_spec(),
                    self.strict_spec(),
                    seed@,
                    match existing { Some(e) => Some(e@), None => None },
                    active_in_use@,
                ) == Ok::<Seq<char>, AllocFailure>(c@),
                Err(e) => allocate_spec(
                    self.palette_spec(),
                    self.strict_spec(),
                    seed@,
                    match existing { Some(e) => Some(e@), None => None },
                    active_in_use@,
                ) == Err::<Seq<char>, AllocFailure>(e@),
            },
            r matches Ok(c) ==> !active_in_use@.contains(c@),
    {
        let ghost ex = match existing { Some(e) => Some(e@), None => None::<Seq<char>> };
        proof {
            law_allocation_avoids_active(self.palette_spec(), self.strict_spec(), seed@, ex, active_in_use@);
        }
        match existing {
            None => self.choose_fresh_exec(seed, active_in_use),
            Some(e) => match normalize_hex(e) {
                Err(err) => Err(AllocError::InvalidHex(err.input)),
                Ok(n) => if !active_in_use.contains(n.as_str()) {
                    Ok(n)
                } else {
                    self.choose_fresh_exec(seed, active_in_use)
                },
            },
        }
    }
}

} // verus!
