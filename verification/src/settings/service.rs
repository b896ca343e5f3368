//! The preference rules: the history-limit choices every stored value is
//! snapped to, the key names, and the in-memory values used when no
//! settings backend can be opened.
use vstd::prelude::*;

verus! {

/// The history-limit choices the preferences window offers. Any other value
/// is snapped to the nearest of these, so the rest of the application only
/// ever sees one of four known numbers.
pub const HISTORY_LIMIT_CHOICES: [u32; 4] = [100, 250, 500, 1000];

pub const KEY_HISTORY_LIMIT: &'static str = "history-limit";

pub const KEY_SAVE_IMAGES: &'static str = "save-images";

pub const KEY_RECORDING_PAUSED: &'static str = "recording-paused";

pub const KEY_AUTO_PASTE: &'static str = "auto-paste";

pub open spec fn limit_choices() -> Seq<u32> {
    seq![100u32, 250u32, 500u32, 1000u32]
}

pub open spec fn distance(a: int, b: int) -> int {
    if a >= b {
        a - b
    } else {
        b - a
    }
}

/// The choice closest to `value`; between two equally close choices, the
/// smaller.
pub open spec fn nearest_choice(value: int) -> u32 {
    let c = limit_choices();
    if distance(c[0] as int, value) <= distance(c[1] as int, value) && distance(c[0] as int, value)
        <= distance(c[2] as int, value) && distance(c[0] as int, value) <= distance(
        c[3] as int,
        value,
    ) {
        c[0]
    } else if distance(c[1] as int, value) <= distance(c[2] as int, value) && distance(
        c[1] as int,
        value,
    ) <= distance(c[3] as int, value) {
        c[1]
    } else if distance(c[2] as int, value) <= distance(c[3] as int, value) {
        c[2]
    } else {
        c[3]
    }
}

fn distance_between(a: u32, b: i32) -> (d: i64)
    ensures
        d == distance(a as int, b as int),
{
    let x = a as i64;
    let y = b as i64;
    if x >= y {
        x - y
    } else {
        y - x
    }
}

/// The history limit `value` snaps to.
pub fn nearest_history_limit(value: i32) -> (limit: u32)
    ensures
        limit == nearest_choice(value as int),
{
    let mut best: u32 = HISTORY_LIMIT_CHOICES[0];
    let mut best_distance: i64 = distance_between(HISTORY_LIMIT_CHOICES[0], value);
    let mut i: usize = 1;
    let ghost v = value as int;
    assert(HISTORY_LIMIT_CHOICES@ == limit_choices());
    while i < 4
        invariant
            1 <= i <= 4,
            HISTORY_LIMIT_CHOICES@ == limit_choices(),
            v == value as int,
            best_distance == distance(best as int, v),
            i == 2 ==> best == (if distance(100, v) <= distance(250, v) { 100u32 } else { 250u32 }),
            i == 1 ==> best == 100,
            i == 3 ==> best == (if distance(100, v) <= distance(250, v) && distance(100, v) <= distance(500, v) {
                100u32
            } else if distance(250, v) <= distance(500, v) {
                250u32
            } else {
                500u32
            }),
            i == 4 ==> best == nearest_choice(v),
        decreases 4 - i,
    {
        let choice = HISTORY_LIMIT_CHOICES[i];
        let d = distance_between(choice, value);
        if d < best_distance {
            best = choice;
            best_distance = d;
        }
        i = i + 1;
    }
    best
}

/// The limit stored for a requested value: values beyond `i32` count as
/// the largest `i32`, then the nearest choice is taken.
pub fn snapped_history_limit(value: u32) -> (limit: u32)
    ensures
        limit == nearest_choice(if value <= i32::MAX { value as int } else { i32::MAX as int }),
{
    let clamped: i32 = if value <= i32::MAX as u32 { value as i32 } else { i32::MAX };
    nearest_history_limit(clamped)
}

/// Position of `limit` among the choices, as the preferences' list shows
/// them; `None` for a value that is not a choice.
pub fn history_limit_position(limit: u32) -> (index: Option<usize>)
    ensures
        match index {
            Some(i) => i < 4 && limit_choices()[i as int] == limit,
            None => !limit_choices().contains(limit),
        },
{
    let mut i: usize = 0;
    assert(HISTORY_LIMIT_CHOICES@ == limit_choices());
    while i < 4
        invariant
            i <= 4,
            HISTORY_LIMIT_CHOICES@ == limit_choices(),
            forall|k: int| 0 <= k < i ==> limit_choices()[k] != limit,
        decreases 4 - i,
    {
        if HISTORY_LIMIT_CHOICES[i] == limit {
            return Some(i);
        }
        i = i + 1;
    }
    None
}

/// The choice shown at a row of the preferences' list, if there is one.
pub fn history_limit_at(index: u32) -> (limit: Option<u32>)
    ensures
        limit == if index < 4 {
            Some(limit_choices()[index as int])
        } else {
            None::<u32>
        },
{
    assert(HISTORY_LIMIT_CHOICES@ == limit_choices());
    if index < 4 {
        Some(HISTORY_LIMIT_CHOICES[index as usize])
    } else {
        None
    }
}

/// The preferences as they are kept in memory when no settings backend
/// could be opened: usable, but not persisted.
#[derive(Clone, Copy, Debug, Eq, PartialEq, Structural)]
pub struct Defaults {
    history_limit: u32,
    save_images: bool,
    recording_paused: bool,
    auto_paste: bool,
}

/// The mathematical value of [`Defaults`].
pub struct DefaultsView {
    pub history_limit: u32,
    pub save_images: bool,
    pub recording_paused: bool,
    pub auto_paste: bool,
}

impl View for Defaults {
    type V = DefaultsView;

    closed spec fn view(&self) -> DefaultsView {
        DefaultsView {
            history_limit: self.history_limit,
            save_images: self.save_images,
            recording_paused: self.recording_paused,
            auto_paste: self.auto_paste,
        }
    }
}

impl Default for Defaults {
    /// The schema's defaults: a limit of 500, images saved, recording on,
    /// auto-paste off.
    fn default() -> (defaults: Self)
        ensures
            defaults@ == (DefaultsView {
                history_limit: 500,
                save_images: true,
                recording_paused: false,
                auto_paste: false,
            }),
    {
        Self { history_limit: 500, save_images: true, recording_paused: false, auto_paste: false }
    }
}

impl Defaults {
    pub fn history_limit(&self) -> (limit: u32)
        ensures
            limit == self@.history_limit,
    {
        self.history_limit
    }

    /// Stores the snapped value, so an out-of-band value never reaches the
    /// running application.
    pub fn set_history_limit(&mut self, value: u32)
        ensures
            final(self)@ == (DefaultsView {
                history_limit: nearest_choice(
                    if value <= i32::MAX { value as int } else { i32::MAX as int },
                ),
                ..old(self)@
            }),
    {
        self.history_limit = snapped_history_limit(value);
    }

    pub fn save_images(&self) -> (value: bool)
        ensures
            value == self@.save_images,
    {
        self.save_images
    }

    pub fn set_save_images(&mut self, value: bool)
        ensures
            final(self)@ == (DefaultsView { save_images: value, ..old(self)@ }),
    {
        self.save_images = value;
    }

    pub fn recording_paused(&self) -> (value: bool)
        ensures
            value == self@.recording_paused,
    {
        self.recording_paused
    }

    pub fn set_recording_paused(&mut self, value: bool)
        ensures
            final(self)@ == (DefaultsView { recording_paused: value, ..old(self)@ }),
    {
        self.recording_paused = value;
    }

    pub fn auto_paste(&self) -> (value: bool)
        ensures
            value == self@.auto_paste,
    {
        self.auto_paste
    }

    pub fn set_auto_paste(&mut self, value: bool)
        ensures
            final(self)@ == (DefaultsView { auto_paste: value, ..old(self)@ }),
    {
        self.auto_paste = value;
    }
}

/// Snapping always gives one of the choices, the nearest one, and a choice
/// snaps to itself.
pub proof fn law_snapping_picks_the_nearest_choice(value: int)
    ensures
        limit_choices().contains(nearest_choice(value)),
        forall|k: int|
            0 <= k < 4 ==> distance(nearest_choice(value) as int, value) <= distance(
                #[trigger] limit_choices()[k] as int,
                value,
            ),
        forall|k: int| 0 <= k < 4 ==> nearest_choice(#[trigger] limit_choices()[k] as int) == limit_choices()[k],
{
    let c = limit_choices();
    assert(c[0] == 100 && c[1] == 250 && c[2] == 500 && c[3] == 1000);
    if nearest_choice(value) == c[0] {
        assert(c.contains(c[0]));
    } else if nearest_choice(value) == c[1] {
        assert(c.contains(c[1]));
    } else if nearest_choice(value) == c[2] {
        assert(c.contains(c[2]));
    } else {
        assert(c.contains(c[3]));
    }
}

} // verus!
