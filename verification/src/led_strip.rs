//! The lamp's state: which pattern is selected, how far its animation has
//! run, and the frame on the strip; and the decision the firmware's main loop
//! makes on each frame tick and each button action.
use vstd::prelude::*;

use crate::buttons::ButtonAction;
use crate::led_strip_patterns::{
    black,
    catalogue_kind,
    is_catalogue_pattern,
    is_static,
    led_strip_pattern,
    lemma_rainbow_changes_every_frame,
    next_frame_number,
    pattern_frame,
    LedStripPattern,
    PatternKind,
    Rgb8,
    DEFAULT_PATTERN_INDEX,
    DEVMINDS_LAMP_LED_NUM,
    LED_STRIP_PATTERN_COUNT,
};

verus! {


/// The catalogue index after `index`, wrapping from the last to the first.
pub open spec fn next_pattern_index(index: int) -> int {
    (index + 1) % (LED_STRIP_PATTERN_COUNT as int)
}

/// The catalogue index before `index`, wrapping from the first to the last.
pub open spec fn previous_pattern_index(index: int) -> int {
    if index == 0 {
        LED_STRIP_PATTERN_COUNT - 1
    } else {
        index - 1
    }
}

/// The catalogue index that a button action selects from `index`.
pub open spec fn action_target(action: ButtonAction, index: int) -> int {
    match action {
        ButtonAction::PreviousPattern => previous_pattern_index(index),
        ButtonAction::ResetToDefaultPattern => DEFAULT_PATTERN_INDEX as int,
        ButtonAction::NextPattern => next_pattern_index(index),
    }
}

/// A frame with every LED off.
pub open spec fn dark_frame() -> Seq<Rgb8> {
    Seq::new(DEVMINDS_LAMP_LED_NUM as nat, |i: int| black())
}

/// A frame buffer with every LED off.
fn dark_colors() -> (colors: [Rgb8; DEVMINDS_LAMP_LED_NUM])
    ensures
        colors@ == dark_frame(),
{
    // Each LED is set in turn, so that the buffer is known to be dark LED by LED.
    let dark = Rgb8::default();
    let mut colors = [dark; 31];
    let mut i: usize = 0;
    while i < DEVMINDS_LAMP_LED_NUM
        invariant
            i <= DEVMINDS_LAMP_LED_NUM,
            dark == black(),
            forall|k: int| 0 <= k < i ==> #[trigger] colors@[k] == black(),
        decreases DEVMINDS_LAMP_LED_NUM - i,
    {
        colors[i] = dark;
        i += 1;
    }
    assert(colors@ =~= dark_frame());
    colors
}

/// Whether two frames are the same, LED by LED.
fn frames_equal(a: &[Rgb8; DEVMINDS_LAMP_LED_NUM], b: &[Rgb8; DEVMINDS_LAMP_LED_NUM]) -> (equal:
    bool)
    ensures
        equal == (a@ == b@),
{
    let mut i: usize = 0;
    while i < DEVMINDS_LAMP_LED_NUM
        invariant
            i <= DEVMINDS_LAMP_LED_NUM,
            forall|k: int| 0 <= k < i ==> a@[k] == b@[k],
        decreases DEVMINDS_LAMP_LED_NUM - i,
    {
        if a[i] != b[i] {
            assert(a@[i as int] != b@[i as int]);
            return false;
        }
        i += 1;
    }
    assert(a@ =~= b@);
    true
}

/// Owns the current LED frame and active animation pattern.
pub struct LedStripPatternGenerator {
    colors: [Rgb8; DEVMINDS_LAMP_LED_NUM],
    current_pattern: usize,
    pattern_frame: u32,
}

impl LedStripPatternGenerator {
    #[verifier::type_invariant]
    spec fn selection_in_catalogue(self) -> bool {
        self.current_pattern < LED_STRIP_PATTERN_COUNT
    }

    /// The catalogue index of the selected pattern.
    pub closed spec fn pattern_index(self) -> int {
        self.current_pattern as int
    }

    /// The frame number that the next render draws.
    pub closed spec fn frame_number(self) -> u32 {
        self.pattern_frame
    }

    /// The frame held for the strip.
    pub closed spec fn frame(self) -> Seq<Rgb8> {
        self.colors@
    }

    /// The kind of the selected pattern.
    pub open spec fn kind(self) -> PatternKind {
        catalogue_kind(self.pattern_index())
    }

    /// `self` is what rendering one frame makes of `before`: the selected
    /// pattern's frame for `before`'s frame number, with the counter advanced.
    pub open spec fn rendered_from(self, before: Self) -> bool {
        &&& self.pattern_index() == before.pattern_index()
        &&& self.frame() == pattern_frame(before.kind(), before.frame_number())
        &&& self.frame_number() == next_frame_number(before.frame_number())
    }

    /// `self` is `before` with the pattern at `index` selected: its animation
    /// starts again from frame 0, and the strip keeps its frame.
    pub open spec fn switched_from(self, before: Self, index: int) -> bool {
        &&& self.pattern_index() == index
        &&& self.frame_number() == 0
        &&& self.frame() == before.frame()
    }

    /// Creates a controller initialized to the default pattern, with all LEDs off.
    pub fn new() -> (lamp: Self)
        ensures
            lamp.pattern_index() == DEFAULT_PATTERN_INDEX,
            lamp.frame_number() == 0,
            lamp.frame() == dark_frame(),
    {
        let mut lamp = Self {
            colors: dark_colors(),
            current_pattern: DEFAULT_PATTERN_INDEX,
            pattern_frame: 0,
        };
        lamp.activate_pattern(DEFAULT_PATTERN_INDEX);
        lamp
    }

    /// Selects the next pattern in the list and returns it.
    pub fn next_pattern(&mut self) -> (pattern: LedStripPattern)
        ensures
            final(self).switched_from(*old(self), next_pattern_index(old(self).pattern_index())),
            is_catalogue_pattern(pattern, final(self).pattern_index()),
    {
        proof {
            use_type_invariant(&*self);
        }
        let next_pattern = (self.current_pattern + 1) % LED_STRIP_PATTERN_COUNT;
        self.activate_pattern(next_pattern);
        self.current_pattern()
    }

    /// Selects the previous pattern in the list and returns it.
    pub fn previous_pattern(&mut self) -> (pattern: LedStripPattern)
        ensures
            final(self).switched_from(*old(self), previous_pattern_index(old(self).pattern_index())),
            is_catalogue_pattern(pattern, final(self).pattern_index()),
    {
        proof {
            use_type_invariant(&*self);
        }
        let previous_pattern = if self.current_pattern == 0 {
            LED_STRIP_PATTERN_COUNT - 1
        } else {
            self.current_pattern - 1
        };
        self.activate_pattern(previous_pattern);
        self.current_pattern()
    }

    /// Activates the default pattern and returns it.
    pub fn default_pattern(&mut self) -> (pattern: LedStripPattern)
        ensures
            final(self).switched_from(*old(self), DEFAULT_PATTERN_INDEX as int),
            is_catalogue_pattern(pattern, final(self).pattern_index()),
    {
        self.activate_pattern(DEFAULT_PATTERN_INDEX);
        self.current_pattern()
    }

    /// Returns the currently active pattern descriptor.
    pub fn current_pattern(&self) -> (pattern: LedStripPattern)
        ensures
            0 <= self.pattern_index() < LED_STRIP_PATTERN_COUNT,
            is_catalogue_pattern(pattern, self.pattern_index()),
    {
        proof {
            use_type_invariant(self);
        }
        led_strip_pattern(self.current_pattern)
    }

    /// Returns the current LED frame buffer.
    pub fn colors(&self) -> (colors: &[Rgb8; DEVMINDS_LAMP_LED_NUM])
        ensures
            0 <= self.pattern_index() < LED_STRIP_PATTERN_COUNT,
            colors@ == self.frame(),
    {
        proof {
            use_type_invariant(self);
        }
        &self.colors
    }

    /// Renders one frame and reports whether the output changed.
    ///
    /// This allows callers to skip WS2812 transfers when a static pattern
    /// would produce the same frame twice.
    pub fn render_next_frame(&mut self) -> (changed: bool)
        ensures
            final(self).rendered_from(*old(self)),
            changed == (final(self).frame() != old(self).frame()),
    {
        proof {
            use_type_invariant(&*self);
        }
        let previous_colors = self.colors;
        let mut colors = self.colors;
        self.current_pattern().render(&mut colors, self.pattern_frame);
        self.colors = colors;
        self.pattern_frame = self.pattern_frame.wrapping_add(1);
        !frames_equal(&self.colors, &previous_colors)
    }

    fn activate_pattern(&mut self, index: usize)
        ensures
            final(self).switched_from(*old(self), index as int % LED_STRIP_PATTERN_COUNT as int),
    {
        self.current_pattern = index % LED_STRIP_PATTERN_COUNT;
        self.pattern_frame = 0;
    }

    /// Performs a button action: selects the pattern that the action names and
    /// returns it.
    pub fn apply_action(&mut self, action: ButtonAction) -> (pattern: LedStripPattern)
        ensures
            final(self).switched_from(*old(self), action_target(action, old(self).pattern_index())),
            is_catalogue_pattern(pattern, final(self).pattern_index()),
    {
        match action {
            ButtonAction::PreviousPattern => self.previous_pattern(),
            ButtonAction::ResetToDefaultPattern => self.default_pattern(),
            ButtonAction::NextPattern => self.next_pattern(),
        }
    }

    /// Handles one event of the firmware's main loop: a frame tick renders the
    /// next frame; a button action switches pattern, then renders. The step
    /// says whether the strip must be sent the new frame, and, after a switch,
    /// which pattern is now selected.
    pub fn handle_event(&mut self, event: LampEvent) -> (step: LampStep)
        ensures
            match event {
                LampEvent::FrameTick => {
                    &&& final(self).rendered_from(*old(self))
                    &&& step.switched_to is None
                },
                LampEvent::Button(action) => {
                    let index = action_target(action, old(self).pattern_index());
                    &&& final(self).pattern_index() == index
                    &&& final(self).frame() == pattern_frame(catalogue_kind(index), 0)
                    &&& final(self).frame_number() == 1
                    &&& step.switched_to matches Some(p) && is_catalogue_pattern(p, index)
                },
            },
            step.frame_changed == (final(self).frame() != old(self).frame()),
    {
        match event {
            LampEvent::FrameTick => {
                let frame_changed = self.render_next_frame();
                LampStep { frame_changed, switched_to: None }
            },
            LampEvent::Button(action) => {
                let pattern = self.apply_action(action);
                let frame_changed = self.render_next_frame();
                LampStep { frame_changed, switched_to: Some(pattern) }
            },
        }
    }
}

impl Default for LedStripPatternGenerator {
    fn default() -> (lamp: Self)
        ensures
            lamp.pattern_index() == DEFAULT_PATTERN_INDEX,
            lamp.frame_number() == 0,
            lamp.frame() == dark_frame(),
    {
        Self::new()
    }
}

/// What the firmware's main loop waits for.
#[derive(Clone, Copy, PartialEq, Eq, Structural, Debug)]
pub enum LampEvent {
    /// The frame ticker fired.
    FrameTick,
    /// A button task reported an action.
    Button(ButtonAction),
}

/// What the firmware's main loop does after an event.
#[derive(Clone, Copy, Debug)]
pub struct LampStep {
    /// Whether the new frame differs from the one on the strip, and must be sent.
    pub frame_changed: bool,
    /// The pattern selected by a button action, to be logged.
    pub switched_to: Option<LedStripPattern>,
}

// ---------------------------------------------------------------------------
// Laws of the pattern selection
// ---------------------------------------------------------------------------

/// Going back undoes going forward, and the other way round.
pub proof fn lemma_previous_undoes_next(index: int)
    requires
        0 <= index < LED_STRIP_PATTERN_COUNT,
    ensures
        previous_pattern_index(next_pattern_index(index)) == index,
        next_pattern_index(previous_pattern_index(index)) == index,
{
}

/// Going forward through the whole catalogue comes back to the start, and
/// every step stays in the catalogue.
pub proof fn lemma_next_cycles_through_catalogue(index: int)
    requires
        0 <= index < LED_STRIP_PATTERN_COUNT,
    ensures
        0 <= next_pattern_index(index) < LED_STRIP_PATTERN_COUNT,
        0 <= previous_pattern_index(index) < LED_STRIP_PATTERN_COUNT,
        next_pattern_index(next_pattern_index(next_pattern_index(index))) == index,
        next_pattern_index(index) != index,
{
}

/// Rendering twice without switching: a static pattern changes the strip at
/// most once, and the rainbow changes it every time.
pub proof fn lemma_render_twice(
    first: LedStripPatternGenerator,
    second: LedStripPatternGenerator,
    third: LedStripPatternGenerator,
)
    requires
        second.rendered_from(first),
        third.rendered_from(second),
    ensures
        is_static(first.kind()) ==> third.frame() == second.frame(),
        first.kind() == PatternKind::Rainbow ==> third.frame() != second.frame(),
{
    if first.kind() == PatternKind::Rainbow {
        lemma_rainbow_changes_every_frame(first.frame_number());
    }
}

/// Switching to a pattern restarts its animation: the first frame rendered
/// after the switch is the pattern's frame 0, whatever happened before.
pub proof fn lemma_switch_restarts_animation(
    before: LedStripPatternGenerator,
    switched: LedStripPatternGenerator,
    rendered: LedStripPatternGenerator,
    index: int,
)
    requires
        switched.switched_from(before, index),
        rendered.rendered_from(switched),
    ensures
        rendered.frame() == pattern_frame(catalogue_kind(index), 0),
        rendered.frame_number() == 1,
{
}

/// What each button does, from every pattern: Next moves one pattern on
/// (wrapping from the last to the first), Previous one pattern back (wrapping
/// from the first to the last), and Reset selects the brand-colors pattern;
/// Previous undoes Next and Next undoes Previous.
pub proof fn lemma_button_actions(index: int)
    requires
        0 <= index < LED_STRIP_PATTERN_COUNT,
    ensures
        action_target(ButtonAction::NextPattern, index) == (if index == 2 {
            0
        } else {
            index + 1
        }),
        action_target(ButtonAction::PreviousPattern, index) == (if index == 0 {
            2
        } else {
            index - 1
        }),
        action_target(ButtonAction::ResetToDefaultPattern, index) == 0,
        catalogue_kind(action_target(ButtonAction::ResetToDefaultPattern, index))
            == PatternKind::BrandColors,
        action_target(ButtonAction::PreviousPattern, action_target(ButtonAction::NextPattern, index))
            == index,
        action_target(ButtonAction::NextPattern, action_target(ButtonAction::PreviousPattern, index))
            == index,
        next_pattern_index(index) == action_target(ButtonAction::NextPattern, index),
        previous_pattern_index(index) == action_target(ButtonAction::PreviousPattern, index),
{
}

/// After a switch, the `k`-th render draws the selected pattern's frame `k - 1`
/// and leaves the counter at `k`, for the first two renders; the counter goes
/// on counting up by one per render.
pub proof fn lemma_renders_after_switch(
    before: LedStripPatternGenerator,
    switched: LedStripPatternGenerator,
    first: LedStripPatternGenerator,
    second: LedStripPatternGenerator,
    index: int,
)
    requires
        switched.switched_from(before, index),
        first.rendered_from(switched),
        second.rendered_from(first),
    ensures
        first.frame() == pattern_frame(catalogue_kind(index), 0),
        first.frame_number() == 1,
        second.frame() == pattern_frame(catalogue_kind(index), 1),
        second.frame_number() == 2,
        second.pattern_index() == index,
{
}

/// A new lamp shows nothing: every LED of the strip is off.
pub proof fn lemma_new_lamp_is_dark(index: int)
    requires
        0 <= index < DEVMINDS_LAMP_LED_NUM,
    ensures
        dark_frame().len() == 31,
        dark_frame()[index] == (Rgb8 { r: 0, g: 0, b: 0 }),
{
}

} // verus!
