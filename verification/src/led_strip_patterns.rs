//! Pattern catalogue and frame rendering functions for the lamp.
//!
//! A frame is one color per LED of the strip. Each pattern renders a frame
//! from the frame counter it is given; the spec functions at the top of this
//! file say which frame that is.
use vstd::prelude::*;

verus! {

broadcast use vstd::seq_lib::group_seq_properties;

/// Number of LEDs in the devminds lamp layout.
pub const DEVMINDS_LAMP_LED_NUM: usize = 31;

/// Index of the pattern selected on startup.
pub const DEFAULT_PATTERN_INDEX: usize = 0;

/// Number of patterns in the catalogue.
pub const LED_STRIP_PATTERN_COUNT: usize = 3;

/// LEDs lit in the brand blue.
pub const DEVMINDS_LAMP_BLUE_PIXELS: [usize; 9] = [1, 2, 3, 6, 7, 13, 14, 17, 22];

/// LEDs lit in the brand green.
pub const DEVMINDS_LAMP_GREEN_PIXELS: [usize; 7] = [0, 4, 8, 9, 10, 11, 12];

/// LEDs lit in the brand orange.
pub const DEVMINDS_LAMP_ORANGE_PIXELS: [usize; 7] = [5, 15, 16, 18, 19, 20, 21];

/// LEDs behind the lettering, lit in red.
pub const DEVMINDS_TEXT_PIXELS: [usize; 8] = [23, 24, 25, 26, 27, 28, 29, 30];

/// The color of one LED, one byte per channel.
#[derive(Clone, Copy, PartialEq, Eq, Structural, Debug)]
pub struct Rgb8 {
    pub r: u8,
    pub g: u8,
    pub b: u8,
}

/// An LED that is off.
pub open spec fn black() -> Rgb8 {
    Rgb8 { r: 0, g: 0, b: 0 }
}

impl Default for Rgb8 {
    /// The default color is black (all channels off).
    fn default() -> (c: Self)
        ensures
            c == black(),
    {
        Rgb8 { r: 0, g: 0, b: 0 }
    }
}

/// The brand blue.
#[verifier::allow_in_spec]
pub fn devminds_blue() -> Rgb8
    returns
        (Rgb8 { r: 10, g: 46, b: 120 }),
{
    Rgb8 { r: 10, g: 46, b: 120 }
}

/// The brand green.
#[verifier::allow_in_spec]
pub fn devminds_green() -> Rgb8
    returns
        (Rgb8 { r: 10, g: 100, b: 10 }),
{
    Rgb8 { r: 10, g: 100, b: 10 }
}

/// The brand orange.
#[verifier::allow_in_spec]
pub fn devminds_orange() -> Rgb8
    returns
        (Rgb8 { r: 150, g: 38, b: 0 }),
{
    Rgb8 { r: 150, g: 38, b: 0 }
}

/// Full red, used for the lettering.
#[verifier::allow_in_spec]
pub fn red() -> Rgb8
    returns
        (Rgb8 { r: 255, g: 0, b: 0 }),
{
    Rgb8 { r: 255, g: 0, b: 0 }
}

/// Full white.
#[verifier::allow_in_spec]
pub fn white() -> Rgb8
    returns
        (Rgb8 { r: 255, g: 255, b: 255 }),
{
    Rgb8 { r: 255, g: 255, b: 255 }
}

// ---------------------------------------------------------------------------
// What each pattern shows
// ---------------------------------------------------------------------------

/// The color wheel: position 0 and 255 are red, and the wheel runs through
/// green (around 85) and blue (around 170), each channel moving in steps of 3.
pub open spec fn wheel_color(position: u8) -> Rgb8 {
    let w: int = 255 - position;
    if w < 85 {
        Rgb8 { r: (255 - 3 * w) as u8, g: 0, b: (3 * w) as u8 }
    } else if w < 170 {
        let v: int = w - 85;
        Rgb8 { r: 0, g: (3 * v) as u8, b: (255 - 3 * v) as u8 }
    } else {
        let v: int = w - 170;
        Rgb8 { r: (3 * v) as u8, g: (255 - 3 * v) as u8, b: 0 }
    }
}

/// Where LED `index` sits on the color wheel in frame `frame`: the LEDs are
/// spread evenly over the wheel, and the whole strip turns by one step per frame.
pub open spec fn rainbow_position(index: int, frame: u32) -> int {
    ((index * 256) / (DEVMINDS_LAMP_LED_NUM as int) + frame % 256) % 256
}

/// The rainbow frame number `frame`.
pub open spec fn rainbow_frame(frame: u32) -> Seq<Rgb8> {
    Seq::new(
        DEVMINDS_LAMP_LED_NUM as nat,
        |i: int| wheel_color(rainbow_position(i, frame) as u8),
    )
}

/// The color of LED `index` in the brand pattern: the color of the group that
/// lists it, black where no group does.
pub open spec fn brand_color(index: int) -> Rgb8 {
    let i = index as usize;
    if DEVMINDS_TEXT_PIXELS@.contains(i) {
        red()
    } else if DEVMINDS_LAMP_ORANGE_PIXELS@.contains(i) {
        devminds_orange()
    } else if DEVMINDS_LAMP_GREEN_PIXELS@.contains(i) {
        devminds_green()
    } else if DEVMINDS_LAMP_BLUE_PIXELS@.contains(i) {
        devminds_blue()
    } else {
        black()
    }
}

/// The brand pattern's frame.
pub open spec fn brand_frame() -> Seq<Rgb8> {
    Seq::new(DEVMINDS_LAMP_LED_NUM as nat, |i: int| brand_color(i))
}

/// The white pattern's frame: every LED white.
pub open spec fn white_frame() -> Seq<Rgb8> {
    Seq::new(DEVMINDS_LAMP_LED_NUM as nat, |i: int| white())
}

/// What a pattern draws.
#[derive(Clone, Copy, PartialEq, Eq, Structural, Debug)]
pub enum PatternKind {
    /// The logo in the brand colors; the same in every frame.
    BrandColors,
    /// A color wheel that turns by one step per frame.
    Rainbow,
    /// Every LED white; the same in every frame.
    White,
}

/// The frame that a pattern of kind `kind` renders for frame number `frame`.
pub open spec fn pattern_frame(kind: PatternKind, frame: u32) -> Seq<Rgb8> {
    match kind {
        PatternKind::BrandColors => brand_frame(),
        PatternKind::Rainbow => rainbow_frame(frame),
        PatternKind::White => white_frame(),
    }
}

/// Whether a pattern of this kind draws the same frame whatever the frame number.
pub open spec fn is_static(kind: PatternKind) -> bool {
    kind != PatternKind::Rainbow
}

/// The display name of each kind of pattern.
pub open spec fn kind_name(kind: PatternKind) -> Seq<char> {
    match kind {
        PatternKind::BrandColors => "Brand Colors"@,
        PatternKind::Rainbow => "Rainbow"@,
        PatternKind::White => "White"@,
    }
}

/// The kind of the pattern at `index` in the catalogue.
pub open spec fn catalogue_kind(index: int) -> PatternKind {
    if index == 0 {
        PatternKind::BrandColors
    } else if index == 1 {
        PatternKind::Rainbow
    } else {
        PatternKind::White
    }
}

/// The pattern at `index` in the catalogue: the right kind, under its name.
pub open spec fn is_catalogue_pattern(pattern: LedStripPattern, index: int) -> bool {
    &&& pattern.kind == catalogue_kind(index)
    &&& pattern.name@ == kind_name(pattern.kind)
}

// ---------------------------------------------------------------------------
// Laws of the patterns
// ---------------------------------------------------------------------------

/// The frame number that follows `frame`; the counter wraps around at its maximum.
pub open spec fn next_frame_number(frame: u32) -> u32 {
    if frame == u32::MAX {
        0
    } else {
        (frame + 1) as u32
    }
}

/// The static patterns (brand colors, white) draw the same frame whatever the
/// frame number.
pub proof fn lemma_static_patterns_ignore_frame(kind: PatternKind, frame_a: u32, frame_b: u32)
    requires
        is_static(kind),
    ensures
        pattern_frame(kind, frame_a) == pattern_frame(kind, frame_b),
{
}

/// The rainbow is deterministic and repeats every 256 frames: two frame numbers
/// that agree modulo 256 give the same frame.
pub proof fn lemma_rainbow_repeats_every_256_frames(frame_a: u32, frame_b: u32)
    requires
        frame_a % 256 == frame_b % 256,
    ensures
        rainbow_frame(frame_a) == rainbow_frame(frame_b),
{
    assert(rainbow_frame(frame_a) =~= rainbow_frame(frame_b));
}

/// Two wheel positions have the same color only if they are equal, or are the
/// two ends of the wheel (both red).
pub proof fn lemma_wheel_colors_distinct(a: u8, b: u8)
    requires
        wheel_color(a) == wheel_color(b),
    ensures
        a == b || (a == 0 && b == 255) || (a == 255 && b == 0),
{
}

/// The rainbow changes in every frame, also when the frame counter wraps around.
pub proof fn lemma_rainbow_changes_every_frame(frame: u32)
    ensures
        rainbow_frame(frame) != rainbow_frame(next_frame_number(frame)),
{
    let next = next_frame_number(frame);
    let p = frame % 256;
    assert(next % 256 == (p + 1) % 256);
    if p != 255 {
        let a = rainbow_position(0, frame) as u8;
        let b = rainbow_position(0, next) as u8;
        assert(a == p && b == p + 1);
        if wheel_color(a) == wheel_color(b) {
            lemma_wheel_colors_distinct(a, b);
        }
        assert(rainbow_frame(frame)[0] != rainbow_frame(next)[0]);
    } else {
        let a = rainbow_position(1, frame) as u8;
        let b = rainbow_position(1, next) as u8;
        assert(a == 7 && b == 8);
        if wheel_color(a) == wheel_color(b) {
            lemma_wheel_colors_distinct(a, b);
        }
        assert(rainbow_frame(frame)[1] != rainbow_frame(next)[1]);
    }
}

/// The frame counter counts up by one, and wraps to 0 only past `u32::MAX`.
pub proof fn lemma_frame_counter_counts_up(frame: u32)
    ensures
        next_frame_number(frame) as int == (frame as int + 1) % 0x1_0000_0000,
        frame < u32::MAX ==> next_frame_number(frame) as int == frame as int + 1,
{
}

/// The rainbow starts from the LEDs spread evenly over the wheel, LED `index`
/// at step `index * 256 / 31`, LED 0 sits at the frame number modulo 256, and
/// every LED moves exactly one wheel step per frame.
pub proof fn lemma_rainbow_turns_one_step_per_frame(index: int, frame: u32)
    requires
        0 <= index < DEVMINDS_LAMP_LED_NUM,
    ensures
        0 <= rainbow_position(index, frame) < 256,
        rainbow_position(index, 0) == index * 256 / 31,
        rainbow_position(0, frame) == frame as int % 256,
        rainbow_position(index, next_frame_number(frame)) == (rainbow_position(index, frame) + 1)
            % 256,
{
    assert(index * 256 / 31 < 256);
    assert(next_frame_number(frame) as int % 256 == (frame as int % 256 + 1) % 256);
}

/// The wheel as a function of the position: red fading into green up to
/// position 85, green into blue up to 170, blue back into red up to 255.
/// Every wheel color has one channel off and channels adding up to 255.
pub proof fn lemma_wheel_arcs(p: u8)
    ensures
        p <= 85 ==> wheel_color(p) == (Rgb8 { r: (255 - 3 * p) as u8, g: (3 * p) as u8, b: 0 }),
        85 < p <= 170 ==> wheel_color(p) == (Rgb8 {
            r: 0,
            g: (510 - 3 * p) as u8,
            b: (3 * p - 255) as u8,
        }),
        170 < p ==> wheel_color(p) == (Rgb8 {
            r: (3 * p - 510) as u8,
            g: 0,
            b: (765 - 3 * p) as u8,
        }),
        wheel_color(p).r + wheel_color(p).g + wheel_color(p).b == 255,
        wheel_color(p).r == 0 || wheel_color(p).g == 0 || wheel_color(p).b == 0,
{
}

/// The rainbow frame shows at LED `index` the wheel color at its position.
pub proof fn lemma_rainbow_pixel(index: int, frame: u32)
    requires
        0 <= index < DEVMINDS_LAMP_LED_NUM,
    ensures
        rainbow_frame(frame).len() == DEVMINDS_LAMP_LED_NUM,
        rainbow_frame(frame)[index] == wheel_color(
            ((index * 256 / 31 + frame as int % 256) % 256) as u8,
        ),
{
    lemma_rainbow_turns_one_step_per_frame(index, frame);
}

/// The palette: brand blue, green and orange, red, white, and off.
pub proof fn lemma_palette()
    ensures
        devminds_blue() == (Rgb8 { r: 10, g: 46, b: 120 }),
        devminds_green() == (Rgb8 { r: 10, g: 100, b: 10 }),
        devminds_orange() == (Rgb8 { r: 150, g: 38, b: 0 }),
        red() == (Rgb8 { r: 255, g: 0, b: 0 }),
        white() == (Rgb8 { r: 255, g: 255, b: 255 }),
        black() == (Rgb8 { r: 0, g: 0, b: 0 }),
{
}

/// The catalogue: brand colors first (the default), then the rainbow, then
/// white; only the rainbow changes from frame to frame, and the white pattern
/// lights every LED full white.
pub proof fn lemma_catalogue(frame: u32, index: int)
    requires
        0 <= index < DEVMINDS_LAMP_LED_NUM,
    ensures
        catalogue_kind(0) == PatternKind::BrandColors,
        catalogue_kind(1) == PatternKind::Rainbow,
        catalogue_kind(2) == PatternKind::White,
        DEFAULT_PATTERN_INDEX == 0,
        LED_STRIP_PATTERN_COUNT == 3,
        is_static(PatternKind::BrandColors),
        is_static(PatternKind::White),
        !is_static(PatternKind::Rainbow),
        pattern_frame(PatternKind::White, frame).len() == DEVMINDS_LAMP_LED_NUM,
        pattern_frame(PatternKind::White, frame)[index] == (Rgb8 { r: 255, g: 255, b: 255 }),
        pattern_frame(PatternKind::BrandColors, frame) == brand_frame(),
        pattern_frame(PatternKind::Rainbow, frame) == rainbow_frame(frame),
        kind_name(catalogue_kind(0)) == "Brand Colors"@,
        kind_name(catalogue_kind(1)) == "Rainbow"@,
        kind_name(catalogue_kind(2)) == "White"@,
{
}

// ---------------------------------------------------------------------------
// The pixel map
// ---------------------------------------------------------------------------

/// All LED indices that the four color groups list, group after group.
pub open spec fn all_pixel_indices() -> Seq<usize> {
    DEVMINDS_LAMP_BLUE_PIXELS@ + DEVMINDS_LAMP_GREEN_PIXELS@ + DEVMINDS_LAMP_ORANGE_PIXELS@
        + DEVMINDS_TEXT_PIXELS@
}

/// A list of LED indices splits the strip: it has one entry per LED, every
/// entry is on the strip, and no entry occurs twice.
pub open spec fn splits_strip(all: Seq<usize>) -> bool {
    &&& all.len() == DEVMINDS_LAMP_LED_NUM
    &&& forall|k: int| 0 <= k < all.len() ==> #[trigger] all[k] < DEVMINDS_LAMP_LED_NUM
    &&& all.no_duplicates()
}

/// The color groups list every LED of the strip exactly once, and nothing else.
pub open spec fn pixel_map_is_valid() -> bool {
    let all = all_pixel_indices();
    &&& splits_strip(all)
    &&& forall|i: int| 0 <= i < DEVMINDS_LAMP_LED_NUM ==> #[trigger] all.contains(i as usize)
}

/// Whether bit `j` of `x` is set.
pub open spec fn has_bit(x: u64, j: u64) -> bool {
    (x >> j) & 1u64 == 1u64
}

/// The number of bits of `x` below bit `n` that are set.
pub open spec fn bits_below(x: u64, n: nat) -> nat
    decreases n,
{
    if n == 0 {
        0
    } else {
        bits_below(x, (n - 1) as nat) + if has_bit(x, (n - 1) as u64) {
            1nat
        } else {
            0nat
        }
    }
}

/// The number of set bits of `x`.
pub open spec fn bit_count(x: u64) -> nat {
    bits_below(x, 64)
}

/// Marking `indices` in `seen` is admitted: every index is on the strip, is
/// listed once, and is not yet marked.
pub open spec fn marking_admitted(seen: u64, indices: Seq<usize>) -> bool {
    &&& forall|k: int| 0 <= k < indices.len() ==> #[trigger] indices[k] < DEVMINDS_LAMP_LED_NUM
    &&& forall|k: int| 0 <= k < indices.len() ==> !has_bit(seen, #[trigger] indices[k] as u64)
    &&& indices.no_duplicates()
}

/// `after` holds the bits of `seen` and those of the listed indices, and no others.
pub open spec fn marked(seen: u64, indices: Seq<usize>, after: u64) -> bool {
    forall|j: u64|
        j < 64 ==> #[trigger] has_bit(after, j) == (has_bit(seen, j) || indices.contains(j as usize))
}

proof fn lemma_set_bit(x: u64, index: u64, j: u64)
    requires
        index < 64,
        j < 64,
    ensures
        has_bit(x | (1u64 << index), j) == (has_bit(x, j) || j == index),
        (x & (1u64 << index) == 0) == !has_bit(x, index),
        x & !(x | (1u64 << index)) == 0,
{
    assert(has_bit(x | (1u64 << index), j) == (has_bit(x, j) || j == index)) by (bit_vector)
        requires
            index < 64,
            j < 64,
    ;
    assert((x & (1u64 << index) == 0) == !has_bit(x, index)) by (bit_vector)
        requires
            index < 64,
    ;
    assert(x & !(x | (1u64 << index)) == 0) by (bit_vector);
}

proof fn lemma_clear_bit(x: u64, index: u64, j: u64)
    requires
        index < 64,
        j < 64,
    ensures
        has_bit(x & !(1u64 << index), j) == (has_bit(x, j) && j != index),
{
    assert(has_bit(x & !(1u64 << index), j) == (has_bit(x, j) && j != index)) by (bit_vector)
        requires
            index < 64,
            j < 64,
    ;
}

proof fn lemma_no_bit_cleared_chain(a: u64, b: u64, c: u64)
    requires
        a & !b == 0,
        b & !c == 0,
    ensures
        a & !c == 0,
{
    assert(a & !c == 0) by (bit_vector)
        requires
            a & !b == 0,
            b & !c == 0,
    ;
}

proof fn lemma_zero_has_no_bits()
    ensures
        forall|j: u64| j < 64 ==> !#[trigger] has_bit(0u64, j),
{
    assert forall|j: u64| j < 64 implies !#[trigger] has_bit(0u64, j) by {
        assert(!has_bit(0u64, j)) by (bit_vector);
    }
}

proof fn lemma_bits_below_zero(n: nat)
    requires
        n <= 64,
    ensures
        bits_below(0u64, n) == 0,
    decreases n,
{
    lemma_zero_has_no_bits();
    if n > 0 {
        lemma_bits_below_zero((n - 1) as nat);
    }
}

proof fn lemma_bits_below_same(x: u64, y: u64, n: nat)
    requires
        n <= 64,
        forall|j: u64| j < 64 ==> #[trigger] has_bit(x, j) == has_bit(y, j),
    ensures
        bits_below(x, n) == bits_below(y, n),
    decreases n,
{
    if n > 0 {
        lemma_bits_below_same(x, y, (n - 1) as nat);
        assert(has_bit(x, (n - 1) as u64) == has_bit(y, (n - 1) as u64));
    }
}

/// Setting one more bit raises the count of bits below `n` by one when that
/// bit is below `n`.
proof fn lemma_bits_below_add(x: u64, y: u64, index: u64, n: nat)
    requires
        n <= 64,
        index < 64,
        !has_bit(x, index),
        forall|j: u64| j < 64 ==> #[trigger] has_bit(y, j) == (has_bit(x, j) || j == index),
    ensures
        bits_below(y, n) == bits_below(x, n) + if index < n {
            1nat
        } else {
            0nat
        },
    decreases n,
{
    if n > 0 {
        lemma_bits_below_add(x, y, index, (n - 1) as nat);
        assert(has_bit(y, (n - 1) as u64) == (has_bit(x, (n - 1) as u64) || (n - 1) == index));
    }
}

/// Marking admitted indices never clears a bit, and raises the number of set
/// bits by the number of indices.
pub proof fn lemma_marking_counts(seen: u64, indices: Seq<usize>, after: u64)
    requires
        marking_admitted(seen, indices),
        marked(seen, indices, after),
    ensures
        forall|j: u64| j < 64 ==> has_bit(seen, j) ==> #[trigger] has_bit(after, j),
        bit_count(after) == bit_count(seen) + indices.len(),
    decreases indices.len(),
{
    if indices.len() == 0 {
        assert forall|j: u64| j < 64 implies #[trigger] has_bit(seen, j) == has_bit(after, j) by {
            assert(has_bit(after, j) == (has_bit(seen, j) || indices.contains(j as usize)));
        }
        lemma_bits_below_same(seen, after, 64);
    } else {
        let rest = indices.drop_last();
        let last = indices.last();
        let mid = after & !(1u64 << (last as u64));
        assert(indices =~= rest.push(last));
        assert(!has_bit(seen, indices[indices.len() - 1] as u64));
        assert(!rest.contains(last)) by {
            if rest.contains(last) {
                let k = choose|k: int| 0 <= k < rest.len() && rest[k] == last;
                assert(indices[k] == indices[indices.len() - 1]);
            }
        }
        assert forall|j: u64| j < 64 implies #[trigger] has_bit(mid, j) == (has_bit(seen, j)
            || rest.contains(j as usize)) by {
            lemma_clear_bit(after, last as u64, j);
            assert(has_bit(after, j) == (has_bit(seen, j) || indices.contains(j as usize)));
        }
        assert(marking_admitted(seen, rest)) by {
            assert forall|k: int| 0 <= k < rest.len() implies !has_bit(
                seen,
                #[trigger] rest[k] as u64,
            ) by {
                assert(rest[k] == indices[k]);
            }
        }
        lemma_marking_counts(seen, rest, mid);
        assert forall|j: u64| j < 64 implies #[trigger] has_bit(after, j) == (has_bit(mid, j)
            || j == last as u64) by {
            lemma_clear_bit(after, last as u64, j);
            assert(has_bit(after, j) == (has_bit(seen, j) || indices.contains(j as usize)));
            assert(has_bit(after, last as u64) == (has_bit(seen, last as u64) || indices.contains(
                last,
            )));
        }
        assert(!has_bit(mid, last as u64)) by {
            lemma_clear_bit(after, last as u64, last as u64);
        }
        lemma_bits_below_add(mid, after, last as u64, 64);
    }
}

/// The pixel-map check over any four groups: marking them one after the other,
/// starting from no bits, is admitted at every step and ends with one bit per
/// LED exactly when the groups, put together, split the strip.
pub proof fn lemma_pixel_map_check(
    a: Seq<usize>,
    b: Seq<usize>,
    c: Seq<usize>,
    d: Seq<usize>,
    s1: u64,
    s2: u64,
    s3: u64,
    s4: u64,
)
    requires
        marked(0u64, a, s1),
        marked(s1, b, s2),
        marked(s2, c, s3),
        marked(s3, d, s4),
    ensures
        (marking_admitted(0u64, a) && marking_admitted(s1, b) && marking_admitted(s2, c)
            && marking_admitted(s3, d) && bit_count(s4) == DEVMINDS_LAMP_LED_NUM) <==> splits_strip(
            a + b + c + d,
        ),
{
    let all = a + b + c + d;
    lemma_zero_has_no_bits();
    lemma_bits_below_zero(64);
    // Which bits each state holds.
    assert forall|j: u64| j < 64 implies #[trigger] has_bit(s1, j) == a.contains(j as usize) by {
        assert(has_bit(s1, j) == (has_bit(0u64, j) || a.contains(j as usize)));
    }
    assert forall|j: u64| j < 64 implies #[trigger] has_bit(s2, j) == (a.contains(j as usize)
        || b.contains(j as usize)) by {
        assert(has_bit(s2, j) == (has_bit(s1, j) || b.contains(j as usize)));
        assert(has_bit(s1, j) == a.contains(j as usize));
    }
    assert forall|j: u64| j < 64 implies #[trigger] has_bit(s3, j) == (a.contains(j as usize)
        || b.contains(j as usize) || c.contains(j as usize)) by {
        assert(has_bit(s3, j) == (has_bit(s2, j) || c.contains(j as usize)));
        assert(has_bit(s2, j) == (a.contains(j as usize) || b.contains(j as usize)));
    }
    let ab = a + b;
    let abc = a + b + c;
    if marking_admitted(0u64, a) && marking_admitted(s1, b) && marking_admitted(s2, c)
        && marking_admitted(s3, d) && bit_count(s4) == DEVMINDS_LAMP_LED_NUM {
        lemma_marking_counts(0u64, a, s1);
        lemma_marking_counts(s1, b, s2);
        lemma_marking_counts(s2, c, s3);
        lemma_marking_counts(s3, d, s4);
        assert(all.len() == DEVMINDS_LAMP_LED_NUM);
        assert forall|i: int, j: int| 0 <= i < a.len() && 0 <= j < b.len() implies a[i] != b[j] by {
            assert(!has_bit(s1, b[j] as u64));
            assert(has_bit(s1, a[i] as u64) == a.contains(a[i]));
        }
        vstd::seq_lib::lemma_no_dup_in_concat(a, b);
        assert forall|i: int, j: int| 0 <= i < ab.len() && 0 <= j < c.len() implies ab[i]
            != c[j] by {
            assert(!has_bit(s2, c[j] as u64));
            assert(has_bit(s2, ab[i] as u64) == (a.contains(ab[i]) || b.contains(ab[i])));
            if i < a.len() {
                assert(a[i] == ab[i]);
            } else {
                assert(b[i - a.len()] == ab[i]);
            }
        }
        vstd::seq_lib::lemma_no_dup_in_concat(ab, c);
        assert forall|i: int, j: int| 0 <= i < abc.len() && 0 <= j < d.len() implies abc[i]
            != d[j] by {
            assert(!has_bit(s3, d[j] as u64));
            assert(has_bit(s3, abc[i] as u64) == (a.contains(abc[i]) || b.contains(abc[i])
                || c.contains(abc[i])));
            if i < a.len() {
                assert(a[i] == abc[i]);
            } else if i < ab.len() {
                assert(b[i - a.len()] == abc[i]);
            } else {
                assert(c[i - ab.len()] == abc[i]);
            }
        }
        vstd::seq_lib::lemma_no_dup_in_concat(abc, d);
        assert forall|k: int| 0 <= k < all.len() implies #[trigger] all[k] < DEVMINDS_LAMP_LED_NUM by {
            if k < a.len() {
                assert(all[k] == a[k]);
            } else if k < ab.len() {
                assert(all[k] == b[k - a.len()]);
            } else if k < abc.len() {
                assert(all[k] == c[k - ab.len()]);
            } else {
                assert(all[k] == d[k - abc.len()]);
            }
        }
    }
    if splits_strip(all) {
        // Each group is on the strip, has no repeats, and meets no earlier group.
        assert forall|k: int| 0 <= k < a.len() implies #[trigger] a[k] < DEVMINDS_LAMP_LED_NUM by {
            assert(all[k] == a[k]);
        }
        assert forall|k: int| 0 <= k < b.len() implies #[trigger] b[k] < DEVMINDS_LAMP_LED_NUM by {
            assert(all[a.len() + k] == b[k]);
        }
        assert forall|k: int| 0 <= k < c.len() implies #[trigger] c[k] < DEVMINDS_LAMP_LED_NUM by {
            assert(all[ab.len() + k] == c[k]);
        }
        assert forall|k: int| 0 <= k < d.len() implies #[trigger] d[k] < DEVMINDS_LAMP_LED_NUM by {
            assert(all[abc.len() + k] == d[k]);
        }
        assert(a.no_duplicates()) by {
            assert forall|i: int, j: int|
                0 <= i < a.len() && 0 <= j < a.len() && i != j implies a[i] != a[j] by {
                assert(all[i] == a[i] && all[j] == a[j]);
            }
        }
        assert(b.no_duplicates()) by {
            assert forall|i: int, j: int|
                0 <= i < b.len() && 0 <= j < b.len() && i != j implies b[i] != b[j] by {
                assert(all[a.len() + i] == b[i] && all[a.len() + j] == b[j]);
            }
        }
        assert(c.no_duplicates()) by {
            assert forall|i: int, j: int|
                0 <= i < c.len() && 0 <= j < c.len() && i != j implies c[i] != c[j] by {
                assert(all[ab.len() + i] == c[i] && all[ab.len() + j] == c[j]);
            }
        }
        assert(d.no_duplicates()) by {
            assert forall|i: int, j: int|
                0 <= i < d.len() && 0 <= j < d.len() && i != j implies d[i] != d[j] by {
                assert(all[abc.len() + i] == d[i] && all[abc.len() + j] == d[j]);
            }
        }
        assert forall|k: int| 0 <= k < b.len() implies !has_bit(s1, #[trigger] b[k] as u64) by {
            if a.contains(b[k]) {
                let i = choose|i: int| 0 <= i < a.len() && a[i] == b[k];
                assert(all[i] == all[a.len() + k]);
            }
        }
        assert forall|k: int| 0 <= k < c.len() implies !has_bit(s2, #[trigger] c[k] as u64) by {
            if a.contains(c[k]) {
                let i = choose|i: int| 0 <= i < a.len() && a[i] == c[k];
                assert(all[i] == all[ab.len() + k]);
            }
            if b.contains(c[k]) {
                let i = choose|i: int| 0 <= i < b.len() && b[i] == c[k];
                assert(all[a.len() + i] == all[ab.len() + k]);
            }
        }
        assert forall|k: int| 0 <= k < d.len() implies !has_bit(s3, #[trigger] d[k] as u64) by {
            if a.contains(d[k]) {
                let i = choose|i: int| 0 <= i < a.len() && a[i] == d[k];
                assert(all[i] == all[abc.len() + k]);
            }
            if b.contains(d[k]) {
                let i = choose|i: int| 0 <= i < b.len() && b[i] == d[k];
                assert(all[a.len() + i] == all[abc.len() + k]);
            }
            if c.contains(d[k]) {
                let i = choose|i: int| 0 <= i < c.len() && c[i] == d[k];
                assert(all[ab.len() + i] == all[abc.len() + k]);
            }
        }
        lemma_marking_counts(0u64, a, s1);
        lemma_marking_counts(s1, b, s2);
        lemma_marking_counts(s2, c, s3);
        lemma_marking_counts(s3, d, s4);
    }
}

/// Sets in `seen` the bit of each LED index that `indices` lists.
///
/// Every index must be on the strip, listed once, and not yet marked in `seen`:
/// this is what makes the color groups a partition of the strip.
pub fn mark_indices_seen(indices: &[usize], seen: &mut u64)
    requires
        marking_admitted(*old(seen), indices@),
    ensures
        marked(*old(seen), indices@, *final(seen)),
        *old(seen) & !*final(seen) == 0,
        bit_count(*final(seen)) == bit_count(*old(seen)) + indices@.len(),
{
    let ghost initial = *seen;
    assert(initial & !initial == 0) by (bit_vector);
    let mut i: usize = 0;
    while i < indices.len()
        invariant
            i <= indices@.len(),
            initial == *old(seen),
            marking_admitted(initial, indices@),
            initial & !*seen == 0,
            forall|j: u64|
                j < 64 ==> #[trigger] has_bit(*seen, j) == (has_bit(initial, j) || indices@.take(
                    i as int,
                ).contains(j as usize)),
        decreases indices@.len() - i,
    {
        let index = indices[i];
        let bit: u64 = 1u64 << (index as u64);
        proof {
            lemma_set_bit(*seen, index as u64, index as u64);
            if indices@.take(i as int).contains(index) {
                let k = choose|k: int| 0 <= k < i && indices@.take(i as int)[k] == index;
                assert(indices@[k] == indices@[i as int]);
            }
        }
        assert(*seen & bit == 0);
        let ghost before = *seen;
        *seen = *seen | bit;
        proof {
            lemma_no_bit_cleared_chain(initial, before, *seen);
            assert(indices@.take(i + 1) =~= indices@.take(i as int).push(index));
            assert forall|j: u64| j < 64 implies #[trigger] has_bit(*seen, j) == (has_bit(initial, j)
                || indices@.take(i + 1).contains(j as usize)) by {
                lemma_set_bit(before, index as u64, j);
            }
        }
        i += 1;
    }
    assert(indices@.take(indices@.len() as int) =~= indices@);
    proof {
        lemma_marking_counts(initial, indices@, *seen);
    }
}

proof fn lemma_pixel_lists()
    ensures
        DEVMINDS_LAMP_BLUE_PIXELS@ == seq![1usize, 2, 3, 6, 7, 13, 14, 17, 22],
        DEVMINDS_LAMP_GREEN_PIXELS@ == seq![0usize, 4, 8, 9, 10, 11, 12],
        DEVMINDS_LAMP_ORANGE_PIXELS@ == seq![5usize, 15, 16, 18, 19, 20, 21],
        DEVMINDS_TEXT_PIXELS@ == seq![23usize, 24, 25, 26, 27, 28, 29, 30],
{
    assert(DEVMINDS_LAMP_BLUE_PIXELS@ =~= seq![1usize, 2, 3, 6, 7, 13, 14, 17, 22]);
    assert(DEVMINDS_LAMP_GREEN_PIXELS@ =~= seq![0usize, 4, 8, 9, 10, 11, 12]);
    assert(DEVMINDS_LAMP_ORANGE_PIXELS@ =~= seq![5usize, 15, 16, 18, 19, 20, 21]);
    assert(DEVMINDS_TEXT_PIXELS@ =~= seq![23usize, 24, 25, 26, 27, 28, 29, 30]);
}

/// Checks that the color groups list every LED of the strip exactly once.
pub fn validate_pixel_map()
    ensures
        pixel_map_is_valid(),
{
    let mut seen: u64 = 0;
    proof {
        lemma_pixel_lists();
        lemma_zero_has_no_bits();
    }
    mark_indices_seen(&DEVMINDS_LAMP_BLUE_PIXELS, &mut seen);
    mark_indices_seen(&DEVMINDS_LAMP_GREEN_PIXELS, &mut seen);
    mark_indices_seen(&DEVMINDS_LAMP_ORANGE_PIXELS, &mut seen);
    mark_indices_seen(&DEVMINDS_TEXT_PIXELS, &mut seen);
}

/// In the brand pattern every LED is lit, in the color of the group that
/// lists it.
pub proof fn lemma_brand_colors_by_group(index: int)
    requires
        0 <= index < DEVMINDS_LAMP_LED_NUM,
    ensures
        DEVMINDS_LAMP_BLUE_PIXELS@.contains(index as usize) ==> brand_color(index) == devminds_blue(),
        DEVMINDS_LAMP_GREEN_PIXELS@.contains(index as usize) ==> brand_color(index)
            == devminds_green(),
        DEVMINDS_LAMP_ORANGE_PIXELS@.contains(index as usize) ==> brand_color(index)
            == devminds_orange(),
        DEVMINDS_TEXT_PIXELS@.contains(index as usize) ==> brand_color(index) == red(),
        brand_color(index) != black(),
{
    lemma_pixel_lists();
}

// ---------------------------------------------------------------------------
// Rendering
// ---------------------------------------------------------------------------

/// Maps a wheel position to its color.
fn rainbow_wheel(wheel_pos: u8) -> (color: Rgb8)
    ensures
        color == wheel_color(wheel_pos),
{
    let mut wheel_pos: u8 = 255 - wheel_pos;

    if wheel_pos < 85 {
        return Rgb8 { r: 255 - wheel_pos * 3, g: 0, b: wheel_pos * 3 };
    }
    if wheel_pos < 170 {
        wheel_pos -= 85;
        return Rgb8 { r: 0, g: wheel_pos * 3, b: 255 - wheel_pos * 3 };
    }
    wheel_pos -= 170;
    Rgb8 { r: wheel_pos * 3, g: 255 - wheel_pos * 3, b: 0 }
}

/// Renders the rainbow frame number `frame`.
fn render_rainbow(colors: &mut [Rgb8; DEVMINDS_LAMP_LED_NUM], frame: u32)
    ensures
        final(colors)@ == rainbow_frame(frame),
{
    let rainbow_offset: usize = (frame % 256) as usize;
    let mut index: usize = 0;
    while index < DEVMINDS_LAMP_LED_NUM
        invariant
            index <= DEVMINDS_LAMP_LED_NUM,
            rainbow_offset == frame % 256,
            colors@.len() == DEVMINDS_LAMP_LED_NUM,
            forall|i: int|
                0 <= i < index ==> #[trigger] colors@[i] == wheel_color(
                    rainbow_position(i, frame) as u8,
                ),
        decreases DEVMINDS_LAMP_LED_NUM - index,
    {
        let position: u8 = (((index * 256) / DEVMINDS_LAMP_LED_NUM + rainbow_offset) % 256) as u8;
        colors[index] = rainbow_wheel(position);
        index += 1;
    }
    assert(colors@ =~= rainbow_frame(frame));
}

/// Paints every LED that `indices` lists in `color`, and leaves the others.
fn paint_pixels(colors: &mut [Rgb8; DEVMINDS_LAMP_LED_NUM], indices: &[usize], color: Rgb8)
    requires
        forall|k: int| 0 <= k < indices@.len() ==> #[trigger] indices@[k] < DEVMINDS_LAMP_LED_NUM,
    ensures
        forall|i: int|
            0 <= i < DEVMINDS_LAMP_LED_NUM ==> #[trigger] final(colors)@[i] == (if indices@.contains(
                i as usize,
            ) {
                color
            } else {
                old(colors)@[i]
            }),
{
    let ghost before = colors@;
    let mut k: usize = 0;
    while k < indices.len()
        invariant
            k <= indices@.len(),
            before == old(colors)@,
            forall|j: int| 0 <= j < indices@.len() ==> #[trigger] indices@[j] < DEVMINDS_LAMP_LED_NUM,
            forall|i: int|
                0 <= i < DEVMINDS_LAMP_LED_NUM ==> #[trigger] colors@[i] == (if indices@.take(
                    k as int,
                ).contains(i as usize) {
                    color
                } else {
                    before[i]
                }),
        decreases indices@.len() - k,
    {
        let index = indices[k];
        colors[index] = color;
        assert(indices@.take(k + 1) =~= indices@.take(k as int).push(index));
        k += 1;
    }
    assert(indices@.take(indices@.len() as int) =~= indices@);
}

/// Renders the brand pattern: each LED in the color of its group.
fn render_colored(colors: &mut [Rgb8; DEVMINDS_LAMP_LED_NUM], _frame: u32)
    ensures
        final(colors)@ == brand_frame(),
{
    *colors = [Rgb8::default(); 31];
    proof {
        lemma_pixel_lists();
    }
    paint_pixels(colors, &DEVMINDS_LAMP_BLUE_PIXELS, devminds_blue());
    paint_pixels(colors, &DEVMINDS_LAMP_GREEN_PIXELS, devminds_green());
    paint_pixels(colors, &DEVMINDS_LAMP_ORANGE_PIXELS, devminds_orange());
    paint_pixels(colors, &DEVMINDS_TEXT_PIXELS, red());
    assert(colors@ =~= brand_frame());
}

/// A selectable lamp pattern.
#[derive(Clone, Copy, Debug)]
pub struct LedStripPattern {
    /// Display name for logs and UI interactions.
    pub name: &'static str,
    /// What the pattern draws.
    pub kind: PatternKind,
}

impl LedStripPattern {
    /// Renders a frame of this pattern into the provided color buffer.
    pub fn render(&self, colors: &mut [Rgb8; DEVMINDS_LAMP_LED_NUM], frame: u32)
        ensures
            final(colors)@ == pattern_frame(self.kind, frame),
    {
        match self.kind {
            PatternKind::BrandColors => render_colored(colors, frame),
            PatternKind::Rainbow => render_rainbow(colors, frame),
            PatternKind::White => render_white(colors, frame),
        }
    }
}

/// The pattern at `index` in the catalogue.
pub fn led_strip_pattern(index: usize) -> (pattern: LedStripPattern)
    requires
        index < LED_STRIP_PATTERN_COUNT,
    ensures
        is_catalogue_pattern(pattern, index as int),
{
    if index == 0 {
        LedStripPattern { name: "Brand Colors", kind: PatternKind::BrandColors }
    } else if index == 1 {
        LedStripPattern { name: "Rainbow", kind: PatternKind::Rainbow }
    } else {
        LedStripPattern { name: "White", kind: PatternKind::White }
    }
}

/// All available lamp patterns in selection order.
pub fn led_strip_patterns() -> (patterns: [LedStripPattern; LED_STRIP_PATTERN_COUNT])
    ensures
        forall|i: int|
            0 <= i < LED_STRIP_PATTERN_COUNT ==> is_catalogue_pattern(#[trigger] patterns@[i], i),
{
    let patterns = [led_strip_pattern(0), led_strip_pattern(1), led_strip_pattern(2)];
    assert forall|i: int| 0 <= i < LED_STRIP_PATTERN_COUNT implies is_catalogue_pattern(
        #[trigger] patterns@[i],
        i,
    ) by {
        assert(i == 0 || i == 1 || i == 2);
    }
    patterns
}

/// Renders the white frame.
fn render_white(colors: &mut [Rgb8; DEVMINDS_LAMP_LED_NUM], _frame: u32)
    ensures
        final(colors)@ == white_frame(),
{
    *colors = [white(); 31];
    assert(colors@ =~= white_frame());
}

} // verus!
