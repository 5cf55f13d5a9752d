//! Theme Registry Matrix: preset palettes and the runtime vibe-code string parser.
use vstd::prelude::*;
use vstd::string::StringSliceAdditionalSpecFns;

verus! {

/// 24-bit RGB triplet.
#[derive(Clone, Copy, Debug, PartialEq, Eq, Structural)]
pub struct ColorRgb {
    pub red: u8,
    pub green: u8,
    pub blue: u8,
}

/// Styling specification for the Glass-Forge graphics pipeline.
#[derive(Clone, Copy, Debug)]
pub struct SystemTheme {
    pub background: ColorRgb,
    pub surface: ColorRgb,
    pub primary_accent: ColorRgb,
    pub secondary_accent: ColorRgb,
    pub interactive_element: ColorRgb,
    pub text_primary: ColorRgb,
}

/// Preset palettes, numbered 0 (Dark) to 4 (Occult).
#[derive(Debug, Clone, Copy, PartialEq, Eq, Structural)]
pub enum ThemePreset {
    Dark,
    Golden,
    Light,
    Linda,
    Occult,
}

/// The preset a number selects; anything but 1 to 4 selects Dark.
pub open spec fn preset_for(value: u32) -> ThemePreset {
    if value == 1 {
        ThemePreset::Golden
    } else if value == 2 {
        ThemePreset::Light
    } else if value == 3 {
        ThemePreset::Linda
    } else if value == 4 {
        ThemePreset::Occult
    } else {
        ThemePreset::Dark
    }
}

pub open spec fn rgb(red: u8, green: u8, blue: u8) -> ColorRgb {
    ColorRgb { red, green, blue }
}

/// The palette of each preset.
pub open spec fn preset_palette(preset: ThemePreset) -> SystemTheme {
    match preset {
        ThemePreset::Dark => SystemTheme {
            background: rgb(15, 23, 42),
            surface: rgb(30, 41, 59),
            primary_accent: rgb(56, 189, 248),
            secondary_accent: rgb(99, 102, 241),
            interactive_element: rgb(51, 65, 85),
            text_primary: rgb(248, 250, 252),
        },
        ThemePreset::Golden => SystemTheme {
            background: rgb(20, 17, 10),
            surface: rgb(43, 34, 16),
            primary_accent: rgb(234, 179, 8),
            secondary_accent: rgb(202, 138, 4),
            interactive_element: rgb(67, 56, 202),
            text_primary: rgb(254, 249, 195),
        },
        ThemePreset::Light => SystemTheme {
            background: rgb(241, 245, 249),
            surface: rgb(255, 255, 255),
            primary_accent: rgb(37, 99, 235),
            secondary_accent: rgb(79, 70, 229),
            interactive_element: rgb(226, 232, 240),
            text_primary: rgb(15, 23, 42),
        },
        ThemePreset::Linda => SystemTheme {
            background: rgb(24, 14, 36),
            surface: rgb(45, 21, 62),
            primary_accent: rgb(244, 63, 94),
            secondary_accent: rgb(168, 85, 247),
            interactive_element: rgb(76, 29, 149),
            text_primary: rgb(253, 244, 255),
        },
        ThemePreset::Occult => SystemTheme {
            background: rgb(10, 4, 4),
            surface: rgb(28, 10, 10),
            primary_accent: rgb(220, 38, 38),
            secondary_accent: rgb(126, 34, 206),
            interactive_element: rgb(69, 10, 10),
            text_primary: rgb(239, 68, 68),
        },
    }
}

impl ThemePreset {
    pub fn from_u32(value: u32) -> (preset: Self)
        ensures
            preset == preset_for(value),
    {
        match value {
            1 => ThemePreset::Golden,
            2 => ThemePreset::Light,
            3 => ThemePreset::Linda,
            4 => ThemePreset::Occult,
            _ => ThemePreset::Dark,
        }
    }
}

fn color(red: u8, green: u8, blue: u8) -> (c: ColorRgb)
    ensures
        c == rgb(red, green, blue),
{
    ColorRgb { red, green, blue }
}

// ---------------------------------------------------------------------------------------
// The vibe-code language, over the UTF-8 bytes of the source text:
//   source  := segment (';' segment)*
//   segment := key ':' value (':' ignored)*
//   value   := channel ',' channel ',' channel (',' ignored)*
// Keys, values and channels are trimmed of Unicode white space; each channel is a decimal
// number from 0 to 255 (an empty channel reads as 0). A segment that does not fit, or
// names an unknown key, changes nothing.
// ---------------------------------------------------------------------------------------

/// Whether `i` is the first index of `sep` in `s`.
pub open spec fn is_first_index(s: Seq<u8>, sep: u8, i: int) -> bool {
    &&& 0 <= i < s.len()
    &&& s[i] == sep
    &&& forall|j: int| 0 <= j < i ==> s[j] != sep
}

pub open spec fn first_index_of(s: Seq<u8>, sep: u8) -> Option<int> {
    if exists|i: int| is_first_index(s, sep, i) {
        Some(choose|i: int| is_first_index(s, sep, i))
    } else {
        None
    }
}

/// The pieces of `s` between occurrences of `sep` (as `str::split` yields them).
pub open spec fn split_on(s: Seq<u8>, sep: u8) -> Seq<Seq<u8>>
    decreases s.len(),
{
    match first_index_of(s, sep) {
        Some(i) => if 0 <= i < s.len() {
            seq![s.subrange(0, i)] + split_on(s.subrange(i + 1, s.len() as int), sep)
        } else {
            seq![s]
        },
        None => seq![s],
    }
}

/// Length of the UTF-8 encoding of a Unicode white-space character at the start of `s`
/// (0 when there is none).
pub open spec fn leading_space_len(s: Seq<u8>) -> int {
    if s.len() >= 1 && (s[0] == 0x20 || (0x09 <= s[0] && s[0] <= 0x0d)) {
        1
    } else if s.len() >= 2 && s[0] == 0xc2 && (s[1] == 0x85 || s[1] == 0xa0) {
        2
    } else if s.len() >= 3 && is_space3(s[0], s[1], s[2]) {
        3
    } else {
        0
    }
}

/// Length of the UTF-8 encoding of a Unicode white-space character at the end of `s`
/// (0 when there is none).
pub open spec fn trailing_space_len(s: Seq<u8>) -> int {
    let n = s.len() as int;
    if n >= 1 && (s[n - 1] == 0x20 || (0x09 <= s[n - 1] && s[n - 1] <= 0x0d)) {
        1
    } else if n >= 2 && s[n - 2] == 0xc2 && (s[n - 1] == 0x85 || s[n - 1] == 0xa0) {
        2
    } else if n >= 3 && is_space3(s[n - 3], s[n - 2], s[n - 1]) {
        3
    } else {
        0
    }
}

/// Three-byte encodings of white space: U+1680, U+2000 to U+200A, U+2028, U+2029, U+202F,
/// U+205F and U+3000.
pub open spec fn is_space3(a: u8, b: u8, c: u8) -> bool {
    ||| (a == 0xe1 && b == 0x9a && c == 0x80)
    ||| (a == 0xe2 && b == 0x80 && ((0x80 <= c && c <= 0x8a) || c == 0xa8 || c == 0xa9 || c == 0xaf))
    ||| (a == 0xe2 && b == 0x81 && c == 0x9f)
    ||| (a == 0xe3 && b == 0x80 && c == 0x80)
}

pub open spec fn trim_start(s: Seq<u8>) -> Seq<u8>
    decreases s.len(),
{
    let k = leading_space_len(s);
    if k > 0 && k <= s.len() {
        trim_start(s.subrange(k, s.len() as int))
    } else {
        s
    }
}

pub open spec fn trim_end(s: Seq<u8>) -> Seq<u8>
    decreases s.len(),
{
    let k = trailing_space_len(s);
    if k > 0 && k <= s.len() {
        trim_end(s.subrange(0, s.len() - k))
    } else {
        s
    }
}

/// `str::trim`: white space removed from both ends.
pub open spec fn trim(s: Seq<u8>) -> Seq<u8> {
    trim_end(trim_start(s))
}

pub open spec fn is_digit(b: u8) -> bool {
    0x30 <= b && b <= 0x39
}

/// Decimal value of a string of digits.
pub open spec fn decimal(s: Seq<u8>) -> int
    decreases s.len(),
{
    if s.len() == 0 {
        0
    } else {
        decimal(s.drop_last()) * 10 + (s.last() - 0x30)
    }
}

/// A channel value: all digits and at most 255 (the empty string reads as 0).
pub open spec fn parse_u8_spec(s: Seq<u8>) -> Option<u8> {
    if (forall|i: int| 0 <= i < s.len() ==> is_digit(#[trigger] s[i])) && decimal(s) <= 255 {
        Some(decimal(s) as u8)
    } else {
        None
    }
}

/// Which colour of the theme a key names.
pub enum ThemeSlot {
    Background,
    Surface,
    PrimaryAccent,
    SecondaryAccent,
    InteractiveElement,
    TextPrimary,
}

pub open spec fn key_background() -> Seq<u8> {
    seq![0x62u8, 0x61, 0x63, 0x6b, 0x67, 0x72, 0x6f, 0x75, 0x6e, 0x64]
}

pub open spec fn key_surface() -> Seq<u8> {
    seq![0x73u8, 0x75, 0x72, 0x66, 0x61, 0x63, 0x65]
}

pub open spec fn key_primary_accent() -> Seq<u8> {
    seq![0x70u8, 0x72, 0x69, 0x6d, 0x61, 0x72, 0x79, 0x5f, 0x61, 0x63, 0x63, 0x65, 0x6e, 0x74]
}

pub open spec fn key_secondary_accent() -> Seq<u8> {
    seq![0x73u8, 0x65, 0x63, 0x6f, 0x6e, 0x64, 0x61, 0x72, 0x79, 0x5f, 0x61, 0x63, 0x63, 0x65, 0x6e, 0x74]
}

pub open spec fn key_interactive_element() -> Seq<u8> {
    seq![
        0x69u8, 0x6e, 0x74, 0x65, 0x72, 0x61, 0x63, 0x74, 0x69, 0x76, 0x65, 0x5f, 0x65, 0x6c, 0x65, 0x6d, 0x65, 0x6e,
        0x74,
    ]
}

pub open spec fn key_text_primary() -> Seq<u8> {
    seq![0x74u8, 0x65, 0x78, 0x74, 0x5f, 0x70, 0x72, 0x69, 0x6d, 0x61, 0x72, 0x79]
}

/// The slot a (trimmed) key names: `background`, `surface`, `primary_accent`,
/// `secondary_accent`, `interactive_element` or `text_primary`.
pub open spec fn theme_key(key: Seq<u8>) -> Option<ThemeSlot> {
    if key == key_background() {
        Some(ThemeSlot::Background)
    } else if key == key_surface() {
        Some(ThemeSlot::Surface)
    } else if key == key_primary_accent() {
        Some(ThemeSlot::PrimaryAccent)
    } else if key == key_secondary_accent() {
        Some(ThemeSlot::SecondaryAccent)
    } else if key == key_interactive_element() {
        Some(ThemeSlot::InteractiveElement)
    } else if key == key_text_primary() {
        Some(ThemeSlot::TextPrimary)
    } else {
        None
    }
}

/// The theme with one slot set.
pub open spec fn with_slot(theme: SystemTheme, slot: ThemeSlot, c: ColorRgb) -> SystemTheme {
    match slot {
        ThemeSlot::Background => SystemTheme { background: c, ..theme },
        ThemeSlot::Surface => SystemTheme { surface: c, ..theme },
        ThemeSlot::PrimaryAccent => SystemTheme { primary_accent: c, ..theme },
        ThemeSlot::SecondaryAccent => SystemTheme { secondary_accent: c, ..theme },
        ThemeSlot::InteractiveElement => SystemTheme { interactive_element: c, ..theme },
        ThemeSlot::TextPrimary => SystemTheme { text_primary: c, ..theme },
    }
}

/// The colour a (trimmed) value denotes: its first three comma-separated channels.
pub open spec fn value_color(value: Seq<u8>) -> Option<ColorRgb> {
    let channels = split_on(value, 0x2c);
    if channels.len() >= 3 && parse_u8_spec(trim(channels[0])) is Some && parse_u8_spec(trim(channels[1])) is Some
        && parse_u8_spec(trim(channels[2])) is Some {
        Some(
            rgb(
                parse_u8_spec(trim(channels[0])).unwrap(),
                parse_u8_spec(trim(channels[1])).unwrap(),
                parse_u8_spec(trim(channels[2])).unwrap(),
            ),
        )
    } else {
        None
    }
}

/// The theme after one `key: r,g,b` segment.
pub open spec fn segment_applied(theme: SystemTheme, segment: Seq<u8>) -> SystemTheme {
    let parts = split_on(segment, 0x3a);
    if parts.len() >= 2 {
        match (value_color(trim(parts[1])), theme_key(trim(parts[0]))) {
            (Some(c), Some(slot)) => with_slot(theme, slot, c),
            _ => theme,
        }
    } else {
        theme
    }
}

/// The theme after each segment in turn.
pub open spec fn vibe_applied(theme: SystemTheme, segments: Seq<Seq<u8>>) -> SystemTheme
    decreases segments.len(),
{
    if segments.len() == 0 {
        theme
    } else {
        segment_applied(vibe_applied(theme, segments.drop_last()), segments.last())
    }
}

// ---------------------------------------------------------------------------------------
// Proof helpers for the parser.
// ---------------------------------------------------------------------------------------

proof fn lemma_first_index_found(s: Seq<u8>, sep: u8, i: int)
    requires
        is_first_index(s, sep, i),
    ensures
        first_index_of(s, sep) == Some(i),
{
    let j = choose|j: int| is_first_index(s, sep, j);
    if j < i {
        assert(s[j] != sep);
    } else if i < j {
        assert(s[i] != sep);
    }
}

proof fn lemma_split_found(s: Seq<u8>, sep: u8, i: int)
    requires
        is_first_index(s, sep, i),
    ensures
        split_on(s, sep) == seq![s.subrange(0, i)] + split_on(s.subrange(i + 1, s.len() as int), sep),
{
    lemma_first_index_found(s, sep, i);
}

proof fn lemma_split_none(s: Seq<u8>, sep: u8)
    requires
        forall|j: int| 0 <= j < s.len() ==> s[j] != sep,
    ensures
        split_on(s, sep) == seq![s],
{
    if exists|i: int| is_first_index(s, sep, i) {
        let i = choose|i: int| is_first_index(s, sep, i);
        assert(s[i] == sep);
    }
}

proof fn lemma_decimal_prefix_bounded(s: Seq<u8>, k: int)
    requires
        0 <= k <= s.len(),
        forall|i: int| 0 <= i < s.len() ==> is_digit(#[trigger] s[i]),
    ensures
        decimal(s.subrange(0, k)) <= decimal(s),
        decimal(s) >= 0,
    decreases s.len(),
{
    if s.len() > 0 {
        assert forall|i: int| 0 <= i < s.drop_last().len() implies is_digit(#[trigger] s.drop_last()[i]) by {
            assert(s.drop_last()[i] == s[i]);
        }
        if k == s.len() {
            assert(s.subrange(0, k) =~= s);
            lemma_decimal_prefix_bounded(s.drop_last(), 0);
        } else {
            assert(s.drop_last().subrange(0, k) =~= s.subrange(0, k));
            lemma_decimal_prefix_bounded(s.drop_last(), k);
        }
    }
}

// ---------------------------------------------------------------------------------------
// Executable parser over ranges of the source bytes.
// ---------------------------------------------------------------------------------------

/// First index of `sep` in `bytes[start..end]`, or `end` when there is none.
fn find_byte(bytes: &[u8], start: usize, end: usize, sep: u8) -> (at: usize)
    requires
        start <= end <= bytes@.len(),
    ensures
        start <= at <= end,
        forall|j: int| start <= j < at ==> bytes@[j] != sep,
        at < end ==> bytes@[at as int] == sep,
{
    let mut i = start;
    while i < end
        invariant
            start <= i <= end,
            end <= bytes@.len(),
            forall|j: int| start <= j < i ==> bytes@[j] != sep,
        decreases end - i,
    {
        if bytes[i] == sep {
            return i;
        }
        i = i + 1;
    }
    end
}

fn leading_space_at(bytes: &[u8], start: usize, end: usize) -> (k: usize)
    requires
        start <= end <= bytes@.len(),
    ensures
        k == leading_space_len(bytes@.subrange(start as int, end as int)),
{
    let ghost s = bytes@.subrange(start as int, end as int);
    let n = end - start;
    if n >= 1 {
        let a = bytes[start];
        if a == 0x20 || (0x09 <= a && a <= 0x0d) {
            return 1;
        }
    }
    if n >= 2 {
        let a = bytes[start];
        let b = bytes[start + 1];
        if a == 0xc2 && (b == 0x85 || b == 0xa0) {
            return 2;
        }
    }
    if n >= 3 {
        let a = bytes[start];
        let b = bytes[start + 1];
        let c = bytes[start + 2];
        if (a == 0xe1 && b == 0x9a && c == 0x80) || (a == 0xe2 && b == 0x80 && ((0x80 <= c && c <= 0x8a) || c == 0xa8
            || c == 0xa9 || c == 0xaf)) || (a == 0xe2 && b == 0x81 && c == 0x9f) || (a == 0xe3 && b == 0x80 && c == 0x80) {
            return 3;
        }
    }
    0
}

fn trailing_space_at(bytes: &[u8], start: usize, end: usize) -> (k: usize)
    requires
        start <= end <= bytes@.len(),
    ensures
        k == trailing_space_len(bytes@.subrange(start as int, end as int)),
{
    let ghost s = bytes@.subrange(start as int, end as int);
    let n = end - start;
    if n >= 1 {
        let a = bytes[end - 1];
        if a == 0x20 || (0x09 <= a && a <= 0x0d) {
            return 1;
        }
    }
    if n >= 2 {
        let a = bytes[end - 2];
        let b = bytes[end - 1];
        if a == 0xc2 && (b == 0x85 || b == 0xa0) {
            return 2;
        }
    }
    if n >= 3 {
        let a = bytes[end - 3];
        let b = bytes[end - 2];
        let c = bytes[end - 1];
        if (a == 0xe1 && b == 0x9a && c == 0x80) || (a == 0xe2 && b == 0x80 && ((0x80 <= c && c <= 0x8a) || c == 0xa8
            || c == 0xa9 || c == 0xaf)) || (a == 0xe2 && b == 0x81 && c == 0x9f) || (a == 0xe3 && b == 0x80 && c == 0x80) {
            return 3;
        }
    }
    0
}

/// The range `bytes[start..end]` trimmed of white space at both ends.
fn trim_range(bytes: &[u8], start: usize, end: usize) -> (range: (usize, usize))
    requires
        start <= end <= bytes@.len(),
    ensures
        start <= range.0 <= range.1 <= end,
        bytes@.subrange(range.0 as int, range.1 as int) == trim(bytes@.subrange(start as int, end as int)),
{
    let mut s = start;
    loop
        invariant
            start <= s <= end,
            end <= bytes@.len(),
            trim_start(bytes@.subrange(start as int, end as int)) == trim_start(bytes@.subrange(s as int, end as int)),
        ensures
            start <= s <= end,
            trim_start(bytes@.subrange(start as int, end as int)) == bytes@.subrange(s as int, end as int),
        decreases end - s,
    {
        let k = leading_space_at(bytes, s, end);
        if k == 0 {
            break;
        }
        proof {
            assert(bytes@.subrange(s as int, end as int).subrange(k as int, (end - s) as int) =~= bytes@.subrange(
                s + k,
                end as int,
            ));
        }
        s = s + k;
    }
    let mut e = end;
    loop
        invariant
            start <= s <= e <= end,
            end <= bytes@.len(),
            trim_start(bytes@.subrange(start as int, end as int)) == bytes@.subrange(s as int, end as int),
            trim_end(bytes@.subrange(s as int, end as int)) == trim_end(bytes@.subrange(s as int, e as int)),
        ensures
            start <= s <= e <= end,
            trim(bytes@.subrange(start as int, end as int)) == bytes@.subrange(s as int, e as int),
        decreases e - s,
    {
        let k = trailing_space_at(bytes, s, e);
        if k == 0 {
            break;
        }
        proof {
            assert(bytes@.subrange(s as int, e as int).subrange(0, (e - s) - k) =~= bytes@.subrange(s as int, e - k));
        }
        e = e - k;
    }
    (s, e)
}

/// Parses `bytes[start..end]` as a channel value from 0 to 255.
fn parse_u8(bytes: &[u8], start: usize, end: usize) -> (value: Option<u8>)
    requires
        start <= end <= bytes@.len(),
    ensures
        value == parse_u8_spec(bytes@.subrange(start as int, end as int)),
{
    let ghost s = bytes@.subrange(start as int, end as int);
    let mut value: u32 = 0;
    let mut i = start;
    while i < end
        invariant
            start <= i <= end,
            end <= bytes@.len(),
            s == bytes@.subrange(start as int, end as int),
            forall|j: int| 0 <= j < i - start ==> is_digit(#[trigger] s[j]),
            value == decimal(s.subrange(0, i - start)),
            value <= 255,
        decreases end - i,
    {
        let byte = bytes[i];
        if !(0x30 <= byte && byte <= 0x39) {
            proof {
                assert(!is_digit(s[i - start]));
            }
            return None;
        }
        assert(s.subrange(0, i + 1 - start).drop_last() =~= s.subrange(0, i - start));
        value = value * 10 + (byte - 0x30) as u32;
        if value > 255 {
            proof {
                if forall|j: int| 0 <= j < s.len() ==> is_digit(#[trigger] s[j]) {
                    lemma_decimal_prefix_bounded(s, i + 1 - start);
                }
            }
            return None;
        }
        i = i + 1;
    }
    assert(s.subrange(0, s.len() as int) =~= s);
    Some(value as u8)
}

/// The theme slot `bytes[start..end]` names.
fn theme_key_at(bytes: &[u8], start: usize, end: usize) -> (slot: Option<ThemeSlot>)
    requires
        start <= end <= bytes@.len(),
    ensures
        slot == theme_key(bytes@.subrange(start as int, end as int)),
{
    let ghost key = bytes@.subrange(start as int, end as int);
    let background: [u8; 10] = [0x62, 0x61, 0x63, 0x6b, 0x67, 0x72, 0x6f, 0x75, 0x6e, 0x64];
    let surface: [u8; 7] = [0x73, 0x75, 0x72, 0x66, 0x61, 0x63, 0x65];
    let primary_accent: [u8; 14] = [0x70, 0x72, 0x69, 0x6d, 0x61, 0x72, 0x79, 0x5f, 0x61, 0x63, 0x63, 0x65, 0x6e, 0x74];
    let secondary_accent: [u8; 16] = [
        0x73, 0x65, 0x63, 0x6f, 0x6e, 0x64, 0x61, 0x72, 0x79, 0x5f, 0x61, 0x63, 0x63, 0x65, 0x6e, 0x74,
    ];
    let interactive_element: [u8; 19] = [
        0x69, 0x6e, 0x74, 0x65, 0x72, 0x61, 0x63, 0x74, 0x69, 0x76, 0x65, 0x5f, 0x65, 0x6c, 0x65, 0x6d, 0x65, 0x6e, 0x74,
    ];
    let text_primary: [u8; 12] = [0x74, 0x65, 0x78, 0x74, 0x5f, 0x70, 0x72, 0x69, 0x6d, 0x61, 0x72, 0x79];
    assert(background@ =~= key_background());
    assert(surface@ =~= key_surface());
    assert(primary_accent@ =~= key_primary_accent());
    assert(secondary_accent@ =~= key_secondary_accent());
    assert(interactive_element@ =~= key_interactive_element());
    assert(text_primary@ =~= key_text_primary());
    if range_equals(bytes, start, end, background.as_slice()) {
        Some(ThemeSlot::Background)
    } else if range_equals(bytes, start, end, surface.as_slice()) {
        Some(ThemeSlot::Surface)
    } else if range_equals(bytes, start, end, primary_accent.as_slice()) {
        Some(ThemeSlot::PrimaryAccent)
    } else if range_equals(bytes, start, end, secondary_accent.as_slice()) {
        Some(ThemeSlot::SecondaryAccent)
    } else if range_equals(bytes, start, end, interactive_element.as_slice()) {
        Some(ThemeSlot::InteractiveElement)
    } else if range_equals(bytes, start, end, text_primary.as_slice()) {
        Some(ThemeSlot::TextPrimary)
    } else {
        None
    }
}

/// Whether `bytes[start..end]` equals `expected`.
fn range_equals(bytes: &[u8], start: usize, end: usize, expected: &[u8]) -> (equal: bool)
    requires
        start <= end <= bytes@.len(),
    ensures
        equal == (bytes@.subrange(start as int, end as int) == expected@),
{
    if end - start != expected.len() {
        return false;
    }
    let mut i: usize = 0;
    while i < expected.len()
        invariant
            i <= expected@.len(),
            end - start == expected@.len(),
            end <= bytes@.len(),
            forall|j: int| 0 <= j < i ==> bytes@[start + j] == expected@[j],
        decreases expected.len() - i,
    {
        if bytes[start + i] != expected[i] {
            assert(bytes@.subrange(start as int, end as int)[i as int] != expected@[i as int]);
            return false;
        }
        i = i + 1;
    }
    assert(bytes@.subrange(start as int, end as int) =~= expected@);
    true
}

/// The colour the trimmed value `bytes[start..end]` denotes.
#[verifier::spinoff_prover]
#[verifier::rlimit(60)]
fn value_color_at(bytes: &[u8], start: usize, end: usize) -> (c: Option<ColorRgb>)
    requires
        start <= end <= bytes@.len(),
    ensures
        c == value_color(bytes@.subrange(start as int, end as int)),
{
    let ghost v = bytes@.subrange(start as int, end as int);
    let c1 = find_byte(bytes, start, end, 0x2c);
    if c1 == end {
        proof {
            lemma_split_none(v, 0x2c);
        }
        return None;
    }
    proof {
        lemma_split_found(v, 0x2c, c1 - start);
        assert(v.subrange(0, c1 - start) =~= bytes@.subrange(start as int, c1 as int));
        assert(v.subrange(c1 - start + 1, v.len() as int) =~= bytes@.subrange(c1 + 1, end as int));
    }
    let ghost rest1 = bytes@.subrange(c1 + 1, end as int);
    let c2 = find_byte(bytes, c1 + 1, end, 0x2c);
    if c2 == end {
        proof {
            lemma_split_none(rest1, 0x2c);
        }
        return None;
    }
    proof {
        lemma_split_found(rest1, 0x2c, c2 - c1 - 1);
        assert(rest1.subrange(0, c2 - c1 - 1) =~= bytes@.subrange(c1 + 1, c2 as int));
        assert(rest1.subrange(c2 - c1, rest1.len() as int) =~= bytes@.subrange(c2 + 1, end as int));
    }
    let ghost rest2 = bytes@.subrange(c2 + 1, end as int);
    let c3 = find_byte(bytes, c2 + 1, end, 0x2c);
    proof {
        if c3 == end {
            lemma_split_none(rest2, 0x2c);
            assert(rest2 =~= bytes@.subrange(c2 + 1, c3 as int));
        } else {
            lemma_split_found(rest2, 0x2c, c3 - c2 - 1);
            assert(rest2.subrange(0, c3 - c2 - 1) =~= bytes@.subrange(c2 + 1, c3 as int));
        }
        let channels = split_on(v, 0x2c);
        assert(channels[0] == bytes@.subrange(start as int, c1 as int));
        assert(channels[1] == bytes@.subrange(c1 + 1, c2 as int));
        assert(channels[2] == bytes@.subrange(c2 + 1, c3 as int));
    }
    let (r0, r1) = trim_range(bytes, start, c1);
    let red = parse_u8(bytes, r0, r1);
    let (g0, g1) = trim_range(bytes, c1 + 1, c2);
    let green = parse_u8(bytes, g0, g1);
    let (b0, b1) = trim_range(bytes, c2 + 1, c3);
    let blue = parse_u8(bytes, b0, b1);
    match (red, green, blue) {
        (Some(r), Some(g), Some(b)) => Some(color(r, g, b)),
        _ => None,
    }
}

impl SystemTheme {
    /// The palette of a preset.
    pub fn obtain_preset(preset: ThemePreset) -> (theme: Self)
        ensures
            theme == preset_palette(preset),
    {
        match preset {
            ThemePreset::Dark => SystemTheme {
                background: color(15, 23, 42),
                surface: color(30, 41, 59),
                primary_accent: color(56, 189, 248),
                secondary_accent: color(99, 102, 241),
                interactive_element: color(51, 65, 85),
                text_primary: color(248, 250, 252),
            },
            ThemePreset::Golden => SystemTheme {
                background: color(20, 17, 10),
                surface: color(43, 34, 16),
                primary_accent: color(234, 179, 8),
                secondary_accent: color(202, 138, 4),
                interactive_element: color(67, 56, 202),
                text_primary: color(254, 249, 195),
            },
            ThemePreset::Light => SystemTheme {
                background: color(241, 245, 249),
                surface: color(255, 255, 255),
                primary_accent: color(37, 99, 235),
                secondary_accent: color(79, 70, 229),
                interactive_element: color(226, 232, 240),
                text_primary: color(15, 23, 42),
            },
            ThemePreset::Linda => SystemTheme {
                background: color(24, 14, 36),
                surface: color(45, 21, 62),
                primary_accent: color(244, 63, 94),
                secondary_accent: color(168, 85, 247),
                interactive_element: color(76, 29, 149),
                text_primary: color(253, 244, 255),
            },
            ThemePreset::Occult => SystemTheme {
                background: color(10, 4, 4),
                surface: color(28, 10, 10),
                primary_accent: color(220, 38, 38),
                secondary_accent: color(126, 34, 206),
                interactive_element: color(69, 10, 10),
                text_primary: color(239, 68, 68),
            },
        }
    }

    /// Applies one segment `bytes[start..end]`.
    #[verifier::spinoff_prover]
    #[verifier::rlimit(60)]
    fn apply_segment(&mut self, bytes: &[u8], start: usize, end: usize)
        requires
            start <= end <= bytes@.len(),
        ensures
            *final(self) == segment_applied(*old(self), bytes@.subrange(start as int, end as int)),
    {
        let ghost seg = bytes@.subrange(start as int, end as int);
        let colon = find_byte(bytes, start, end, 0x3a);
        if colon == end {
            proof {
                lemma_split_none(seg, 0x3a);
            }
            return;
        }
        proof {
            lemma_split_found(seg, 0x3a, colon - start);
            assert(seg.subrange(0, colon - start) =~= bytes@.subrange(start as int, colon as int));
            assert(seg.subrange(colon - start + 1, seg.len() as int) =~= bytes@.subrange(colon + 1, end as int));
        }
        let ghost rest = bytes@.subrange(colon + 1, end as int);
        let value_end = find_byte(bytes, colon + 1, end, 0x3a);
        proof {
            if value_end == end {
                lemma_split_none(rest, 0x3a);
                assert(rest =~= bytes@.subrange(colon + 1, value_end as int));
            } else {
                lemma_split_found(rest, 0x3a, value_end - colon - 1);
                assert(rest.subrange(0, value_end - colon - 1) =~= bytes@.subrange(colon + 1, value_end as int));
            }
            let parts = split_on(seg, 0x3a);
            assert(parts[0] == bytes@.subrange(start as int, colon as int));
            assert(parts[1] == bytes@.subrange(colon + 1, value_end as int));
        }
        let (k0, k1) = trim_range(bytes, start, colon);
        let (v0, v1) = trim_range(bytes, colon + 1, value_end);
        let c = match value_color_at(bytes, v0, v1) {
            Some(c) => c,
            None => {
                return;
            },
        };
        match theme_key_at(bytes, k0, k1) {
            Some(ThemeSlot::Background) => self.background = c,
            Some(ThemeSlot::Surface) => self.surface = c,
            Some(ThemeSlot::PrimaryAccent) => self.primary_accent = c,
            Some(ThemeSlot::SecondaryAccent) => self.secondary_accent = c,
            Some(ThemeSlot::InteractiveElement) => self.interactive_element = c,
            Some(ThemeSlot::TextPrimary) => self.text_primary = c,
            None => {},
        }
    }

    /// Parses intent strings like `primary_accent: 250,204,21; secondary_accent: 236,72,153;`
    /// and sets each named colour.
    pub fn execute_vibe_modification(&mut self, source_intent: &str)
        ensures
            *final(self) == vibe_applied(*old(self), split_on(source_intent.spec_bytes(), 0x3b)),
    {
        let bytes = source_intent.as_bytes();
        let ghost all = bytes@;
        let mut start: usize = 0;
        let mut i: usize = 0;
        let ghost mut done: Seq<Seq<u8>> = Seq::empty();
        assert(all.subrange(0, all.len() as int) =~= all);
        assert(Seq::<Seq<u8>>::empty() + split_on(all, 0x3b) =~= split_on(all, 0x3b));
        while i < bytes.len()
            invariant
                start <= i <= bytes@.len(),
                all == bytes@,
                forall|j: int| start <= j < i ==> bytes@[j] != 0x3b,
                split_on(all, 0x3b) == done + split_on(all.subrange(start as int, all.len() as int), 0x3b),
                *self == vibe_applied(*old(self), done),
            decreases bytes.len() - i,
        {
            if bytes[i] == 0x3b {
                proof {
                    let rest = all.subrange(start as int, all.len() as int);
                    lemma_split_found(rest, 0x3b, i - start);
                    assert(rest.subrange(0, i - start) =~= all.subrange(start as int, i as int));
                    assert(rest.subrange(i - start + 1, rest.len() as int) =~= all.subrange(i + 1, all.len() as int));
                }
                self.apply_segment(bytes, start, i);
                proof {
                    let seg = all.subrange(start as int, i as int);
                    assert((done.push(seg)).drop_last() =~= done);
                    assert(done + (seq![seg] + split_on(all.subrange(i + 1, all.len() as int), 0x3b)) =~= done.push(seg)
                        + split_on(all.subrange(i + 1, all.len() as int), 0x3b));
                    done = done.push(seg);
                }
                start = i + 1;
            }
            i = i + 1;
        }
        proof {
            let rest = all.subrange(start as int, all.len() as int);
            lemma_split_none(rest, 0x3b);
        }
        self.apply_segment(bytes, start, bytes.len());
        proof {
            let seg = all.subrange(start as int, all.len() as int);
            assert((done.push(seg)).drop_last() =~= done);
            assert(done + seq![seg] =~= done.push(seg));
        }
    }
}

/// Law: a well-formed assignment sets exactly the named colour.
pub proof fn law_single_assignment(theme: SystemTheme, key: Seq<u8>, value: Seq<u8>, c: ColorRgb, slot: ThemeSlot)
    requires
        forall|i: int| 0 <= i < key.len() ==> key[i] != 0x3a,
        forall|i: int| 0 <= i < value.len() ==> value[i] != 0x3a,
        theme_key(trim(key)) == Some(slot),
        value_color(trim(value)) == Some(c),
    ensures
        segment_applied(theme, key + seq![0x3au8] + value) == with_slot(theme, slot, c),
{
    let seg = key + seq![0x3au8] + value;
    assert(is_first_index(seg, 0x3a, key.len() as int));
    lemma_split_found(seg, 0x3a, key.len() as int);
    assert(seg.subrange(0, key.len() as int) =~= key);
    assert(seg.subrange(key.len() as int + 1, seg.len() as int) =~= value);
    lemma_split_none(value, 0x3a);
}

/// Law: a segment without a colon changes nothing.
pub proof fn law_segment_without_colon_ignored(theme: SystemTheme, segment: Seq<u8>)
    requires
        forall|i: int| 0 <= i < segment.len() ==> segment[i] != 0x3a,
    ensures
        segment_applied(theme, segment) == theme,
{
    lemma_split_none(segment, 0x3a);
}

/// Law: segments apply left to right, so a later assignment of the same key wins.
pub proof fn law_segments_apply_in_order(theme: SystemTheme, segments: Seq<Seq<u8>>, last: Seq<u8>)
    ensures
        vibe_applied(theme, segments.push(last)) == segment_applied(vibe_applied(theme, segments), last),
{
    assert(segments.push(last).drop_last() =~= segments);
}

proof fn lemma_separator_has_first(a: Seq<u8>, sep: u8, j: int)
    requires
        0 <= j < a.len(),
        a[j] == sep,
    ensures
        exists|i: int| is_first_index(a, sep, i),
    decreases j,
{
    if exists|m: int| 0 <= m < j && a[m] == sep {
        let m = choose|m: int| 0 <= m < j && a[m] == sep;
        lemma_separator_has_first(a, sep, m);
    } else {
        assert(is_first_index(a, sep, j));
    }
}

/// Splitting two texts joined by one separator gives the pieces of each, in order.
#[verifier::spinoff_prover]
#[verifier::rlimit(40)]
proof fn lemma_split_joined(a: Seq<u8>, b: Seq<u8>, sep: u8)
    ensures
        split_on(a + seq![sep] + b, sep) == split_on(a, sep) + split_on(b, sep),
    decreases a.len(),
{
    let joined = a + seq![sep] + b;
    if exists|i: int| is_first_index(a, sep, i) {
        let i = choose|i: int| is_first_index(a, sep, i);
        assert(is_first_index(joined, sep, i));
        lemma_split_found(a, sep, i);
        lemma_split_found(joined, sep, i);
        let rest = a.subrange(i + 1, a.len() as int);
        assert(joined.subrange(0, i) =~= a.subrange(0, i));
        assert(joined.subrange(i + 1, joined.len() as int) =~= rest + seq![sep] + b);
        lemma_split_joined(rest, b, sep);
        assert(seq![a.subrange(0, i)] + (split_on(rest, sep) + split_on(b, sep)) =~= seq![a.subrange(0, i)] + split_on(rest, sep)
            + split_on(b, sep));
    } else {
        assert forall|j: int| 0 <= j < a.len() implies a[j] != sep by {
            if a[j] == sep {
                lemma_separator_has_first(a, sep, j);
            }
        }
        lemma_split_none(a, sep);
        assert(is_first_index(joined, sep, a.len() as int));
        lemma_split_found(joined, sep, a.len() as int);
        assert(joined.subrange(0, a.len() as int) =~= a);
        assert(joined.subrange(a.len() as int + 1, joined.len() as int) =~= b);
    }
}

proof fn lemma_vibe_concat(theme: SystemTheme, s1: Seq<Seq<u8>>, s2: Seq<Seq<u8>>)
    ensures
        vibe_applied(theme, s1 + s2) == vibe_applied(vibe_applied(theme, s1), s2),
    decreases s2.len(),
{
    if s2.len() == 0 {
        assert(s1 + s2 =~= s1);
    } else {
        assert((s1 + s2).drop_last() =~= s1 + s2.drop_last());
        assert((s1 + s2).last() == s2.last());
        lemma_vibe_concat(theme, s1, s2.drop_last());
    }
}

/// Law: applying two vibe strings one after the other is applying them once, joined by a
/// semicolon.
pub proof fn law_vibe_strings_compose(theme: SystemTheme, first: Seq<u8>, second: Seq<u8>)
    ensures
        vibe_applied(vibe_applied(theme, split_on(first, 0x3b)), split_on(second, 0x3b)) == vibe_applied(
            theme,
            split_on(first + seq![0x3bu8] + second, 0x3b),
        ),
{
    lemma_split_joined(first, second, 0x3b);
    lemma_vibe_concat(theme, split_on(first, 0x3b), split_on(second, 0x3b));
}

/// Law: the preset palettes are the documented table (red, green, blue per slot: background,
/// surface, primary accent, secondary accent, interactive element, primary text).
pub proof fn law_preset_table()
    ensures
        ({
            let t = preset_palette(ThemePreset::Dark);
            &&& (t.background.red, t.background.green, t.background.blue) == (15u8, 23u8, 42u8)
            &&& (t.surface.red, t.surface.green, t.surface.blue) == (30u8, 41u8, 59u8)
            &&& (t.primary_accent.red, t.primary_accent.green, t.primary_accent.blue) == (56u8, 189u8, 248u8)
            &&& (t.secondary_accent.red, t.secondary_accent.green, t.secondary_accent.blue) == (99u8, 102u8, 241u8)
            &&& (t.interactive_element.red, t.interactive_element.green, t.interactive_element.blue) == (51u8, 65u8, 85u8)
            &&& (t.text_primary.red, t.text_primary.green, t.text_primary.blue) == (248u8, 250u8, 252u8)
        }),
        ({
            let t = preset_palette(ThemePreset::Golden);
            &&& (t.background.red, t.background.green, t.background.blue) == (20u8, 17u8, 10u8)
            &&& (t.surface.red, t.surface.green, t.surface.blue) == (43u8, 34u8, 16u8)
            &&& (t.primary_accent.red, t.primary_accent.green, t.primary_accent.blue) == (234u8, 179u8, 8u8)
            &&& (t.secondary_accent.red, t.secondary_accent.green, t.secondary_accent.blue) == (202u8, 138u8, 4u8)
            &&& (t.interactive_element.red, t.interactive_element.green, t.interactive_element.blue) == (67u8, 56u8, 202u8)
            &&& (t.text_primary.red, t.text_primary.green, t.text_primary.blue) == (254u8, 249u8, 195u8)
        }),
        ({
            let t = preset_palette(ThemePreset::Light);
            &&& (t.background.red, t.background.green, t.background.blue) == (241u8, 245u8, 249u8)
            &&& (t.surface.red, t.surface.green, t.surface.blue) == (255u8, 255u8, 255u8)
            &&& (t.primary_accent.red, t.primary_accent.green, t.primary_accent.blue) == (37u8, 99u8, 235u8)
            &&& (t.secondary_accent.red, t.secondary_accent.green, t.secondary_accent.blue) == (79u8, 70u8, 229u8)
            &&& (t.interactive_element.red, t.interactive_element.green, t.interactive_element.blue) == (226u8, 232u8, 240u8)
            &&& (t.text_primary.red, t.text_primary.green, t.text_primary.blue) == (15u8, 23u8, 42u8)
        }),
        ({
            let t = preset_palette(ThemePreset::Linda);
            &&& (t.background.red, t.background.green, t.background.blue) == (24u8, 14u8, 36u8)
            &&& (t.surface.red, t.surface.green, t.surface.blue) == (45u8, 21u8, 62u8)
            &&& (t.primary_accent.red, t.primary_accent.green, t.primary_accent.blue) == (244u8, 63u8, 94u8)
            &&& (t.secondary_accent.red, t.secondary_accent.green, t.secondary_accent.blue) == (168u8, 85u8, 247u8)
            &&& (t.interactive_element.red, t.interactive_element.green, t.interactive_element.blue) == (76u8, 29u8, 149u8)
            &&& (t.text_primary.red, t.text_primary.green, t.text_primary.blue) == (253u8, 244u8, 255u8)
        }),
        ({
            let t = preset_palette(ThemePreset::Occult);
            &&& (t.background.red, t.background.green, t.background.blue) == (10u8, 4u8, 4u8)
            &&& (t.surface.red, t.surface.green, t.surface.blue) == (28u8, 10u8, 10u8)
            &&& (t.primary_accent.red, t.primary_accent.green, t.primary_accent.blue) == (220u8, 38u8, 38u8)
            &&& (t.secondary_accent.red, t.secondary_accent.green, t.secondary_accent.blue) == (126u8, 34u8, 206u8)
            &&& (t.interactive_element.red, t.interactive_element.green, t.interactive_element.blue) == (69u8, 10u8, 10u8)
            &&& (t.text_primary.red, t.text_primary.green, t.text_primary.blue) == (239u8, 68u8, 68u8)
        }),
{
}

/// Law: only the Light preset ("daylight canvas") puts dark text on a light background;
/// every other preset puts light text on a dark background.
pub proof fn law_only_light_preset_is_light(preset: ThemePreset)
    ensures
        ({
            let t = preset_palette(preset);
            let background = t.background.red as int + t.background.green as int + t.background.blue as int;
            let text = t.text_primary.red as int + t.text_primary.green as int + t.text_primary.blue as int;
            (background > text) <==> (preset == ThemePreset::Light)
        }),
{
}

/// Law: preset numbers follow the documented ids: 0 Dark, 1 Golden, 2 Light, 3 Linda,
/// 4 Occult, anything else Dark.
pub proof fn law_preset_ids(value: u32)
    ensures
        value == 1 ==> preset_for(value) == ThemePreset::Golden,
        value == 2 ==> preset_for(value) == ThemePreset::Light,
        value == 3 ==> preset_for(value) == ThemePreset::Linda,
        value == 4 ==> preset_for(value) == ThemePreset::Occult,
        !(1 <= value <= 4) ==> preset_for(value) == ThemePreset::Dark,
{
}

} // verus!
