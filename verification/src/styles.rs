//! The enumerated properties of elements, and their positions in the
//! sidebar's dropdowns.
use vstd::prelude::*;

verus! {

/// Horizontal alignment of text inside its box.
#[derive(Debug, Clone, Copy, PartialEq, Eq, Structural)]
pub enum TextAlignH {
    Left,
    Center,
    Right,
}

/// Vertical alignment of text inside its box.
#[derive(Debug, Clone, Copy, PartialEq, Eq, Structural)]
pub enum TextAlignV {
    Top,
    Middle,
    Bottom,
}

/// The end of a line element.
#[derive(Debug, Clone, Copy, PartialEq, Eq, Structural)]
pub enum LineCap {
    Arrow,
    Round,
    Flat,
}

/// The kinds of filled shape.
#[derive(Debug, Clone, Copy, PartialEq, Eq, Structural)]
pub enum ShapeType {
    Rectangle,
    Banner,
}

impl Default for TextAlignH {
    fn default() -> (a: Self)
        ensures
            a == TextAlignH::Left,
    {
        TextAlignH::Left
    }
}

impl Default for TextAlignV {
    fn default() -> (a: Self)
        ensures
            a == TextAlignV::Top,
    {
        TextAlignV::Top
    }
}

/// Lines end in an arrow unless a document says otherwise.
pub fn default_line_cap() -> (c: LineCap)
    ensures
        c == LineCap::Arrow,
{
    LineCap::Arrow
}

/// The entry of the horizontal text alignment dropdown ("Left", "Center",
/// "Right") that shows `a`.
pub open spec fn align_h_position(a: TextAlignH) -> usize {
    match a {
        TextAlignH::Left => 0,
        TextAlignH::Center => 1,
        TextAlignH::Right => 2,
    }
}

/// The alignment that entry `i` of the horizontal text alignment dropdown
/// stands for; an entry past the list reads as "Left".
pub open spec fn align_h_at(i: usize) -> TextAlignH {
    if i == 1 {
        TextAlignH::Center
    } else if i == 2 {
        TextAlignH::Right
    } else {
        TextAlignH::Left
    }
}

/// The entry of the vertical text alignment dropdown ("Top", "Middle",
/// "Bottom") that shows `a`.
pub open spec fn align_v_position(a: TextAlignV) -> usize {
    match a {
        TextAlignV::Top => 0,
        TextAlignV::Middle => 1,
        TextAlignV::Bottom => 2,
    }
}

/// The alignment that entry `i` of the vertical text alignment dropdown
/// stands for; an entry past the list reads as "Top".
pub open spec fn align_v_at(i: usize) -> TextAlignV {
    if i == 1 {
        TextAlignV::Middle
    } else if i == 2 {
        TextAlignV::Bottom
    } else {
        TextAlignV::Top
    }
}

/// The entry of the line end dropdown ("Arrow", "Round", "Flat") that
/// shows `c`.
pub open spec fn line_cap_position(c: LineCap) -> usize {
    match c {
        LineCap::Arrow => 0,
        LineCap::Round => 1,
        LineCap::Flat => 2,
    }
}

/// The line end that entry `i` of the line end dropdown stands for; an
/// entry past the list reads as "Arrow".
pub open spec fn line_cap_at(i: usize) -> LineCap {
    if i == 1 {
        LineCap::Round
    } else if i == 2 {
        LineCap::Flat
    } else {
        LineCap::Arrow
    }
}

impl TextAlignH {
    /// The dropdown entry that shows this alignment.
    pub fn to_index(self) -> (i: usize)
        ensures
            i == align_h_position(self),
    {
        match self {
            TextAlignH::Left => 0,
            TextAlignH::Center => 1,
            TextAlignH::Right => 2,
        }
    }

    /// The alignment that a dropdown entry stands for.
    pub fn from_index(i: usize) -> (a: Self)
        ensures
            a == align_h_at(i),
    {
        if i == 1 {
            TextAlignH::Center
        } else if i == 2 {
            TextAlignH::Right
        } else {
            TextAlignH::Left
        }
    }
}

impl TextAlignV {
    /// The dropdown entry that shows this alignment.
    pub fn to_index(self) -> (i: usize)
        ensures
            i == align_v_position(self),
    {
        match self {
            TextAlignV::Top => 0,
            TextAlignV::Middle => 1,
            TextAlignV::Bottom => 2,
        }
    }

    /// The alignment that a dropdown entry stands for.
    pub fn from_index(i: usize) -> (a: Self)
        ensures
            a == align_v_at(i),
    {
        if i == 1 {
            TextAlignV::Middle
        } else if i == 2 {
            TextAlignV::Bottom
        } else {
            TextAlignV::Top
        }
    }
}

impl LineCap {
    /// The dropdown entry that shows this line end.
    pub fn to_index(self) -> (i: usize)
        ensures
            i == line_cap_position(self),
    {
        match self {
            LineCap::Arrow => 0,
            LineCap::Round => 1,
            LineCap::Flat => 2,
        }
    }

    /// The line end that a dropdown entry stands for.
    pub fn from_index(i: usize) -> (c: Self)
        ensures
            c == line_cap_at(i),
    {
        if i == 1 {
            LineCap::Round
        } else if i == 2 {
            LineCap::Flat
        } else {
            LineCap::Arrow
        }
    }
}

impl ShapeType {
    /// The name shown for a shape of this kind.
    pub fn name(self) -> (s: &'static str)
        ensures
            s@ == shape_name(self),
    {
        match self {
            ShapeType::Rectangle => "Rectangle",
            ShapeType::Banner => "Banner",
        }
    }
}

/// The name shown for a shape kind.
pub open spec fn shape_name(t: ShapeType) -> Seq<char> {
    match t {
        ShapeType::Rectangle => "Rectangle"@,
        ShapeType::Banner => "Banner"@,
    }
}

/// Where on the page an element is aligned along one axis: at the start
/// (left or top), in the middle, or at the end (right or bottom).
#[derive(Debug, Clone, Copy, PartialEq, Eq, Structural)]
pub enum PageAlign {
    Start,
    Center,
    End,
}

/// The page alignment that entry `i` of a page alignment dropdown ("--",
/// then start, middle, end) asks for; "--" and entries past the list ask
/// for none.
pub open spec fn page_align_at(i: usize) -> Option<PageAlign> {
    if i == 1 {
        Some(PageAlign::Start)
    } else if i == 2 {
        Some(PageAlign::Center)
    } else if i == 3 {
        Some(PageAlign::End)
    } else {
        None
    }
}

/// The page alignment asked for by a dropdown entry.
pub fn page_align_from_index(i: usize) -> (a: Option<PageAlign>)
    ensures
        a == page_align_at(i),
{
    if i == 1 {
        Some(PageAlign::Start)
    } else if i == 2 {
        Some(PageAlign::Center)
    } else if i == 3 {
        Some(PageAlign::End)
    } else {
        None
    }
}

/// The dropdown entry that shows where an element sits, given whether it
/// sits at the start, in the middle, or at the end of the page (checked in
/// that order); "--" (entry 0) when it sits at none of them.
pub fn page_align_index(at_start: bool, at_center: bool, at_end: bool) -> (i: usize)
    ensures
        i == if at_start {
            1usize
        } else if at_center {
            2usize
        } else if at_end {
            3usize
        } else {
            0usize
        },
{
    if at_start {
        1
    } else if at_center {
        2
    } else if at_end {
        3
    } else {
        0
    }
}

/// Showing an alignment in the dropdown and reading the entry back gives
/// the same alignment; reading an entry of the list and showing the result
/// gives the same entry.
pub proof fn lemma_align_h_round_trip(a: TextAlignH, i: usize)
    ensures
        align_h_at(align_h_position(a)) == a,
        i < 3 ==> align_h_position(align_h_at(i)) == i,
{
}

/// The vertical alignment dropdown reads back what it shows.
pub proof fn lemma_align_v_round_trip(a: TextAlignV, i: usize)
    ensures
        align_v_at(align_v_position(a)) == a,
        i < 3 ==> align_v_position(align_v_at(i)) == i,
{
}

/// The line end dropdown reads back what it shows.
pub proof fn lemma_line_cap_round_trip(c: LineCap, i: usize)
    ensures
        line_cap_at(line_cap_position(c)) == c,
        i < 3 ==> line_cap_position(line_cap_at(i)) == i,
{
}

/// The entries of the horizontal text alignment dropdown, in order.
pub open spec fn align_h_entries() -> Seq<Seq<char>> {
    seq!["Left"@, "Center"@, "Right"@]
}

/// The word that names a horizontal alignment.
pub open spec fn align_h_label(a: TextAlignH) -> Seq<char> {
    match a {
        TextAlignH::Left => "Left"@,
        TextAlignH::Center => "Center"@,
        TextAlignH::Right => "Right"@,
    }
}

/// The entries of the vertical text alignment dropdown, in order.
pub open spec fn align_v_entries() -> Seq<Seq<char>> {
    seq!["Top"@, "Middle"@, "Bottom"@]
}

/// The word that names a vertical alignment.
pub open spec fn align_v_label(a: TextAlignV) -> Seq<char> {
    match a {
        TextAlignV::Top => "Top"@,
        TextAlignV::Middle => "Middle"@,
        TextAlignV::Bottom => "Bottom"@,
    }
}

/// The entries of the line end dropdown, in order.
pub open spec fn line_cap_entries() -> Seq<Seq<char>> {
    seq!["Arrow"@, "Round"@, "Flat"@]
}

/// The word that names a line end.
pub open spec fn line_cap_label(c: LineCap) -> Seq<char> {
    match c {
        LineCap::Arrow => "Arrow"@,
        LineCap::Round => "Round"@,
        LineCap::Flat => "Flat"@,
    }
}

/// The entries of the page alignment dropdowns, in order: "--" and then
/// the horizontal or the vertical words.
pub open spec fn page_align_h_entries() -> Seq<Seq<char>> {
    seq!["--"@, "Left"@, "Center"@, "Right"@]
}

/// See `page_align_h_entries`.
pub open spec fn page_align_v_entries() -> Seq<Seq<char>> {
    seq!["--"@, "Top"@, "Middle"@, "Bottom"@]
}

/// The words that name a page alignment across and down the page.
pub open spec fn page_align_h_label(a: PageAlign) -> Seq<char> {
    match a {
        PageAlign::Start => "Left"@,
        PageAlign::Center => "Center"@,
        PageAlign::End => "Right"@,
    }
}

/// See `page_align_h_label`.
pub open spec fn page_align_v_label(a: PageAlign) -> Seq<char> {
    match a {
        PageAlign::Start => "Top"@,
        PageAlign::Center => "Middle"@,
        PageAlign::End => "Bottom"@,
    }
}

/// Each text alignment is shown at the entry that bears its name, and each
/// entry of the list stands for the alignment it names; an entry past the
/// list stands for "Left".
pub proof fn lemma_align_h_entries_name_alignments(a: TextAlignH, i: usize)
    ensures
        align_h_position(a) < align_h_entries().len(),
        align_h_entries()[align_h_position(a) as int] == align_h_label(a),
        i < align_h_entries().len() ==> align_h_label(align_h_at(i)) == align_h_entries()[i as int],
        i >= align_h_entries().len() ==> align_h_at(i) == TextAlignH::Left,
{
}

/// The vertical alignment dropdown shows each alignment at the entry that
/// bears its name and reads each entry as the alignment it names; past the
/// list, "Top".
pub proof fn lemma_align_v_entries_name_alignments(a: TextAlignV, i: usize)
    ensures
        align_v_position(a) < align_v_entries().len(),
        align_v_entries()[align_v_position(a) as int] == align_v_label(a),
        i < align_v_entries().len() ==> align_v_label(align_v_at(i)) == align_v_entries()[i as int],
        i >= align_v_entries().len() ==> align_v_at(i) == TextAlignV::Top,
{
}

/// The line end dropdown shows each line end at the entry that bears its
/// name and reads each entry as the line end it names; past the list,
/// "Arrow".
pub proof fn lemma_line_cap_entries_name_line_ends(c: LineCap, i: usize)
    ensures
        line_cap_position(c) < line_cap_entries().len(),
        line_cap_entries()[line_cap_position(c) as int] == line_cap_label(c),
        i < line_cap_entries().len() ==> line_cap_label(line_cap_at(i)) == line_cap_entries()[i as int],
        i >= line_cap_entries().len() ==> line_cap_at(i) == LineCap::Arrow,
{
}

/// A page alignment dropdown's first entry, "--", asks for no alignment;
/// every other entry asks for the alignment it names, across or down the
/// page; and the entry shown for an element reads back as where it sits.
pub proof fn lemma_page_align_entries_name_alignments(
    i: usize,
    at_start: bool,
    at_center: bool,
    at_end: bool,
    shown: usize,
)
    requires
        shown == if at_start {
            1usize
        } else if at_center {
            2usize
        } else if at_end {
            3usize
        } else {
            0usize
        },
    ensures
        page_align_at(0) is None,
        1 <= i < page_align_h_entries().len() ==> (page_align_at(i) matches Some(a)
            && page_align_h_label(a) == page_align_h_entries()[i as int]
            && page_align_v_label(a) == page_align_v_entries()[i as int]),
        i >= page_align_h_entries().len() ==> page_align_at(i) is None,
        page_align_at(shown) == if at_start {
            Some(PageAlign::Start)
        } else if at_center {
            Some(PageAlign::Center)
        } else if at_end {
            Some(PageAlign::End)
        } else {
            None
        },
{
}

} // verus!
