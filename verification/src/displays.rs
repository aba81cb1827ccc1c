//! The displays of the system, and the table that lists them.
use vstd::prelude::*;

use crate::backend::Backend;
use crate::config::Platform;
use crate::text;

verus! {

/// One display.
#[derive(Debug, Clone)]
pub struct DisplayInfo {
    pub id: String,
    pub description: String,
    pub width: u32,
    pub height: u32,
}

/// A [`DisplayInfo`] as plain values.
pub struct DisplayInfoText {
    pub id: Seq<char>,
    pub description: Seq<char>,
    pub width: u32,
    pub height: u32,
}

impl View for DisplayInfo {
    type V = DisplayInfoText;

    open spec fn view(&self) -> DisplayInfoText {
        DisplayInfoText {
            id: self.id@,
            description: self.description@,
            width: self.width,
            height: self.height,
        }
    }
}

impl Default for DisplayInfo {
    fn default() -> (r: DisplayInfo)
        ensures
            r.id@.len() == 0,
            r.description@.len() == 0,
            r.width == 0,
            r.height == 0,
    {
        DisplayInfo { id: String::new(), description: String::new(), width: 0, height: 0 }
    }
}

/// The displays as plain values, in order.
pub open spec fn display_texts(displays: Seq<DisplayInfo>) -> Seq<DisplayInfoText> {
    displays.map_values(|d: DisplayInfo| d@)
}

/// The displays that the backend of the system finds.
pub fn list<B: Backend>() -> (r: Result<Vec<DisplayInfo>, B::Error>)
    ensures
        call_ensures(B::list_displays, (), r),
{
    B::list_displays()
}

/// The displays stand in the order of their ids.
pub open spec fn sorted_by_id(displays: Seq<DisplayInfoText>) -> bool {
    forall|i: int, j: int|
        0 <= i < j < displays.len() ==> !text::text_before(
            (#[trigger] displays[j]).id,
            (#[trigger] displays[i]).id,
        )
}

/// Puts one display into a list that stands in the order of the ids.
fn insert_by_id(displays: &mut Vec<DisplayInfo>, d: DisplayInfo)
    requires
        sorted_by_id(display_texts(old(displays)@)),
    ensures
        sorted_by_id(display_texts(final(displays)@)),
        display_texts(final(displays)@).to_multiset() == display_texts(
            old(displays)@,
        ).to_multiset().insert(d@),
{
    let ghost was = display_texts(displays@);
    let mut at: usize = displays.len();
    while at > 0 && text::before(d.id.as_str(), displays[at - 1].id.as_str())
        invariant
            at <= displays@.len(),
            was == display_texts(displays@),
            forall|k: int|
                at <= k < was.len() ==> text::text_before(d@.id, (#[trigger] was[k]).id),
        decreases at,
    {
        assert(was[at - 1] == displays@[at - 1]@);
        at = at - 1;
    }
    assert(at > 0 ==> was[at - 1] == displays@[at - 1]@);
    displays.insert(at, d);
    proof {
        let t = display_texts(displays@);
        assert(t =~= was.insert(at as int, d@));
        vstd::seq_lib::to_multiset_insert(was, at as int, d@);
        assert forall|i: int, j: int| 0 <= i < j < t.len() implies !text::text_before(
            (#[trigger] t[j]).id,
            (#[trigger] t[i]).id,
        ) by {
            let a = if i < at { i } else { i - 1 };
            let b = if j < at { j } else { j - 1 };
            if i == at {
                assert(t[j] == was[b]);
                text::text_order_total(d@.id, was[b].id);
            } else if j == at {
                assert(t[i] == was[a]);
                if a < at - 1 {
                    assert(!text::text_before(was[at - 1].id, was[a].id));
                    if text::text_before(d@.id, was[a].id) {
                        text::text_order_total(was[at - 1].id, was[a].id);
                        if was[at - 1].id != was[a].id {
                            text::text_order_transitive(d@.id, was[a].id, was[at - 1].id);
                        }
                    }
                }
            } else {
                assert(t[i] == was[a] && t[j] == was[b]);
            }
        }
    }
}

/// The displays in the order of their ids.
pub fn sort_by_id(displays: &Vec<DisplayInfo>) -> (r: Vec<DisplayInfo>)
    ensures
        sorted_by_id(display_texts(r@)),
        display_texts(r@).to_multiset() == display_texts(displays@).to_multiset(),
{
    let ghost texts = display_texts(displays@);
    let mut r: Vec<DisplayInfo> = Vec::new();
    let mut i: usize = 0;
    assert(display_texts(r@) =~= texts.take(0));
    while i < displays.len()
        invariant
            i <= displays@.len(),
            texts == display_texts(displays@),
            sorted_by_id(display_texts(r@)),
            display_texts(r@).to_multiset() == texts.take(i as int).to_multiset(),
        decreases displays@.len() - i,
    {
        let d = DisplayInfo {
            id: displays[i].id.clone(),
            description: displays[i].description.clone(),
            width: displays[i].width,
            height: displays[i].height,
        };
        assert(d@ == texts[i as int]);
        insert_by_id(&mut r, d);
        proof {
            vstd::seq_lib::to_multiset_build(texts.take(i as int), texts[i as int]);
        }
        assert(texts.take(i + 1) =~= texts.take(i as int).push(texts[i as int]));
        i = i + 1;
    }
    assert(texts.take(i as int) =~= texts);
    r
}

/// The number of bytes of a text.
pub open spec fn byte_len(s: Seq<char>) -> nat {
    vstd::utf8::encode_utf8(s).len()
}

/// So many spaces.
pub open spec fn spaces(n: nat) -> Seq<char> {
    Seq::new(n, |i: int| ' ')
}

/// The text, with spaces behind it up to this many characters.
pub open spec fn padded(s: Seq<char>, width: nat) -> Seq<char> {
    if s.len() < width {
        s + spaces((width - s.len()) as nat)
    } else {
        s
    }
}

/// The larger of two numbers.
pub open spec fn larger(a: nat, b: nat) -> nat {
    if a < b {
        b
    } else {
        a
    }
}

/// The width of a column: its longest text, header included.
pub open spec fn column_width(header: Seq<char>, cells: Seq<Seq<char>>) -> nat
    decreases cells.len(),
{
    if cells.len() == 0 {
        byte_len(header)
    } else {
        larger(column_width(header, cells.drop_last()), byte_len(cells.last()))
    }
}

/// The ids of the displays.
pub open spec fn ids(displays: Seq<DisplayInfoText>) -> Seq<Seq<char>> {
    displays.map_values(|d: DisplayInfoText| d.id)
}

/// The descriptions of the displays.
pub open spec fn descriptions(displays: Seq<DisplayInfoText>) -> Seq<Seq<char>> {
    displays.map_values(|d: DisplayInfoText| d.description)
}

/// One line of the table.
pub open spec fn row(
    id: Seq<char>,
    description: Seq<char>,
    resolution: Seq<char>,
    id_width: nat,
    description_width: nat,
) -> Seq<char> {
    padded(id, id_width) + "  "@ + padded(description, description_width) + "  "@ + resolution
}

/// The size of a display as the table shows it.
pub open spec fn resolution(d: DisplayInfoText) -> Seq<char> {
    text::decimal(d.width as nat) + "x"@ + text::decimal(d.height as nat)
}

/// The line on how to use the ids.
pub open spec fn hint(platform: Platform) -> Seq<char> {
    "Use an ID as `"@ + (match platform {
        Platform::Wayland => "wayland"@,
        Platform::Macos => "macos"@,
    }) + " = \"…\"` in an [[alias]] entry, or directly as `id` in a [[display]] block."@
}

/// The lines of the table.
pub open spec fn table(displays: Seq<DisplayInfoText>, platform: Platform) -> Seq<Seq<char>> {
    if displays.len() == 0 {
        seq!["no displays detected"@]
    } else {
        let id_width = column_width("ID"@, ids(displays));
        let description_width = column_width("DESCRIPTION"@, descriptions(displays));
        seq![row("ID"@, "DESCRIPTION"@, "RESOLUTION"@, id_width, description_width)]
            + displays.map_values(
            |d: DisplayInfoText|
                row(d.id, d.description, resolution(d), id_width, description_width),
        ) + seq![Seq::empty(), hint(platform)]
    }
}

/// The text, with spaces behind it up to this many characters.
fn pad(s: &str, width: usize) -> (r: String)
    ensures
        r@ == padded(s@, width as nat),
{
    let mut r = s.to_owned();
    let mut n: usize = s.unicode_len();
    assert(spaces(0) =~= Seq::empty());
    assert(r@ =~= s@ + spaces(0));
    while n < width
        invariant
            s@.len() <= n,
            n <= width || n == s@.len(),
            r@ == s@ + spaces((n - s@.len()) as nat),
        decreases width - n,
    {
        r.push(' ');
        assert(spaces((n + 1 - s@.len()) as nat) =~= spaces((n - s@.len()) as nat).push(' '));
        assert(r@ =~= s@ + spaces((n + 1 - s@.len()) as nat));
        n = n + 1;
    }
    r
}

/// One line of the table.
fn line(
    id: &str,
    description: &str,
    resolution: &str,
    id_width: usize,
    description_width: usize,
) -> (r: String)
    ensures
        r@ == row(id@, description@, resolution@, id_width as nat, description_width as nat),
{
    let mut r = pad(id, id_width);
    r.append("  ");
    r.append(pad(description, description_width).as_str());
    r.append("  ");
    r.append(resolution);
    r
}

/// The width of the columns of ids and descriptions.
fn widths(displays: &Vec<DisplayInfo>) -> (r: (usize, usize))
    ensures
        r.0 == column_width("ID"@, ids(display_texts(displays@))),
        r.1 == column_width("DESCRIPTION"@, descriptions(display_texts(displays@))),
{
    let ghost texts = display_texts(displays@);
    let mut id_width: usize = "ID".as_bytes().len();
    let mut description_width: usize = "DESCRIPTION".as_bytes().len();
    let mut i: usize = 0;
    assert(ids(texts).take(0) =~= Seq::empty());
    assert(descriptions(texts).take(0) =~= Seq::empty());
    while i < displays.len()
        invariant
            i <= displays@.len(),
            texts == display_texts(displays@),
            id_width == column_width("ID"@, ids(texts).take(i as int)),
            description_width == column_width("DESCRIPTION"@, descriptions(texts).take(i as int)),
        decreases displays@.len() - i,
    {
        assert(ids(texts).take(i + 1).drop_last() =~= ids(texts).take(i as int));
        assert(descriptions(texts).take(i + 1).drop_last() =~= descriptions(texts).take(i as int));
        assert(displays@[i as int]@ == texts[i as int]);
        let id_len: usize = displays[i].id.as_str().as_bytes().len();
        if id_width < id_len {
            id_width = id_len;
        }
        let description_len: usize = displays[i].description.as_str().as_bytes().len();
        if description_width < description_len {
            description_width = description_len;
        }
        i = i + 1;
    }
    assert(ids(texts).take(i as int) =~= ids(texts));
    assert(descriptions(texts).take(i as int) =~= descriptions(texts));
    (id_width, description_width)
}

/// The table of the displays, line by line.
pub fn print(displays: &Vec<DisplayInfo>, platform: Platform) -> (r: Vec<String>)
    ensures
        text::views(r@) == table(display_texts(displays@), platform),
{
    let ghost texts = display_texts(displays@);
    let mut r: Vec<String> = Vec::new();
    if displays.len() == 0 {
        r.push("no displays detected".to_owned());
        assert(text::views(r@) =~= seq!["no displays detected"@]);
        return r;
    }
    let (id_width, description_width) = widths(displays);
    r.push(line("ID", "DESCRIPTION", "RESOLUTION", id_width, description_width));
    let ghost head = seq![
        row("ID"@, "DESCRIPTION"@, "RESOLUTION"@, id_width as nat, description_width as nat),
    ];
    let ghost rows = texts.map_values(
        |d: DisplayInfoText|
            row(d.id, d.description, resolution(d), id_width as nat, description_width as nat),
    );
    let mut i: usize = 0;
    assert(text::views(r@) =~= head + rows.take(0));
    while i < displays.len()
        invariant
            i <= displays@.len(),
            texts == display_texts(displays@),
            rows == texts.map_values(
                |d: DisplayInfoText|
                    row(
                        d.id,
                        d.description,
                        resolution(d),
                        id_width as nat,
                        description_width as nat,
                    ),
            ),
            text::views(r@) == head + rows.take(i as int),
        decreases displays@.len() - i,
    {
        assert(displays@[i as int]@ == texts[i as int]);
        let d = &displays[i];
        let width = text::decimal_text(d.width as u64);
        let height = text::decimal_text(d.height as u64);
        let size = text::join3(width.as_str(), "x", height.as_str());
        let ghost was = r@;
        r.push(
            line(
                d.id.as_str(),
                d.description.as_str(),
                size.as_str(),
                id_width,
                description_width,
            ),
        );
        assert(text::views(r@) =~= text::views(was).push(rows[i as int]));
        assert(rows.take(i + 1) =~= rows.take(i as int).push(rows[i as int]));
        i = i + 1;
    }
    assert(rows.take(i as int) =~= rows);
    let ghost was = r@;
    r.push(String::new());
    let key = match platform {
        Platform::Wayland => "wayland",
        Platform::Macos => "macos",
    };
    r.push(
        text::join3(
            "Use an ID as `",
            key,
            " = \"…\"` in an [[alias]] entry, or directly as `id` in a [[display]] block.",
        ),
    );
    assert(text::views(r@) =~= text::views(was) + seq![Seq::empty(), hint(platform)]);
    r
}

/// A text has no more characters than bytes.
proof fn chars_within_bytes(s: Seq<char>)
    ensures
        s.len() <= byte_len(s),
    decreases s.len(),
{
    if s.len() > 0 {
        chars_within_bytes(s.drop_first());
    }
}

/// A column is as wide as its widest cell.
proof fn column_holds(header: Seq<char>, cells: Seq<Seq<char>>, i: int)
    requires
        0 <= i < cells.len(),
    ensures
        cells[i].len() <= column_width(header, cells),
    decreases cells.len(),
{
    chars_within_bytes(cells[i]);
    if i < cells.len() - 1 {
        column_holds(header, cells.drop_last(), i);
    }
}

/// A column is as wide as its header.
proof fn column_holds_header(header: Seq<char>, cells: Seq<Seq<char>>)
    ensures
        header.len() <= column_width(header, cells),
    decreases cells.len(),
{
    chars_within_bytes(header);
    if cells.len() > 0 {
        column_holds_header(header, cells.drop_last());
    }
}

/// The columns line up: behind the header and behind every display, the resolution begins at
/// the same place.
pub proof fn columns_law(displays: Seq<DisplayInfoText>, platform: Platform, i: int)
    requires
        0 <= i < displays.len(),
    ensures
        ({
            let begin = column_width("ID"@, ids(displays)) + column_width(
                "DESCRIPTION"@,
                descriptions(displays),
            ) + 4;
            &&& table(displays, platform).len() == displays.len() + 3
            &&& table(displays, platform)[0].skip(begin as int) == "RESOLUTION"@
            &&& table(displays, platform)[i + 1].skip(begin as int) == resolution(displays[i])
        }),
{
    let id_width = column_width("ID"@, ids(displays));
    let description_width = column_width("DESCRIPTION"@, descriptions(displays));
    column_holds("ID"@, ids(displays), i);
    column_holds("DESCRIPTION"@, descriptions(displays), i);
    column_holds_header("ID"@, ids(displays));
    column_holds_header("DESCRIPTION"@, descriptions(displays));
    reveal_strlit("  ");
    let d = displays[i];
    let begin = (id_width + description_width + 4) as int;
    assert(table(displays, platform)[0] == row(
        "ID"@,
        "DESCRIPTION"@,
        "RESOLUTION"@,
        id_width,
        description_width,
    ));
    assert(table(displays, platform)[0].skip(begin) =~= "RESOLUTION"@);
    assert(table(displays, platform)[i + 1] == row(
        d.id,
        d.description,
        resolution(d),
        id_width,
        description_width,
    ));
    assert(table(displays, platform)[i + 1].skip(begin) =~= resolution(d));
}

/// A column is no wider than it must be: as wide as its header or as one of its cells, and at
/// least as wide as each.
pub proof fn column_law(header: Seq<char>, cells: Seq<Seq<char>>)
    ensures
        column_width(header, cells) >= byte_len(header),
        forall|i: int| 0 <= i < cells.len() ==> column_width(header, cells) >= byte_len(
            #[trigger] cells[i],
        ),
        column_width(header, cells) == byte_len(header) || exists|i: int|
            0 <= i < cells.len() && column_width(header, cells) == byte_len(#[trigger] cells[i]),
    decreases cells.len(),
{
    if cells.len() > 0 {
        let front = cells.drop_last();
        column_law(header, front);
        assert(forall|i: int| 0 <= i < front.len() ==> #[trigger] cells[i] == front[i]);
        if column_width(header, cells) != byte_len(header) {
            if column_width(header, cells) == byte_len(cells.last()) {
                assert(column_width(header, cells) == byte_len(cells[cells.len() - 1]));
            } else {
                let i = choose|i: int|
                    0 <= i < front.len() && column_width(header, front) == byte_len(
                        #[trigger] front[i],
                    );
                assert(column_width(header, cells) == byte_len(cells[i]));
            }
        }
    }
}

/// The line of a display, place by place: its id, spaces up to the next column, two spaces,
/// its description, spaces up to the next column, two spaces, its width and its height with
/// an `x` between them.
pub proof fn row_law(displays: Seq<DisplayInfoText>, platform: Platform, i: int, k: int)
    requires
        0 <= i < displays.len(),
    ensures
        ({
            let line = table(displays, platform)[i + 1];
            let d = displays[i];
            let second = column_width("ID"@, ids(displays)) as int + 2;
            let third = second + column_width("DESCRIPTION"@, descriptions(displays)) + 2;
            &&& line.take(d.id.len() as int) == d.id
            &&& d.id.len() <= k < second ==> line[k] == ' '
            &&& line.subrange(second, second + d.description.len()) == d.description
            &&& second + d.description.len() <= k < third ==> line[k] == ' '
            &&& line.skip(third) == text::decimal(d.width as nat) + seq!['x'] + text::decimal(
                d.height as nat,
            )
        }),
{
    let id_width = column_width("ID"@, ids(displays));
    let description_width = column_width("DESCRIPTION"@, descriptions(displays));
    column_holds("ID"@, ids(displays), i);
    column_holds("DESCRIPTION"@, descriptions(displays), i);
    reveal_strlit("  ");
    reveal_strlit("x");
    assert("x"@ =~= seq!['x']);
    let d = displays[i];
    let line = table(displays, platform)[i + 1];
    assert(line == row(d.id, d.description, resolution(d), id_width, description_width));
    let second = id_width as int + 2;
    let third = second + description_width + 2;
    assert(line.take(d.id.len() as int) =~= d.id);
    assert(line.subrange(second, second + d.description.len()) =~= d.description);
    assert(line.skip(third) =~= resolution(d));
}

/// The lines around those of the displays. Without a display there is one line that says so.
/// With displays there is a header in front, an empty line behind, and at the end the hint
/// that names the platform's own key.
pub proof fn table_law(displays: Seq<DisplayInfoText>, platform: Platform)
    ensures
        displays.len() == 0 ==> table(displays, platform) == seq!["no displays detected"@],
        displays.len() > 0 ==> {
            let lines = table(displays, platform);
            &&& lines.len() == displays.len() + 3
            &&& text::has_prefix(lines[0], "ID"@)
            &&& text::has_prefix(
                lines[0].skip(column_width("ID"@, ids(displays)) as int + 2),
                "DESCRIPTION"@,
            )
            &&& lines[lines.len() - 2].len() == 0
            &&& lines.last() == (match platform {
                Platform::Wayland =>
                    "Use an ID as `wayland = \"…\"` in an [[alias]] entry, or directly as `id` in a [[display]] block."@,
                Platform::Macos =>
                    "Use an ID as `macos = \"…\"` in an [[alias]] entry, or directly as `id` in a [[display]] block."@,
            })
        },
{
    reveal_strlit("ID");
    reveal_strlit("Use an ID as `");
    reveal_strlit("wayland");
    reveal_strlit("macos");
    reveal_strlit(
        " = \"…\"` in an [[alias]] entry, or directly as `id` in a [[display]] block.",
    );
    reveal_strlit(
        "Use an ID as `wayland = \"…\"` in an [[alias]] entry, or directly as `id` in a [[display]] block.",
    );
    reveal_strlit(
        "Use an ID as `macos = \"…\"` in an [[alias]] entry, or directly as `id` in a [[display]] block.",
    );
    assert(hint(Platform::Wayland)
        =~= "Use an ID as `wayland = \"…\"` in an [[alias]] entry, or directly as `id` in a [[display]] block."@);
    assert(hint(Platform::Macos)
        =~= "Use an ID as `macos = \"…\"` in an [[alias]] entry, or directly as `id` in a [[display]] block."@);
    if displays.len() > 0 {
        column_holds_header("ID"@, ids(displays));
        let lines = table(displays, platform);
        assert(lines[0] == row(
            "ID"@,
            "DESCRIPTION"@,
            "RESOLUTION"@,
            column_width("ID"@, ids(displays)),
            column_width("DESCRIPTION"@, descriptions(displays)),
        ));
        assert(lines[0].take(2) =~= "ID"@);
        reveal_strlit("DESCRIPTION");
        reveal_strlit("  ");
        let second = column_width("ID"@, ids(displays)) as int + 2;
        column_holds_header("DESCRIPTION"@, descriptions(displays));
        assert(lines[0].skip(second).take(11) =~= "DESCRIPTION"@);
    }
}

/// Displays that are sorted come in the order of a dictionary by their ids.
pub proof fn sorted_law(displays: Seq<DisplayInfoText>, i: int, j: int)
    requires
        sorted_by_id(displays),
        0 <= i < j < displays.len(),
    ensures
        displays[i].id == displays[j].id || text::text_before(displays[i].id, displays[j].id),
{
    text::text_order_total(displays[i].id, displays[j].id);
}

} // verus!
