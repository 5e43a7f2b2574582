//! The graphing-calculator document that a finished picture is handed over
//! as: an envelope, three notes, one folder, and one filled inequality for
//! each ellipse.

use crate::fixed::{cos_fx, rotation, sin_fx, ONE, UNIT};
use crate::random::{draw_alphanumeric, is_alphanumeric};
use crate::shapes::Ellipse;
use crate::text::{
    decimal_text, format_decimal, format_hex, format_ratio, hex_text, push_ratio, ratio_text,
};
use vstd::prelude::*;
use vstd::string::StringExecFns;

verus! {

/// The version that the document declares.
pub const DOCUMENT_VERSION: i32 = 11;

/// The id of the first ellipse; the others follow it one by one.
pub const MIN_SHAPE_ID: usize = 20;

/// How many entries stand before the first ellipse.
pub const FIXED_ENTRIES: usize = 4;

/// How many characters the random seed has.
pub const SEED_LENGTH: usize = 32;

/// How far the graph's window reaches up and down from the origin, in
/// graph units.
pub const HALF_HEIGHT: i64 = 10;

#[derive(Clone, Debug)]
pub struct DesmosState {
    pub version: i32,
    pub random_seed: String,
    pub graph: GraphSettings,
    pub expressions: ExpressionList,
    pub include_function_parameters_in_random_seed: bool,
    pub do_not_migrate_movable_point_style: bool,
}

#[derive(Clone, Debug)]
pub struct GraphSettings {
    pub viewport: Viewport,
}

/// The window of the graph, in graph units as counts of `1 / ONE`.
#[derive(Clone, Copy, Debug, PartialEq, Eq)]
pub struct Viewport {
    pub xmin: i64,
    pub ymin: i64,
    pub xmax: i64,
    pub ymax: i64,
}

#[derive(Clone, Debug)]
pub struct ExpressionList {
    pub list: Vec<Expression>,
}

#[derive(Clone, Debug)]
pub enum Expression {
    Expression(ExpressionData),
    Text(TextData),
    Folder(FolderData),
}

#[derive(Clone, Debug)]
pub struct TextData {
    pub id: String,
    pub text: String,
}

#[derive(Clone, Debug)]
pub struct FolderData {
    pub id: String,
    pub title: String,
    pub hidden: bool,
    pub collapsed: bool,
}

#[derive(Clone, Debug)]
pub struct ExpressionData {
    pub id: String,
    pub color: String,
    pub latex: String,
    pub folder_id: Option<String>,
    pub fill: Option<bool>,
    pub lines: Option<bool>,
    pub fill_opacity: Option<String>,
    pub line_width: Option<String>,
    pub domain: Option<Domain>,
    pub parametric_domain: Option<Domain>,
}

#[derive(Clone, Debug)]
pub struct Domain {
    pub min: String,
    pub max: String,
}

/// The id of the note that names the author.
pub open spec fn author_id() -> Seq<char> {
    "2"@
}

/// The id of the note that says how to show the picture.
pub open spec fn instructions_id() -> Seq<char> {
    "4"@
}

/// The id of the note that names the project.
pub open spec fn project_id() -> Seq<char> {
    "6"@
}

/// The id of the folder that holds the ellipses.
pub open spec fn folder_id() -> Seq<char> {
    "8"@
}

/// The title of the folder that holds the ellipses.
pub open spec fn folder_title() -> Seq<char> {
    "Image"@
}

/// The note that names the author.
pub open spec fn author_text() -> Seq<char> {
    "Made by Bennett Lang (Bennebotix)"@
}

/// The note that says how to show the picture.
pub open spec fn instructions_text() -> Seq<char> {
    "Unhide the folder to see the image (may be laggy)"@
}

/// The note that names the project.
pub open spec fn project_text() -> Seq<char> {
    "This was made using EIDOS, a simple webapp using Rust in WebAssembly.\n\nYou can check it out here:\nhttps://github.com/Bennebotix/EIDOS"@
}

/// The window for a picture `w` by `h` pixels: 10 units up and down, and
/// left and right as much as the picture is wider than high.
pub open spec fn viewport_of(w: int, h: int) -> Viewport {
    Viewport {
        xmin: (-(HALF_HEIGHT * w * ONE / h)) as i64,
        ymin: (-HALF_HEIGHT * ONE) as i64,
        xmax: (HALF_HEIGHT * w * ONE / h) as i64,
        ymax: (HALF_HEIGHT * ONE) as i64,
    }
}

/// The centre's abscissa in graph units, as text: the picture's width maps
/// to the window's width.
pub open spec fn center_x_text(e: Ellipse, w: int, h: int) -> Seq<char> {
    ratio_text(20 * e.x - 10 * w * ONE, h * ONE)
}

/// The centre's ordinate in graph units, as text: the picture's top row
/// maps to the window's upper edge.
pub open spec fn center_y_text(e: Ellipse, h: int) -> Seq<char> {
    ratio_text(10 * h * ONE - 20 * e.y, h * ONE)
}

/// A semi-axis of `r` in graph units, as text.
pub open spec fn radius_text(r: int, h: int) -> Seq<char> {
    ratio_text(20 * r, h * ONE)
}

/// The cosine of the angle turned the other way, as text.
pub open spec fn cos_text(e: Ellipse) -> Seq<char> {
    ratio_text(cos_fx(-e.angle), UNIT as int)
}

/// The sine of the angle turned the other way, as text.
pub open spec fn sin_text(e: Ellipse) -> Seq<char> {
    ratio_text(sin_fx(-e.angle), UNIT as int)
}

/// The inequality that fills the ellipse `e` of a picture `w` by `h`:
/// `((x-cx) c + (y-cy) s)^2 / rx^2 + ((x-cx) s - (y-cy) c)^2 / ry^2 <= 1`
/// in the calculator's notation, every constant with three decimals.
pub open spec fn latex_text(e: Ellipse, w: int, h: int) -> Seq<char> {
    let cx = center_x_text(e, w, h);
    let cy = center_y_text(e, h);
    let c = cos_text(e);
    let s = sin_text(e);
    let rx = radius_text(e.rx as int, h);
    let ry = radius_text(e.ry as int, h);
    "\\frac{\\left(\\left(x-"@ + cx + "\\right)\\cdot"@ + c + "+\\left(y-"@ + cy
        + "\\right)\\cdot"@ + s + "\\right)^{2}}{"@ + rx + "^{2}}+\\frac{\\left(\\left(x-"@ + cx
        + "\\right)\\cdot"@ + s + "-\\left(y-"@ + cy + "\\right)\\cdot"@ + c + "\\right)^{2}}{"@
        + ry + "^{2}}\\le1"@
}

/// Whether `x` is the note with this id and text.
pub open spec fn is_note(x: Expression, id: Seq<char>, text: Seq<char>) -> bool {
    x matches Expression::Text(d) && d.id@ == id && d.text@ == text
}

/// Whether `x` is the folder of the ellipses: hidden and collapsed.
pub open spec fn is_folder(x: Expression) -> bool {
    x matches Expression::Folder(d) && d.id@ == folder_id() && d.title@ == folder_title()
        && d.hidden && d.collapsed
}

/// Whether `x` is the entry of ellipse number `index`, `e`, of a picture
/// `w` by `h`: in the folder, filled with the ellipse's colour at its
/// opacity, without an outline.
pub open spec fn is_shape_entry(x: Expression, e: Ellipse, index: int, w: int, h: int) -> bool {
    x matches Expression::Expression(d) && {
        &&& d.id@ == decimal_text((index + MIN_SHAPE_ID) as nat)
        &&& d.color@ == hex_text(e.color.0, e.color.1, e.color.2)
        &&& d.latex@ == latex_text(e, w, h)
        &&& d.folder_id matches Some(f) && f@ == folder_id()
        &&& d.fill == Some(true)
        &&& d.lines == Some(false)
        &&& d.fill_opacity matches Some(o) && o@ == ratio_text(e.color.3 as int, 255)
        &&& d.line_width matches Some(l) && l@ == "0"@
        &&& d.domain is None
        &&& d.parametric_domain is None
    }
}

/// Whether `doc` is the document of the ellipses `shapes` of a picture `w`
/// by `h`, with the random seed `seed`.
pub open spec fn is_document(
    doc: DesmosState,
    shapes: Seq<Ellipse>,
    w: int,
    h: int,
    seed: Seq<char>,
) -> bool {
    let list = doc.expressions.list@;
    &&& doc.version == DOCUMENT_VERSION
    &&& doc.random_seed@ == seed
    &&& doc.include_function_parameters_in_random_seed
    &&& doc.do_not_migrate_movable_point_style
    &&& doc.graph.viewport == viewport_of(w, h)
    &&& list.len() == shapes.len() + FIXED_ENTRIES
    &&& is_note(list[0], author_id(), author_text())
    &&& is_note(list[1], instructions_id(), instructions_text())
    &&& is_note(list[2], project_id(), project_text())
    &&& is_folder(list[3])
    &&& forall|i: int|
        0 <= i < shapes.len() ==> is_shape_entry(
            #[trigger] list[i + FIXED_ENTRIES],
            shapes[i],
            i,
            w,
            h,
        )
}

/// Whether `seed` is a random seed: `SEED_LENGTH` ASCII letters and digits.
pub open spec fn is_seed_text(seed: Seq<char>) -> bool {
    &&& seed.len() == SEED_LENGTH
    &&& forall|i: int|
        0 <= i < seed.len() ==> (#[trigger] seed[i]) as u32 <= 0x7f && is_alphanumeric(
            seed[i] as u8,
        )
}

/// A fresh random seed.
pub fn random_seed() -> (seed: String)
    ensures
        is_seed_text(seed@),
{
    let mut seed = String::new();
    let mut n: usize = 0;
    while n < SEED_LENGTH
        invariant
            n <= SEED_LENGTH,
            seed@.len() == n,
            forall|i: int|
                0 <= i < seed@.len() ==> (#[trigger] seed@[i]) as u32 <= 0x7f && is_alphanumeric(
                    seed@[i] as u8,
                ),
        decreases SEED_LENGTH - n,
    {
        let b: u8 = draw_alphanumeric();
        seed.push(b as char);
        n = n + 1;
    }
    seed
}

/// `viewport_of` in executable form.
pub fn viewport_for(w: u32, h: u32) -> (v: Viewport)
    requires
        h > 0,
    ensures
        v == viewport_of(w as int, h as int),
{
    let span: i64 = HALF_HEIGHT * (w as i64) * ONE;
    proof {
        vstd::arithmetic::div_mod::lemma_div_pos_is_pos(span as int, h as int);
        vstd::arithmetic::div_mod::lemma_div_is_ordered_by_denominator(span as int, 1, h as int);
    }
    let reach: i64 = span / (h as i64);
    Viewport { xmin: -reach, ymin: -HALF_HEIGHT * ONE, xmax: reach, ymax: HALF_HEIGHT * ONE }
}

/// The note with this id and text.
pub fn note(id: &str, text: &str) -> (x: Expression)
    ensures
        is_note(x, id@, text@),
{
    Expression::Text(TextData { id: String::from_str(id), text: String::from_str(text) })
}

/// The folder of the ellipses.
pub fn folder() -> (x: Expression)
    ensures
        is_folder(x),
{
    Expression::Folder(
        FolderData {
            id: String::from_str("8"),
            title: String::from_str("Image"),
            hidden: true,
            collapsed: true,
        },
    )
}

/// The inequality of `shape` in a picture `w` by `h`.
pub fn latex_for(shape: &Ellipse, w: u32, h: u32) -> (s: String)
    requires
        h > 0,
        shape.on_canvas(w as int, h as int),
        shape.angle > i64::MIN,
    ensures
        s@ == latex_text(*shape, w as int, h as int),
{
    let unit: i128 = h as i128 * ONE as i128;
    let cx: String = format_ratio(20 * shape.x as i128 - 10 * (w as i128) * ONE as i128, unit);
    let cy: String = format_ratio(10 * (h as i128) * ONE as i128 - 20 * shape.y as i128, unit);
    let (cos, sin) = rotation(-shape.angle);
    let c: String = format_ratio(cos as i128, UNIT as i128);
    let s: String = format_ratio(sin as i128, UNIT as i128);
    let mut out = String::from_str("\\frac{\\left(\\left(x-");
    out.append(cx.as_str());
    out.append("\\right)\\cdot");
    out.append(c.as_str());
    out.append("+\\left(y-");
    out.append(cy.as_str());
    out.append("\\right)\\cdot");
    out.append(s.as_str());
    out.append("\\right)^{2}}{");
    push_ratio(&mut out, 20 * shape.rx as i128, unit);
    out.append("^{2}}+\\frac{\\left(\\left(x-");
    out.append(cx.as_str());
    out.append("\\right)\\cdot");
    out.append(s.as_str());
    out.append("-\\left(y-");
    out.append(cy.as_str());
    out.append("\\right)\\cdot");
    out.append(c.as_str());
    out.append("\\right)^{2}}{");
    push_ratio(&mut out, 20 * shape.ry as i128, unit);
    out.append("^{2}}\\le1");
    out
}

/// The entry of ellipse number `index`, `shape`, of a picture `w` by `h`.
pub fn shape_entry(shape: &Ellipse, index: usize, w: u32, h: u32) -> (x: Expression)
    requires
        h > 0,
        shape.on_canvas(w as int, h as int),
        shape.angle > i64::MIN,
    ensures
        is_shape_entry(x, *shape, index as int, w as int, h as int),
{
    let (r, g, b, a) = shape.color;
    Expression::Expression(
        ExpressionData {
            id: format_decimal(index as u128 + MIN_SHAPE_ID as u128),
            color: format_hex(r, g, b),
            latex: latex_for(shape, w, h),
            folder_id: Some(String::from_str("8")),
            fill: Some(true),
            lines: Some(false),
            fill_opacity: Some(format_ratio(a as i128, 255)),
            line_width: Some(String::from_str("0")),
            domain: None,
            parametric_domain: None,
        },
    )
}

/// The document of the ellipses `shapes` of a picture `w` by `h`, with the
/// random seed `seed`.
pub fn document(shapes: &Vec<Ellipse>, w: u32, h: u32, seed: String) -> (doc: DesmosState)
    requires
        h > 0,
        forall|i: int|
            0 <= i < shapes@.len() ==> (#[trigger] shapes@[i]).on_canvas(w as int, h as int)
                && shapes@[i].angle > i64::MIN,
    ensures
        is_document(doc, shapes@, w as int, h as int, seed@),
{
    let mut list: Vec<Expression> = Vec::new();
    list.push(note("2", "Made by Bennett Lang (Bennebotix)"));
    list.push(note("4", "Unhide the folder to see the image (may be laggy)"));
    list.push(
        note(
            "6",
            "This was made using EIDOS, a simple webapp using Rust in WebAssembly.\n\nYou can check it out here:\nhttps://github.com/Bennebotix/EIDOS",
        ),
    );
    list.push(folder());
    let mut i: usize = 0;
    while i < shapes.len()
        invariant
            h > 0,
            forall|i: int|
                0 <= i < shapes@.len() ==> (#[trigger] shapes@[i]).on_canvas(w as int, h as int)
                    && shapes@[i].angle > i64::MIN,
            0 <= i <= shapes@.len(),
            list@.len() == i + FIXED_ENTRIES,
            is_note(list@[0], author_id(), author_text()),
            is_note(list@[1], instructions_id(), instructions_text()),
            is_note(list@[2], project_id(), project_text()),
            is_folder(list@[3]),
            forall|j: int|
                0 <= j < i ==> is_shape_entry(
                    #[trigger] list@[j + FIXED_ENTRIES],
                    shapes@[j],
                    j,
                    w as int,
                    h as int,
                ),
        decreases shapes@.len() - i,
    {
        list.push(shape_entry(&shapes[i], i, w, h));
        i = i + 1;
    }
    DesmosState {
        version: DOCUMENT_VERSION,
        random_seed: seed,
        graph: GraphSettings { viewport: viewport_for(w, h) },
        expressions: ExpressionList { list },
        include_function_parameters_in_random_seed: true,
        do_not_migrate_movable_point_style: true,
    }
}

} // verus!
