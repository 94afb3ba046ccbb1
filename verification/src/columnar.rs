//! The columnar encoding that geometry arrays are exchanged in.
//!
//! A geometry array is a nested list: one list per level of offsets, around a
//! struct of the two coordinate columns. `Column` holds such a value with the
//! buffers themselves, so that turning an array into its encoding and back
//! copies nothing.

use crate::buffers::{bitmap_bits, buffer_bytes, buffer_values, Offsets};
use crate::error::GeoArrowError;
use crate::layout::Layout;
use crate::slice::validity_bits;
use arrow2::bitmap::Bitmap;
use arrow2::buffer::Buffer;
use vstd::prelude::*;

verus! {

/// A column of a struct.
pub enum Primitive {
    /// 64-bit IEEE 754 numbers, each as its bit pattern.
    Float64 { name: String, nullable: bool, values: Buffer<u64>, validity: Option<Bitmap> },
    /// A column of any other type; what it holds is of no concern here.
    Other,
}

/// A columnar value, as far as geometry arrays are made of it.
#[allow(inconsistent_fields)]
pub enum Column {
    /// A struct of columns with one validity mask.
    Struct { children: Vec<Primitive>, validity: Option<Bitmap> },
    /// A list with 64-bit offsets; `name` and `nullable` describe its items.
    LargeList {
        name: String,
        nullable: bool,
        offsets: Offsets,
        values: Box<Column>,
        validity: Option<Bitmap>,
    },
    /// A list with 32-bit offsets, which no geometry array is made of.
    List,
    /// Byte strings with 64-bit offsets.
    LargeBinary { offsets: Offsets, values: Buffer<u8>, validity: Option<Bitmap> },
    /// A value of any other type.
    Other,
}

/// What a `Primitive` holds.
pub enum PrimitiveView {
    Float64 { name: Seq<char>, nullable: bool, values: Seq<u64>, validity: Option<Seq<bool>> },
    Other,
}

/// What a `Column` holds.
#[allow(inconsistent_fields)]
pub enum ColumnView {
    Struct { children: Seq<PrimitiveView>, validity: Option<Seq<bool>> },
    LargeList {
        name: Seq<char>,
        nullable: bool,
        offsets: Seq<i64>,
        values: Box<ColumnView>,
        validity: Option<Seq<bool>>,
    },
    List,
    LargeBinary { offsets: Seq<i64>, values: Seq<u8>, validity: Option<Seq<bool>> },
    Other,
}

impl View for Primitive {
    type V = PrimitiveView;

    open spec fn view(&self) -> PrimitiveView {
        match *self {
            Primitive::Float64 { name, nullable, values, validity } => PrimitiveView::Float64 {
                name: name@,
                nullable,
                values: buffer_values(values),
                validity: validity_bits(validity),
            },
            Primitive::Other => PrimitiveView::Other,
        }
    }
}

/// What a column holds, level by level.
pub open spec fn column_view(c: Column) -> ColumnView
    decreases c,
{
    match c {
        Column::Struct { children, validity } => ColumnView::Struct {
            children: children@.map_values(|p: Primitive| p@),
            validity: validity_bits(validity),
        },
        Column::LargeList { name, nullable, offsets, values, validity } => ColumnView::LargeList {
            name: name@,
            nullable,
            offsets: offsets@,
            values: Box::new(column_view(*values)),
            validity: validity_bits(validity),
        },
        Column::List => ColumnView::List,
        Column::LargeBinary { offsets, values, validity } => ColumnView::LargeBinary {
            offsets: offsets@,
            values: buffer_bytes(values),
            validity: validity_bits(validity),
        },
        Column::Other => ColumnView::Other,
    }
}

impl View for Column {
    type V = ColumnView;

    open spec fn view(&self) -> ColumnView {
        column_view(*self)
    }
}

/// The encoding of the coordinates: a struct of the columns `x` and `y`, neither
/// nullable.
pub open spec fn coords_column(
    x: Seq<u64>,
    y: Seq<u64>,
    validity: Option<Seq<bool>>,
) -> ColumnView {
    ColumnView::Struct {
        children: seq![
            PrimitiveView::Float64 { name: "x"@, nullable: false, values: x, validity: None },
            PrimitiveView::Float64 { name: "y"@, nullable: false, values: y, validity: None },
        ],
        validity,
    }
}

/// The encoding of a layout: one list per level around the coordinates, the
/// items of list `k` named `names[k]`. Only the outermost value carries the
/// mask, and only the items of the outermost list are nullable.
pub open spec fn layout_column(a: Layout, names: Seq<Seq<char>>, outermost: bool) -> ColumnView
    decreases a.levels.len(),
{
    if a.levels.len() == 0 {
        coords_column(a.x, a.y, a.validity)
    } else {
        ColumnView::LargeList {
            name: names[0],
            nullable: outermost,
            offsets: a.levels[0],
            values: Box::new(
                layout_column(
                    Layout { x: a.x, y: a.y, levels: a.levels.drop_first(), validity: None },
                    names.drop_first(),
                    false,
                ),
            ),
            validity: a.validity,
        }
    }
}

/// The layout that a column encodes at nesting `depth`, if it has that nesting:
/// `depth` lists with 64-bit offsets around a struct of exactly two columns of
/// 64-bit numbers. Names, nullability and the masks of inner values play no part.
pub open spec fn column_layout(c: ColumnView, depth: nat) -> Option<Layout>
    decreases depth,
{
    if depth == 0 {
        match c {
            ColumnView::Struct { children, validity } => {
                if children.len() == 2 && children[0] is Float64 && children[1] is Float64 {
                    Some(
                        Layout {
                            x: children[0]->Float64_values,
                            y: children[1]->Float64_values,
                            levels: Seq::empty(),
                            validity,
                        },
                    )
                } else {
                    None
                }
            },
            _ => None,
        }
    } else {
        match c {
            ColumnView::LargeList { offsets, values, validity, .. } => {
                match column_layout(*values, (depth - 1) as nat) {
                    Some(inner) => Some(
                        Layout {
                            x: inner.x,
                            y: inner.y,
                            levels: seq![offsets] + inner.levels,
                            validity,
                        },
                    ),
                    None => None,
                }
            },
            _ => None,
        }
    }
}

/// The encoding of a layout of up to three levels, written out list by list.
pub proof fn lemma_layout_column(a: Layout, names: Seq<Seq<char>>, outermost: bool)
    requires
        a.levels.len() <= 3,
        a.levels.len() <= names.len(),
    ensures
        a.levels.len() == 0 ==> layout_column(a, names, outermost) == coords_column(
            a.x,
            a.y,
            a.validity,
        ),
        a.levels.len() == 1 ==> layout_column(a, names, outermost) == (ColumnView::LargeList {
            name: names[0],
            nullable: outermost,
            offsets: a.levels[0],
            values: Box::new(coords_column(a.x, a.y, None)),
            validity: a.validity,
        }),
        a.levels.len() == 2 ==> layout_column(a, names, outermost) == (ColumnView::LargeList {
            name: names[0],
            nullable: outermost,
            offsets: a.levels[0],
            values: Box::new(
                ColumnView::LargeList {
                    name: names[1],
                    nullable: false,
                    offsets: a.levels[1],
                    values: Box::new(coords_column(a.x, a.y, None)),
                    validity: None,
                },
            ),
            validity: a.validity,
        }),
        a.levels.len() == 3 ==> layout_column(a, names, outermost) == (ColumnView::LargeList {
            name: names[0],
            nullable: outermost,
            offsets: a.levels[0],
            values: Box::new(
                ColumnView::LargeList {
                    name: names[1],
                    nullable: false,
                    offsets: a.levels[1],
                    values: Box::new(
                        ColumnView::LargeList {
                            name: names[2],
                            nullable: false,
                            offsets: a.levels[2],
                            values: Box::new(coords_column(a.x, a.y, None)),
                            validity: None,
                        },
                    ),
                    validity: None,
                },
            ),
            validity: a.validity,
        }),
    decreases a.levels.len(),
{
    if a.levels.len() > 0 {
        let inner = Layout { x: a.x, y: a.y, levels: a.levels.drop_first(), validity: None };
        lemma_layout_column(inner, names.drop_first(), false);
    }
}

/// Decoding what was encoded gives the layout back: for every layout and all
/// names, `column_layout(layout_column(a, names, outermost), depth)` is `a`,
/// where `depth` is the number of levels of `a`.
pub proof fn lemma_column_roundtrip(a: Layout, names: Seq<Seq<char>>, outermost: bool)
    ensures
        column_layout(layout_column(a, names, outermost), a.levels.len()) == Some(a),
    decreases a.levels.len(),
{
    if a.levels.len() == 0 {
        assert(a.levels =~= Seq::empty());
    } else {
        let inner = Layout { x: a.x, y: a.y, levels: a.levels.drop_first(), validity: None };
        lemma_column_roundtrip(inner, names.drop_first(), false);
        assert(seq![a.levels[0]] + inner.levels =~= a.levels);
    }
}

/// The encoding of the coordinates in `x` and `y`, with the mask `validity`.
pub fn coords_to_column(x: Buffer<u64>, y: Buffer<u64>, validity: Option<Bitmap>) -> (c: Column)
    ensures
        c@ == coords_column(buffer_values(x), buffer_values(y), validity_bits(validity)),
{
    let mut children: Vec<Primitive> = Vec::new();
    children.push(
        Primitive::Float64 { name: "x".to_owned(), nullable: false, values: x, validity: None },
    );
    children.push(
        Primitive::Float64 { name: "y".to_owned(), nullable: false, values: y, validity: None },
    );
    let c = Column::Struct { children, validity };
    assert(c@->Struct_children =~= coords_column(
        buffer_values(x),
        buffer_values(y),
        validity_bits(validity),
    )->Struct_children);
    c
}

/// A list of the items in `values`, which `offsets` delimits.
pub fn list_to_column(
    name: &str,
    nullable: bool,
    offsets: Offsets,
    values: Column,
    validity: Option<Bitmap>,
) -> (c: Column)
    ensures
        c@ == (ColumnView::LargeList {
            name: name@,
            nullable,
            offsets: offsets@,
            values: Box::new(values@),
            validity: validity_bits(validity),
        }),
{
    Column::LargeList { name: name.to_owned(), nullable, offsets, values: Box::new(values), validity }
}

/// The parts of a list with 64-bit offsets: its offsets, its items and its mask.
/// Any other value does not have the layout of a list.
pub fn column_into_list(c: Column) -> (r: Result<(Offsets, Column, Option<Bitmap>), GeoArrowError>)
    ensures
        r is Ok <==> c@ is LargeList,
        r matches Ok(parts) ==> parts.0@ == c@->LargeList_offsets && parts.1@
            == *c@->LargeList_values && validity_bits(parts.2) == c@->LargeList_validity,
        r matches Err(e) ==> e == GeoArrowError::IncompatibleLayout,
{
    match c {
        Column::LargeList { offsets, values, validity, .. } => Ok((offsets, *values, validity)),
        _ => Err(GeoArrowError::IncompatibleLayout),
    }
}

/// The parts of a struct of exactly two columns of 64-bit numbers: the two
/// columns and the mask of the struct. Any other value does not have the layout
/// of coordinates.
pub fn column_into_coords(c: Column) -> (r: Result<
    (Buffer<u64>, Buffer<u64>, Option<Bitmap>),
    GeoArrowError,
>)
    ensures
        r is Ok <==> column_layout(c@, 0) is Some,
        r matches Ok(parts) ==> column_layout(c@, 0) == Some(
            Layout {
                x: buffer_values(parts.0),
                y: buffer_values(parts.1),
                levels: Seq::empty(),
                validity: validity_bits(parts.2),
            },
        ),
        r matches Err(e) ==> e == GeoArrowError::IncompatibleLayout,
{
    match c {
        Column::Struct { children, validity } => {
            let mut children = children;
            let ghost all = children@;
            if children.len() != 2 {
                return Err(GeoArrowError::IncompatibleLayout);
            }
            let second = children.pop();
            let first = children.pop();
            assert(second == Some(all[1]) && first == Some(all[0]));
            match (first, second) {
                (
                    Some(Primitive::Float64 { values: x, .. }),
                    Some(Primitive::Float64 { values: y, .. }),
                ) => Ok((x, y, validity)),
                _ => Err(GeoArrowError::IncompatibleLayout),
            }
        },
        _ => Err(GeoArrowError::IncompatibleLayout),
    }
}

} // verus!
