//! How the positions of a map are laid out and numbered.
use crate::dataset::properties::error::{Property, PropertyView};
use crate::dataset::properties::{extract_u16, extract_value, spec_extract_unsigned, spec_value, Properties};
use crate::qi_map::{IndexId, Pixel};
use crate::text::str_eq;
use vstd::prelude::*;

verus! {

/// `quantitative-imaging-map.position-pattern.type`
pub const TYPE_KEY: &'static str = "quantitative-imaging-map.position-pattern.type";

/// `quantitative-imaging-map.position-pattern.numbering`
pub const NUMBERING_KEY: &'static str = "quantitative-imaging-map.position-pattern.numbering";

/// `quantitative-imaging-map.position-pattern.grid.xcenter`
pub const X_CENTER_KEY: &'static str = "quantitative-imaging-map.position-pattern.grid.xcenter";

/// `quantitative-imaging-map.position-pattern.grid.ycenter`
pub const Y_CENTER_KEY: &'static str = "quantitative-imaging-map.position-pattern.grid.ycenter";

/// `quantitative-imaging-map.position-pattern.grid.ulength`
pub const U_LENGTH_KEY: &'static str = "quantitative-imaging-map.position-pattern.grid.ulength";

/// `quantitative-imaging-map.position-pattern.grid.vlength`
pub const V_LENGTH_KEY: &'static str = "quantitative-imaging-map.position-pattern.grid.vlength";

/// `quantitative-imaging-map.position-pattern.grid.unit.unit`
pub const UNIT_KEY: &'static str = "quantitative-imaging-map.position-pattern.grid.unit.unit";

/// `quantitative-imaging-map.position-pattern.grid.ilength`
pub const I_LENGTH_KEY: &'static str = "quantitative-imaging-map.position-pattern.grid.ilength";

/// `quantitative-imaging-map.position-pattern.grid.jlength`
pub const J_LENGTH_KEY: &'static str = "quantitative-imaging-map.position-pattern.grid.jlength";

/// The value of the type property of a grid.
pub const GRID_TYPE: &'static str = "grid-position-pattern";

/// The value of the numbering property for rows numbered one after the
/// other, each from left to right.
pub const LEFT_TO_RIGHT: &'static str = "left-to-right";

/// The order in which the positions of a pattern are numbered.
#[derive(Debug, Clone, Copy, PartialEq, Eq, Structural)]
pub enum Numbering {
    LeftToRight,
}

impl Numbering {
    pub fn from_str(input: &str) -> (r: Option<Self>)
        ensures
            r == (if input@ == LEFT_TO_RIGHT@ {
                Some(Numbering::LeftToRight)
            } else {
                None
            }),
    {
        if str_eq(input, LEFT_TO_RIGHT) {
            Some(Self::LeftToRight)
        } else {
            None
        }
    }
}

/// A grid of `i_length` columns and `j_length` rows. Its centre and its
/// side lengths are kept as the property file writes them.
#[derive(Debug, Clone)]
pub struct Grid {
    x_center: String,
    y_center: String,
    u_length: String,
    v_length: String,
    unit: String,
    i_length: u16,
    j_length: u16,
}

/// A `Grid` as numbers and sequences of characters.
pub struct GridView {
    pub x_center: Seq<char>,
    pub y_center: Seq<char>,
    pub u_length: Seq<char>,
    pub v_length: Seq<char>,
    pub unit: Seq<char>,
    pub i_length: nat,
    pub j_length: nat,
}

impl View for Grid {
    type V = GridView;

    closed spec fn view(&self) -> GridView {
        GridView {
            x_center: self.x_center@,
            y_center: self.y_center@,
            u_length: self.u_length@,
            v_length: self.v_length@,
            unit: self.unit@,
            i_length: self.i_length as nat,
            j_length: self.j_length as nat,
        }
    }
}

/// The grid that a dataset's properties describe, or the first property,
/// in the order of `GridView`'s fields, that is missing or invalid.
pub open spec fn spec_grid(properties: Map<Seq<char>, Seq<char>>) -> Result<GridView, PropertyView> {
    match spec_value(properties, X_CENTER_KEY@) {
        Err(e) => Err(e),
        Ok(x_center) => match spec_value(properties, Y_CENTER_KEY@) {
            Err(e) => Err(e),
            Ok(y_center) => match spec_value(properties, U_LENGTH_KEY@) {
                Err(e) => Err(e),
                Ok(u_length) => match spec_value(properties, V_LENGTH_KEY@) {
                    Err(e) => Err(e),
                    Ok(v_length) => match spec_value(properties, UNIT_KEY@) {
                        Err(e) => Err(e),
                        Ok(unit) => match spec_extract_unsigned(properties, I_LENGTH_KEY@, u16::MAX as nat) {
                            Err(e) => Err(e),
                            Ok(i_length) => match spec_extract_unsigned(
                                properties,
                                J_LENGTH_KEY@,
                                u16::MAX as nat,
                            ) {
                                Err(e) => Err(e),
                                Ok(j_length) => Ok(
                                    GridView { x_center, y_center, u_length, v_length, unit, i_length, j_length },
                                ),
                            },
                        },
                    },
                },
            },
        },
    }
}

impl Grid {
    pub fn from_properties(properties: &Properties) -> (r: Result<Self, Property>)
        ensures
            match r {
                Ok(grid) => spec_grid(properties@) == Ok::<GridView, PropertyView>(grid@),
                Err(e) => spec_grid(properties@) == Err::<GridView, PropertyView>(e@),
            },
    {
        let x_center = match extract_value(properties, X_CENTER_KEY) {
            Ok(value) => value.clone(),
            Err(e) => {
                return Err(e);
            },
        };
        let y_center = match extract_value(properties, Y_CENTER_KEY) {
            Ok(value) => value.clone(),
            Err(e) => {
                return Err(e);
            },
        };
        let u_length = match extract_value(properties, U_LENGTH_KEY) {
            Ok(value) => value.clone(),
            Err(e) => {
                return Err(e);
            },
        };
        let v_length = match extract_value(properties, V_LENGTH_KEY) {
            Ok(value) => value.clone(),
            Err(e) => {
                return Err(e);
            },
        };
        let unit = match extract_value(properties, UNIT_KEY) {
            Ok(value) => value.clone(),
            Err(e) => {
                return Err(e);
            },
        };
        let i_length = match extract_u16(properties, I_LENGTH_KEY) {
            Ok(value) => value,
            Err(e) => {
                return Err(e);
            },
        };
        let j_length = match extract_u16(properties, J_LENGTH_KEY) {
            Ok(value) => value,
            Err(e) => {
                return Err(e);
            },
        };
        Ok(Self { x_center, y_center, u_length, v_length, unit, i_length, j_length })
    }

    /// The centre's first coordinate, as written.
    pub fn x_center(&self) -> (r: &String)
        ensures
            r@ == self@.x_center,
    {
        &self.x_center
    }

    /// The centre's second coordinate, as written.
    pub fn y_center(&self) -> (r: &String)
        ensures
            r@ == self@.y_center,
    {
        &self.y_center
    }

    /// The length of the side along the rows, as written.
    pub fn u_length(&self) -> (r: &String)
        ensures
            r@ == self@.u_length,
    {
        &self.u_length
    }

    /// The length of the side along the columns, as written.
    pub fn v_length(&self) -> (r: &String)
        ensures
            r@ == self@.v_length,
    {
        &self.v_length
    }

    /// The unit of the centre and the side lengths.
    pub fn unit(&self) -> (r: &String)
        ensures
            r@ == self@.unit,
    {
        &self.unit
    }

    /// Number of columns.
    pub fn i_length(&self) -> (r: u16)
        ensures
            r == self@.i_length,
    {
        self.i_length
    }

    /// Number of rows.
    pub fn j_length(&self) -> (r: u16)
        ensures
            r == self@.j_length,
    {
        self.j_length
    }
}

/// The shape of a position pattern.
#[derive(Debug, Clone)]
pub enum PositionPatternType {
    Grid(Grid),
}

/// The shape that a dataset's properties describe, or the first property
/// that is missing or invalid: the type first, then those of the grid.
pub open spec fn spec_pattern_type(properties: Map<Seq<char>, Seq<char>>) -> Result<GridView, PropertyView> {
    match spec_value(properties, TYPE_KEY@) {
        Err(e) => Err(e),
        Ok(kind) => if kind == GRID_TYPE@ {
            spec_grid(properties)
        } else {
            Err(PropertyView::InvalidValue(TYPE_KEY@))
        },
    }
}

impl PositionPatternType {
    /// The grid of the shape.
    pub open spec fn grid(&self) -> GridView {
        match self {
            PositionPatternType::Grid(grid) => grid@,
        }
    }

    pub fn from_properties(properties: &Properties) -> (r: Result<Self, Property>)
        ensures
            match r {
                Ok(kind) => spec_pattern_type(properties@) == Ok::<GridView, PropertyView>(kind.grid()),
                Err(e) => spec_pattern_type(properties@) == Err::<GridView, PropertyView>(e@),
            },
    {
        let kind = match extract_value(properties, TYPE_KEY) {
            Ok(kind) => kind,
            Err(e) => {
                return Err(e);
            },
        };
        if str_eq(kind.as_str(), GRID_TYPE) {
            match Grid::from_properties(properties) {
                Ok(grid) => Ok(Self::Grid(grid)),
                Err(e) => Err(e),
            }
        } else {
            Err(Property::InvalidValue(TYPE_KEY.to_owned()))
        }
    }
}

/// The rule that maps pixels to the numbers of positions.
#[derive(Debug, Clone)]
pub struct PositionPattern {
    numbering: Numbering,
    kind: PositionPatternType,
}

/// The number of `pixel` in a grid of `i_length` columns and `j_length`
/// rows, numbered row by row from left to right; `None` for a pixel
/// outside the grid.
pub open spec fn grid_pixel_to_index(i_length: nat, j_length: nat, pixel: Pixel) -> Option<nat> {
    if pixel.x >= i_length || pixel.y >= j_length {
        None
    } else {
        Some((pixel.y * i_length + pixel.x) as nat)
    }
}

/// The pixel with the number `index` in a grid of `i_length` columns and
/// `j_length` rows; `None` where the grid has no such row.
pub open spec fn grid_index_to_pixel(i_length: nat, j_length: nat, index: nat) -> Option<Pixel> {
    if i_length == 0 || index / i_length >= j_length {
        None
    } else {
        Some(Pixel { x: (index % i_length) as usize, y: (index / i_length) as usize })
    }
}

/// Every number below `i_length * j_length` belongs to a pixel of the grid,
/// and that pixel has this number.
pub proof fn lemma_index_pixel_index(i_length: nat, j_length: nat, index: nat)
    requires
        i_length <= u16::MAX,
        j_length <= u16::MAX,
        index < i_length * j_length,
    ensures
        grid_index_to_pixel(i_length, j_length, index) is Some,
        grid_pixel_to_index(i_length, j_length, grid_index_to_pixel(i_length, j_length, index).unwrap()) == Some(
            index,
        ),
{
    assert(i_length > 0) by (nonlinear_arith)
        requires
            index < i_length * j_length,
    ;
    let y = index as int / i_length as int;
    let x = index as int % i_length as int;
    vstd::arithmetic::div_mod::lemma_fundamental_div_mod(index as int, i_length as int);
    assert(y < j_length) by (nonlinear_arith)
        requires
            index < i_length * j_length,
            index == i_length * y + x,
            0 <= x,
            i_length > 0,
    ;
    assert(0 <= y) by (nonlinear_arith)
        requires
            index == i_length * y + x,
            x < i_length,
            index >= 0,
            i_length > 0,
    ;
    assert(y * i_length + x == index) by (nonlinear_arith)
        requires
            index == i_length * y + x,
    ;
}

/// Every pixel of the grid has a number, that number is below
/// `i_length * j_length`, and it belongs to this pixel.
pub proof fn lemma_pixel_index_pixel(i_length: nat, j_length: nat, pixel: Pixel)
    requires
        pixel.x < i_length,
        pixel.y < j_length,
    ensures
        grid_pixel_to_index(i_length, j_length, pixel) is Some,
        grid_pixel_to_index(i_length, j_length, pixel).unwrap() < i_length * j_length,
        grid_index_to_pixel(i_length, j_length, grid_pixel_to_index(i_length, j_length, pixel).unwrap()) == Some(
            pixel,
        ),
{
    let index = pixel.y * i_length + pixel.x;
    assert(index < i_length * j_length) by (nonlinear_arith)
        requires
            index == pixel.y * i_length + pixel.x,
            pixel.x < i_length,
            pixel.y < j_length,
    ;
    assert(pixel.y * i_length >= 0) by (nonlinear_arith);
    vstd::arithmetic::div_mod::lemma_fundamental_div_mod_converse(
        index,
        i_length as int,
        pixel.y as int,
        pixel.x as int,
    );
}

/// The position pattern that a dataset's properties describe, or the first
/// property that is missing or invalid: the numbering first, then the type,
/// then those of the grid.
pub open spec fn spec_position_pattern(properties: Map<Seq<char>, Seq<char>>) -> Result<
    PositionPatternView,
    PropertyView,
> {
    match spec_value(properties, NUMBERING_KEY@) {
        Err(e) => Err(e),
        Ok(numbering) => if numbering != LEFT_TO_RIGHT@ {
            Err(PropertyView::InvalidValue(NUMBERING_KEY@))
        } else {
            match spec_pattern_type(properties) {
                Err(e) => Err(e),
                Ok(grid) => Ok(PositionPatternView { numbering: Numbering::LeftToRight, grid }),
            }
        },
    }
}

/// A `PositionPattern` with its grid as a `GridView`.
pub struct PositionPatternView {
    pub numbering: Numbering,
    pub grid: GridView,
}

impl View for PositionPattern {
    type V = PositionPatternView;

    closed spec fn view(&self) -> PositionPatternView {
        PositionPatternView { numbering: self.numbering, grid: self.kind.grid() }
    }
}

impl PositionPattern {
    pub fn from_properties(properties: &Properties) -> (r: Result<Self, Property>)
        ensures
            match r {
                Ok(pattern) => spec_position_pattern(properties@) == Ok::<PositionPatternView, PropertyView>(
                    pattern@,
                ),
                Err(e) => spec_position_pattern(properties@) == Err::<PositionPatternView, PropertyView>(e@),
            },
    {
        let numbering = match extract_value(properties, NUMBERING_KEY) {
            Ok(value) => match Numbering::from_str(value.as_str()) {
                Some(numbering) => numbering,
                None => {
                    return Err(Property::InvalidValue(NUMBERING_KEY.to_owned()));
                },
            },
            Err(e) => {
                return Err(e);
            },
        };
        match PositionPatternType::from_properties(properties) {
            Ok(kind) => Ok(Self { numbering, kind }),
            Err(e) => Err(e),
        }
    }

    /// The order in which the positions are numbered.
    pub fn numbering(&self) -> (r: Numbering)
        ensures
            r == self@.numbering,
    {
        self.numbering
    }

    /// The shape of the pattern.
    pub fn kind(&self) -> (r: &PositionPatternType)
        ensures
            r.grid() == self@.grid,
    {
        &self.kind
    }

    /// The number of the position at `pixel`.
    ///
    /// # Returns
    /// `None` if pixel coordinate is invalid.
    pub open spec fn spec_pixel_to_index(&self, pixel: Pixel) -> Option<nat> {
        grid_pixel_to_index(self@.grid.i_length, self@.grid.j_length, pixel)
    }

    /// The pixel of the position with the number `index`.
    ///
    /// # Returns
    /// `None` if index is invalid.
    pub open spec fn spec_index_to_pixel(&self, index: nat) -> Option<Pixel> {
        grid_index_to_pixel(self@.grid.i_length, self@.grid.j_length, index)
    }

    /// The grid's side lengths fit in sixteen bits.
    pub proof fn lemma_bounds(&self)
        ensures
            self@.grid.i_length <= u16::MAX,
            self@.grid.j_length <= u16::MAX,
    {
    }

    /// Every number below the count of the grid's positions belongs to a
    /// pixel, and that pixel has this number.
    pub proof fn lemma_index_to_pixel_and_back(&self, index: IndexId)
        requires
            index < self@.grid.i_length * self@.grid.j_length,
        ensures
            self.spec_index_to_pixel(index as nat) is Some,
            self.spec_pixel_to_index(self.spec_index_to_pixel(index as nat).unwrap()) == Some(index as nat),
    {
        self.lemma_bounds();
        lemma_index_pixel_index(self@.grid.i_length, self@.grid.j_length, index as nat);
    }

    /// Every pixel of the grid has a number below the count of the grid's
    /// positions, and that number belongs to this pixel.
    pub proof fn lemma_pixel_to_index_and_back(&self, pixel: Pixel)
        requires
            pixel.x < self@.grid.i_length,
            pixel.y < self@.grid.j_length,
        ensures
            self.spec_pixel_to_index(pixel) is Some,
            self.spec_pixel_to_index(pixel).unwrap() < self@.grid.i_length * self@.grid.j_length,
            self.spec_index_to_pixel(self.spec_pixel_to_index(pixel).unwrap()) == Some(pixel),
    {
        lemma_pixel_index_pixel(self@.grid.i_length, self@.grid.j_length, pixel);
    }

    /// # Returns
    /// `None` if pixel coordinate is invalid.
    pub fn pixel_to_index(&self, pixel: &Pixel) -> (r: Option<IndexId>)
        ensures
            pixel.x >= self@.grid.i_length || pixel.y >= self@.grid.j_length ==> r is None,
            match r {
                Some(index) => self.spec_pixel_to_index(*pixel) == Some(index as nat),
                None => self.spec_pixel_to_index(*pixel) is None,
            },
    {
        match &self.kind {
            PositionPatternType::Grid(grid) => {
                if pixel.x >= grid.i_length as IndexId || pixel.y >= grid.j_length as IndexId {
                    return None;
                }
                assert(pixel.y * grid.i_length + pixel.x <= 0xffff * 0xffff) by (nonlinear_arith)
                    requires
                        pixel.y < 0xffff,
                        pixel.x < grid.i_length,
                        grid.i_length <= 0xffff,
                ;
                assert(pixel.y * grid.i_length >= 0) by (nonlinear_arith);
                Some(pixel.y * grid.i_length as IndexId + pixel.x)
            },
        }
    }

    /// # Returns
    /// `None` if index is invalid.
    pub fn index_to_pixel(&self, index: IndexId) -> (r: Option<Pixel>)
        ensures
            r == self.spec_index_to_pixel(index as nat),
    {
        match &self.kind {
            PositionPatternType::Grid(grid) => {
                if grid.i_length == 0 {
                    return None;
                }
                let y = index / grid.i_length as IndexId;
                if y >= grid.j_length as IndexId {
                    return None;
                }
                let x = index % grid.i_length as IndexId;
                Some(Pixel { x, y })
            },
        }
    }
}

} // verus!
