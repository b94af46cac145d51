//! A DIMSTYLE table entry and a LAYOUT object: what their groups mean,
//! and where each of their values is. An integer is read here; a decimal
//! value is named by the pair that holds it, and what the reading needs of
//! it -- that it is a number -- it is told, pair by pair, by `fl` (`None`
//! where the value of pair `i` is not a number).

use vstd::prelude::*;
use crate::decode::{string, stored};
use crate::pairs::{views, Pair, PairView, ReadError, ReadErrorView};
use crate::record::{
    find, first_error, first_error_of, first_index, int_field, int_in, number_field, number_field_at,
    Check, NameRef, RefView,
};
use crate::text::{ascii_uppercase, owned, str_eq, to_ascii_uppercase, trim, trimmed};

verus! {

/// How a dimension style writes lengths.
#[derive(Debug, Clone, Copy, PartialEq, Eq)]
pub enum LinearUnitFormat {
    Scientific,
    Decimal,
    Engineering,
    Architectural,
    Fractional,
    WindowsDesktop,
}

/// How a dimension style stacks fractions.
#[derive(Debug, Clone, Copy, PartialEq, Eq)]
pub enum FractionFormat {
    Horizontal,
    Diagonal,
    NotStacked,
}

/// How a dimension style writes angles.
#[derive(Debug, Clone, Copy, PartialEq, Eq)]
pub enum AngularUnitFormat {
    DecimalDegrees,
    DegreesMinutesSeconds,
    Gradians,
    Radians,
    SurveyorsUnits,
}

/// DIMLUNIT (277): 1 scientific, 2 decimal, 3 engineering, 4
/// architectural, 5 fractional, 6 the Windows desktop's; anything else is
/// none the format defines.
pub open spec fn linear_unit_of(v: int) -> Option<LinearUnitFormat> {
    if v == 1 {
        Some(LinearUnitFormat::Scientific)
    } else if v == 2 {
        Some(LinearUnitFormat::Decimal)
    } else if v == 3 {
        Some(LinearUnitFormat::Engineering)
    } else if v == 4 {
        Some(LinearUnitFormat::Architectural)
    } else if v == 5 {
        Some(LinearUnitFormat::Fractional)
    } else if v == 6 {
        Some(LinearUnitFormat::WindowsDesktop)
    } else {
        None
    }
}

/// DIMLUNIT's linear unit format (see `linear_unit_of`).
pub fn linear_unit_format(v: i32) -> (r: Option<LinearUnitFormat>)
    ensures
        r == linear_unit_of(v as int),
{
    match v {
        1 => Some(LinearUnitFormat::Scientific),
        2 => Some(LinearUnitFormat::Decimal),
        3 => Some(LinearUnitFormat::Engineering),
        4 => Some(LinearUnitFormat::Architectural),
        5 => Some(LinearUnitFormat::Fractional),
        6 => Some(LinearUnitFormat::WindowsDesktop),
        _ => None,
    }
}

/// DIMFRAC (276): 0 horizontal, 1 diagonal, 2 not stacked.
pub open spec fn fraction_of(v: int) -> Option<FractionFormat> {
    if v == 0 {
        Some(FractionFormat::Horizontal)
    } else if v == 1 {
        Some(FractionFormat::Diagonal)
    } else if v == 2 {
        Some(FractionFormat::NotStacked)
    } else {
        None
    }
}

/// DIMFRAC's fraction format (see `fraction_of`).
pub fn fraction_format(v: i32) -> (r: Option<FractionFormat>)
    ensures
        r == fraction_of(v as int),
{
    match v {
        0 => Some(FractionFormat::Horizontal),
        1 => Some(FractionFormat::Diagonal),
        2 => Some(FractionFormat::NotStacked),
        _ => None,
    }
}

/// DIMAUNIT (275): 0 decimal degrees, 1 degrees/minutes/seconds, 2 gradians,
/// 3 radians, 4 surveyor's units.
pub open spec fn angular_unit_of(v: int) -> Option<AngularUnitFormat> {
    if v == 0 {
        Some(AngularUnitFormat::DecimalDegrees)
    } else if v == 1 {
        Some(AngularUnitFormat::DegreesMinutesSeconds)
    } else if v == 2 {
        Some(AngularUnitFormat::Gradians)
    } else if v == 3 {
        Some(AngularUnitFormat::Radians)
    } else if v == 4 {
        Some(AngularUnitFormat::SurveyorsUnits)
    } else {
        None
    }
}

/// DIMAUNIT's angular unit format (see `angular_unit_of`).
pub fn angular_unit_format(v: i32) -> (r: Option<AngularUnitFormat>)
    ensures
        r == angular_unit_of(v as int),
{
    match v {
        0 => Some(AngularUnitFormat::DecimalDegrees),
        1 => Some(AngularUnitFormat::DegreesMinutesSeconds),
        2 => Some(AngularUnitFormat::Gradians),
        3 => Some(AngularUnitFormat::Radians),
        4 => Some(AngularUnitFormat::SurveyorsUnits),
        _ => None,
    }
}

/// What a pre-R2000 dimension style's DIMUNIT (DXF 270) says: the linear
/// unit format, and -- where the value says it -- the fraction format. 4
/// and 5 are the architectural and fractional formats with stacked
/// fractions, which the variable does not say how to stack; 6 and 7 are the
/// same without stacking. R2000 split the variable into DIMLUNIT and
/// DIMFRAC.
pub open spec fn dimunit_of(v: i32) -> (Option<LinearUnitFormat>, Option<FractionFormat>) {
    if v == 1 {
        (Some(LinearUnitFormat::Scientific), None)
    } else if v == 2 {
        (Some(LinearUnitFormat::Decimal), None)
    } else if v == 3 {
        (Some(LinearUnitFormat::Engineering), None)
    } else if v == 4 {
        (Some(LinearUnitFormat::Architectural), None)
    } else if v == 5 {
        (Some(LinearUnitFormat::Fractional), None)
    } else if v == 6 {
        (Some(LinearUnitFormat::Architectural), Some(FractionFormat::NotStacked))
    } else if v == 7 {
        (Some(LinearUnitFormat::Fractional), Some(FractionFormat::NotStacked))
    } else if v == 8 {
        (Some(LinearUnitFormat::WindowsDesktop), None)
    } else {
        (None, None)
    }
}

/// What a pre-R2000 DIMUNIT says (see `dimunit_of`).
pub fn dimunit(v: i32) -> (r: (Option<LinearUnitFormat>, Option<FractionFormat>))
    ensures
        r == dimunit_of(v),
{
    match v {
        1 => (Some(LinearUnitFormat::Scientific), None),
        2 => (Some(LinearUnitFormat::Decimal), None),
        3 => (Some(LinearUnitFormat::Engineering), None),
        4 => (Some(LinearUnitFormat::Architectural), None),
        5 => (Some(LinearUnitFormat::Fractional), None),
        6 => (Some(LinearUnitFormat::Architectural), Some(FractionFormat::NotStacked)),
        7 => (Some(LinearUnitFormat::Fractional), Some(FractionFormat::NotStacked)),
        8 => (Some(LinearUnitFormat::WindowsDesktop), None),
        _ => (None, None),
    }
}

/// A variable that came with R2000: as the file states it, or -- where the
/// file is R2000 or later and leaves it out -- the value the application
/// starts from. A file of an earlier version cannot have written it, so
/// there an absent group is not stated.
pub fn since_r2000(v: Option<i32>, starting: i32, r2000: bool) -> (r: Option<i32>)
    ensures
        r == (match v {
            Some(x) => Some(x),
            None => if r2000 {
                Some(starting)
            } else {
                None
            },
        }),
{
    match v {
        Some(x) => Some(x),
        None => if r2000 {
            Some(starting)
        } else {
            None
        },
    }
}

/// The value of the first group `code` of `ps[lo..hi]` as an integer of
/// `min..=max`, where it is one.
pub open spec fn int_value_of(ps: Seq<PairView>, lo: nat, hi: nat, code: i32, min: int, max: int) -> Option<int> {
    match int_field(ps, lo, hi, code, min, max) {
        Ok(v) => v,
        Err(_) => None,
    }
}

/// The first decimal number of group `code` of `ps[lo..hi]`, where it is
/// one.
pub open spec fn number_of(ps: Seq<PairView>, fl: Seq<Option<bool>>, lo: nat, hi: nat, code: i32) -> Option<
    usize,
> {
    match number_field(ps, fl, lo, hi, code) {
        Ok(v) => v,
        Err(_) => None,
    }
}

fn int_value_at(ps: &Vec<Pair>, lo: usize, hi: usize, code: i32, min: i64, max: i64) -> (r: Option<i64>)
    requires
        lo <= hi <= ps@.len(),
        min <= -15,
        max >= 15,
    ensures
        match int_value_of(views(ps@), lo as nat, hi as nat, code, min as int, max as int) {
            Some(v) => r == Some(v as i64),
            None => r is None,
        },
{
    match int_in(ps, lo, hi, code, min, max) {
        Ok(v) => v,
        Err(_) => None,
    }
}

fn number_of_at(ps: &Vec<Pair>, fl: &Vec<Option<bool>>, lo: usize, hi: usize, code: i32) -> (r: Option<usize>)
    requires
        lo <= hi <= ps@.len(),
        fl@.len() == ps@.len(),
    ensures
        r == number_of(views(ps@), fl@, lo as nat, hi as nat, code),
{
    match number_field_at(ps, fl, lo, hi, code) {
        Ok(v) => v,
        Err(_) => None,
    }
}

/// An `i32` group's check.
pub open spec fn i32_check(code: i32, lo: usize, hi: usize) -> Check {
    Check::Int { code, lo, hi, min: i32::MIN as i64, max: i32::MAX as i64 }
}

/// An `i64` group's check.
pub open spec fn i64_check(code: i32, lo: usize, hi: usize) -> Check {
    Check::Int { code, lo, hi, min: i64::MIN, max: i64::MAX }
}

/// A decimal group's check.
pub open spec fn number_check(code: i32, lo: usize, hi: usize) -> Check {
    Check::Number { code, lo, hi }
}

/// The groups a DIMSTYLE entry's reading takes numbers from, in the order
/// it reads them: DIMUNIT first, then the variables in the order the model
/// lists them -- the linear unit format (277) and the fraction format
/// (276) only in a file of R2000 or later, which has them.
pub open spec fn dim_style_checks(lo: usize, hi: usize, r2000: bool) -> Seq<Check> {
    seq![
        i32_check(270, lo, hi),
        number_check(40, lo, hi),
        number_check(144, lo, hi),
        i32_check(71, lo, hi),
        i32_check(72, lo, hi),
        number_check(47, lo, hi),
        number_check(48, lo, hi),
        i32_check(271, lo, hi),
        i32_check(272, lo, hi),
        number_check(140, lo, hi),
        number_check(41, lo, hi),
    ] + (if r2000 {
        seq![i32_check(277, lo, hi)]
    } else {
        Seq::empty()
    }) + seq![
        i32_check(78, lo, hi),
        number_check(45, lo, hi),
        i32_check(275, lo, hi),
        i32_check(179, lo, hi),
    ] + (if r2000 {
        seq![i32_check(276, lo, hi)]
    } else {
        Seq::empty()
    })
}

/// A DIMSTYLE entry's values. A decimal value is named by its pair (read
/// as the starting value where it is absent, for a variable every template
/// starts from the same way: scale and length factor 1, tolerances and
/// rounding 0); an integer is read.
#[derive(Debug, Clone, PartialEq, Eq)]
pub struct DimStyleAt {
    pub name: String,
    /// The text prefix and suffix pattern (3); an absent group is none.
    pub post: String,
    pub scale: Option<usize>,
    pub length_factor: Option<usize>,
    /// Whether tolerances are shown (71) -- an absent group is no.
    pub tolerances: bool,
    /// Whether limits are shown (72) -- an absent group is no.
    pub limits: bool,
    pub tolerance_upper: Option<usize>,
    pub tolerance_lower: Option<usize>,
    pub decimal_places: Option<i32>,
    pub tolerance_decimal_places: Option<i32>,
    pub text_height: Option<usize>,
    pub arrow_size: Option<usize>,
    pub linear_unit_format: Option<LinearUnitFormat>,
    pub zero_suppression: Option<i32>,
    pub rounding: Option<usize>,
    pub angular_unit_format: Option<AngularUnitFormat>,
    pub angular_decimal_places: Option<i32>,
    pub fraction_format: Option<FractionFormat>,
}

pub struct DimStyleView {
    pub name: Seq<char>,
    pub post: Seq<char>,
    pub scale: Option<usize>,
    pub length_factor: Option<usize>,
    pub tolerances: bool,
    pub limits: bool,
    pub tolerance_upper: Option<usize>,
    pub tolerance_lower: Option<usize>,
    pub decimal_places: Option<int>,
    pub tolerance_decimal_places: Option<int>,
    pub text_height: Option<usize>,
    pub arrow_size: Option<usize>,
    pub linear_unit_format: Option<LinearUnitFormat>,
    pub zero_suppression: Option<int>,
    pub rounding: Option<usize>,
    pub angular_unit_format: Option<AngularUnitFormat>,
    pub angular_decimal_places: Option<int>,
    pub fraction_format: Option<FractionFormat>,
}

/// An exec `i32` that may be absent, as the spec's integer.
pub open spec fn opt_int(v: Option<i32>) -> Option<int> {
    match v {
        Some(x) => Some(x as int),
        None => None,
    }
}

impl View for DimStyleAt {
    type V = DimStyleView;

    open spec fn view(&self) -> DimStyleView {
        DimStyleView {
            name: self.name@,
            post: self.post@,
            scale: self.scale,
            length_factor: self.length_factor,
            tolerances: self.tolerances,
            limits: self.limits,
            tolerance_upper: self.tolerance_upper,
            tolerance_lower: self.tolerance_lower,
            decimal_places: opt_int(self.decimal_places),
            tolerance_decimal_places: opt_int(self.tolerance_decimal_places),
            text_height: self.text_height,
            arrow_size: self.arrow_size,
            linear_unit_format: self.linear_unit_format,
            zero_suppression: opt_int(self.zero_suppression),
            rounding: self.rounding,
            angular_unit_format: self.angular_unit_format,
            angular_decimal_places: opt_int(self.angular_decimal_places),
            fraction_format: self.fraction_format,
        }
    }
}

/// A DIMSTYLE entry `name` from its record `ps[lo..hi]`; `r2000` when the
/// file is R2000 or later.
///
/// A style variable is written only when it differs from the value the
/// application starts from. Where every template starts from the same value
/// (a switch that is off, the decimal unit format, decimal degrees), an
/// absent group is that value. Where the templates start differently (text
/// height, decimal places, zero suppression), an absent group is not
/// stated. Three variables (the linear unit format, the fraction format and
/// an angle's decimal places) came with R2000: a file of an earlier version
/// cannot have written them, so there an absent one is not stated either,
/// and DIMUNIT (270) says both formats. The first group, in the reading's
/// order (see `dim_style_checks`), whose value is not a number is the
/// error.
pub open spec fn dim_style_of(
    name: Seq<char>,
    ps: Seq<PairView>,
    fl: Seq<Option<bool>>,
    lo: nat,
    hi: nat,
    r2000: bool,
) -> Result<DimStyleView, ReadErrorView> {
    match first_error(ps, fl, dim_style_checks(lo as usize, hi as usize, r2000)) {
        Some(e) => Err(e),
        None => {
            let ival = |code: i32| int_value_of(ps, lo, hi, code, i32::MIN as int, i32::MAX as int);
            let nval = |code: i32| number_of(ps, fl, lo, hi, code);
            let du = match ival(270) {
                Some(v) => dimunit_of(v as i32),
                None => (None, None),
            };
            Ok(
                DimStyleView {
                    name,
                    post: match first_index(ps, lo, hi, 3) {
                        Some(i) => stored(ps[i as int].value),
                        None => Seq::empty(),
                    },
                    scale: nval(40),
                    length_factor: nval(144),
                    tolerances: ival(71) matches Some(v) && v != 0,
                    limits: ival(72) matches Some(v) && v != 0,
                    tolerance_upper: nval(47),
                    tolerance_lower: nval(48),
                    decimal_places: ival(271),
                    tolerance_decimal_places: ival(272),
                    text_height: nval(140),
                    arrow_size: nval(41),
                    linear_unit_format: if r2000 {
                        linear_unit_of(
                            match ival(277) {
                                Some(v) => v,
                                None => 2,
                            },
                        )
                    } else {
                        du.0
                    },
                    zero_suppression: ival(78),
                    rounding: nval(45),
                    angular_unit_format: angular_unit_of(
                        match ival(275) {
                            Some(v) => v,
                            None => 0,
                        },
                    ),
                    angular_decimal_places: match ival(179) {
                        Some(v) => Some(v),
                        None => if r2000 {
                            Some(0)
                        } else {
                            None
                        },
                    },
                    fraction_format: if r2000 {
                        fraction_of(
                            match ival(276) {
                                Some(v) => v,
                                None => 0,
                            },
                        )
                    } else {
                        du.1
                    },
                },
            )
        },
    }
}

fn i32_at(ps: &Vec<Pair>, lo: usize, hi: usize, code: i32) -> (r: Option<i32>)
    requires
        lo <= hi <= ps@.len(),
    ensures
        opt_int(r) == int_value_of(views(ps@), lo as nat, hi as nat, code, i32::MIN as int, i32::MAX as int),
{
    match int_value_at(ps, lo, hi, code, i32::MIN as i64, i32::MAX as i64) {
        Some(v) => Some(v as i32),
        None => None,
    }
}

/// A DIMSTYLE entry's values (see `dim_style_of`).
#[verifier::rlimit(40)]
pub fn dim_style(name: String, ps: &Vec<Pair>, fl: &Vec<Option<bool>>, lo: usize, hi: usize, r2000: bool) -> (r:
    Result<DimStyleAt, ReadError>)
    requires
        lo <= hi <= ps@.len(),
        fl@.len() == ps@.len(),
    ensures
        match dim_style_of(name@, views(ps@), fl@, lo as nat, hi as nat, r2000) {
            Ok(v) => r matches Ok(x) && x@ == v,
            Err(e) => r matches Err(x) && x@ == e,
        },
{
    let mut cs: Vec<Check> = vec![
        Check::Int { code: 270, lo, hi, min: i32::MIN as i64, max: i32::MAX as i64 },
        Check::Number { code: 40, lo, hi },
        Check::Number { code: 144, lo, hi },
        Check::Int { code: 71, lo, hi, min: i32::MIN as i64, max: i32::MAX as i64 },
        Check::Int { code: 72, lo, hi, min: i32::MIN as i64, max: i32::MAX as i64 },
        Check::Number { code: 47, lo, hi },
        Check::Number { code: 48, lo, hi },
        Check::Int { code: 271, lo, hi, min: i32::MIN as i64, max: i32::MAX as i64 },
        Check::Int { code: 272, lo, hi, min: i32::MIN as i64, max: i32::MAX as i64 },
        Check::Number { code: 140, lo, hi },
        Check::Number { code: 41, lo, hi },
    ];
    if r2000 {
        cs.push(Check::Int { code: 277, lo, hi, min: i32::MIN as i64, max: i32::MAX as i64 });
    }
    cs.push(Check::Int { code: 78, lo, hi, min: i32::MIN as i64, max: i32::MAX as i64 });
    cs.push(Check::Number { code: 45, lo, hi });
    cs.push(Check::Int { code: 275, lo, hi, min: i32::MIN as i64, max: i32::MAX as i64 });
    cs.push(Check::Int { code: 179, lo, hi, min: i32::MIN as i64, max: i32::MAX as i64 });
    if r2000 {
        cs.push(Check::Int { code: 276, lo, hi, min: i32::MIN as i64, max: i32::MAX as i64 });
    }
    assert(cs@ =~= dim_style_checks(lo, hi, r2000));
    if let Some(e) = first_error_of(ps, fl, &cs) {
        return Err(e);
    }
    let du = match i32_at(ps, lo, hi, 270) {
        Some(v) => dimunit(v),
        None => (None, None),
    };
    let post = match find(ps, lo, hi, 3) {
        Some(i) => {
            assert(views(ps@)[i as int] == ps@[i as int]@);
            string(ps[i].value)
        },
        None => String::new(),
    };
    let linear = if r2000 {
        linear_unit_format(
            match i32_at(ps, lo, hi, 277) {
                Some(v) => v,
                None => 2,
            },
        )
    } else {
        du.0
    };
    let fraction = if r2000 {
        fraction_format(
            match i32_at(ps, lo, hi, 276) {
                Some(v) => v,
                None => 0,
            },
        )
    } else {
        du.1
    };
    let angular_places = match i32_at(ps, lo, hi, 179) {
        Some(v) => Some(v),
        None => if r2000 {
            Some(0)
        } else {
            None
        },
    };
    let tolerances = match i32_at(ps, lo, hi, 71) {
        Some(v) => v != 0,
        None => false,
    };
    let limits = match i32_at(ps, lo, hi, 72) {
        Some(v) => v != 0,
        None => false,
    };
    Ok(
        DimStyleAt {
            name,
            post,
            scale: number_of_at(ps, fl, lo, hi, 40),
            length_factor: number_of_at(ps, fl, lo, hi, 144),
            tolerances,
            limits,
            tolerance_upper: number_of_at(ps, fl, lo, hi, 47),
            tolerance_lower: number_of_at(ps, fl, lo, hi, 48),
            decimal_places: i32_at(ps, lo, hi, 271),
            tolerance_decimal_places: i32_at(ps, lo, hi, 272),
            text_height: number_of_at(ps, fl, lo, hi, 140),
            arrow_size: number_of_at(ps, fl, lo, hi, 41),
            linear_unit_format: linear,
            zero_suppression: i32_at(ps, lo, hi, 78),
            rounding: number_of_at(ps, fl, lo, hi, 45),
            angular_unit_format: angular_unit_format(
                match i32_at(ps, lo, hi, 275) {
                    Some(v) => v,
                    None => 0,
                },
            ),
            angular_decimal_places: angular_places,
            fraction_format: fraction,
        },
    )
}

/// The unit a layout's paper sizes are in.
#[derive(Debug, Clone, Copy, PartialEq, Eq)]
pub enum PaperUnits {
    Inches,
    Millimeters,
    Pixels,
}

/// How a layout is turned on the paper.
#[derive(Debug, Clone, Copy, PartialEq, Eq)]
pub enum PlotRotation {
    Unrotated,
    Counterclockwise90,
    UpsideDown,
    Clockwise90,
}

/// A layout's paper units (72): 0 inches, 1 millimetres, 2 pixels.
pub open spec fn paper_units_of(v: int) -> Option<PaperUnits> {
    if v == 0 {
        Some(PaperUnits::Inches)
    } else if v == 1 {
        Some(PaperUnits::Millimeters)
    } else if v == 2 {
        Some(PaperUnits::Pixels)
    } else {
        None
    }
}

/// A layout's paper units (see `paper_units_of`).
pub fn paper_units(v: i64) -> (r: Option<PaperUnits>)
    ensures
        r == paper_units_of(v as int),
{
    match v {
        0 => Some(PaperUnits::Inches),
        1 => Some(PaperUnits::Millimeters),
        2 => Some(PaperUnits::Pixels),
        _ => None,
    }
}

/// A layout's plot rotation (73): 0 none, 1 a quarter turn counterclockwise,
/// 2 upside down, 3 a quarter turn clockwise.
pub open spec fn plot_rotation_of(v: int) -> Option<PlotRotation> {
    if v == 0 {
        Some(PlotRotation::Unrotated)
    } else if v == 1 {
        Some(PlotRotation::Counterclockwise90)
    } else if v == 2 {
        Some(PlotRotation::UpsideDown)
    } else if v == 3 {
        Some(PlotRotation::Clockwise90)
    } else {
        None
    }
}

/// A layout's plot rotation (see `plot_rotation_of`).
pub fn plot_rotation(v: i64) -> (r: Option<PlotRotation>)
    ensures
        r == plot_rotation_of(v as int),
{
    match v {
        0 => Some(PlotRotation::Unrotated),
        1 => Some(PlotRotation::Counterclockwise90),
        2 => Some(PlotRotation::UpsideDown),
        3 => Some(PlotRotation::Clockwise90),
        _ => None,
    }
}

/// Where a LAYOUT object's own part starts: at its `AcDbLayout` marker, the
/// object's plot settings before it; at its end when it has none.
pub open spec fn layout_split_of(ps: Seq<PairView>, lo: nat, hi: nat) -> nat
    decreases hi - lo,
{
    if lo >= hi {
        hi
    } else if ps[lo as int].code == 100 && trimmed(ps[lo as int].value) == "AcDbLayout"@ {
        lo
    } else {
        layout_split_of(ps, lo + 1, hi)
    }
}

/// Where a LAYOUT object's own part starts (see `layout_split_of`). The
/// object has two parts that reuse each other's group codes: its plot
/// settings and the layout itself.
pub fn layout_split(ps: &Vec<Pair>, lo: usize, hi: usize) -> (r: usize)
    requires
        lo <= hi <= ps@.len(),
    ensures
        r == layout_split_of(views(ps@), lo as nat, hi as nat),
        lo <= r <= hi,
{
    let ghost pv = views(ps@);
    let mut i = lo;
    while i < hi
        invariant
            pv == views(ps@),
            lo <= i <= hi <= ps@.len(),
            layout_split_of(pv, lo as nat, hi as nat) == layout_split_of(pv, i as nat, hi as nat),
        decreases hi - i,
    {
        let p = ps[i];
        assert(pv[i as int] == p@);
        if p.code == 100 && str_eq(trim(p.value), "AcDbLayout") {
            return i;
        }
        i = i + 1;
    }
    hi
}

/// The groups a LAYOUT object's reading takes numbers from, in the order
/// it reads them: of the layout part (`own..hi`), its tab order (71) and
/// limits (10/20, 11/21); of the plot settings (`lo..own`), the paper size
/// (44, 45), margins (40 to 43), plot origin (46, 47), paper units (72),
/// rotation (73) and scale (142, 143).
pub open spec fn layout_checks(lo: usize, own: usize, hi: usize) -> Seq<Check> {
    seq![
        i32_check(71, own, hi),
        number_check(10, own, hi),
        number_check(20, own, hi),
        number_check(11, own, hi),
        number_check(21, own, hi),
        number_check(44, lo, own),
        number_check(45, lo, own),
        number_check(40, lo, own),
        number_check(41, lo, own),
        number_check(42, lo, own),
        number_check(43, lo, own),
        number_check(46, lo, own),
        number_check(47, lo, own),
        i64_check(72, lo, own),
        i64_check(73, lo, own),
        number_check(142, lo, own),
        number_check(143, lo, own),
    ]
}

/// Where a point's coordinates are, each where the record writes it.
#[derive(Debug, Clone, Copy, PartialEq, Eq)]
pub struct XyAt {
    pub x: Option<usize>,
    pub y: Option<usize>,
}

/// A LAYOUT object's values; a decimal value is named by its pair.
#[derive(Debug, Clone, PartialEq, Eq)]
pub struct LayoutAt {
    pub name: String,
    pub tab_order: i32,
    /// The block it shows, by its BLOCK_RECORD's handle, upper case.
    pub block: NameRef,
    pub limits_min: XyAt,
    pub limits_max: XyAt,
    pub paper_name: String,
    pub paper_width: Option<usize>,
    pub paper_height: Option<usize>,
    pub margin_left: Option<usize>,
    pub margin_bottom: Option<usize>,
    pub margin_right: Option<usize>,
    pub margin_top: Option<usize>,
    pub plot_origin: XyAt,
    pub paper_units: Option<PaperUnits>,
    pub rotation: Option<PlotRotation>,
    pub scale_numerator: Option<usize>,
    pub scale_denominator: Option<usize>,
}

pub struct LayoutView {
    pub name: Seq<char>,
    pub tab_order: int,
    pub block: RefView,
    pub limits_min: XyAt,
    pub limits_max: XyAt,
    pub paper_name: Seq<char>,
    pub paper_width: Option<usize>,
    pub paper_height: Option<usize>,
    pub margin_left: Option<usize>,
    pub margin_bottom: Option<usize>,
    pub margin_right: Option<usize>,
    pub margin_top: Option<usize>,
    pub plot_origin: XyAt,
    pub paper_units: Option<PaperUnits>,
    pub rotation: Option<PlotRotation>,
    pub scale_numerator: Option<usize>,
    pub scale_denominator: Option<usize>,
}

impl View for LayoutAt {
    type V = LayoutView;

    open spec fn view(&self) -> LayoutView {
        LayoutView {
            name: self.name@,
            tab_order: self.tab_order as int,
            block: self.block@,
            limits_min: self.limits_min,
            limits_max: self.limits_max,
            paper_name: self.paper_name@,
            paper_width: self.paper_width,
            paper_height: self.paper_height,
            margin_left: self.margin_left,
            margin_bottom: self.margin_bottom,
            margin_right: self.margin_right,
            margin_top: self.margin_top,
            plot_origin: self.plot_origin,
            paper_units: self.paper_units,
            rotation: self.rotation,
            scale_numerator: self.scale_numerator,
            scale_denominator: self.scale_denominator,
        }
    }
}

/// A layout's block, as its part's first 330 names it: the handle, upper
/// case; none where it is empty or the null handle `0`.
pub open spec fn layout_block(ps: Seq<PairView>, own: nat, hi: nat) -> RefView {
    match first_index(ps, own, hi, 330) {
        Some(i) => {
            let h = trimmed(ps[i as int].value);
            if h.len() > 0 && h != "0"@ {
                RefView::Unresolved(ascii_uppercase(h))
            } else {
                RefView::Absent
            }
        },
        None => RefView::Absent,
    }
}

/// A LAYOUT object from its record `ps[lo..hi]`, or `None` for one without
/// a name (1). Its plot settings come first and its layout part starts at
/// the `AcDbLayout` marker (see `layout_split_of`); each reuses the other's
/// codes, so each value is looked for in its own part. The first group, in
/// the reading's order (see `layout_checks`), whose value is not a number
/// is the error.
pub open spec fn layout_of(ps: Seq<PairView>, fl: Seq<Option<bool>>, lo: nat, hi: nat) -> Result<
    Option<LayoutView>,
    ReadErrorView,
> {
    let own = layout_split_of(ps, lo, hi);
    match first_index(ps, own, hi, 1) {
        None => Ok(None),
        Some(n) => match first_error(ps, fl, layout_checks(lo as usize, own as usize, hi as usize)) {
            Some(e) => Err(e),
            None => {
                let mine = |code: i32| number_of(ps, fl, own, hi, code);
                let plot = |code: i32| number_of(ps, fl, lo, own, code);
                Ok(
                    Some(
                        LayoutView {
                            name: stored(ps[n as int].value),
                            tab_order: match int_value_of(
                                ps,
                                own,
                                hi,
                                71,
                                i32::MIN as int,
                                i32::MAX as int,
                            ) {
                                Some(v) => v,
                                None => 0,
                            },
                            block: layout_block(ps, own, hi),
                            limits_min: XyAt { x: mine(10), y: mine(20) },
                            limits_max: XyAt { x: mine(11), y: mine(21) },
                            paper_name: match first_index(ps, lo, own, 4) {
                                Some(i) => stored(ps[i as int].value),
                                None => Seq::empty(),
                            },
                            paper_width: plot(44),
                            paper_height: plot(45),
                            margin_left: plot(40),
                            margin_bottom: plot(41),
                            margin_right: plot(42),
                            margin_top: plot(43),
                            plot_origin: XyAt { x: plot(46), y: plot(47) },
                            paper_units: match int_value_of(
                                ps,
                                lo,
                                own,
                                72,
                                i64::MIN as int,
                                i64::MAX as int,
                            ) {
                                Some(v) => paper_units_of(v),
                                None => None,
                            },
                            rotation: match int_value_of(
                                ps,
                                lo,
                                own,
                                73,
                                i64::MIN as int,
                                i64::MAX as int,
                            ) {
                                Some(v) => plot_rotation_of(v),
                                None => None,
                            },
                            scale_numerator: plot(142),
                            scale_denominator: plot(143),
                        },
                    ),
                )
            },
        },
    }
}

fn layout_block_at(ps: &Vec<Pair>, own: usize, hi: usize) -> (r: NameRef)
    requires
        own <= hi <= ps@.len(),
    ensures
        r@ == layout_block(views(ps@), own as nat, hi as nat),
{
    match find(ps, own, hi, 330) {
        Some(i) => {
            assert(views(ps@)[i as int] == ps@[i as int]@);
            let h = trim(ps[i].value);
            if !h.is_empty() && !str_eq(h, "0") {
                NameRef::Unresolved(to_ascii_uppercase(h))
            } else {
                NameRef::Absent
            }
        },
        None => NameRef::Absent,
    }
}

/// A LAYOUT object's values (see `layout_of`).
#[verifier::rlimit(40)]
pub fn layout(ps: &Vec<Pair>, fl: &Vec<Option<bool>>, lo: usize, hi: usize) -> (r: Result<
    Option<LayoutAt>,
    ReadError,
>)
    requires
        lo <= hi <= ps@.len(),
        fl@.len() == ps@.len(),
    ensures
        match layout_of(views(ps@), fl@, lo as nat, hi as nat) {
            Ok(Some(v)) => r matches Ok(Some(x)) && x@ == v,
            Ok(None) => r matches Ok(None),
            Err(e) => r matches Err(x) && x@ == e,
        },
{
    let own = layout_split(ps, lo, hi);
    let n = match find(ps, own, hi, 1) {
        None => {
            return Ok(None);
        },
        Some(n) => n,
    };
    let cs: Vec<Check> = vec![
        Check::Int { code: 71, lo: own, hi, min: i32::MIN as i64, max: i32::MAX as i64 },
        Check::Number { code: 10, lo: own, hi },
        Check::Number { code: 20, lo: own, hi },
        Check::Number { code: 11, lo: own, hi },
        Check::Number { code: 21, lo: own, hi },
        Check::Number { code: 44, lo, hi: own },
        Check::Number { code: 45, lo, hi: own },
        Check::Number { code: 40, lo, hi: own },
        Check::Number { code: 41, lo, hi: own },
        Check::Number { code: 42, lo, hi: own },
        Check::Number { code: 43, lo, hi: own },
        Check::Number { code: 46, lo, hi: own },
        Check::Number { code: 47, lo, hi: own },
        Check::Int { code: 72, lo, hi: own, min: i64::MIN, max: i64::MAX },
        Check::Int { code: 73, lo, hi: own, min: i64::MIN, max: i64::MAX },
        Check::Number { code: 142, lo, hi: own },
        Check::Number { code: 143, lo, hi: own },
    ];
    assert(cs@ =~= layout_checks(lo, own, hi));
    if let Some(e) = first_error_of(ps, fl, &cs) {
        return Err(e);
    }
    assert(views(ps@)[n as int] == ps@[n as int]@);
    let name = string(ps[n].value);
    let tab_order = match int_value_at(ps, own, hi, 71, i32::MIN as i64, i32::MAX as i64) {
        Some(v) => v as i32,
        None => 0,
    };
    let paper_name = match find(ps, lo, own, 4) {
        Some(i) => {
            assert(views(ps@)[i as int] == ps@[i as int]@);
            string(ps[i].value)
        },
        None => String::new(),
    };
    let paper_units = match int_value_at(ps, lo, own, 72, i64::MIN, i64::MAX) {
        Some(v) => paper_units(v),
        None => None,
    };
    let rotation = match int_value_at(ps, lo, own, 73, i64::MIN, i64::MAX) {
        Some(v) => plot_rotation(v),
        None => None,
    };
    Ok(
        Some(
            LayoutAt {
                name,
                tab_order,
                block: layout_block_at(ps, own, hi),
                limits_min: XyAt {
                    x: number_of_at(ps, fl, own, hi, 10),
                    y: number_of_at(ps, fl, own, hi, 20),
                },
                limits_max: XyAt {
                    x: number_of_at(ps, fl, own, hi, 11),
                    y: number_of_at(ps, fl, own, hi, 21),
                },
                paper_name,
                paper_width: number_of_at(ps, fl, lo, own, 44),
                paper_height: number_of_at(ps, fl, lo, own, 45),
                margin_left: number_of_at(ps, fl, lo, own, 40),
                margin_bottom: number_of_at(ps, fl, lo, own, 41),
                margin_right: number_of_at(ps, fl, lo, own, 42),
                margin_top: number_of_at(ps, fl, lo, own, 43),
                plot_origin: XyAt {
                    x: number_of_at(ps, fl, lo, own, 46),
                    y: number_of_at(ps, fl, lo, own, 47),
                },
                paper_units,
                rotation,
                scale_numerator: number_of_at(ps, fl, lo, own, 142),
                scale_denominator: number_of_at(ps, fl, lo, own, 143),
            },
        ),
    )
}

/// The groups an IMAGEDEF object's reading takes numbers from, in the order
/// it reads them: its size in pixels (10/20), a pixel's size (11/21), and
/// whether the file was loaded (280) and the unit of its pixels (281).
pub open spec fn image_def_checks(lo: usize, hi: usize) -> Seq<Check> {
    seq![
        number_check(10, lo, hi),
        number_check(20, lo, hi),
        number_check(11, lo, hi),
        number_check(21, lo, hi),
        i32_check(280, lo, hi),
        i32_check(281, lo, hi),
    ]
}

/// An IMAGEDEF object's values; a decimal value is named by its pair.
#[derive(Debug, Clone, PartialEq, Eq)]
pub struct ImageDefAt {
    /// Its handle (5), upper case: what an IMAGE names it by.
    pub handle: String,
    /// The raster file's path (1), as the drawing stores it.
    pub file_path: Option<String>,
    pub size_pixels: XyAt,
    pub pixel_size: XyAt,
    pub loaded: Option<bool>,
    /// The unit of a pixel's size (281), as written.
    pub resolution_unit: Option<i32>,
}

pub struct ImageDefView {
    pub handle: Seq<char>,
    pub file_path: Option<Seq<char>>,
    pub size_pixels: XyAt,
    pub pixel_size: XyAt,
    pub loaded: Option<bool>,
    pub resolution_unit: Option<int>,
}

impl View for ImageDefAt {
    type V = ImageDefView;

    open spec fn view(&self) -> ImageDefView {
        ImageDefView {
            handle: self.handle@,
            file_path: match &self.file_path {
                Some(f) => Some(f@),
                None => None,
            },
            size_pixels: self.size_pixels,
            pixel_size: self.pixel_size,
            loaded: self.loaded,
            resolution_unit: opt_int(self.resolution_unit),
        }
    }
}

/// An IMAGEDEF object from its record `ps[lo..hi]`, or `None` for one
/// without a handle (5), which no IMAGE can name. The file's path is its
/// first 1; its size in pixels 10/20 and a pixel's size 11/21; it was
/// loaded where 280 is nonzero; 281 is the unit of a pixel's size. The
/// first group, in the reading's order (see `image_def_checks`), whose
/// value is not a number is the error.
pub open spec fn image_def_of(ps: Seq<PairView>, fl: Seq<Option<bool>>, lo: nat, hi: nat) -> Result<
    Option<ImageDefView>,
    ReadErrorView,
> {
    match first_index(ps, lo, hi, 5) {
        None => Ok(None),
        Some(h) => match first_error(ps, fl, image_def_checks(lo as usize, hi as usize)) {
            Some(e) => Err(e),
            None => {
                let num = |code: i32| number_of(ps, fl, lo, hi, code);
                let ival = |code: i32| int_value_of(ps, lo, hi, code, i32::MIN as int, i32::MAX as int);
                Ok(
                    Some(
                        ImageDefView {
                            handle: ascii_uppercase(trimmed(ps[h as int].value)),
                            file_path: match first_index(ps, lo, hi, 1) {
                                Some(i) => Some(stored(ps[i as int].value)),
                                None => None,
                            },
                            size_pixels: XyAt { x: num(10), y: num(20) },
                            pixel_size: XyAt { x: num(11), y: num(21) },
                            loaded: match ival(280) {
                                Some(v) => Some(v != 0),
                                None => None,
                            },
                            resolution_unit: ival(281),
                        },
                    ),
                )
            },
        },
    }
}

/// An IMAGEDEF object's values (see `image_def_of`).
pub fn image_def(ps: &Vec<Pair>, fl: &Vec<Option<bool>>, lo: usize, hi: usize) -> (r: Result<
    Option<ImageDefAt>,
    ReadError,
>)
    requires
        lo <= hi <= ps@.len(),
        fl@.len() == ps@.len(),
    ensures
        match image_def_of(views(ps@), fl@, lo as nat, hi as nat) {
            Ok(Some(v)) => r matches Ok(Some(x)) && x@ == v,
            Ok(None) => r matches Ok(None),
            Err(e) => r matches Err(x) && x@ == e,
        },
{
    let h = match find(ps, lo, hi, 5) {
        None => {
            return Ok(None);
        },
        Some(h) => h,
    };
    let cs: Vec<Check> = vec![
        Check::Number { code: 10, lo, hi },
        Check::Number { code: 20, lo, hi },
        Check::Number { code: 11, lo, hi },
        Check::Number { code: 21, lo, hi },
        Check::Int { code: 280, lo, hi, min: i32::MIN as i64, max: i32::MAX as i64 },
        Check::Int { code: 281, lo, hi, min: i32::MIN as i64, max: i32::MAX as i64 },
    ];
    assert(cs@ =~= image_def_checks(lo, hi));
    if let Some(e) = first_error_of(ps, fl, &cs) {
        return Err(e);
    }
    assert(views(ps@)[h as int] == ps@[h as int]@);
    let handle = to_ascii_uppercase(trim(ps[h].value));
    let file_path = match find(ps, lo, hi, 1) {
        Some(i) => {
            assert(views(ps@)[i as int] == ps@[i as int]@);
            Some(string(ps[i].value))
        },
        None => None,
    };
    let loaded = match int_value_at(ps, lo, hi, 280, i32::MIN as i64, i32::MAX as i64) {
        Some(v) => Some(v != 0),
        None => None,
    };
    let resolution_unit = match int_value_at(ps, lo, hi, 281, i32::MIN as i64, i32::MAX as i64) {
        Some(v) => Some(v as i32),
        None => None,
    };
    Ok(
        Some(
            ImageDefAt {
                handle,
                file_path,
                size_pixels: XyAt { x: number_of_at(ps, fl, lo, hi, 10), y: number_of_at(ps, fl, lo, hi, 20) },
                pixel_size: XyAt { x: number_of_at(ps, fl, lo, hi, 11), y: number_of_at(ps, fl, lo, hi, 21) },
                loaded,
                resolution_unit,
            },
        ),
    )
}

} // verus!
