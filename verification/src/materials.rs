//! The materials a cell can hold, and the catalog that numbers them.

use vstd::prelude::*;

verus! {

/// Index of a material in a catalog. Index 0 is the empty material.
pub type MatIndex = usize;

/// The index of the empty material.
pub const NONE: MatIndex = 0;

/// A display colour.
#[derive(Clone, Copy, Debug, PartialEq, Eq, Structural)]
pub struct Rgb {
    pub r: u8,
    pub g: u8,
    pub b: u8,
}

/// The constants of one material.
#[derive(Clone, Copy, Debug)]
pub struct Material {
    pub name: &'static str,
    pub color: Rgb,
    /// Molar weight; heavier materials sink below lighter ones.
    pub weight: u32,
    /// Degrees Celsius above which the material is liquid.
    pub melt_point: i16,
    /// Degrees Celsius above which the material is gaseous.
    pub boil_point: i16,
}

/// One entry of the built-in table.
pub open spec fn entry(
    name: &'static str,
    r: u8,
    g: u8,
    b: u8,
    weight: u32,
    melt_point: int,
    boil_point: int,
) -> Material {
    Material {
        name,
        color: Rgb { r, g, b },
        weight,
        melt_point: melt_point as i16,
        boil_point: boil_point as i16,
    }
}

/// The built-in table of materials.
pub open spec fn standard_materials() -> Seq<Material> {
    seq![
        entry("None", 0, 0, 0, 0, 0, 0),
        entry("Oxygen", 155, 219, 245, 32, -219, -183),
        entry("CarbonDioxide", 155, 219, 245, 44, -57, -78),
        entry("Hydrogen", 155, 219, 245, 2, -259, -256),
        entry("Nitrogen", 155, 219, 245, 28, -210, -196),
        entry("Carbon", 10, 10, 10, 12, 3550, 4200),
        entry("SiliconDioxide", 255, 255, 0, 60, 1710, 2230),
        entry("Silicon", 50, 50, 50, 28, 1410, 2355),
        entry("Aluminum", 200, 200, 220, 27, 660, 2327),
        entry("Iron", 170, 170, 170, 56, 1538, 2861),
        entry("Calcium", 230, 230, 230, 40, 840, 1484),
        entry("Sodium", 230, 230, 230, 23, 98, 880),
        entry("Magnesium", 190, 190, 190, 24, 650, 1100),
        entry("Potassium", 220, 220, 220, 39, 63, 762),
    ]
}

fn make(
    name: &'static str,
    r: u8,
    g: u8,
    b: u8,
    weight: u32,
    melt_point: i16,
    boil_point: i16,
) -> (m: Material)
    ensures
        m == entry(name, r, g, b, weight, melt_point as int, boil_point as int),
{
    Material { name, color: Rgb { r, g, b }, weight, melt_point, boil_point }
}

/// An immutable table of materials, looked up by index. It is never empty:
/// index 0 is the empty material.
pub struct Catalog {
    defs: Vec<Material>,
}

impl View for Catalog {
    type V = Seq<Material>;

    closed spec fn view(&self) -> Seq<Material> {
        self.defs@
    }
}

impl Catalog {
    /// The catalog has the empty material. Holds of every catalog that
    /// `new` or `standard` made.
    pub open spec fn wf(&self) -> bool {
        self@.len() >= 1
    }

    /// A catalog of the given materials, in their order; `None` if there are none.
    pub fn new(defs: Vec<Material>) -> (catalog: Option<Catalog>)
        ensures
            catalog.is_some() <==> defs@.len() >= 1,
            catalog matches Some(c) ==> c.wf() && c@ == defs@,
    {
        if defs.len() == 0 {
            None
        } else {
            Some(Catalog { defs })
        }
    }

    /// The catalog of the built-in materials.
    pub fn standard() -> (catalog: Catalog)
        ensures
            catalog.wf(),
            catalog@ == standard_materials(),
    {
        let mut defs: Vec<Material> = Vec::new();
        defs.push(make("None", 0, 0, 0, 0, 0, 0));
        defs.push(make("Oxygen", 155, 219, 245, 32, -219, -183));
        defs.push(make("CarbonDioxide", 155, 219, 245, 44, -57, -78));
        defs.push(make("Hydrogen", 155, 219, 245, 2, -259, -256));
        defs.push(make("Nitrogen", 155, 219, 245, 28, -210, -196));
        defs.push(make("Carbon", 10, 10, 10, 12, 3550, 4200));
        defs.push(make("SiliconDioxide", 255, 255, 0, 60, 1710, 2230));
        defs.push(make("Silicon", 50, 50, 50, 28, 1410, 2355));
        defs.push(make("Aluminum", 200, 200, 220, 27, 660, 2327));
        defs.push(make("Iron", 170, 170, 170, 56, 1538, 2861));
        defs.push(make("Calcium", 230, 230, 230, 40, 840, 1484));
        defs.push(make("Sodium", 230, 230, 230, 23, 98, 880));
        defs.push(make("Magnesium", 190, 190, 190, 24, 650, 1100));
        defs.push(make("Potassium", 220, 220, 220, 39, 63, 762));
        assert(defs@ =~= standard_materials());
        Catalog { defs }
    }

    /// The number of materials.
    pub fn len(&self) -> (n: usize)
        ensures
            n == self@.len(),
    {
        self.defs.len()
    }

    /// The material with index `id`.
    pub fn lookup(&self, id: MatIndex) -> (m: &Material)
        requires
            id < self@.len(),
        ensures
            *m == self@[id as int],
    {
        &self.defs[id]
    }
}

} // verus!
