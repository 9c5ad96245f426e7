//! Scene construction: one colored sphere per atom, one cylinder per
//! non-dummy bond.
//!
//! A cylinder's placement is carried as exact data: its start point, the
//! direction vector to the far endpoint, and the squared length. The
//! rendering backend derives its floating-point rotation and scale from
//! those. Bond endpoints are checked — a bond naming a missing atom is an
//! error, never unchecked access — and a zero-length bond is rejected
//! rather than yielding an unnormalizable direction.

use vstd::prelude::*;

use crate::color::color_of;
use crate::color::ColorError;
use crate::color::Rgb;
use crate::geom::spec_dist_sq;
use crate::geom::Vec3i;
use crate::geom::COORD_MAX;

verus! {

/// Covalent radius assumed for an atom that brings none, in subunits
/// (half a world unit).
pub const DEFAULT_COV_RADIUS: i64 = 500;

/// Padding added to the covalent radius before sizing a sphere, in
/// subunits (half a world unit).
pub const RADIUS_PAD: i64 = 500;

/// The padded radius is divided by this to get the sphere's scale.
pub const SPHERE_SIZE_DIVISOR: i64 = 3;

/// A bond cylinder's thickness, in subunits (0.07 world units).
pub const BOND_THICKNESS: i64 = 70;

/// An atom: chemical symbol, fixed-point position, optional covalent
/// radius in subunits.
#[derive(Clone, Debug)]
pub struct Atom {
    pub symbol: String,
    pub pos: Vec3i,
    pub cov_radius: Option<i64>,
}

/// A bond between the atoms at indices `u` and `v`; a dummy bond is never
/// rendered.
#[derive(Clone, Copy, PartialEq, Eq, Structural, Debug)]
pub struct Bond {
    pub u: usize,
    pub v: usize,
    pub dummy: bool,
}

/// An owning collection of atoms and bonds.
#[derive(Clone, Debug)]
pub struct Molecule {
    pub atoms: Vec<Atom>,
    pub bonds: Vec<Bond>,
}

/// A sphere primitive: center, uniform scale in subunits, color.
#[derive(Clone, Copy, PartialEq, Eq, Structural, Debug)]
pub struct Sphere {
    pub center: Vec3i,
    pub size: i64,
    pub color: Rgb,
}

/// A cylinder primitive spanning a bond: it starts at `start`, runs along
/// `direction` (the far endpoint minus `start`, never zero), has squared
/// length `length_sq` and thickness `BOND_THICKNESS`.
#[derive(Clone, Copy, PartialEq, Eq, Structural, Debug)]
pub struct Cylinder {
    pub start: Vec3i,
    pub direction: Vec3i,
    pub length_sq: i64,
    pub thickness: i64,
}

/// The primitives of one built scene.
#[derive(Clone, Debug)]
pub struct Scene {
    pub spheres: Vec<Sphere>,
    pub cylinders: Vec<Cylinder>,
}

/// Why scene construction failed.
#[derive(Clone, Copy, PartialEq, Eq, Structural, Debug)]
pub enum SceneError {
    /// An atom's symbol has no palette entry.
    UnknownSymbol,
    /// An atom's symbol has more than one palette entry.
    DuplicateSymbol,
    /// A non-dummy bond's endpoints coincide: its direction cannot be
    /// normalized.
    ZeroLengthBond,
    /// A non-dummy bond names an atom index the molecule does not have.
    BondEndpointOutOfRange,
}

/// The scene error a color fault maps to.
pub open spec fn color_fault(e: ColorError) -> SceneError {
    match e {
        ColorError::UnknownSymbol => SceneError::UnknownSymbol,
        ColorError::DuplicateSymbol => SceneError::DuplicateSymbol,
    }
}

impl Atom {
    /// Position in range, covalent radius (if any) non-negative and in
    /// range.
    pub open spec fn wf(self) -> bool {
        &&& self.pos.in_range()
        &&& match self.cov_radius {
            Some(r) => 0 <= r <= COORD_MAX,
            None => true,
        }
    }
}

impl Molecule {
    /// Every atom well-formed. Nothing is assumed of the bonds: their
    /// endpoints are checked when the scene is built.
    pub open spec fn wf(self) -> bool {
        forall|i: int| 0 <= i < self.atoms@.len() ==> (#[trigger] self.atoms@[i]).wf()
    }
}

/// The covalent radius used for an atom, in subunits.
pub open spec fn radius_of(a: Atom) -> int {
    match a.cov_radius {
        Some(r) => r as int,
        None => DEFAULT_COV_RADIUS as int,
    }
}

/// A sphere's uniform scale: the padded radius divided by the fixed
/// divisor, rounded down to a subunit.
pub open spec fn sphere_size_of(a: Atom) -> int {
    (radius_of(a) + RADIUS_PAD) / (SPHERE_SIZE_DIVISOR as int)
}

/// The sphere an atom yields: centered on the atom's position, sized from
/// its covalent radius, colored from the stock palette — or the palette's
/// fault.
pub open spec fn sphere_of(a: Atom) -> Result<Sphere, SceneError> {
    match color_of(a.symbol@) {
        Ok(c) => Ok(
            Sphere { center: a.pos, size: sphere_size_of(a) as i64, color: c },
        ),
        Err(e) => Err(color_fault(e)),
    }
}

/// The cylinder spanning `a` to `b`: rejected when the endpoints coincide.
pub open spec fn cylinder_of(a: Vec3i, b: Vec3i) -> Result<Cylinder, SceneError> {
    if a == b {
        Err(SceneError::ZeroLengthBond)
    } else {
        Ok(
            Cylinder {
                start: a,
                direction: Vec3i {
                    x: (b.x - a.x) as i64,
                    y: (b.y - a.y) as i64,
                    z: (b.z - a.z) as i64,
                },
                length_sq: spec_dist_sq(a, b) as i64,
                thickness: BOND_THICKNESS,
            },
        )
    }
}

/// Builds the sphere for one atom.
pub fn build_atom_sphere(atom: &Atom) -> (r: Result<Sphere, SceneError>)
    requires
        atom.wf(),
    ensures
        r == sphere_of(*atom),
{
    let color = match crate::color::atom_color(atom.symbol.as_str()) {
        Ok(c) => c,
        Err(ColorError::UnknownSymbol) => {
            return Err(SceneError::UnknownSymbol);
        },
        Err(ColorError::DuplicateSymbol) => {
            return Err(SceneError::DuplicateSymbol);
        },
    };
    let rad: i64 = match atom.cov_radius {
        Some(r) => r,
        None => DEFAULT_COV_RADIUS,
    };
    let size: i64 = (rad + RADIUS_PAD) / SPHERE_SIZE_DIVISOR;
    Ok(Sphere { center: atom.pos, size, color })
}

/// Builds the cylinder for one bond from its endpoint positions.
pub fn build_bond_cylinder(a: Vec3i, b: Vec3i) -> (r: Result<Cylinder, SceneError>)
    requires
        a.in_range(),
        b.in_range(),
    ensures
        r == cylinder_of(a, b),
{
    if a == b {
        return Err(SceneError::ZeroLengthBond);
    }
    let direction = crate::geom::sub(b, a);
    let length_sq = crate::geom::dist_sq(a, b);
    Ok(Cylinder { start: a, direction, length_sq, thickness: BOND_THICKNESS })
}

impl Cylinder {
    /// The cylinder's length in subunits, rounded down: the floor of the
    /// Euclidean distance between the bond's endpoints.
    pub fn length(&self) -> (l: i64)
        requires
            0 <= self.length_sq <= crate::geom::NORM_SQ_MAX,
        ensures
            crate::geom::is_sqrt_floor(self.length_sq as int, l as int),
    {
        crate::geom::isqrt(self.length_sq)
    }
}

/// The spheres of the first `n` atoms, or the first atom's fault.
pub open spec fn spheres_prefix(atoms: Seq<Atom>, n: int) -> Result<Seq<Sphere>, SceneError>
    decreases n,
{
    if n <= 0 {
        Ok(Seq::empty())
    } else {
        match spheres_prefix(atoms, n - 1) {
            Err(e) => Err(e),
            Ok(ss) => match sphere_of(atoms[n - 1]) {
                Ok(sp) => Ok(ss.push(sp)),
                Err(e) => Err(e),
            },
        }
    }
}

/// The spheres of all of a molecule's atoms, in order.
pub open spec fn spheres_of(m: Molecule) -> Result<Seq<Sphere>, SceneError> {
    spheres_prefix(m.atoms@, m.atoms@.len() as int)
}

proof fn lemma_spheres_prefix_err(atoms: Seq<Atom>, m: int, n: int)
    requires
        0 <= m <= n,
        spheres_prefix(atoms, m) is Err,
    ensures
        spheres_prefix(atoms, n) == spheres_prefix(atoms, m),
    decreases n,
{
    if m < n {
        lemma_spheres_prefix_err(atoms, m, n - 1);
    }
}

/// Builds one sphere per atom; stops at the first atom whose symbol the
/// palette faults on.
pub fn build_spheres(mol: &Molecule) -> (r: Result<Vec<Sphere>, SceneError>)
    requires
        mol.wf(),
    ensures
        match r {
            Ok(v) => spheres_of(*mol) == Ok::<Seq<Sphere>, SceneError>(v@),
            Err(e) => spheres_of(*mol) == Err::<Seq<Sphere>, SceneError>(e),
        },
{
    let n: usize = mol.atoms.len();
    let mut out: Vec<Sphere> = Vec::new();
    let mut i: usize = 0;
    while i < n
        invariant
            n == mol.atoms@.len(),
            i <= n,
            mol.wf(),
            spheres_prefix(mol.atoms@, i as int) == Ok::<Seq<Sphere>, SceneError>(out@),
        decreases n - i,
    {
        match build_atom_sphere(&mol.atoms[i]) {
            Ok(sp) => {
                out.push(sp);
            },
            Err(e) => {
                proof {
                    lemma_spheres_prefix_err(mol.atoms@, i + 1, n as int);
                }
                return Err(e);
            },
        }
        i = i + 1;
    }
    Ok(out)
}

/// On success the sphere list matches the atoms one for one: the `j`th
/// sphere is exactly what the `j`th atom yields.
pub proof fn lemma_spheres_match_atoms(atoms: Seq<Atom>, n: int)
    requires
        0 <= n <= atoms.len(),
        spheres_prefix(atoms, n) is Ok,
    ensures
        spheres_prefix(atoms, n)->Ok_0.len() == n,
        forall|j: int|
            0 <= j < n ==> sphere_of(atoms[j]) == Ok::<Sphere, SceneError>(
                spheres_prefix(atoms, n)->Ok_0[j],
            ),
    decreases n,
{
    if n > 0 {
        assert(spheres_prefix(atoms, n - 1) is Ok);
        lemma_spheres_match_atoms(atoms, n - 1);
    }
}

/// What bond `i` contributes to the scene: nothing for a dummy bond, its
/// cylinder otherwise — or the fault that stops the build.
pub open spec fn bond_step(m: Molecule, i: int) -> Result<Option<Cylinder>, SceneError> {
    let b = m.bonds@[i];
    if b.dummy {
        Ok(None)
    } else if b.u >= m.atoms@.len() || b.v >= m.atoms@.len() {
        Err(SceneError::BondEndpointOutOfRange)
    } else {
        match cylinder_of(m.atoms@[b.u as int].pos, m.atoms@[b.v as int].pos) {
            Ok(c) => Ok(Some(c)),
            Err(e) => Err(e),
        }
    }
}

/// The cylinders of the first `n` bonds, dummy bonds skipped, or the first
/// bond's fault.
pub open spec fn cylinders_prefix(m: Molecule, n: int) -> Result<Seq<Cylinder>, SceneError>
    decreases n,
{
    if n <= 0 {
        Ok(Seq::empty())
    } else {
        match cylinders_prefix(m, n - 1) {
            Err(e) => Err(e),
            Ok(cs) => match bond_step(m, n - 1) {
                Ok(None) => Ok(cs),
                Ok(Some(c)) => Ok(cs.push(c)),
                Err(e) => Err(e),
            },
        }
    }
}

/// The cylinders of all of a molecule's bonds, in order.
pub open spec fn cylinders_of(m: Molecule) -> Result<Seq<Cylinder>, SceneError> {
    cylinders_prefix(m, m.bonds@.len() as int)
}

proof fn lemma_cylinders_prefix_err(m: Molecule, i: int, n: int)
    requires
        0 <= i <= n,
        cylinders_prefix(m, i) is Err,
    ensures
        cylinders_prefix(m, n) == cylinders_prefix(m, i),
    decreases n,
{
    if i < n {
        lemma_cylinders_prefix_err(m, i, n - 1);
    }
}

/// Builds one cylinder per non-dummy bond; checks every endpoint index and
/// stops at the first faulty bond.
pub fn build_cylinders(mol: &Molecule) -> (r: Result<Vec<Cylinder>, SceneError>)
    requires
        mol.wf(),
    ensures
        match r {
            Ok(v) => cylinders_of(*mol) == Ok::<Seq<Cylinder>, SceneError>(v@),
            Err(e) => cylinders_of(*mol) == Err::<Seq<Cylinder>, SceneError>(e),
        },
{
    let n: usize = mol.bonds.len();
    let n_atoms: usize = mol.atoms.len();
    let mut out: Vec<Cylinder> = Vec::new();
    let mut i: usize = 0;
    while i < n
        invariant
            n == mol.bonds@.len(),
            n_atoms == mol.atoms@.len(),
            i <= n,
            mol.wf(),
            cylinders_prefix(*mol, i as int) == Ok::<Seq<Cylinder>, SceneError>(out@),
        decreases n - i,
    {
        let b = mol.bonds[i];
        if !b.dummy {
            if b.u >= n_atoms || b.v >= n_atoms {
                proof {
                    lemma_cylinders_prefix_err(*mol, i + 1, n as int);
                }
                return Err(SceneError::BondEndpointOutOfRange);
            }
            let pu = mol.atoms[b.u].pos;
            let pv = mol.atoms[b.v].pos;
            match build_bond_cylinder(pu, pv) {
                Ok(c) => {
                    out.push(c);
                },
                Err(e) => {
                    proof {
                        lemma_cylinders_prefix_err(*mol, i + 1, n as int);
                    }
                    return Err(e);
                },
            }
        }
        i = i + 1;
    }
    Ok(out)
}

/// Builds the whole scene: all spheres, then all cylinders.
pub fn build_scene(mol: &Molecule) -> (r: Result<Scene, SceneError>)
    requires
        mol.wf(),
    ensures
        match r {
            Ok(sc) => spheres_of(*mol) == Ok::<Seq<Sphere>, SceneError>(sc.spheres@)
                && cylinders_of(*mol) == Ok::<Seq<Cylinder>, SceneError>(sc.cylinders@),
            Err(e) => spheres_of(*mol) == Err::<Seq<Sphere>, SceneError>(e) || (spheres_of(*mol)
                is Ok && cylinders_of(*mol) == Err::<Seq<Cylinder>, SceneError>(e)),
        },
{
    let spheres = match build_spheres(mol) {
        Ok(v) => v,
        Err(e) => {
            return Err(e);
        },
    };
    let cylinders = match build_cylinders(mol) {
        Ok(v) => v,
        Err(e) => {
            return Err(e);
        },
    };
    Ok(Scene { spheres, cylinders })
}

/// The indices of the bonds a scene renders: the non-dummy ones, in order.
pub open spec fn rendered_bond_indices(bonds: Seq<Bond>) -> Seq<int>
    decreases bonds.len(),
{
    if bonds.len() == 0 {
        Seq::empty()
    } else {
        let head = rendered_bond_indices(bonds.drop_last());
        if bonds.last().dummy {
            head
        } else {
            head.push(bonds.len() - 1)
        }
    }
}

/// Every rendered bond index names a bond.
pub proof fn lemma_rendered_indices_in_bounds(bonds: Seq<Bond>)
    ensures
        forall|j: int|
            0 <= j < rendered_bond_indices(bonds).len() ==> 0 <= #[trigger] rendered_bond_indices(
                bonds,
            )[j] < bonds.len(),
    decreases bonds.len(),
{
    if bonds.len() == 0 {
        assert(rendered_bond_indices(bonds).len() == 0);
    } else {
        let head = rendered_bond_indices(bonds.drop_last());
        lemma_rendered_indices_in_bounds(bonds.drop_last());
        if bonds.last().dummy {
            assert(rendered_bond_indices(bonds) == head);
        } else {
            assert(rendered_bond_indices(bonds) == head.push(bonds.len() - 1));
            assert forall|j: int| 0 <= j < rendered_bond_indices(bonds).len() implies 0
                <= #[trigger] rendered_bond_indices(bonds)[j] < bonds.len() by {
                if j < head.len() {
                    assert(rendered_bond_indices(bonds)[j] == head[j]);
                }
            }
        }
    }
}

/// A dummy bond is never rendered: no rendered index names it.
pub proof fn lemma_dummy_bond_not_rendered(bonds: Seq<Bond>, i: int)
    requires
        0 <= i < bonds.len(),
        bonds[i].dummy,
    ensures
        forall|j: int|
            0 <= j < rendered_bond_indices(bonds).len() ==> #[trigger] rendered_bond_indices(
                bonds,
            )[j] != i,
    decreases bonds.len(),
{
    let head = rendered_bond_indices(bonds.drop_last());
    if i < bonds.len() - 1 {
        assert(bonds.drop_last()[i] == bonds[i]);
        lemma_dummy_bond_not_rendered(bonds.drop_last(), i);
    } else {
        lemma_rendered_indices_in_bounds(bonds.drop_last());
        assert(bonds.last().dummy);
        assert(rendered_bond_indices(bonds) == head);
    }
    assert forall|j: int| 0 <= j < rendered_bond_indices(bonds).len()
        implies #[trigger] rendered_bond_indices(bonds)[j] != i by {
        if !bonds.last().dummy {
            assert(rendered_bond_indices(bonds) == head.push(bonds.len() - 1));
            if j < head.len() {
                assert(rendered_bond_indices(bonds)[j] == head[j]);
            }
        }
    }
}

/// On success the cylinder list matches the non-dummy bonds one for one:
/// the `j`th cylinder is exactly what the `j`th rendered bond contributes.
pub proof fn lemma_cylinders_match_rendered(m: Molecule, n: int)
    requires
        0 <= n <= m.bonds@.len(),
        cylinders_prefix(m, n) is Ok,
    ensures
        cylinders_prefix(m, n)->Ok_0.len() == rendered_bond_indices(m.bonds@.take(n)).len(),
        forall|j: int|
            0 <= j < rendered_bond_indices(m.bonds@.take(n)).len() ==> bond_step(
                m,
                #[trigger] rendered_bond_indices(m.bonds@.take(n))[j],
            ) == Ok::<Option<Cylinder>, SceneError>(Some(cylinders_prefix(m, n)->Ok_0[j])),
    decreases n,
{
    if n > 0 {
        assert(m.bonds@.take(n).drop_last() =~= m.bonds@.take(n - 1));
        assert(cylinders_prefix(m, n - 1) is Ok);
        lemma_cylinders_match_rendered(m, n - 1);
        lemma_rendered_indices_in_bounds(m.bonds@.take(n - 1));
    }
}

} // verus!
