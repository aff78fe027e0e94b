use vstd::prelude::*;
use vstd::string::*;

verus! {

/// Fidelity tag that selects the force field, integrator and run length.
#[derive(Debug, Clone, Copy, PartialEq, Eq, Structural)]
pub enum PhysicsLevel {
    Toy,
    Coarse,
    GB,
    Full,
}

/// Backend that services a physics step.
#[derive(Debug, Clone, Copy, PartialEq, Eq, Structural)]
pub enum PhysicsEngine {
    OpenMM,
    Native,
    /// Try the external engine first and fall back to the native one.
    Auto,
}

/// Energy model selected by a level.
#[derive(Debug, Clone, Copy, PartialEq, Eq, Structural)]
pub enum ForceFieldKind {
    /// Harmonic bonds and angles, cosine dihedrals, Lennard-Jones contacts.
    CoarseGrained,
    /// Table-parameterised all-atom terms plus a Generalized-Born solvation term.
    AllAtomSolvated,
}

/// Time-stepping scheme selected by a level.
#[derive(Debug, Clone, Copy, PartialEq, Eq, Structural)]
pub enum IntegratorKind {
    /// Position-only Stormer-Verlet, no thermostat.
    Verlet,
    /// Langevin thermostat with the given friction coefficient (per ps).
    Langevin { friction_per_ps: u64 },
}

/// Fixed run parameters of a level. Times are in femtoseconds.
#[derive(Debug, Clone, Copy, PartialEq, Eq, Structural)]
pub struct SimulationParameters {
    pub force_field: ForceFieldKind,
    pub integrator: IntegratorKind,
    pub timestep_fs: u64,
    pub num_steps: usize,
    pub temperature_kelvin: u64,
}

/// Nominal temperature every level runs at.
pub const NOMINAL_TEMPERATURE_KELVIN: u64 = 300;

/// Canonical lower-case tag of a level.
pub open spec fn level_tag(level: PhysicsLevel) -> Seq<char> {
    match level {
        PhysicsLevel::Toy => seq!['t', 'o', 'y'],
        PhysicsLevel::Coarse => seq!['c', 'o', 'a', 'r', 's', 'e'],
        PhysicsLevel::GB => seq!['g', 'b'],
        PhysicsLevel::Full => seq!['f', 'u', 'l', 'l'],
    }
}

/// A character with ASCII upper case folded onto lower case.
pub open spec fn fold_ascii(c: char) -> u32 {
    if 'A' <= c && c <= 'Z' {
        (c as u32 + 32) as u32
    } else {
        c as u32
    }
}

/// `s` and `t` are equal up to ASCII case.
pub open spec fn eq_ignore_ascii_case(s: Seq<char>, t: Seq<char>) -> bool {
    &&& s.len() == t.len()
    &&& forall|i: int| 0 <= i < s.len() ==> #[trigger] fold_ascii(s[i]) == fold_ascii(t[i])
}

/// The level a tag names, ignoring ASCII case; anything else is `Toy`.
pub open spec fn level_of_tag(s: Seq<char>) -> PhysicsLevel {
    if eq_ignore_ascii_case(s, level_tag(PhysicsLevel::Coarse)) {
        PhysicsLevel::Coarse
    } else if eq_ignore_ascii_case(s, level_tag(PhysicsLevel::GB)) {
        PhysicsLevel::GB
    } else if eq_ignore_ascii_case(s, level_tag(PhysicsLevel::Full)) {
        PhysicsLevel::Full
    } else {
        PhysicsLevel::Toy
    }
}

/// The fixed level table.
pub open spec fn level_parameters(level: PhysicsLevel) -> SimulationParameters {
    match level {
        PhysicsLevel::Toy => SimulationParameters {
            force_field: ForceFieldKind::CoarseGrained,
            integrator: IntegratorKind::Verlet,
            timestep_fs: 10,
            num_steps: 100,
            temperature_kelvin: 300,
        },
        PhysicsLevel::Coarse => SimulationParameters {
            force_field: ForceFieldKind::CoarseGrained,
            integrator: IntegratorKind::Langevin { friction_per_ps: 1 },
            timestep_fs: 5,
            num_steps: 200,
            temperature_kelvin: 300,
        },
        PhysicsLevel::GB => SimulationParameters {
            force_field: ForceFieldKind::AllAtomSolvated,
            integrator: IntegratorKind::Langevin { friction_per_ps: 5 },
            timestep_fs: 2,
            num_steps: 500,
            temperature_kelvin: 300,
        },
        PhysicsLevel::Full => SimulationParameters {
            force_field: ForceFieldKind::AllAtomSolvated,
            integrator: IntegratorKind::Langevin { friction_per_ps: 10 },
            timestep_fs: 1,
            num_steps: 1000,
            temperature_kelvin: 300,
        },
    }
}

/// Compares `s` with `t` ignoring ASCII case.
pub fn str_eq_ignore_ascii_case(s: &str, t: &str) -> (r: bool)
    ensures
        r == eq_ignore_ascii_case(s@, t@),
{
    let n = s.unicode_len();
    if n != t.unicode_len() {
        return false;
    }
    let mut i: usize = 0;
    while i < n
        invariant
            n == s@.len(),
            n == t@.len(),
            0 <= i <= n,
            forall|k: int| 0 <= k < i ==> #[trigger] fold_ascii(s@[k]) == fold_ascii(t@[k]),
        decreases n - i,
    {
        let a = s.get_char(i);
        let b = t.get_char(i);
        let fa: u32 = if 'A' <= a && a <= 'Z' {
            a as u32 + 32
        } else {
            a as u32
        };
        let fb: u32 = if 'A' <= b && b <= 'Z' {
            b as u32 + 32
        } else {
            b as u32
        };
        if fa != fb {
            assert(fold_ascii(s@[i as int]) != fold_ascii(t@[i as int]));
            return false;
        }
        i += 1;
    }
    true
}

impl PhysicsLevel {
    /// Reads a level tag, ignoring ASCII case; unknown tags give `Toy`.
    pub fn from_str(s: &str) -> (r: PhysicsLevel)
        ensures
            r == level_of_tag(s@),
    {
        proof {
            reveal_strlit("coarse");
            reveal_strlit("gb");
            reveal_strlit("full");
            assert("coarse"@ =~= level_tag(PhysicsLevel::Coarse));
            assert("gb"@ =~= level_tag(PhysicsLevel::GB));
            assert("full"@ =~= level_tag(PhysicsLevel::Full));
        }
        if str_eq_ignore_ascii_case(s, "coarse") {
            PhysicsLevel::Coarse
        } else if str_eq_ignore_ascii_case(s, "gb") {
            PhysicsLevel::GB
        } else if str_eq_ignore_ascii_case(s, "full") {
            PhysicsLevel::Full
        } else {
            PhysicsLevel::Toy
        }
    }

    /// Run parameters and model selection of this level.
    pub fn parameters(&self) -> (r: SimulationParameters)
        ensures
            r == level_parameters(*self),
    {
        match self {
            PhysicsLevel::Toy => SimulationParameters {
                force_field: ForceFieldKind::CoarseGrained,
                integrator: IntegratorKind::Verlet,
                timestep_fs: 10,
                num_steps: 100,
                temperature_kelvin: NOMINAL_TEMPERATURE_KELVIN,
            },
            PhysicsLevel::Coarse => SimulationParameters {
                force_field: ForceFieldKind::CoarseGrained,
                integrator: IntegratorKind::Langevin { friction_per_ps: 1 },
                timestep_fs: 5,
                num_steps: 200,
                temperature_kelvin: NOMINAL_TEMPERATURE_KELVIN,
            },
            PhysicsLevel::GB => SimulationParameters {
                force_field: ForceFieldKind::AllAtomSolvated,
                integrator: IntegratorKind::Langevin { friction_per_ps: 5 },
                timestep_fs: 2,
                num_steps: 500,
                temperature_kelvin: NOMINAL_TEMPERATURE_KELVIN,
            },
            PhysicsLevel::Full => SimulationParameters {
                force_field: ForceFieldKind::AllAtomSolvated,
                integrator: IntegratorKind::Langevin { friction_per_ps: 10 },
                timestep_fs: 1,
                num_steps: 1000,
                temperature_kelvin: NOMINAL_TEMPERATURE_KELVIN,
            },
        }
    }
}

/// Canonical lower-case tag of a level.
pub fn format_level(level: PhysicsLevel) -> (r: String)
    ensures
        r@ == level_tag(level),
{
    let r = match level {
        PhysicsLevel::Toy => String::from_str("toy"),
        PhysicsLevel::Coarse => String::from_str("coarse"),
        PhysicsLevel::GB => String::from_str("gb"),
        PhysicsLevel::Full => String::from_str("full"),
    };
    proof {
        reveal_strlit("toy");
        reveal_strlit("coarse");
        reveal_strlit("gb");
        reveal_strlit("full");
    }
    assert(r@ =~= level_tag(level));
    r
}

/// Reading back the tag that `format_level` writes gives the same level.
pub proof fn lemma_level_tag_round_trip(level: PhysicsLevel)
    ensures
        level_of_tag(level_tag(level)) == level,
{
    let c = level_tag(PhysicsLevel::Coarse);
    let g = level_tag(PhysicsLevel::GB);
    let f = level_tag(PhysicsLevel::Full);
    let t = level_tag(level);
    match level {
        PhysicsLevel::Toy => {
            assert(fold_ascii(t[0]) != fold_ascii(c[0]));
            assert(!eq_ignore_ascii_case(t, g));
            assert(!eq_ignore_ascii_case(t, f));
        },
        PhysicsLevel::Coarse => {
            assert(eq_ignore_ascii_case(t, c));
        },
        PhysicsLevel::GB => {
            assert(!eq_ignore_ascii_case(t, c));
            assert(eq_ignore_ascii_case(t, g));
        },
        PhysicsLevel::Full => {
            assert(!eq_ignore_ascii_case(t, c));
            assert(!eq_ignore_ascii_case(t, g));
            assert(eq_ignore_ascii_case(t, f));
        },
    }
}

/// Levels `gb` and `full` run the all-atom solvated model; `toy` and `coarse` the
/// coarse-grained one.
pub proof fn lemma_level_force_field(level: PhysicsLevel)
    ensures
        (level_parameters(level).force_field == ForceFieldKind::AllAtomSolvated) <==> (
        level == PhysicsLevel::GB || level == PhysicsLevel::Full),
{
}

} // verus!
