use vstd::prelude::*;

pub mod json;

verus! {

/// What a physics input or output is tied to.
#[derive(Debug, Clone, Copy, PartialEq, Eq, Structural)]
pub enum PhysicsTargetType {
    Parameter,
}

/// Which component of a particle's motion an input feeds or an output reads.
#[derive(Debug, Clone, Copy, PartialEq, Eq, Structural)]
pub enum PhysicsSource {
    X,
    Y,
    Angle,
}

/// The parameter an input or output is tied to.
#[derive(Debug, Clone)]
pub struct PhysicsParameter {
    pub id: String,
    pub target_type: PhysicsTargetType,
}

/// The component that a `Type` text of the physics file names.
pub open spec fn source_of(kind: Seq<char>) -> Option<PhysicsSource> {
    if kind == "X"@ {
        Some(PhysicsSource::X)
    } else if kind == "Y"@ {
        Some(PhysicsSource::Y)
    } else if kind == "Angle"@ {
        Some(PhysicsSource::Angle)
    } else {
        None
    }
}

/// The component that a `Type` text names; none for an unknown text.
pub fn physics_source_from_kind(kind: &String) -> (r: Option<PhysicsSource>)
    ensures
        r == source_of(kind@),
{
    if *kind == String::from_str("X") {
        Some(PhysicsSource::X)
    } else if *kind == String::from_str("Y") {
        Some(PhysicsSource::Y)
    } else if *kind == String::from_str("Angle") {
        Some(PhysicsSource::Angle)
    } else {
        None
    }
}

/// The numbers of inputs, outputs and vertices of one physics setting.
#[derive(Debug, Clone, Copy, PartialEq, Eq, Structural)]
pub struct SettingSize {
    pub inputs: usize,
    pub outputs: usize,
    pub vertices: usize,
}

/// Where a sub-rig's inputs, outputs and particles lie in the rig's lists.
#[derive(Debug, Clone, Copy, PartialEq, Eq, Structural)]
pub struct SubRigLayout {
    pub input_count: usize,
    pub output_count: usize,
    pub particle_count: usize,
    pub base_input_index: usize,
    pub base_output_index: usize,
    pub base_particle_index: usize,
}

/// The number of inputs, outputs and vertices of the first `k` settings.
pub open spec fn sizes_up_to(sizes: Seq<SettingSize>, k: int) -> (int, int, int)
    decreases k,
{
    if k <= 0 {
        (0, 0, 0)
    } else {
        let (i, o, v) = sizes_up_to(sizes, k - 1);
        (i + sizes[k - 1].inputs, o + sizes[k - 1].outputs, v + sizes[k - 1].vertices)
    }
}

proof fn lemma_sizes_monotonic(sizes: Seq<SettingSize>, j: int, k: int)
    requires
        0 <= j <= k,
    ensures
        sizes_up_to(sizes, j).0 <= sizes_up_to(sizes, k).0,
        sizes_up_to(sizes, j).1 <= sizes_up_to(sizes, k).1,
        sizes_up_to(sizes, j).2 <= sizes_up_to(sizes, k).2,
    decreases k - j,
{
    if j < k {
        lemma_sizes_monotonic(sizes, j, k - 1);
    }
}

/// The sub-rigs of a rig built from its settings in order, as the rig is
/// built: a sub-rig's counts are the numbers of inputs, outputs and particles
/// gathered up to and including its setting, and its base indices are 0.
pub fn sub_rig_layouts(sizes: &Vec<SettingSize>) -> (rigs: Vec<SubRigLayout>)
    requires
        sizes_up_to(sizes@, sizes@.len() as int).0 <= usize::MAX,
        sizes_up_to(sizes@, sizes@.len() as int).1 <= usize::MAX,
        sizes_up_to(sizes@, sizes@.len() as int).2 <= usize::MAX,
    ensures
        rigs@.len() == sizes@.len(),
        forall|k: int| 0 <= k < rigs@.len() ==> {
            let (i, o, v) = sizes_up_to(sizes@, k + 1);
            &&& (#[trigger] rigs@[k]).input_count == i
            &&& rigs@[k].output_count == o
            &&& rigs@[k].particle_count == v
            &&& rigs@[k].base_input_index == 0
            &&& rigs@[k].base_output_index == 0
            &&& rigs@[k].base_particle_index == 0
        },
{
    let n = sizes.len();
    let mut rigs: Vec<SubRigLayout> = Vec::new();
    let mut inputs: usize = 0;
    let mut outputs: usize = 0;
    let mut vertices: usize = 0;
    let mut k: usize = 0;
    while k < n
        invariant
            n == sizes@.len(),
            k <= n,
            sizes_up_to(sizes@, n as int).0 <= usize::MAX,
            sizes_up_to(sizes@, n as int).1 <= usize::MAX,
            sizes_up_to(sizes@, n as int).2 <= usize::MAX,
            (inputs as int, outputs as int, vertices as int) == sizes_up_to(sizes@, k as int),
            rigs@.len() == k,
            forall|j: int| 0 <= j < k ==> {
                let (i, o, v) = sizes_up_to(sizes@, j + 1);
                &&& (#[trigger] rigs@[j]).input_count == i
                &&& rigs@[j].output_count == o
                &&& rigs@[j].particle_count == v
                &&& rigs@[j].base_input_index == 0
                &&& rigs@[j].base_output_index == 0
                &&& rigs@[j].base_particle_index == 0
            },
        decreases n - k,
    {
        proof {
            lemma_sizes_monotonic(sizes@, k as int + 1, n as int);
        }
        let s = sizes[k];
        inputs = inputs + s.inputs;
        outputs = outputs + s.outputs;
        vertices = vertices + s.vertices;
        rigs.push(
            SubRigLayout {
                input_count: inputs,
                output_count: outputs,
                particle_count: vertices,
                base_input_index: 0,
                base_output_index: 0,
                base_particle_index: 0,
            },
        );
        k += 1;
    }
    rigs
}

} // verus!
