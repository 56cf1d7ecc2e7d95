use vstd::prelude::*;

use crate::utils::{parent_of, path_parent};

verus! {

/// The bit pattern of `-1.0f32`, the fade time given for a motion that is not there.
pub const NO_FADE_TIME: u32 = 0xBF80_0000u32;

/// A model's `.model3.json` settings.
#[derive(Debug, Clone, PartialEq)]
pub struct ModelSetting {
    pub version: usize,
    pub file_references: FileRef,
    pub groups: Vec<Group>,
    pub hit_areas: Vec<HitArea>,
    pub layout: Option<Layout>,
}

/// The files a model refers to; paths are relative to the model's directory.
#[derive(Debug, Clone, PartialEq)]
pub struct FileRef {
    pub moc: Option<String>,
    pub textures: Vec<String>,
    pub physics: Option<String>,
    pub display_info: Option<String>,
    pub pose: Option<String>,
    pub expressions: Vec<Expression>,
    /// The motion groups, each under its own name.
    pub motions: Vec<MotionGroup>,
}

/// A named group of motions.
#[derive(Debug, Clone, PartialEq)]
pub struct MotionGroup {
    pub name: String,
    pub motions: Vec<MotionRef>,
}

/// A named group of parameter or part ids (such as `EyeBlink` or `LipSync`).
#[derive(Debug, Clone, PartialEq)]
pub struct Group {
    pub name: String,
    pub ids: Vec<String>,
    pub target: Target,
}

#[derive(Debug, Copy, Clone, PartialEq, Eq, Structural)]
pub enum Target {
    Parameter,
    Part,
}

#[derive(Debug, Clone, PartialEq)]
pub struct Expression {
    pub name: String,
    pub file: String,
}

/// A motion file with its sound and fade times (`f32` bit patterns).
#[derive(Debug, Clone, PartialEq)]
pub struct MotionRef {
    pub file: String,
    pub sound: Option<String>,
    pub fade_in_time: u32,
    pub fade_out_time: u32,
}

#[derive(Debug, Clone, PartialEq)]
pub struct HitArea {
    pub name: String,
    pub id: String,
}

/// The model's layout; all fields are `f32` bit patterns.
#[derive(Debug, Copy, Clone, PartialEq, Eq, Structural)]
pub struct Layout {
    pub center_x: u32,
    pub center_y: u32,
    pub x: u32,
    pub y: u32,
    pub width: u32,
    pub height: u32,
}

/// The value a reference in an option points at.
pub open spec fn deref<T>(r: Option<&T>) -> Option<T> {
    match r {
        Some(x) => Some(*x),
        None => None,
    }
}

/// `i` is the first of `groups` named `name`.
pub open spec fn first_group(groups: Seq<Group>, name: Seq<char>, i: int) -> bool {
    &&& 0 <= i < groups.len()
    &&& groups[i].name@ == name
    &&& forall|j: int| 0 <= j < i ==> (#[trigger] groups[j]).name@ != name
}

/// The first of `groups` named `name`.
pub open spec fn find_group_spec(groups: Seq<Group>, name: Seq<char>) -> Option<Group> {
    if exists|i: int| first_group(groups, name, i) {
        Some(groups[choose|i: int| first_group(groups, name, i)])
    } else {
        None
    }
}

/// `i` is the first motion group named `name`.
pub open spec fn first_motion_group(groups: Seq<MotionGroup>, name: Seq<char>, i: int) -> bool {
    &&& 0 <= i < groups.len()
    &&& groups[i].name@ == name
    &&& forall|j: int| 0 <= j < i ==> (#[trigger] groups[j]).name@ != name
}

/// The motions of the first group named `name`.
pub open spec fn motions_of(groups: Seq<MotionGroup>, name: Seq<char>) -> Option<Seq<MotionRef>> {
    if exists|i: int| first_motion_group(groups, name, i) {
        Some(groups[choose|i: int| first_motion_group(groups, name, i)].motions@)
    } else {
        None
    }
}

/// The ids of the first group named `name`; none when there is no such group.
pub open spec fn group_ids(groups: Seq<Group>, name: Seq<char>) -> Seq<String> {
    match find_group_spec(groups, name) {
        Some(g) => g.ids@,
        None => Seq::empty(),
    }
}

proof fn lemma_first_group(groups: Seq<Group>, name: Seq<char>, i: int)
    requires
        first_group(groups, name, i),
    ensures
        find_group_spec(groups, name) == Some(groups[i]),
{
    let k = choose|k: int| first_group(groups, name, k);
    assert(first_group(groups, name, k));
    if k < i {
        assert(groups[k].name@ != name);
    }
    if i < k {
        assert(groups[i].name@ != name);
    }
}

proof fn lemma_first_motion_group(groups: Seq<MotionGroup>, name: Seq<char>, i: int)
    requires
        first_motion_group(groups, name, i),
    ensures
        motions_of(groups, name) == Some(groups[i].motions@),
{
    let k = choose|k: int| first_motion_group(groups, name, k);
    assert(first_motion_group(groups, name, k));
    if k < i {
        assert(groups[k].name@ != name);
    }
    if i < k {
        assert(groups[i].name@ != name);
    }
}

fn find_group_in<'a>(groups: &'a Vec<Group>, name: &String) -> (r: Option<&'a Group>)
    ensures
        deref(r) == find_group_spec(groups@, name@),
{
    let n = groups.len();
    let mut i: usize = 0;
    while i < n
        invariant
            n == groups@.len(),
            i <= n,
            forall|j: int| 0 <= j < i ==> (#[trigger] groups@[j]).name@ != name@,
        decreases n - i,
    {
        if groups[i].name == *name {
            proof {
                lemma_first_group(groups@, name@, i as int);
            }
            return Some(&groups[i]);
        }
        i += 1;
    }
    None
}

fn find_motion_group<'a>(groups: &'a Vec<MotionGroup>, name: &String) -> (r: Option<&'a MotionGroup>)
    ensures
        (match r {
            Some(g) => Some(g.motions@),
            None => None,
        }) == motions_of(groups@, name@),
        r matches Some(g) ==> g.name@ == name@,
{
    let n = groups.len();
    let mut i: usize = 0;
    while i < n
        invariant
            n == groups@.len(),
            i <= n,
            forall|j: int| 0 <= j < i ==> (#[trigger] groups@[j]).name@ != name@,
        decreases n - i,
    {
        if groups[i].name == *name {
            proof {
                lemma_first_motion_group(groups@, name@, i as int);
            }
            return Some(&groups[i]);
        }
        i += 1;
    }
    None
}

/// No two motion groups share a name, as no two keys of a map do.
pub open spec fn motion_names_distinct(groups: Seq<MotionGroup>) -> bool {
    forall|i: int, j: int| 0 <= i < j < groups.len() ==> (#[trigger] groups[i]).name@ != (#[trigger] groups[j]).name@
}

/// Where names are distinct, the group at `i` is the one its name finds.
pub proof fn lemma_distinct_group_found(groups: Seq<MotionGroup>, i: int)
    requires
        motion_names_distinct(groups),
        0 <= i < groups.len(),
    ensures
        motions_of(groups, groups[i].name@) == Some(groups[i].motions@),
{
    assert forall|j: int| 0 <= j < i implies (#[trigger] groups[j]).name@ != groups[i].name@ by {
        assert(groups[j].name@ != groups[i].name@);
    }
    lemma_first_motion_group(groups, groups[i].name@, i);
}

/// Two group lists with the same names, whose groups differ only where the
/// name is `name`, find the same motions for any other name.
proof fn lemma_motions_of_same_names(a: Seq<MotionGroup>, b: Seq<MotionGroup>, name: Seq<char>, n: Seq<char>)
    requires
        n != name,
        a.len() == b.len(),
        forall|k: int| 0 <= k < a.len() ==> (#[trigger] a[k]).name@ == b[k].name@,
        forall|k: int| 0 <= k < a.len() && a[k].name@ != name ==> #[trigger] a[k] == b[k],
    ensures
        motions_of(a, n) == motions_of(b, n),
{
    if exists|k: int| first_motion_group(a, n, k) {
        let k = choose|k: int| first_motion_group(a, n, k);
        assert(first_motion_group(b, n, k)) by {
            assert forall|j: int| 0 <= j < k implies (#[trigger] b[j]).name@ != n by {
                assert(a[j].name@ != n);
            }
        }
        lemma_first_motion_group(a, n, k);
        lemma_first_motion_group(b, n, k);
    } else if exists|k: int| first_motion_group(b, n, k) {
        let k = choose|k: int| first_motion_group(b, n, k);
        assert(first_motion_group(a, n, k)) by {
            assert forall|j: int| 0 <= j < k implies (#[trigger] a[j]).name@ != n by {
                assert(b[j].name@ != n);
            }
        }
    }
}

/// A group list with one group added at its end, under a name `name`, finds
/// the same motions as before for any other name.
proof fn lemma_motions_of_push(a: Seq<MotionGroup>, g: MotionGroup, n: Seq<char>)
    requires
        n != g.name@,
    ensures
        motions_of(a.push(g), n) == motions_of(a, n),
{
    let b = a.push(g);
    if exists|k: int| first_motion_group(a, n, k) {
        let k = choose|k: int| first_motion_group(a, n, k);
        assert(first_motion_group(b, n, k)) by {
            assert forall|j: int| 0 <= j < k implies (#[trigger] b[j]).name@ != n by {
                assert(b[j] == a[j]);
            }
        }
        lemma_first_motion_group(a, n, k);
        lemma_first_motion_group(b, n, k);
    } else if exists|k: int| first_motion_group(b, n, k) {
        let k = choose|k: int| first_motion_group(b, n, k);
        assert(k < a.len());
        assert(first_motion_group(a, n, k)) by {
            assert forall|j: int| 0 <= j < k implies (#[trigger] a[j]).name@ != n by {
                assert(b[j] == a[j]);
            }
        }
    }
}

/// Puts `group` under its name, as inserting into a map does: a group of that
/// name already held (the first one) is replaced in place, else `group` is
/// added at the end. Afterwards the name finds `group`'s motions, every other
/// name finds what it found before, and distinct names stay distinct.
pub fn insert_motion_group(groups: &mut Vec<MotionGroup>, group: MotionGroup)
    ensures
        motions_of(final(groups)@, group.name@) == Some(group.motions@),
        forall|n: Seq<char>| n != group.name@ ==> #[trigger] motions_of(final(groups)@, n) == motions_of(old(groups)@, n),
        motion_names_distinct(old(groups)@) ==> motion_names_distinct(final(groups)@),
        final(groups)@.len() == old(groups)@.len() + if motions_of(old(groups)@, group.name@) is Some {
            0int
        } else {
            1int
        },
{
    let ghost name = group.name@;
    let n = groups.len();
    let mut i: usize = 0;
    while i < n
        invariant
            n == groups@.len(),
            *groups == *old(groups),
            i <= n,
            name == group.name@,
            forall|j: int| 0 <= j < i ==> (#[trigger] groups@[j]).name@ != name,
        decreases n - i,
    {
        if groups[i].name == group.name {
            proof {
                lemma_first_motion_group(old(groups)@, name, i as int);
            }
            let ghost before = groups@;
            groups.set(i, group);
            proof {
                let after = groups@;
                assert(first_motion_group(after, name, i as int));
                lemma_first_motion_group(after, name, i as int);
                assert forall|m: Seq<char>| m != name implies #[trigger] motions_of(after, m) == motions_of(before, m) by {
                    lemma_motions_of_same_names(after, before, name, m);
                }
                assert forall|a: int, b: int| motion_names_distinct(before) && 0 <= a < b < after.len()
                    implies (#[trigger] after[a]).name@ != (#[trigger] after[b]).name@ by {
                    assert(before[a].name@ != before[b].name@);
                }
            }
            return;
        }
        i += 1;
    }
    proof {
        if motions_of(groups@, name) is Some {
            let k = choose|k: int| first_motion_group(groups@, name, k);
            assert(groups@[k].name@ == name);
        }
    }
    let ghost before = groups@;
    groups.push(group);
    proof {
        let after = groups@;
        assert(first_motion_group(after, name, n as int)) by {
            assert forall|j: int| 0 <= j < n implies (#[trigger] after[j]).name@ != name by {
                assert(after[j] == before[j]);
            }
        }
        lemma_first_motion_group(after, name, n as int);
        assert forall|m: Seq<char>| m != name implies #[trigger] motions_of(after, m) == motions_of(before, m) by {
            lemma_motions_of_push(before, after.last(), m);
            assert(before.push(after.last()) =~= after);
        }
        assert forall|a: int, b: int| motion_names_distinct(before) && 0 <= a < b < after.len()
            implies (#[trigger] after[a]).name@ != (#[trigger] after[b]).name@ by {
            if b == n {
                assert(after[a] == before[a]);
            } else {
                assert(before[a].name@ != before[b].name@);
            }
        }
    }
}

impl ModelSetting {
    /// The motion groups carry distinct names: they stand for a map from
    /// group name to motions.
    pub open spec fn wf(&self) -> bool {
        motion_names_distinct(self.file_references.motions@)
    }

    /// The motions of the group named `group_name`.
    pub open spec fn motion_group(&self, group_name: Seq<char>) -> Option<Seq<MotionRef>> {
        motions_of(self.file_references.motions@, group_name)
    }

    /// The motion at `index` of the group named `group_name`.
    pub open spec fn motion_at(&self, group_name: Seq<char>, index: int) -> Option<MotionRef> {
        match self.motion_group(group_name) {
            Some(ms) => if 0 <= index < ms.len() {
                Some(ms[index])
            } else {
                None
            },
            None => None,
        }
    }

    /// The ids of the `EyeBlink` group.
    pub open spec fn eye_blink_ids(&self) -> Seq<String> {
        group_ids(self.groups@, "EyeBlink"@)
    }

    /// The ids of the `LipSync` group.
    pub open spec fn lip_sync_ids(&self) -> Seq<String> {
        group_ids(self.groups@, "LipSync"@)
    }

    pub fn is_exist_model_file(&self) -> (r: bool)
        ensures
            r == self.file_references.moc is Some,
    {
        self.file_references.moc.is_some()
    }

    pub fn is_exist_texture_files(&self) -> (r: bool)
        ensures
            r == (self.file_references.textures@.len() > 0),
    {
        !self.file_references.textures.is_empty()
    }

    pub fn is_exist_hit_areas(&self) -> (r: bool)
        ensures
            r == (self.hit_areas@.len() > 0),
    {
        !self.hit_areas.is_empty()
    }

    pub fn is_exist_physics_file(&self) -> (r: bool)
        ensures
            r == self.file_references.physics is Some,
    {
        self.file_references.physics.is_some()
    }

    pub fn is_exist_pose_file(&self) -> (r: bool)
        ensures
            r == self.file_references.pose is Some,
    {
        self.file_references.pose.is_some()
    }

    pub fn is_exist_display_info_file(&self) -> (r: bool)
        ensures
            r == self.file_references.display_info is Some,
    {
        self.file_references.display_info.is_some()
    }

    pub fn is_exist_expression_file(&self) -> (r: bool)
        ensures
            r == (self.file_references.expressions@.len() > 0),
    {
        !self.file_references.expressions.is_empty()
    }

    pub fn is_exist_motion_groups(&self) -> (r: bool)
        ensures
            r == (self.file_references.motions@.len() > 0),
    {
        !self.file_references.motions.is_empty()
    }

    pub fn is_exist_motion_group_name(&self, group_name: &str) -> (r: bool)
        ensures
            r == self.motion_group(group_name@) is Some,
    {
        let name = String::from_str(group_name);
        find_motion_group(&self.file_references.motions, &name).is_some()
    }

    pub fn is_exist_motion_sound_file(&self, group_name: &str, index: usize) -> (r: bool)
        ensures
            r == (self.motion_at(group_name@, index as int) matches Some(m) && m.sound is Some),
    {
        match self.get_motion(group_name, index) {
            Some(m) => m.sound.is_some(),
            None => false,
        }
    }

    pub fn is_exist_motion_fade_in(&self, group_name: &str, index: usize) -> (r: bool)
        ensures
            r == self.motion_at(group_name@, index as int) is Some,
    {
        self.get_motion(group_name, index).is_some()
    }

    pub fn is_exist_motion_fade_out(&self, group_name: &str, index: usize) -> (r: bool)
        ensures
            r == self.motion_at(group_name@, index as int) is Some,
    {
        self.get_motion(group_name, index).is_some()
    }

    fn find_group(&self, name: &str) -> (r: Option<&Group>)
        ensures
            deref(r) == find_group_spec(self.groups@, name@),
    {
        let name = String::from_str(name);
        find_group_in(&self.groups, &name)
    }

    pub fn is_exist_eye_blink_parameters(&self) -> (r: bool)
        ensures
            r == find_group_spec(self.groups@, "EyeBlink"@) is Some,
    {
        self.find_group("EyeBlink").is_some()
    }

    pub fn is_exist_lip_sync_parameters(&self) -> (r: bool)
        ensures
            r == find_group_spec(self.groups@, "LipSync"@) is Some,
    {
        self.find_group("LipSync").is_some()
    }

    pub fn get_model_file_name(&self) -> (r: Option<&String>)
        ensures
            deref(r) == self.file_references.moc,
    {
        match &self.file_references.moc {
            Some(s) => Some(s),
            None => None,
        }
    }

    pub fn get_texture_count(&self) -> (r: usize)
        ensures
            r == self.file_references.textures@.len(),
    {
        self.file_references.textures.len()
    }

    /// The directory of the first texture, as `Path::parent` gives it.
    pub fn get_texture_directory(&self) -> (r: Option<String>)
        ensures
            self.file_references.textures@.len() == 0 ==> r is None,
            self.file_references.textures@.len() > 0 ==> {
                &&& r is Some <==> parent_of(self.file_references.textures@[0]@) is Some
                &&& r matches Some(d) ==> d@ == parent_of(self.file_references.textures@[0]@).unwrap()
            },
    {
        if self.file_references.textures.is_empty() {
            None
        } else {
            path_parent(&self.file_references.textures[0])
        }
    }

    pub fn get_texture_file_name(&self, index: usize) -> (r: Option<&String>)
        ensures
            deref(r) == if index < self.file_references.textures@.len() {
                Some(self.file_references.textures@[index as int])
            } else {
                None
            },
    {
        if index < self.file_references.textures.len() {
            Some(&self.file_references.textures[index])
        } else {
            None
        }
    }

    pub fn get_hit_areas_count(&self) -> (r: usize)
        ensures
            r == self.hit_areas@.len(),
    {
        self.hit_areas.len()
    }

    pub fn get_hit_area_id(&self, index: usize) -> (r: Option<&str>)
        ensures
            r is Some <==> index < self.hit_areas@.len(),
            r matches Some(s) ==> s@ == self.hit_areas@[index as int].id@,
    {
        if index < self.hit_areas.len() {
            Some(self.hit_areas[index].id.as_str())
        } else {
            None
        }
    }

    pub fn get_hit_area_name(&self, index: usize) -> (r: Option<&str>)
        ensures
            r is Some <==> index < self.hit_areas@.len(),
            r matches Some(s) ==> s@ == self.hit_areas@[index as int].name@,
    {
        if index < self.hit_areas.len() {
            Some(self.hit_areas[index].name.as_str())
        } else {
            None
        }
    }

    pub fn get_physics_file_name(&self) -> (r: Option<&String>)
        ensures
            deref(r) == self.file_references.physics,
    {
        match &self.file_references.physics {
            Some(s) => Some(s),
            None => None,
        }
    }

    pub fn get_pose_file_name(&self) -> (r: Option<&String>)
        ensures
            deref(r) == self.file_references.pose,
    {
        match &self.file_references.pose {
            Some(s) => Some(s),
            None => None,
        }
    }

    pub fn get_display_info_file_name(&self) -> (r: Option<&String>)
        ensures
            deref(r) == self.file_references.display_info,
    {
        match &self.file_references.display_info {
            Some(s) => Some(s),
            None => None,
        }
    }

    pub fn get_expression_count(&self) -> (r: usize)
        ensures
            r == self.file_references.expressions@.len(),
    {
        self.file_references.expressions.len()
    }

    pub fn get_expression_name(&self, index: usize) -> (r: Option<&str>)
        ensures
            r is Some <==> index < self.file_references.expressions@.len(),
            r matches Some(s) ==> s@ == self.file_references.expressions@[index as int].name@,
    {
        if index < self.file_references.expressions.len() {
            Some(self.file_references.expressions[index].name.as_str())
        } else {
            None
        }
    }

    pub fn get_expression_file_name(&self, index: usize) -> (r: Option<&str>)
        ensures
            r is Some <==> index < self.file_references.expressions@.len(),
            r matches Some(s) ==> s@ == self.file_references.expressions@[index as int].file@,
    {
        if index < self.file_references.expressions.len() {
            Some(self.file_references.expressions[index].file.as_str())
        } else {
            None
        }
    }

    pub fn get_motion_group_count(&self) -> (r: usize)
        ensures
            r == self.file_references.motions@.len(),
    {
        self.file_references.motions.len()
    }

    /// The names of the motion groups, in the order in which they are held.
    pub fn get_motion_group_names(&self) -> (r: Vec<&String>)
        ensures
            r@.len() == self.file_references.motions@.len(),
            forall|i: int| 0 <= i < r@.len() ==> *(#[trigger] r@[i]) == self.file_references.motions@[i].name,
            self.wf() ==> forall|i: int, j: int| 0 <= i < j < r@.len() ==> (*#[trigger] r@[i])@ != (*#[trigger] r@[j])@,
    {
        let n = self.file_references.motions.len();
        let mut names: Vec<&String> = Vec::new();
        let mut i: usize = 0;
        while i < n
            invariant
                n == self.file_references.motions@.len(),
                i <= n,
                names@.len() == i,
                forall|k: int| 0 <= k < i ==> *(#[trigger] names@[k]) == self.file_references.motions@[k].name,
            decreases n - i,
        {
            names.push(&self.file_references.motions[i].name);
            i += 1;
        }
        names
    }

    /// The number of motions in the group named `group_name`; 0 when there is no such group.
    pub fn get_motion_count(&self, group_name: &str) -> (r: usize)
        ensures
            r == match self.motion_group(group_name@) {
                Some(ms) => ms.len(),
                None => 0,
            },
    {
        let name = String::from_str(group_name);
        match find_motion_group(&self.file_references.motions, &name) {
            Some(g) => g.motions.len(),
            None => 0,
        }
    }

    fn get_motion(&self, group_name: &str, index: usize) -> (r: Option<&MotionRef>)
        ensures
            deref(r) == self.motion_at(group_name@, index as int),
    {
        let name = String::from_str(group_name);
        match find_motion_group(&self.file_references.motions, &name) {
            Some(g) => if index < g.motions.len() {
                Some(&g.motions[index])
            } else {
                None
            },
            None => None,
        }
    }

    pub fn get_motion_file_name(&self, group_name: &str, index: usize) -> (r: Option<&str>)
        ensures
            r is Some <==> self.motion_at(group_name@, index as int) is Some,
            r matches Some(s) ==> s@ == self.motion_at(group_name@, index as int).unwrap().file@,
    {
        match self.get_motion(group_name, index) {
            Some(m) => Some(m.file.as_str()),
            None => None,
        }
    }

    pub fn get_motion_sound_file_name(&self, group_name: &str, index: usize) -> (r: Option<&str>)
        ensures
            r is Some <==> (self.motion_at(group_name@, index as int) matches Some(m) && m.sound is Some),
            r matches Some(s) ==> s@ == self.motion_at(group_name@, index as int).unwrap().sound.unwrap()@,
    {
        match self.get_motion(group_name, index) {
            Some(m) => match &m.sound {
                Some(s) => Some(s.as_str()),
                None => None,
            },
            None => None,
        }
    }

    /// The fade-in time of the motion, or `-1.0` when there is no such motion.
    pub fn get_motion_fade_in_time_value(&self, group_name: &str, index: usize) -> (r: u32)
        ensures
            r == match self.motion_at(group_name@, index as int) {
                Some(m) => m.fade_in_time,
                None => NO_FADE_TIME,
            },
    {
        match self.get_motion(group_name, index) {
            Some(m) => m.fade_in_time,
            None => NO_FADE_TIME,
        }
    }

    /// The fade-out time of the motion, or `-1.0` when there is no such motion.
    pub fn get_motion_fade_out_time_value(&self, group_name: &str, index: usize) -> (r: u32)
        ensures
            r == match self.motion_at(group_name@, index as int) {
                Some(m) => m.fade_out_time,
                None => NO_FADE_TIME,
            },
    {
        match self.get_motion(group_name, index) {
            Some(m) => m.fade_out_time,
            None => NO_FADE_TIME,
        }
    }

    pub fn get_layout(&self) -> (r: Option<&Layout>)
        ensures
            deref(r) == self.layout,
    {
        match &self.layout {
            Some(l) => Some(l),
            None => None,
        }
    }

    pub fn get_eye_blink_parameter_count(&self) -> (r: usize)
        ensures
            r == self.eye_blink_ids().len(),
    {
        match self.find_group("EyeBlink") {
            Some(g) => g.ids.len(),
            None => 0,
        }
    }

    pub fn get_eye_blink_parameter_id(&self, index: usize) -> (r: Option<&str>)
        ensures
            r is Some <==> index < self.eye_blink_ids().len(),
            r matches Some(s) ==> s@ == self.eye_blink_ids()[index as int]@,
    {
        match self.find_group("EyeBlink") {
            Some(g) => if index < g.ids.len() {
                Some(g.ids[index].as_str())
            } else {
                None
            },
            None => None,
        }
    }

    pub fn get_lip_sync_parameter_count(&self) -> (r: usize)
        ensures
            r == self.lip_sync_ids().len(),
    {
        match self.find_group("LipSync") {
            Some(g) => g.ids.len(),
            None => 0,
        }
    }

    pub fn get_lip_sync_parameter_id(&self, index: usize) -> (r: Option<&str>)
        ensures
            r is Some <==> index < self.lip_sync_ids().len(),
            r matches Some(s) ==> s@ == self.lip_sync_ids()[index as int]@,
    {
        match self.find_group("LipSync") {
            Some(g) => if index < g.ids.len() {
                Some(g.ids[index].as_str())
            } else {
                None
            },
            None => None,
        }
    }
}

proof fn lemma_first_motion_group_exists(groups: Seq<MotionGroup>, name: Seq<char>, i: int)
    requires
        0 <= i < groups.len(),
        groups[i].name@ == name,
    ensures
        exists|k: int| first_motion_group(groups, name, k),
    decreases i,
{
    if forall|j: int| 0 <= j < i ==> (#[trigger] groups[j]).name@ != name {
        assert(first_motion_group(groups, name, i));
    } else {
        let j = choose|j: int| 0 <= j < i && (#[trigger] groups[j]).name@ == name;
        lemma_first_motion_group_exists(groups, name, j);
    }
}

proof fn lemma_first_group_exists(groups: Seq<Group>, name: Seq<char>, i: int)
    requires
        0 <= i < groups.len(),
        groups[i].name@ == name,
    ensures
        exists|k: int| first_group(groups, name, k),
    decreases i,
{
    if forall|j: int| 0 <= j < i ==> (#[trigger] groups[j]).name@ != name {
        assert(first_group(groups, name, i));
    } else {
        let j = choose|j: int| 0 <= j < i && (#[trigger] groups[j]).name@ == name;
        lemma_first_group_exists(groups, name, j);
    }
}

/// A motion group is found by a name exactly when a group of that name is
/// held: `is_exist_motion_group_name` agrees with the names that
/// `get_motion_group_names` lists.
pub proof fn lemma_motion_group_found(s: ModelSetting, name: Seq<char>)
    ensures
        s.motion_group(name) is Some <==> exists|i: int|
            0 <= i < s.file_references.motions@.len() && (#[trigger] s.file_references.motions@[i]).name@ == name,
{
    let groups = s.file_references.motions@;
    if exists|i: int| 0 <= i < groups.len() && (#[trigger] groups[i]).name@ == name {
        let i = choose|i: int| 0 <= i < groups.len() && (#[trigger] groups[i]).name@ == name;
        lemma_first_motion_group_exists(groups, name, i);
    }
}

/// A parameter group is found by a name exactly when a group of that name is
/// held, and the group found carries that name.
pub proof fn lemma_group_found(s: ModelSetting, name: Seq<char>)
    ensures
        find_group_spec(s.groups@, name) is Some <==> exists|i: int|
            0 <= i < s.groups@.len() && (#[trigger] s.groups@[i]).name@ == name,
        find_group_spec(s.groups@, name) matches Some(g) ==> g.name@ == name,
{
    let groups = s.groups@;
    if exists|i: int| 0 <= i < groups.len() && (#[trigger] groups[i]).name@ == name {
        let i = choose|i: int| 0 <= i < groups.len() && (#[trigger] groups[i]).name@ == name;
        lemma_first_group_exists(groups, name, i);
    }
}

} // verus!
