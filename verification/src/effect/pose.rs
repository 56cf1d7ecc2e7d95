use vstd::prelude::*;

use crate::utils::index_of;

verus! {

/// A part of a pose group as the pose file gives it, with the parts whose
/// opacity follows it.
#[derive(Debug, Clone, PartialEq)]
pub struct PartItem {
    pub id: String,
    pub link: Vec<String>,
}

/// A part of a pose, with the indices of the model parameter and model part
/// that carry its id, once looked up.
#[derive(Debug)]
pub struct PartData {
    pub part_id: String,
    pub param_index: Option<usize>,
    pub part_index: Option<usize>,
    pub link: Vec<PartData>,
}

/// Where `id` stands among `ids`: the first position that holds it.
pub open spec fn position_in(ids: Seq<String>, id: Seq<char>) -> Option<usize> {
    if exists|i: int| 0 <= i < ids.len() && (#[trigger] ids[i])@ == id {
        Some(
            (choose|i: int|
                0 <= i < ids.len() && ids[i]@ == id && forall|j: int| 0 <= j < i ==> (#[trigger] ids[j])@ != id) as usize,
        )
    } else {
        None
    }
}

proof fn lemma_position_in(ids: Seq<String>, id: Seq<char>, r: Option<usize>)
    requires
        match r {
            Some(i) => i < ids.len() && ids[i as int]@ == id && forall|j: int| 0 <= j < i ==> (#[trigger] ids[j])@ != id,
            None => forall|j: int| 0 <= j < ids.len() ==> (#[trigger] ids[j])@ != id,
        },
    ensures
        r == position_in(ids, id),
{
    if let Some(i) = r {
        let k = choose|k: int| 0 <= k < ids.len() && ids[k]@ == id && forall|j: int| 0 <= j < k ==> (#[trigger] ids[j])@ != id;
        assert(ids[i as int]@ == id);
        if k < i {
            assert(ids[k]@ != id);
        }
        if i < k {
            assert(ids[i as int]@ == id);
        }
    }
}

/// Looks up the first position of `id` among `ids`.
fn position_of(ids: &Vec<String>, id: &String) -> (r: Option<usize>)
    ensures
        r == position_in(ids@, id@),
{
    let r = index_of(ids, id);
    proof {
        lemma_position_in(ids@, id@, r);
    }
    r
}

impl PartData {
    /// The part's indices are those of its id among the model's parameter ids
    /// and part ids, and likewise for each linked part.
    pub open spec fn initialized(&self, param_ids: Seq<String>, part_ids: Seq<String>) -> bool {
        &&& self.param_index == position_in(param_ids, self.part_id@)
        &&& self.part_index == position_in(part_ids, self.part_id@)
        &&& forall|k: int| 0 <= k < self.link@.len() ==> {
            &&& (#[trigger] self.link@[k]).param_index == position_in(param_ids, self.link@[k].part_id@)
            &&& self.link@[k].part_index == position_in(part_ids, self.link@[k].part_id@)
        }
    }

    /// Looks up the part's parameter index and part index by its id, and those
    /// of the linked parts, among the model's parameter ids and part ids.
    pub fn initialize(&mut self, param_ids: &Vec<String>, part_ids: &Vec<String>)
        ensures
            final(self).initialized(param_ids@, part_ids@),
            final(self).part_id == old(self).part_id,
            final(self).link@.len() == old(self).link@.len(),
            forall|k: int| 0 <= k < old(self).link@.len() ==> {
                &&& (#[trigger] final(self).link@[k]).part_id == old(self).link@[k].part_id
                &&& final(self).link@[k].link@ == old(self).link@[k].link@
            },
    {
        self.param_index = position_of(param_ids, &self.part_id);
        self.part_index = position_of(part_ids, &self.part_id);
        let n = self.link.len();
        let mut k: usize = 0;
        while k < n
            invariant
                n == self.link@.len(),
                n == old(self).link@.len(),
                k <= n,
                self.part_id == old(self).part_id,
                self.param_index == position_in(param_ids@, self.part_id@),
                self.part_index == position_in(part_ids@, self.part_id@),
                forall|j: int| 0 <= j < n ==> {
                    &&& (#[trigger] self.link@[j]).part_id == old(self).link@[j].part_id
                    &&& self.link@[j].link@ == old(self).link@[j].link@
                },
                forall|j: int| 0 <= j < k ==> {
                    &&& (#[trigger] self.link@[j]).param_index == position_in(param_ids@, self.link@[j].part_id@)
                    &&& self.link@[j].part_index == position_in(part_ids@, self.link@[j].part_id@)
                },
            decreases n - k,
        {
            let param_index = position_of(param_ids, &self.link[k].part_id);
            let part_index = position_of(part_ids, &self.link[k].part_id);
            let ghost before = self.link@;
            let mut item = self.link.remove(k);
            item.param_index = param_index;
            item.part_index = part_index;
            self.link.insert(k, item);
            proof {
                assert forall|j: int| 0 <= j < n && j != k implies #[trigger] self.link@[j] == before[j] by {
                    if j < k {
                        assert(self.link@[j] == before.remove(k as int)[j]);
                    } else {
                        assert(self.link@[j] == before.remove(k as int)[j - 1]);
                    }
                }
            }
            k += 1;
        }
    }
}

/// The items of all groups, group after group.
pub open spec fn flat_items(groups: Seq<Vec<PartItem>>) -> Seq<PartItem>
    decreases groups.len(),
{
    if groups.len() == 0 {
        Seq::empty()
    } else {
        flat_items(groups.drop_last()) + groups.last()@
    }
}

/// `p` is the part made from `item`: its id, no indices looked up yet, and one
/// linked part, without links of its own, for each linked id.
pub open spec fn part_from_item(p: PartData, item: PartItem) -> bool {
    &&& p.part_id@ == item.id@
    &&& p.param_index is None
    &&& p.part_index is None
    &&& p.link@.len() == item.link@.len()
    &&& forall|k: int| 0 <= k < p.link@.len() ==> {
        &&& (#[trigger] p.link@[k]).part_id@ == item.link@[k]@
        &&& p.link@[k].param_index is None
        &&& p.link@[k].part_index is None
        &&& p.link@[k].link@.len() == 0
    }
}

/// The sum of `counts`.
pub open spec fn total(counts: Seq<usize>) -> int
    decreases counts.len(),
{
    if counts.len() == 0 {
        0
    } else {
        total(counts.drop_last()) + counts.last()
    }
}

/// A pose: groups of parts, of which one per group is shown, stored as one
/// list of parts and the size of each group. `fade_time_seconds` is an `f32`
/// bit pattern.
pub struct Pose {
    pub part_groups: Vec<PartData>,
    pub part_group_counts: Vec<usize>,
    pub fade_time_seconds: u32,
}

impl Pose {
    /// The groups' sizes add up to the number of parts.
    pub open spec fn wf(&self) -> bool {
        total(self.part_group_counts@) == self.part_groups@.len()
    }

    /// Builds a pose from the pose file's groups: the parts of all groups in
    /// order, and the size of each group.
    pub fn from_groups(groups: Vec<Vec<PartItem>>, fade_time_seconds: u32) -> (p: Pose)
        ensures
            p.wf(),
            p.fade_time_seconds == fade_time_seconds,
            p.part_group_counts@.len() == groups@.len(),
            forall|g: int| 0 <= g < groups@.len() ==> #[trigger] p.part_group_counts@[g] == groups@[g]@.len(),
            p.part_groups@.len() == flat_items(groups@).len(),
            forall|k: int| 0 <= k < p.part_groups@.len() ==> part_from_item(#[trigger] p.part_groups@[k], flat_items(groups@)[k]),
    {
        let mut part_groups: Vec<PartData> = Vec::new();
        let mut part_group_counts: Vec<usize> = Vec::new();
        let ng = groups.len();
        let mut g: usize = 0;
        while g < ng
            invariant
                ng == groups@.len(),
                g <= ng,
                part_group_counts@.len() == g,
                forall|h: int| 0 <= h < g ==> #[trigger] part_group_counts@[h] == groups@[h]@.len(),
                total(part_group_counts@) == part_groups@.len(),
                part_groups@.len() == flat_items(groups@.take(g as int)).len(),
                forall|k: int| 0 <= k < part_groups@.len() ==> part_from_item(#[trigger] part_groups@[k], flat_items(groups@.take(g as int))[k]),
            decreases ng - g,
        {
            let group = &groups[g];
            let ghost before = flat_items(groups@.take(g as int));
            proof {
                assert(groups@.take(g as int + 1).drop_last() =~= groups@.take(g as int));
                assert(flat_items(groups@.take(g as int + 1)) == before + group@);
            }
            let ni = group.len();
            let mut count: usize = 0;
            while count < ni
                invariant
                    ni == group@.len(),
                    count <= ni,
                    part_groups@.len() == before.len() + count,
                    forall|k: int| 0 <= k < part_groups@.len() ==> part_from_item(#[trigger] part_groups@[k], (before + group@)[k]),
                decreases ni - count,
            {
                let item = &group[count];
                let mut link: Vec<PartData> = Vec::new();
                let nl = item.link.len();
                let mut l: usize = 0;
                while l < nl
                    invariant
                        nl == item.link@.len(),
                        l <= nl,
                        link@.len() == l,
                        forall|k: int| 0 <= k < l ==> {
                            &&& (#[trigger] link@[k]).part_id@ == item.link@[k]@
                            &&& link@[k].param_index is None
                            &&& link@[k].part_index is None
                            &&& link@[k].link@.len() == 0
                        },
                    decreases nl - l,
                {
                    link.push(
                        PartData { part_id: item.link[l].clone(), param_index: None, part_index: None, link: Vec::new() },
                    );
                    l += 1;
                }
                let part = PartData { part_id: item.id.clone(), param_index: None, part_index: None, link };
                assert(part_from_item(part, (before + group@)[part_groups@.len() as int]));
                part_groups.push(part);
                count += 1;
            }
            let ghost old_counts = part_group_counts@;
            part_group_counts.push(count);
            proof {
                assert(part_group_counts@.drop_last() =~= old_counts);
            }
            g += 1;
        }
        assert(groups@.take(ng as int) =~= groups@);
        Pose { part_groups, part_group_counts, fade_time_seconds }
    }

    /// The index of the first part of each group.
    pub fn group_starts(&self) -> (starts: Vec<usize>)
        requires
            self.wf(),
        ensures
            starts@.len() == self.part_group_counts@.len(),
            forall|g: int| 0 <= g < starts@.len() ==> #[trigger] starts@[g] == total(self.part_group_counts@.take(g)),
            forall|g: int| 0 <= g < starts@.len() ==> starts@[g] + self.part_group_counts@[g] <= self.part_groups@.len(),
    {
        let counts = &self.part_group_counts;
        let total_parts = self.part_groups.len();
        let n = counts.len();
        let mut starts: Vec<usize> = Vec::new();
        let mut begin: usize = 0;
        let mut g: usize = 0;
        while g < n
            invariant
                n == counts@.len(),
                g <= n,
                total(counts@) == self.part_groups@.len(),
                total_parts == self.part_groups@.len(),
                starts@.len() == g,
                begin == total(counts@.take(g as int)),
                forall|h: int| 0 <= h < g ==> #[trigger] starts@[h] == total(counts@.take(h)),
                forall|h: int| 0 <= h < g ==> starts@[h] + counts@[h] <= self.part_groups@.len(),
            decreases n - g,
        {
            proof {
                lemma_total_prefix(counts@, g as int + 1);
                assert(counts@.take(g as int + 1).drop_last() =~= counts@.take(g as int));
            }
            starts.push(begin);
            begin = begin + counts[g];
            g += 1;
        }
        starts
    }
}

/// The opacity copies that one part asks for: from its part to each linked
/// part that has a model part, when it has one itself.
pub open spec fn link_copies(p: PartData) -> Seq<(usize, usize)> {
    match p.part_index {
        Some(from) => link_targets(p.link@).map_values(|to: usize| (from, to)),
        None => Seq::empty(),
    }
}

/// The model part indices of the linked parts that have one, in order.
pub open spec fn link_targets(links: Seq<PartData>) -> Seq<usize>
    decreases links.len(),
{
    if links.len() == 0 {
        Seq::empty()
    } else {
        let prev = link_targets(links.drop_last());
        match links.last().part_index {
            Some(i) => prev.push(i),
            None => prev,
        }
    }
}

/// The opacity copies of all parts, part after part.
pub open spec fn all_link_copies(parts: Seq<PartData>) -> Seq<(usize, usize)>
    decreases parts.len(),
{
    if parts.len() == 0 {
        Seq::empty()
    } else {
        all_link_copies(parts.drop_last()) + link_copies(parts.last())
    }
}

/// Part `i` of `parts` has model part `from`, and one of its linked parts has
/// model part `to`.
pub open spec fn part_links(parts: Seq<PartData>, from: usize, to: usize) -> bool {
    exists|i: int, j: int|
        0 <= i < parts.len() && 0 <= j < parts[i].link@.len() && parts[i].part_index == Some(from)
            && (#[trigger] parts[i].link@[j]).part_index == Some(to)
}

proof fn lemma_link_targets(links: Seq<PartData>)
    ensures
        forall|k: int| 0 <= k < link_targets(links).len() ==> exists|j: int|
            0 <= j < links.len() && (#[trigger] links[j]).part_index == Some(#[trigger] link_targets(links)[k]),
        forall|j: int| 0 <= j < links.len() && (#[trigger] links[j]).part_index is Some ==> link_targets(
            links,
        ).contains(links[j].part_index.unwrap()),
    decreases links.len(),
{
    if links.len() > 0 {
        let prev = links.drop_last();
        lemma_link_targets(prev);
        let lt = link_targets(links);
        assert forall|k: int| 0 <= k < lt.len() implies exists|j: int|
            0 <= j < links.len() && (#[trigger] links[j]).part_index == Some(#[trigger] lt[k]) by {
            if k < link_targets(prev).len() {
                assert(lt[k] == link_targets(prev)[k]);
                let j = choose|j: int| 0 <= j < prev.len() && (#[trigger] prev[j]).part_index == Some(link_targets(prev)[k]);
                assert(links[j] == prev[j]);
            } else {
                assert(links[links.len() - 1].part_index == Some(lt[k]));
            }
        }
        assert forall|j: int| 0 <= j < links.len() && (#[trigger] links[j]).part_index is Some implies lt.contains(
            links[j].part_index.unwrap(),
        ) by {
            if j < links.len() - 1 {
                assert(links[j] == prev[j]);
                let t = links[j].part_index.unwrap();
                assert(link_targets(prev).contains(t));
                let k = choose|k: int| 0 <= k < link_targets(prev).len() && link_targets(prev)[k] == t;
                assert(lt[k] == t);
            } else {
                assert(lt[lt.len() - 1] == links[j].part_index.unwrap());
            }
        }
    }
}

/// Opacity is always copied from a part to one of its own linked parts, and
/// every part with a model part copies to every linked part with one: the
/// copies run from the owning part to the linked part, never backwards.
pub proof fn lemma_link_copies_direction(parts: Seq<PartData>)
    ensures
        forall|k: int| 0 <= k < all_link_copies(parts).len() ==> part_links(
            parts,
            (#[trigger] all_link_copies(parts)[k]).0,
            all_link_copies(parts)[k].1,
        ),
        forall|i: int, j: int|
            0 <= i < parts.len() && 0 <= j < parts[i].link@.len() && parts[i].part_index is Some
                && (#[trigger] parts[i].link@[j]).part_index is Some ==> all_link_copies(parts).contains(
                (parts[i].part_index.unwrap(), parts[i].link@[j].part_index.unwrap()),
            ),
    decreases parts.len(),
{
    if parts.len() > 0 {
        let prev = parts.drop_last();
        let last = parts.last();
        lemma_link_copies_direction(prev);
        lemma_link_targets(last.link@);
        let ac = all_link_copies(parts);
        let pc = all_link_copies(prev);
        let lc = link_copies(last);
        assert(ac == pc + lc);
        assert forall|k: int| 0 <= k < ac.len() implies part_links(parts, (#[trigger] ac[k]).0, ac[k].1) by {
            if k < pc.len() {
                assert(ac[k] == pc[k]);
                assert(part_links(prev, pc[k].0, pc[k].1));
                let (i, j) = choose|i: int, j: int|
                    0 <= i < prev.len() && 0 <= j < prev[i].link@.len() && prev[i].part_index == Some(pc[k].0)
                        && (#[trigger] prev[i].link@[j]).part_index == Some(pc[k].1);
                assert(parts[i] == prev[i]);
                assert(parts[i].link@[j].part_index == Some(pc[k].1));
            } else {
                let from = last.part_index.unwrap();
                let lt = link_targets(last.link@);
                let m = k - pc.len();
                assert(ac[k] == lc[m]);
                assert(lc[m] == (from, lt[m]));
                let j = choose|j: int| 0 <= j < last.link@.len() && (#[trigger] last.link@[j]).part_index == Some(lt[m]);
                let i = parts.len() - 1;
                assert(parts[i].link@[j].part_index == Some(lt[m]));
            }
        }
        assert forall|i: int, j: int|
            0 <= i < parts.len() && 0 <= j < parts[i].link@.len() && parts[i].part_index is Some
                && (#[trigger] parts[i].link@[j]).part_index is Some implies ac.contains(
            (parts[i].part_index.unwrap(), parts[i].link@[j].part_index.unwrap()),
        ) by {
            let c = (parts[i].part_index.unwrap(), parts[i].link@[j].part_index.unwrap());
            if i < parts.len() - 1 {
                assert(parts[i] == prev[i]);
                assert(prev[i].link@[j].part_index is Some);
                assert(pc.contains(c));
                let k = choose|k: int| 0 <= k < pc.len() && pc[k] == c;
                assert(ac[k] == c);
            } else {
                let lt = link_targets(last.link@);
                assert(last.link@[j].part_index is Some);
                assert(lt.contains(last.link@[j].part_index.unwrap()));
                let m = choose|m: int| 0 <= m < lt.len() && lt[m] == last.link@[j].part_index.unwrap();
                assert(lc[m] == c);
                assert(ac[pc.len() + m] == c);
            }
        }
    }
}

impl Pose {
    /// Looks up the model indices of every part and linked part by id.
    pub fn initialize_parts(&mut self, param_ids: &Vec<String>, part_ids: &Vec<String>)
        requires
            old(self).wf(),
        ensures
            final(self).wf(),
            final(self).part_group_counts == old(self).part_group_counts,
            final(self).fade_time_seconds == old(self).fade_time_seconds,
            final(self).part_groups@.len() == old(self).part_groups@.len(),
            forall|k: int| 0 <= k < final(self).part_groups@.len() ==> {
                &&& (#[trigger] final(self).part_groups@[k]).initialized(param_ids@, part_ids@)
                &&& final(self).part_groups@[k].part_id == old(self).part_groups@[k].part_id
                &&& final(self).part_groups@[k].link@.len() == old(self).part_groups@[k].link@.len()
            },
    {
        let n = self.part_groups.len();
        let mut k: usize = 0;
        while k < n
            invariant
                n == self.part_groups@.len(),
                n == old(self).part_groups@.len(),
                k <= n,
                self.part_group_counts == old(self).part_group_counts,
                self.fade_time_seconds == old(self).fade_time_seconds,
                forall|j: int| 0 <= j < k ==> {
                    &&& (#[trigger] self.part_groups@[j]).initialized(param_ids@, part_ids@)
                    &&& self.part_groups@[j].part_id == old(self).part_groups@[j].part_id
                    &&& self.part_groups@[j].link@.len() == old(self).part_groups@[j].link@.len()
                },
                forall|j: int| k <= j < n ==> #[trigger] self.part_groups@[j] == old(self).part_groups@[j],
            decreases n - k,
        {
            let ghost before = self.part_groups@;
            let mut part = self.part_groups.remove(k);
            part.initialize(param_ids, part_ids);
            self.part_groups.insert(k, part);
            proof {
                assert forall|j: int| 0 <= j < n && j != k implies #[trigger] self.part_groups@[j] == before[j] by {
                    if j < k {
                        assert(self.part_groups@[j] == before.remove(k as int)[j]);
                    } else {
                        assert(self.part_groups@[j] == before.remove(k as int)[j - 1]);
                    }
                }
            }
            k += 1;
        }
    }

    /// Which parts a reset shows: the first part of each group that has parts.
    pub fn reset_visibility(&self) -> (shown: Vec<bool>)
        requires
            self.wf(),
        ensures
            shown@.len() == self.part_groups@.len(),
            forall|j: int| 0 <= j < shown@.len() ==> #[trigger] shown@[j] == exists|g: int|
                0 <= g < self.part_group_counts@.len() && self.part_group_counts@[g] > 0
                    && #[trigger] total(self.part_group_counts@.take(g)) == j,
    {
        let starts = self.group_starts();
        let n = self.part_groups.len();
        let mut shown: Vec<bool> = Vec::new();
        let mut j: usize = 0;
        while j < n
            invariant
                n == self.part_groups@.len(),
                j <= n,
                shown@.len() == j,
                forall|i: int| 0 <= i < j ==> #[trigger] shown@[i] == false,
            decreases n - j,
        {
            shown.push(false);
            j += 1;
        }
        let ng = starts.len();
        let mut g: usize = 0;
        while g < ng
            invariant
                ng == starts@.len(),
                ng == self.part_group_counts@.len(),
                g <= ng,
                shown@.len() == n,
                n == self.part_groups@.len(),
                forall|h: int| 0 <= h < ng ==> #[trigger] starts@[h] == total(self.part_group_counts@.take(h)),
                forall|h: int| 0 <= h < ng ==> starts@[h] + self.part_group_counts@[h] <= n,
                forall|i: int| 0 <= i < n ==> #[trigger] shown@[i] == exists|h: int|
                    0 <= h < g && self.part_group_counts@[h] > 0 && #[trigger] total(self.part_group_counts@.take(h)) == i,
            decreases ng - g,
        {
            if self.part_group_counts[g] > 0 {
                let b = starts[g];
                shown.set(b, true);
                proof {
                    assert forall|i: int| 0 <= i < n implies #[trigger] shown@[i] == exists|h: int|
                        0 <= h < g + 1 && self.part_group_counts@[h] > 0 && #[trigger] total(self.part_group_counts@.take(h)) == i by {
                        if i == b {
                            assert(total(self.part_group_counts@.take(g as int)) == i);
                        }
                    }
                }
            }
            g += 1;
        }
        shown
    }

    /// The first part of the group `begin .. begin + count` that has a model
    /// parameter and whose parameter is shown (`shown[j - begin]`, the test the
    /// caller makes on the parameter's value); none if there is none.
    pub fn visible_part(&self, begin: usize, count: usize, shown: &Vec<bool>) -> (r: Option<usize>)
        requires
            begin + count <= self.part_groups@.len(),
            shown@.len() == count,
        ensures
            match r {
                Some(v) => {
                    &&& begin <= v < begin + count
                    &&& self.part_groups@[v as int].param_index is Some
                    &&& shown@[v - begin]
                    &&& forall|j: int| begin <= j < v ==> !((#[trigger] self.part_groups@[j]).param_index is Some && shown@[j - begin])
                },
                None => forall|j: int| begin <= j < begin + count ==> !((#[trigger] self.part_groups@[j]).param_index is Some && shown@[j - begin]),
            },
    {
        let total_parts = self.part_groups.len();
        let mut i: usize = 0;
        while i < count
            invariant
                total_parts == self.part_groups@.len(),
                begin + count <= self.part_groups@.len(),
                shown@.len() == count,
                i <= count,
                forall|j: int| begin <= j < begin + i ==> !((#[trigger] self.part_groups@[j]).param_index is Some && shown@[j - begin]),
            decreases count - i,
        {
            if self.part_groups[begin + i].param_index.is_some() && shown[i] {
                return Some(begin + i);
            }
            i += 1;
        }
        None
    }

    /// The opacity copies the pose asks for, as `(from, to)` model part
    /// indices: each part that has a model part hands its opacity to each of
    /// its linked parts that has one.
    pub fn opacity_links(&self) -> (copies: Vec<(usize, usize)>)
        ensures
            copies@ == all_link_copies(self.part_groups@),
            forall|k: int| 0 <= k < copies@.len() ==> part_links(
                self.part_groups@,
                (#[trigger] copies@[k]).0,
                copies@[k].1,
            ),
    {
        let n = self.part_groups.len();
        let mut copies: Vec<(usize, usize)> = Vec::new();
        let mut k: usize = 0;
        while k < n
            invariant
                n == self.part_groups@.len(),
                k <= n,
                copies@ == all_link_copies(self.part_groups@.take(k as int)),
            decreases n - k,
        {
            let part = &self.part_groups[k];
            let ghost before = copies@;
            proof {
                assert(self.part_groups@.take(k as int + 1).drop_last() =~= self.part_groups@.take(k as int));
            }
            if let Some(from) = part.part_index {
                let nl = part.link.len();
                let mut l: usize = 0;
                while l < nl
                    invariant
                        nl == part.link@.len(),
                        l <= nl,
                        part.part_index == Some(from),
                        copies@ == before + link_targets(part.link@.take(l as int)).map_values(|to: usize| (from, to)),
                    decreases nl - l,
                {
                    proof {
                        assert(part.link@.take(l as int + 1).drop_last() =~= part.link@.take(l as int));
                    }
                    if let Some(to) = part.link[l].part_index {
                        copies.push((from, to));
                    }
                    proof {
                        assert(copies@ =~= before + link_targets(part.link@.take(l as int + 1)).map_values(|to: usize| (from, to)));
                    }
                    l += 1;
                }
                proof {
                    assert(part.link@.take(nl as int) =~= part.link@);
                }
            }
            proof {
                assert(copies@ =~= all_link_copies(self.part_groups@.take(k as int + 1)));
            }
            k += 1;
        }
        proof {
            assert(self.part_groups@.take(n as int) =~= self.part_groups@);
            lemma_link_copies_direction(self.part_groups@);
        }
        copies
    }
}

/// A prefix of the counts adds up to no more than all of them.
proof fn lemma_total_prefix(counts: Seq<usize>, k: int)
    requires
        0 <= k <= counts.len(),
    ensures
        total(counts.take(k)) <= total(counts),
        total(counts.take(k)) >= 0,
    decreases counts.len() - k,
{
    if k < counts.len() {
        lemma_total_prefix(counts, k + 1);
        assert(counts.take(k + 1).drop_last() =~= counts.take(k));
    } else {
        assert(counts.take(k) =~= counts);
    }
    lemma_total_nonnegative(counts.take(k));
}

proof fn lemma_total_nonnegative(counts: Seq<usize>)
    ensures
        total(counts) >= 0,
    decreases counts.len(),
{
    if counts.len() > 0 {
        lemma_total_nonnegative(counts.drop_last());
    }
}

} // verus!
