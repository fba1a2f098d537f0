//! Missions with objectives and rewards, and the mission manager that keeps
//! them by id.

use vstd::prelude::*;
use std::collections::HashMap;
use std::collections::hash_map::Entry;
use vstd::std_specs::iter::IteratorSpec;

verus! {

broadcast use vstd::std_specs::hash::group_hash_axioms;

/// Kind of mission.
#[derive(Clone, Copy, Debug, PartialEq, Eq, Structural)]
pub enum MissionType {
    /// Deliver an object to a point.
    Delivery,
    /// Destroy a target.
    Destroy,
    /// Race against the clock.
    Race,
    /// Explore an area.
    Explore,
    /// Collect items.
    Collect,
    /// Survive for a while.
    Survive,
}

/// Lifecycle of a mission: `Available` → `Active` → `Completed` → `Claimed`,
/// with `Failed` reachable from anywhere.
#[derive(Clone, Copy, Debug, PartialEq, Eq, Structural)]
pub enum MissionStatus {
    /// Can be taken.
    Available,
    /// Being carried out.
    Active,
    /// All objectives done, reward not yet taken.
    Completed,
    /// Failed.
    Failed,
    /// Reward taken.
    Claimed,
}

/// One objective of a mission: progress `current` towards `required`.
#[derive(Clone, Debug)]
pub struct MissionObjective {
    /// Description of the objective.
    pub description: String,
    /// Current progress.
    pub current: i32,
    /// Progress needed.
    pub required: i32,
    /// Kind of objective; progress reports name it.
    pub objective_type: String,
}

impl MissionObjective {
    /// An objective with no progress yet.
    pub fn new(description: &str, required: i32, objective_type: &str) -> (r: Self)
        ensures
            r.description@ == description@,
            r.current == 0,
            r.required == required,
            r.objective_type@ == objective_type@,
    {
        MissionObjective {
            description: description.to_owned(),
            current: 0,
            required,
            objective_type: objective_type.to_owned(),
        }
    }

    /// Whether the required progress has been reached.
    pub fn is_complete(&self) -> (r: bool)
        ensures
            r == self.spec_complete(),
    {
        self.current >= self.required
    }

    /// Whether the required progress has been reached.
    pub open spec fn spec_complete(&self) -> bool {
        self.current >= self.required
    }
}

/// Reward for a mission.
#[derive(Debug)]
pub struct MissionReward {
    /// Money.
    pub money: u32,
    /// Experience.
    pub experience: u32,
    /// Items as (id, quantity).
    pub items: Vec<(String, u32)>,
    /// Reputation.
    pub reputation: i32,
}

impl MissionReward {
    /// Field-wise equality of two rewards (the items compared as sequences).
    pub open spec fn same_as(&self, other: &MissionReward) -> bool {
        &&& self.money == other.money
        &&& self.experience == other.experience
        &&& self.items@ == other.items@
        &&& self.reputation == other.reputation
    }
}

impl Clone for MissionReward {
    fn clone(&self) -> (r: Self)
        ensures
            r.same_as(self),
    {
        let mut items: Vec<(String, u32)> = Vec::new();
        let n = self.items.len();
        for i in 0..n
            invariant
                n == self.items@.len(),
                items@ == self.items@.take(i as int),
        {
            let (name, quantity) = &self.items[i];
            items.push((name.clone(), *quantity));
            assert(items@ =~= self.items@.take(i + 1));
        }
        assert(items@ =~= self.items@);
        MissionReward {
            money: self.money,
            experience: self.experience,
            items,
            reputation: self.reputation,
        }
    }
}

impl Default for MissionReward {
    fn default() -> (r: Self)
        ensures
            r.money == 0,
            r.experience == 0,
            r.items@ == Seq::<(String, u32)>::empty(),
            r.reputation == 0,
    {
        MissionReward { money: 0, experience: 0, items: Vec::new(), reputation: 0 }
    }
}

/// A point in game time in seconds, held as the bit pattern of an IEEE-754
/// single-precision float. The library stores such times and tests whether
/// they are set; arithmetic on them happens outside.
#[derive(Clone, Copy, Debug, PartialEq, Eq, Structural)]
pub struct GameTime {
    pub bits: u32,
}

/// Whether every objective in `objectives` is complete.
pub open spec fn all_complete(objectives: Seq<MissionObjective>) -> bool {
    forall|k: int| 0 <= k < objectives.len() ==> (#[trigger] objectives[k]).spec_complete()
}

/// Whether a progress report for `objective_type` concerns `o`.
pub open spec fn reports_to(o: MissionObjective, objective_type: Seq<char>) -> bool {
    o.objective_type@ == objective_type
}

/// `o` after a progress report of `value` for `objective_type`: progress
/// never goes down.
pub open spec fn progressed(o: MissionObjective, objective_type: Seq<char>, value: i32) -> MissionObjective {
    if reports_to(o, objective_type) {
        MissionObjective { current: if o.current >= value { o.current } else { value }, ..o }
    } else {
        o
    }
}

/// Whether every objective in the vector is complete.
fn objectives_complete(objectives: &Vec<MissionObjective>) -> (r: bool)
    ensures
        r == all_complete(objectives@),
{
    let n = objectives.len();
    for i in 0..n
        invariant
            n == objectives@.len(),
            forall|k: int| 0 <= k < i ==> (#[trigger] objectives@[k]).spec_complete(),
    {
        if !objectives[i].is_complete() {
            return false;
        }
    }
    true
}

/// A mission.
#[derive(Debug)]
pub struct Mission {
    /// Unique id.
    pub id: u32,
    /// Title.
    pub title: String,
    /// Description.
    pub description: String,
    /// Kind of mission.
    pub mission_type: MissionType,
    /// Status.
    pub status: MissionStatus,
    /// Objectives.
    pub objectives: Vec<MissionObjective>,
    /// Reward.
    pub reward: MissionReward,
    /// Who gives the mission.
    pub giver: String,
    /// Time allowed (`None`: no limit).
    pub time_limit: Option<GameTime>,
    /// When the mission started (set when there is a limit).
    pub start_time: Option<GameTime>,
}

impl Mission {
    /// A fresh, available mission with no objectives, an empty reward, no
    /// giver and no time limit.
    pub open spec fn is_fresh(
        self,
        id: u32,
        title: Seq<char>,
        description: Seq<char>,
        mission_type: MissionType,
    ) -> bool {
        &&& self.id == id
        &&& self.title@ == title
        &&& self.description@ == description
        &&& self.mission_type == mission_type
        &&& self.status == MissionStatus::Available
        &&& self.objectives@ == Seq::<MissionObjective>::empty()
        &&& self.reward.money == 0
        &&& self.reward.experience == 0
        &&& self.reward.items@ == Seq::<(String, u32)>::empty()
        &&& self.reward.reputation == 0
        &&& self.giver@ == Seq::<char>::empty()
        &&& self.time_limit is None
        &&& self.start_time is None
    }

    /// A new, available mission.
    pub fn new(id: u32, title: &str, description: &str, mission_type: MissionType) -> (r: Self)
        ensures
            r.is_fresh(id, title@, description@, mission_type),
    {
        Mission {
            id,
            title: title.to_owned(),
            description: description.to_owned(),
            mission_type,
            status: MissionStatus::Available,
            objectives: Vec::new(),
            reward: MissionReward::default(),
            giver: String::new(),
            time_limit: None,
            start_time: None,
        }
    }

    /// Adds an objective.
    pub fn with_objective(self, objective: MissionObjective) -> (r: Self)
        ensures
            r == (Mission { objectives: r.objectives, ..self }),
            r.objectives@ == self.objectives@.push(objective),
    {
        let mut m = self;
        m.objectives.push(objective);
        m
    }

    /// Sets the reward.
    pub fn with_reward(self, reward: MissionReward) -> (r: Self)
        ensures
            r == (Mission { reward, ..self }),
    {
        let mut m = self;
        m.reward = reward;
        m
    }

    /// Sets the giver.
    pub fn with_giver(self, giver: &str) -> (r: Self)
        ensures
            r == (Mission { giver: r.giver, ..self }),
            r.giver@ == giver@,
    {
        let mut m = self;
        m.giver = giver.to_owned();
        m
    }

    /// Whether `after` is `before` after a progress report of `value` for
    /// `objective_type` (the contract of `update_objective`).
    pub open spec fn updated_by_report(before: Mission, after: Mission, objective_type: Seq<char>, value: i32) -> bool {
        &&& before.status != MissionStatus::Active ==> after == before
        &&& before.status == MissionStatus::Active ==> {
            &&& after.objectives@ == before.objectives@.map_values(
                |o: MissionObjective| progressed(o, objective_type, value),
            )
            &&& after.status == (if (exists|k: int|
                0 <= k < before.objectives@.len() && reports_to(
                    #[trigger] before.objectives@[k],
                    objective_type,
                )) && all_complete(after.objectives@) {
                MissionStatus::Completed
            } else {
                MissionStatus::Active
            })
            &&& after == (Mission { objectives: after.objectives, status: after.status, ..before })
        }
    }

    /// Reports progress `value` for the objectives of kind `objective_type`.
    /// Only an active mission takes reports. Each such objective keeps the
    /// larger of its progress and `value`; the mission becomes completed when
    /// at least one objective took the report and all objectives are then
    /// complete.
    pub fn update_objective(&mut self, objective_type: &str, value: i32)
        ensures
            Mission::updated_by_report(*old(self), *final(self), objective_type@, value),
    {
        if self.status != MissionStatus::Active {
            return;
        }
        let ghost old_objectives = self.objectives@;
        let ghost t = objective_type@;
        let wanted = objective_type.to_owned();
        let n = self.objectives.len();
        let mut i: usize = 0;
        while i < n
            invariant
                0 <= i <= n,
                n == old_objectives.len(),
                wanted@ == t,
                self.objectives@.len() == n,
                forall|k: int| 0 <= k < i ==> #[trigger] self.objectives@[k] == progressed(old_objectives[k], t, value),
                forall|k: int| i <= k < n ==> #[trigger] self.objectives@[k] == old_objectives[k],
                self.status == MissionStatus::Active || self.status == MissionStatus::Completed,
                (self.status == MissionStatus::Completed) == ((exists|k: int|
                    0 <= k < i && reports_to(#[trigger] old_objectives[k], t)) && all_complete(self.objectives@)),
                *self == (Mission { objectives: self.objectives, status: self.status, ..*old(self) }),
            decreases n - i,
        {
            if self.objectives[i].objective_type == wanted {
                let cur = self.objectives[i].current;
                let next = if cur >= value { cur } else { value };
                let ghost before = self.objectives@;
                self.objectives[i].current = next;
                proof {
                    assert(self.objectives@ =~= before.update(i as int, progressed(old_objectives[i as int], t, value)));
                    if all_complete(before) {
                        assert forall|k: int| 0 <= k < n implies (#[trigger] self.objectives@[k]).spec_complete() by {
                            assert(before[k].spec_complete());
                        }
                    }
                }
                if objectives_complete(&self.objectives) {
                    self.status = MissionStatus::Completed;
                }
                proof {
                    assert(reports_to(old_objectives[i as int], t));
                }
            } else {
                proof {
                    assert(!reports_to(old_objectives[i as int], t));
                    assert(self.objectives@[i as int] == progressed(old_objectives[i as int], t, value));
                }
            }
            i = i + 1;
        }
        proof {
            assert(self.objectives@ =~= old_objectives.map_values(|o: MissionObjective| progressed(o, t, value)));
        }
    }

    /// Accepts the mission: an available mission becomes active; any other
    /// status stays.
    pub fn accept(&mut self)
        ensures
            *final(self) == (Mission {
                status: if old(self).status == MissionStatus::Available {
                    MissionStatus::Active
                } else {
                    old(self).status
                },
                ..*old(self)
            }),
    {
        if self.status == MissionStatus::Available {
            self.status = MissionStatus::Active;
        }
    }

    /// Claims the mission: a completed mission becomes claimed; any other
    /// status stays.
    pub fn complete(&mut self)
        ensures
            *final(self) == (Mission {
                status: if old(self).status == MissionStatus::Completed {
                    MissionStatus::Claimed
                } else {
                    old(self).status
                },
                ..*old(self)
            }),
    {
        if self.status == MissionStatus::Completed {
            self.status = MissionStatus::Claimed;
        }
    }

    /// Fails the mission, whatever its status.
    pub fn fail(&mut self)
        ensures
            *final(self) == (Mission { status: MissionStatus::Failed, ..*old(self) }),
    {
        self.status = MissionStatus::Failed;
    }

    /// Checks the time limit. `limit_exceeded` tells whether the time elapsed
    /// since `start_time` is over `time_limit` (the float arithmetic is done
    /// by the caller). An active mission that has both times set and is over
    /// its limit fails, and `true` is returned; otherwise nothing changes.
    pub fn check_time_limit(&mut self, limit_exceeded: bool) -> (r: bool)
        ensures
            r == (old(self).time_limit is Some && old(self).start_time is Some && limit_exceeded
                && old(self).status == MissionStatus::Active),
            r ==> *final(self) == (Mission { status: MissionStatus::Failed, ..*old(self) }),
            !r ==> *final(self) == *old(self),
    {
        if self.time_limit.is_some() && self.start_time.is_some() {
            if limit_exceeded && self.status == MissionStatus::Active {
                self.fail();
                return true;
            }
        }
        false
    }
}

/// The ids stored in `missions` whose missions have status `status`.
pub open spec fn ids_with_status(missions: Map<u32, Mission>, status: MissionStatus) -> Set<u32> {
    missions.dom().filter(|id: u32| missions[id].status == status)
}

/// The missions that `refs` points at.
pub open spec fn derefs(refs: Seq<&Mission>) -> Seq<Mission> {
    refs.map_values(|m: &Mission| *m)
}

/// Whether `listed` holds the missions of `missions` with status `status`,
/// each exactly once: `ids` gives, in the same order, the id under which
/// each listed mission is stored.
pub open spec fn lists_status(
    missions: Map<u32, Mission>,
    status: MissionStatus,
    listed: Seq<Mission>,
    ids: Seq<u32>,
) -> bool {
    &&& ids.len() == listed.len()
    &&& ids.no_duplicates()
    &&& forall|a: int| 0 <= a < ids.len() ==> missions.contains_key(#[trigger] ids[a]) && missions[ids[a]] == listed[a]
    &&& ids.to_set() == ids_with_status(missions, status)
}

/// A stored mission is found again under its id, and every other id finds
/// what it found before.
pub proof fn law_store_then_lookup(missions: Map<u32, Mission>, id: u32, m: Mission)
    ensures
        missions.insert(id, m).contains_key(id),
        missions.insert(id, m)[id] == m,
        forall|other: u32| other != id ==> #[trigger] missions.insert(id, m).get(other) == missions.get(other),
{
}

/// Progress reports never lower progress, never add or drop objectives and
/// never change what an objective requires.
pub proof fn law_progress_never_decreases(before: Mission, after: Mission, objective_type: Seq<char>, value: i32)
    requires
        Mission::updated_by_report(before, after, objective_type, value),
    ensures
        after.objectives@.len() == before.objectives@.len(),
        forall|k: int| 0 <= k < before.objectives@.len() ==> {
            &&& (#[trigger] after.objectives@[k]).current >= before.objectives@[k].current
            &&& after.objectives@[k].required == before.objectives@[k].required
            &&& after.objectives@[k].objective_type == before.objectives@[k].objective_type
        },
{
}

/// A progress report moves a mission only from active to completed, and only
/// when every objective is then complete; any other status is left alone.
pub proof fn law_report_status_transition(before: Mission, after: Mission, objective_type: Seq<char>, value: i32)
    requires
        Mission::updated_by_report(before, after, objective_type, value),
    ensures
        after.status == before.status || (before.status == MissionStatus::Active && after.status
            == MissionStatus::Completed && all_complete(after.objectives@)),
{
}

/// A report completes an active mission as soon as every objective is
/// complete, whichever of its objectives took the report: if at least one
/// objective matches the reported kind and all objectives are complete
/// afterwards, the mission is completed. A report that no objective takes
/// leaves the objectives and the status as they were, and an incomplete objective keeps an active
/// mission active.
pub proof fn law_report_completes_when_all_done(
    before: Mission,
    after: Mission,
    objective_type: Seq<char>,
    value: i32,
    k: int,
)
    requires
        Mission::updated_by_report(before, after, objective_type, value),
        before.status == MissionStatus::Active,
    ensures
        0 <= k < before.objectives@.len() && before.objectives@[k].objective_type@ == objective_type
            && (forall|j: int| 0 <= j < after.objectives@.len() ==> after.objectives@[j].current
            >= after.objectives@[j].required) ==> after.status == MissionStatus::Completed,
        (forall|j: int|
            0 <= j < before.objectives@.len() ==> before.objectives@[j].objective_type@ != objective_type)
            ==> after.objectives@ == before.objectives@ && after.status == before.status,
        0 <= k < after.objectives@.len() && after.objectives@[k].current < after.objectives@[k].required
            ==> after.status == MissionStatus::Active,
{
    if 0 <= k < before.objectives@.len() && before.objectives@[k].objective_type@ == objective_type {
        assert(reports_to(before.objectives@[k], objective_type));
    }
    if forall|j: int|
        0 <= j < before.objectives@.len() ==> before.objectives@[j].objective_type@ != objective_type {
        assert(after.objectives@ =~= before.objectives@);
    }
    if 0 <= k < after.objectives@.len() && after.objectives@[k].current < after.objectives@[k].required {
        assert(!after.objectives@[k].spec_complete());
    }
}

/// A mission whose reward was claimed is no longer completed, so its reward
/// cannot be claimed a second time: a second `claim_reward` returns `None`.
pub proof fn law_reward_claimed_once(missions: Map<u32, Mission>, id: u32)
    requires
        missions.contains_key(id),
        missions[id].status == MissionStatus::Completed,
    ensures
        ({
            let claimed = missions.insert(id, Mission { status: MissionStatus::Claimed, ..missions[id] });
            &&& claimed.contains_key(id)
            &&& claimed[id].status != MissionStatus::Completed
        }),
{
}

/// Keeps the missions, each under its id, and hands out the ids of newly
/// created missions.
pub struct MissionManager {
    missions: HashMap<u32, Mission>,
    next_mission_id: u32,
}

impl MissionManager {
    /// The stored missions by id.
    pub closed spec fn missions(&self) -> Map<u32, Mission> {
        self.missions@
    }

    /// The id that the next created mission gets.
    pub closed spec fn next_id(&self) -> u32 {
        self.next_mission_id
    }

    /// An empty manager; the first created mission gets id 1.
    pub fn new() -> (r: Self)
        ensures
            r.missions() == Map::<u32, Mission>::empty(),
            r.next_id() == 1,
    {
        MissionManager { missions: HashMap::new(), next_mission_id: 1 }
    }

    /// The id that the next created mission gets.
    pub fn peek_next_id(&self) -> (r: u32)
        ensures
            r == self.next_id(),
    {
        self.next_mission_id
    }

    /// Stores `mission` under its id, replacing any mission stored there, and
    /// returns the id.
    pub fn add_mission(&mut self, mission: Mission) -> (r: u32)
        ensures
            r == mission.id,
            final(self).missions() == old(self).missions().insert(mission.id, mission),
            final(self).next_id() == old(self).next_id(),
    {
        let id = mission.id;
        self.missions.insert(id, mission);
        id
    }

    /// Creates a new available mission under the next id and returns that id.
    pub fn create_mission(&mut self, title: &str, description: &str, mission_type: MissionType) -> (r: u32)
        requires
            old(self).next_id() < u32::MAX,
        ensures
            r == old(self).next_id(),
            final(self).next_id() == old(self).next_id() + 1,
            final(self).missions().contains_key(r),
            final(self).missions()[r].is_fresh(r, title@, description@, mission_type),
            final(self).missions() == old(self).missions().insert(r, final(self).missions()[r]),
    {
        let id = self.next_mission_id;
        self.next_mission_id += 1;
        let mission = Mission::new(id, title, description, mission_type);
        self.add_mission(mission);
        id
    }

    /// The mission stored under `id`.
    pub fn get_mission(&self, id: u32) -> (r: Option<&Mission>)
        ensures
            r is Some <==> self.missions().contains_key(id),
            r is Some ==> *r.unwrap() == self.missions()[id],
    {
        self.missions.get(&id)
    }

    /// The mission stored under `id`, for changing it in place.
    pub fn get_mission_mut(&mut self, id: u32) -> (r: Option<&mut Mission>)
        ensures
            r is Some <==> old(self).missions().contains_key(id),
            r is Some ==> {
                &&& *r.unwrap() == old(self).missions()[id]
                &&& final(self).missions() == old(self).missions().insert(id, *final(r.unwrap()))
                &&& final(self).next_id() == old(self).next_id()
            },
            r is None ==> final(self).missions() == old(self).missions() && final(self).next_id()
                == old(self).next_id(),
    {
        match self.missions.entry(id) {
            Entry::Occupied(entry) => Some(entry.into_mut()),
            Entry::Vacant(_) => None,
        }
    }

    /// Accepts the mission stored under `id`; `false` when there is none.
    pub fn accept_mission(&mut self, id: u32) -> (r: bool)
        ensures
            r == old(self).missions().contains_key(id),
            final(self).next_id() == old(self).next_id(),
            r ==> final(self).missions() == old(self).missions().insert(
                id,
                Mission {
                    status: if old(self).missions()[id].status == MissionStatus::Available {
                        MissionStatus::Active
                    } else {
                        old(self).missions()[id].status
                    },
                    ..old(self).missions()[id]
                },
            ),
            !r ==> final(self).missions() == old(self).missions(),
    {
        if let Some(mission) = self.get_mission_mut(id) {
            mission.accept();
            true
        } else {
            false
        }
    }

    /// The missions with status `status`, each once, in the map's order.
    fn missions_with_status(&self, status: MissionStatus) -> (r: Vec<&Mission>)
        ensures
            exists|ids: Seq<u32>| #[trigger] lists_status(self.missions(), status, derefs(r@), ids),
    {
        let ghost m = self.missions@;
        let mut r: Vec<&Mission> = Vec::new();
        let ghost mut ids: Seq<u32> = Seq::empty();
        let ghost mut pos: Seq<int> = Seq::empty();
        let ghost seq = vstd::std_specs::hash::spec_hash_map_iter(&self.missions).remaining();
        for (k, v) in it: self.missions.iter()
            invariant
                m == self.missions@,
                it.seq() == seq,
                seq.no_duplicates(),
                forall|j: int| 0 <= j < seq.len() ==> m.contains_key(*seq[j].0) && m[*seq[j].0] == *seq[j].1,
                forall|key: u32| #[trigger] m.contains_key(key) ==> seq.contains((&key, &m[key])),
                ids.len() == r@.len(),
                pos.len() == r@.len(),
                forall|a: int| 0 <= a < pos.len() ==> 0 <= #[trigger] pos[a] < it.index(),
                forall|a: int, b: int| 0 <= a < b < pos.len() ==> #[trigger] pos[a] < #[trigger] pos[b],
                forall|a: int| 0 <= a < pos.len() ==> *seq[#[trigger] pos[a]].0 == ids[a],
                forall|a: int| 0 <= a < pos.len() ==> *seq[#[trigger] pos[a]].1 == *r@[a],
                forall|a: int| 0 <= a < pos.len() ==> (#[trigger] r@[a]).status == status,
                forall|j: int| 0 <= j < it.index() && (*seq[j].1).status == status ==> exists|a: int| 0 <= a < pos.len() && #[trigger] pos[a] == j,
        {
            let ghost j = it.index() as int;
            let ghost old_pos = pos;
            proof {
                assert(seq[j] == (k, v));
            }
            if v.status == status {
                r.push(v);
                proof {
                    ids = ids.push(*k);
                    pos = pos.push(j);
                    assert forall|j2: int| 0 <= j2 < j + 1 && (*seq[j2].1).status == status implies exists|a: int| 0 <= a < pos.len() && #[trigger] pos[a] == j2 by {
                        if j2 == j {
                            assert(pos[pos.len() - 1] == j);
                        } else {
                            let a = choose|a: int| 0 <= a < old_pos.len() && #[trigger] old_pos[a] == j2;
                            assert(pos[a] == j2);
                        }
                    }
                }
            }
        }
        proof {
            let listed = derefs(r@);
            assert forall|a: int| 0 <= a < ids.len() implies m.contains_key(#[trigger] ids[a]) && m[ids[a]] == listed[a] by {
                assert(m.contains_key(*seq[pos[a]].0));
            }
            assert forall|a: int, b: int| 0 <= a < ids.len() && 0 <= b < ids.len() && a != b implies ids[a] != ids[b] by {
                if ids[a] == ids[b] {
                    let pa = pos[a];
                    let pb = pos[b];
                    assert(m[*seq[pa].0] == *seq[pa].1);
                    assert(m[*seq[pb].0] == *seq[pb].1);
                    assert(seq[pa] == seq[pb]);
                    if a < b {
                        assert(pa < pb);
                    } else {
                        assert(pb < pa);
                    }
                }
            }
            assert(ids.no_duplicates());
            assert forall|key: u32| ids.to_set().contains(key) <==> ids_with_status(m, status).contains(key) by {
                if ids.to_set().contains(key) {
                    let a = choose|a: int| 0 <= a < ids.len() && ids[a] == key;
                    assert(m.contains_key(*seq[pos[a]].0));
                }
                if ids_with_status(m, status).contains(key) {
                    assert(m.contains_key(key));
                    assert(seq.contains((&key, &m[key])));
                    let j = choose|j: int| 0 <= j < seq.len() && seq[j] == (&key, &m[key]);
                    let a = choose|a: int| 0 <= a < pos.len() && #[trigger] pos[a] == j;
                    assert(ids[a] == key);
                    assert(ids.contains(key));
                }
            }
            assert(ids.to_set() =~= ids_with_status(m, status));
            assert(lists_status(m, status, listed, ids));
            assert(lists_status(self.missions(), status, derefs(r@), ids));
        }
        r
    }

    /// The missions that can be taken, each once.
    pub fn get_available_missions(&self) -> (r: Vec<&Mission>)
        ensures
            exists|ids: Seq<u32>|
                #[trigger] lists_status(self.missions(), MissionStatus::Available, derefs(r@), ids),
    {
        self.missions_with_status(MissionStatus::Available)
    }

    /// The missions being carried out, each once.
    pub fn get_active_missions(&self) -> (r: Vec<&Mission>)
        ensures
            exists|ids: Seq<u32>|
                #[trigger] lists_status(self.missions(), MissionStatus::Active, derefs(r@), ids),
    {
        self.missions_with_status(MissionStatus::Active)
    }

    /// The completed missions whose reward has not been claimed, each once.
    pub fn get_completed_missions(&self) -> (r: Vec<&Mission>)
        ensures
            exists|ids: Seq<u32>|
                #[trigger] lists_status(self.missions(), MissionStatus::Completed, derefs(r@), ids),
    {
        self.missions_with_status(MissionStatus::Completed)
    }

    /// Reports objective progress to the mission stored under `id`, if any
    /// (see `Mission::update_objective`).
    pub fn update_mission_progress(&mut self, mission_id: u32, objective_type: &str, value: i32)
        ensures
            final(self).next_id() == old(self).next_id(),
            !old(self).missions().contains_key(mission_id) ==> final(self).missions() == old(self).missions(),
            old(self).missions().contains_key(mission_id) ==> {
                &&& final(self).missions() == old(self).missions().insert(mission_id, final(self).missions()[mission_id])
                &&& Mission::updated_by_report(
                    old(self).missions()[mission_id],
                    final(self).missions()[mission_id],
                    objective_type@,
                    value,
                )
            },
    {
        if let Some(mission) = self.get_mission_mut(mission_id) {
            mission.update_objective(objective_type, value);
        }
    }

    /// Takes the reward of the mission stored under `id` if it is completed:
    /// the mission becomes claimed and a copy of its reward is returned.
    /// Otherwise nothing changes and `None` is returned.
    pub fn claim_reward(&mut self, id: u32) -> (r: Option<MissionReward>)
        ensures
            final(self).next_id() == old(self).next_id(),
            r is Some <==> (old(self).missions().contains_key(id)
                && old(self).missions()[id].status == MissionStatus::Completed),
            r is Some ==> {
                &&& r.unwrap().same_as(&old(self).missions()[id].reward)
                &&& final(self).missions() == old(self).missions().insert(
                    id,
                    Mission { status: MissionStatus::Claimed, ..old(self).missions()[id] },
                )
            },
            r is None ==> final(self).missions() == old(self).missions(),
    {
        if let Some(mission) = self.get_mission_mut(id) {
            if mission.status == MissionStatus::Completed {
                let reward = mission.reward.clone();
                mission.complete();
                return Some(reward);
            }
        }
        None
    }
}

impl Default for MissionManager {
    fn default() -> (r: Self)
        ensures
            r.missions() == Map::<u32, Mission>::empty(),
            r.next_id() == 1,
    {
        Self::new()
    }
}

} // verus!
