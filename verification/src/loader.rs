//! Distance-based chunk streaming: a loader keeps the set of loaded
//! chunk coordinates equal to a sphere around the committed center, and
//! reports every change on two drainable queues, one for coordinates to
//! load and one for coordinates to unload.

use vstd::prelude::*;
use dashmap::DashSet;
use crate::coords::Coord3;
use crate::coords::dist2i;

verus! {

broadcast use vstd::seq_lib::group_seq_properties;

/// Declares dashmap::DashSet so that values of it can flow through
/// verified signatures; its contents are visible only through
/// `coord_set_view`.
#[verifier::external_type_specification]
#[verifier::external_body]
#[verifier::reject_recursive_types(K)]
#[verifier::reject_recursive_types(S)]
pub struct ExDashSet<K, S>(DashSet<K, S>);

/// The contents of a loaded-coordinate set, as a mathematical set.
pub uninterp spec fn coord_set_view(s: DashSet<Coord3>) -> Set<Coord3>;

/// The empty loaded-coordinate set contents.
pub open spec fn coord_set_empty() -> Set<Coord3> {
    Set::empty()
}

/// Relies on dashmap::DashSet::new: the new set is empty.
#[verifier::external_body]
fn coord_set_new() -> (r: DashSet<Coord3>)
    ensures
        coord_set_view(r) == coord_set_empty(),
{
    DashSet::new()
}

/// Relies on dashmap::DashSet::insert: afterwards the key is a member,
/// and no other key changed.
#[verifier::external_body]
fn coord_set_insert(s: &mut DashSet<Coord3>, value: Coord3)
    ensures
        coord_set_view(*final(s)) == coord_set_view(*old(s)).insert(value),
{
    s.insert(value);
}

/// Relies on dashmap::DashSet::remove: afterwards the key is no member,
/// and no other key changed.
#[verifier::external_body]
fn coord_set_remove(s: &mut DashSet<Coord3>, value: &Coord3)
    ensures
        coord_set_view(*final(s)) == coord_set_view(*old(s)).remove(*value),
{
    s.remove(value);
}

/// Relies on dashmap::DashSet::contains: key membership.
#[verifier::external_body]
fn coord_set_contains(s: &DashSet<Coord3>, value: &Coord3) -> (r: bool)
    ensures
        r == coord_set_view(*s).contains(*value),
{
    s.contains(value)
}

/// Relies on dashmap::DashSet::is_empty: whether the set has no member.
#[verifier::external_body]
fn coord_set_is_empty(s: &DashSet<Coord3>) -> (r: bool)
    ensures
        r == (coord_set_view(*s) == coord_set_empty()),
{
    s.is_empty()
}

/// Relies on dashmap::DashSet::iter: yields each member exactly once, in
/// no particular order; nothing is stated of the order.
#[verifier::external_body]
fn coord_set_to_vec(s: &DashSet<Coord3>) -> (r: Vec<Coord3>)
    ensures
        r@.no_duplicates(),
        forall|q: Coord3| #[trigger] r@.contains(q) <==> coord_set_view(*s).contains(q),
{
    s.iter().map(|c| *c).collect()
}

/// All coordinates whose squared distance to the center is at most the
/// squared radius.
pub open spec fn sphere(center: Coord3, radius: int) -> Set<Coord3> {
    Set::new(|p: Coord3| dist2i(p, center) <= radius * radius)
}

/// True when each axis of `q` is within `radius` of the center: the cube
/// that circumscribes the sphere.
pub open spec fn in_cube(q: Coord3, center: Coord3, radius: int) -> bool {
    &&& -radius <= q.x - center.x <= radius
    &&& -radius <= q.y - center.y <= radius
    &&& -radius <= q.z - center.z <= radius
}

/// A number for each cube cell, row-major over the three axes: the
/// iteration order of the load pass.
pub open spec fn cube_key(q: Coord3, center: Coord3, radius: int) -> int {
    let s = 2 * radius + 1;
    (q.x - center.x + radius) * (s * s) + (q.y - center.y + radius) * s + (q.z - center.z
        + radius)
}

/// The smallest allowed load radius.
pub const MIN_LOAD_DISTANCE: i32 = 1;

/// The largest allowed load radius.
pub const MAX_LOAD_DISTANCE: i32 = 25;

/// The streaming state machine: the committed center, the requested
/// center, the clamped load radius, the set of loaded coordinates, and
/// the two outgoing queues.
pub struct ChunkLoader {
    request_world_position: Coord3,
    world_position: Coord3,
    loaded_set: DashSet<Coord3>,
    load_distance: i32,
    to_load: Vec<Coord3>,
    to_unload: Vec<Coord3>,
}

impl ChunkLoader {
    /// The center requested by `set_world_positon`, not yet committed.
    pub closed spec fn spec_request(self) -> Coord3 {
        self.request_world_position
    }

    /// The last committed center.
    pub closed spec fn spec_center(self) -> Coord3 {
        self.world_position
    }

    /// The load radius.
    pub closed spec fn spec_radius(self) -> i32 {
        self.load_distance
    }

    /// The set of loaded coordinates.
    pub closed spec fn spec_loaded(self) -> Set<Coord3> {
        coord_set_view(self.loaded_set)
    }

    /// The queue of coordinates to load, oldest first.
    pub closed spec fn spec_to_load(self) -> Seq<Coord3> {
        self.to_load@
    }

    /// The queue of coordinates to unload, oldest first.
    pub closed spec fn spec_to_unload(self) -> Seq<Coord3> {
        self.to_unload@
    }

    /// The radius is always within the configured bounds.
    pub open spec fn wf(self) -> bool {
        MIN_LOAD_DISTANCE <= self.spec_radius() <= MAX_LOAD_DISTANCE
    }

    /// Sets the load radius, clamped to the configured bounds.
    pub fn set_load_distance(&mut self, distance: i32)
        ensures
            final(self).wf(),
            final(self).spec_radius() == (if distance < MIN_LOAD_DISTANCE {
                MIN_LOAD_DISTANCE
            } else if distance > MAX_LOAD_DISTANCE {
                MAX_LOAD_DISTANCE
            } else {
                distance
            }),
            final(self).spec_request() == old(self).spec_request(),
            final(self).spec_center() == old(self).spec_center(),
            final(self).spec_loaded() == old(self).spec_loaded(),
            final(self).spec_to_load() == old(self).spec_to_load(),
            final(self).spec_to_unload() == old(self).spec_to_unload(),
    {
        self.load_distance = if distance < MIN_LOAD_DISTANCE {
            MIN_LOAD_DISTANCE
        } else if distance > MAX_LOAD_DISTANCE {
            MAX_LOAD_DISTANCE
        } else {
            distance
        };
    }

    /// Requests a new center; nothing happens until the next commit.
    pub fn set_world_positon(&mut self, new_position: Coord3)
        ensures
            final(self).spec_request() == new_position,
            final(self).spec_center() == old(self).spec_center(),
            final(self).spec_radius() == old(self).spec_radius(),
            final(self).spec_loaded() == old(self).spec_loaded(),
            final(self).spec_to_load() == old(self).spec_to_load(),
            final(self).spec_to_unload() == old(self).spec_to_unload(),
    {
        self.request_world_position = new_position;
    }

    /// Whether a coordinate belongs to the sphere around the committed
    /// center, independent of what has been emitted on the queues.
    pub fn should_be_loaded(&self, value: Coord3) -> (r: bool)
        ensures
            r == sphere(self.spec_center(), self.spec_radius() as int).contains(value),
    {
        let d = crate::coords::distance2_wide(value, self.world_position);
        proof {
            let l = self.load_distance as int;
            assert(0 <= l * l <= 0x4000000000000000) by (nonlinear_arith)
                requires -0x80000000 <= l <= 0x80000000;
        }
        d <= (self.load_distance as i128) * (self.load_distance as i128)
    }

    /// Drains the queue of coordinates to load.
    pub fn get_coords_to_load(&mut self) -> (r: Vec<Coord3>)
        ensures
            r@ == old(self).spec_to_load(),
            final(self).spec_to_load() == Seq::<Coord3>::empty(),
            final(self).spec_request() == old(self).spec_request(),
            final(self).spec_center() == old(self).spec_center(),
            final(self).spec_radius() == old(self).spec_radius(),
            final(self).spec_loaded() == old(self).spec_loaded(),
            final(self).spec_to_unload() == old(self).spec_to_unload(),
    {
        let mut drained: Vec<Coord3> = Vec::new();
        core::mem::swap(&mut drained, &mut self.to_load);
        drained
    }

    /// Drains the queue of coordinates to unload.
    pub fn get_coords_to_delete(&mut self) -> (r: Vec<Coord3>)
        ensures
            r@ == old(self).spec_to_unload(),
            final(self).spec_to_unload() == Seq::<Coord3>::empty(),
            final(self).spec_request() == old(self).spec_request(),
            final(self).spec_center() == old(self).spec_center(),
            final(self).spec_radius() == old(self).spec_radius(),
            final(self).spec_loaded() == old(self).spec_loaded(),
            final(self).spec_to_load() == old(self).spec_to_load(),
    {
        let mut drained: Vec<Coord3> = Vec::new();
        core::mem::swap(&mut drained, &mut self.to_unload);
        drained
    }

    /// Commits the requested center. With an unchanged center and a
    /// non-empty loaded set this is a no-op. Otherwise, one transaction:
    /// every loaded coordinate beyond the radius around the new center is
    /// emitted once on the unload queue and removed; every coordinate of
    /// the new sphere not yet loaded is emitted once on the load queue and
    /// inserted; the committed center becomes the requested one, and the
    /// loaded set ends exactly equal to the new sphere.
    #[verifier::loop_isolation(false)]
    #[verifier::rlimit(100)]
    pub fn commit_world_positon(&mut self) -> (changed: bool)
        requires
            old(self).wf(),
            old(self).spec_request().x - old(self).spec_radius() >= i32::MIN,
            old(self).spec_request().x + old(self).spec_radius() <= i32::MAX,
            old(self).spec_request().y - old(self).spec_radius() >= i32::MIN,
            old(self).spec_request().y + old(self).spec_radius() <= i32::MAX,
            old(self).spec_request().z - old(self).spec_radius() >= i32::MIN,
            old(self).spec_request().z + old(self).spec_radius() <= i32::MAX,
        ensures
            final(self).wf(),
            final(self).spec_request() == old(self).spec_request(),
            final(self).spec_radius() == old(self).spec_radius(),
            !changed ==> {
                &&& old(self).spec_request() == old(self).spec_center()
                &&& old(self).spec_loaded() != coord_set_empty()
                &&& final(self).spec_center() == old(self).spec_center()
                &&& final(self).spec_loaded() == old(self).spec_loaded()
                &&& final(self).spec_to_load() == old(self).spec_to_load()
                &&& final(self).spec_to_unload() == old(self).spec_to_unload()
            },
            changed ==> (old(self).spec_request() != old(self).spec_center() || old(
                self,
            ).spec_loaded() == coord_set_empty()),
            changed ==> {
                &&& final(self).spec_center() == old(self).spec_request()
                &&& final(self).spec_loaded() == sphere(
                    old(self).spec_request(),
                    old(self).spec_radius() as int,
                )
                &&& final(self).spec_to_load().len() >= old(self).spec_to_load().len()
                &&& final(self).spec_to_load().take(old(self).spec_to_load().len() as int) == old(
                    self,
                ).spec_to_load()
                &&& final(self).spec_to_load().skip(
                    old(self).spec_to_load().len() as int,
                ).no_duplicates()
                &&& final(self).spec_to_load().skip(old(self).spec_to_load().len() as int).to_set()
                    == sphere(old(self).spec_request(), old(self).spec_radius() as int).difference(
                    old(self).spec_loaded(),
                )
                &&& final(self).spec_to_unload().len() >= old(self).spec_to_unload().len()
                &&& final(self).spec_to_unload().take(old(self).spec_to_unload().len() as int)
                    == old(self).spec_to_unload()
                &&& final(self).spec_to_unload().skip(
                    old(self).spec_to_unload().len() as int,
                ).no_duplicates()
                &&& final(self).spec_to_unload().skip(
                    old(self).spec_to_unload().len() as int,
                ).to_set() == old(self).spec_loaded().difference(
                    sphere(old(self).spec_request(), old(self).spec_radius() as int),
                )
            },
    {
        let unchanged_center = self.request_world_position == self.world_position;
        let was_empty = coord_set_is_empty(&self.loaded_set);
        if unchanged_center && !was_empty {
            return false;
        }
        self.world_position = self.request_world_position;
        let center = self.world_position;
        let radius = self.load_distance;
        let ghost old_set = coord_set_view(self.loaded_set);
        let ghost rr = radius as int;
        let ghost base_unload = self.to_unload@;
        let ghost base_load_pre = self.to_load@;

        // Unload pass: walk a snapshot of the loaded set; whatever lies
        // beyond the radius is emitted once and removed.
        let snapshot = coord_set_to_vec(&self.loaded_set);
        proof {
            assert(0 <= rr * rr <= 625) by (nonlinear_arith)
                requires 1 <= rr <= 25;
        }
        let rr128: i128 = (radius as i128) * (radius as i128);
        let mut i: usize = 0;
        while i < snapshot.len()
            invariant
                i <= snapshot@.len(),
                rr == radius as int,
                rr128 == rr * rr,
                snapshot@.no_duplicates(),
                forall|q: Coord3| #[trigger] snapshot@.contains(q) <==> old_set.contains(q),
                self.world_position == center,
                self.request_world_position == center,
                self.load_distance == radius,
                self.to_load@ == base_load_pre,
                self.to_unload@.len() >= base_unload.len(),
                self.to_unload@.take(base_unload.len() as int) == base_unload,
                forall|q: Coord3|
                    #[trigger] coord_set_view(self.loaded_set).contains(q) <==> (old_set.contains(
                        q,
                    ) && !(dist2i(q, center) > rr * rr && snapshot@.take(i as int).contains(q))),
                forall|q: Coord3|
                    #[trigger] self.to_unload@.skip(base_unload.len() as int).contains(q) <==> (
                    snapshot@.take(i as int).contains(q) && dist2i(q, center) > rr * rr),
                self.to_unload@.skip(base_unload.len() as int).no_duplicates(),
            decreases snapshot@.len() - i,
        {
            let position = snapshot[i];
            let d = crate::coords::distance2_wide(position, center);
            proof {
                assert(snapshot@.take(i as int + 1) =~= snapshot@.take(i as int).push(position));
                assert(snapshot@.contains(position));
            }
            if d > rr128 {
                proof {
                    assert(!snapshot@.take(i as int).contains(position)) by {
                        if snapshot@.take(i as int).contains(position) {
                            let j = choose|j: int|
                                0 <= j < i && snapshot@.take(i as int)[j] == position;
                            assert(snapshot@[j] == position);
                            assert(snapshot@[i as int] == position);
                        }
                    }
                    assert(!self.to_unload@.skip(base_unload.len() as int).contains(position));
                }
                let ghost pre_queue = self.to_unload@;
                self.to_unload.push(position);
                coord_set_remove(&mut self.loaded_set, &position);
                proof {
                    assert(self.to_unload@ == pre_queue.push(position));
                    assert(self.to_unload@.take(base_unload.len() as int) =~= base_unload);
                    assert(self.to_unload@.skip(base_unload.len() as int) =~= pre_queue.skip(
                        base_unload.len() as int,
                    ).push(position));
                    lemma_push_no_duplicates(pre_queue.skip(base_unload.len() as int), position);
                }
            }
            i += 1;
        }
        proof {
            assert(snapshot@.take(snapshot@.len() as int) =~= snapshot@);
        }
        let ghost mid_set = coord_set_view(self.loaded_set);
        let ghost base_load = self.to_load@;
        let ghost unload_q = self.to_unload@;
        proof {
            assert forall|q: Coord3| #[trigger] mid_set.contains(q) <==> (old_set.contains(q)
                && dist2i(q, center) <= rr * rr) by {
                assert(coord_set_view(self.loaded_set).contains(q) <==> (old_set.contains(q) && !(
                dist2i(q, center) > rr * rr && snapshot@.take(snapshot@.len() as int).contains(
                    q,
                ))));
            }
            assert forall|q: Coord3| #[trigger] unload_q.skip(base_unload.len() as int).contains(
                q,
            ) <==> (old_set.contains(q) && dist2i(q, center) > rr * rr) by {
                assert(self.to_unload@.skip(base_unload.len() as int).contains(q) <==> (
                snapshot@.take(snapshot@.len() as int).contains(q) && dist2i(q, center) > rr
                    * rr));
            }
            assert(unload_q.len() >= base_unload.len());
            assert(unload_q.take(base_unload.len() as int) == base_unload);
            assert(unload_q.skip(base_unload.len() as int).no_duplicates());
        }

        // Load pass: walk the cube around the new center in row-major
        // order; whatever lies within the radius and is not yet loaded is
        // emitted once and inserted.
        let side: usize = 2 * (radius as usize) + 1;
        proof {
            assert(1 <= side * side <= 2601 && side * side * side <= 132651) by (nonlinear_arith)
                requires 1 <= side <= 51;
        }
        let total: usize = side * side * side;
        proof {
            assert(self.to_load@.skip(base_load.len() as int) =~= Seq::<Coord3>::empty());
            assert forall|q: Coord3| !(dist2i(q, center) <= rr * rr && cube_key(q, center, rr)
                < 0) by {
                if dist2i(q, center) <= rr * rr {
                    lemma_sphere_in_cube(q, center, rr);
                    lemma_cube_key_range(q, center, rr);
                }
            }
        }
        let mut k: usize = 0;
        while k < total
            invariant
                k <= total,
                MIN_LOAD_DISTANCE <= radius <= MAX_LOAD_DISTANCE,
                rr == radius as int,
                rr128 == rr * rr,
                side == 2 * rr + 1,
                total == side * side * side,
                center.x - radius >= i32::MIN,
                center.x + radius <= i32::MAX,
                center.y - radius >= i32::MIN,
                center.y + radius <= i32::MAX,
                center.z - radius >= i32::MIN,
                center.z + radius <= i32::MAX,
                self.world_position == center,
                self.request_world_position == center,
                self.load_distance == radius,
                self.to_unload@ == unload_q,
                self.to_load@.len() >= base_load.len(),
                self.to_load@.take(base_load.len() as int) == base_load,
                forall|q: Coord3|
                    #[trigger] coord_set_view(self.loaded_set).contains(q) <==> (mid_set.contains(
                        q,
                    ) || (dist2i(q, center) <= rr * rr && cube_key(q, center, rr) < k)),
                forall|q: Coord3|
                    #[trigger] self.to_load@.skip(base_load.len() as int).contains(q) <==> (dist2i(
                        q,
                        center,
                    ) <= rr * rr && cube_key(q, center, rr) < k && !mid_set.contains(q)),
                self.to_load@.skip(base_load.len() as int).no_duplicates(),
            decreases total - k,
        {
            let offset = decode_offset(k, radius);
            let position = center.add(offset);
            proof {
                assert(cube_key(position, center, rr) == k);
                assert(in_cube(position, center, rr));
            }
            let d = crate::coords::distance2_wide(position, center);
            if d <= rr128 {
                let already = coord_set_contains(&self.loaded_set, &position);
                proof {
                    assert(!(dist2i(position, center) <= rr * rr && cube_key(position, center, rr)
                        < k));
                }
                if !already {
                    let ghost pre_queue = self.to_load@;
                    self.to_load.push(position);
                    coord_set_insert(&mut self.loaded_set, position);
                    proof {
                        assert(self.to_load@ == pre_queue.push(position));
                        assert(self.to_load@.take(base_load.len() as int) =~= base_load);
                        assert(self.to_load@.skip(base_load.len() as int) =~= pre_queue.skip(
                            base_load.len() as int,
                        ).push(position));
                        assert(!pre_queue.skip(base_load.len() as int).contains(position));
                        lemma_push_no_duplicates(
                            pre_queue.skip(base_load.len() as int),
                            position,
                        );
                    }
                }
                proof {
                    lemma_load_step(
                        coord_set_view(self.loaded_set),
                        self.to_load@.skip(base_load.len() as int),
                        mid_set,
                        center,
                        rr,
                        k as int,
                        position,
                    );
                }
            } else {
                proof {
                    assert forall|q: Coord3|
                        (dist2i(q, center) <= rr * rr && cube_key(q, center, rr) < k + 1) implies (
                    dist2i(q, center) <= rr * rr && cube_key(q, center, rr) < k) by {
                        if cube_key(q, center, rr) == k {
                            lemma_sphere_in_cube(q, center, rr);
                            lemma_cube_key_injective(q, position, center, rr);
                        }
                    }
                }
            }
            k += 1;
        }
        proof {
            assert forall|q: Coord3| #[trigger] coord_set_view(self.loaded_set).contains(q)
                <==> sphere(center, rr).contains(q) by {
                if dist2i(q, center) <= rr * rr {
                    lemma_sphere_in_cube(q, center, rr);
                    lemma_cube_key_range(q, center, rr);
                }
            }
            assert(coord_set_view(self.loaded_set) =~= sphere(center, rr));
            assert forall|q: Coord3| #[trigger] self.to_load@.skip(base_load.len() as int).contains(
                q,
            ) <==> sphere(center, rr).difference(old_set).contains(q) by {
                if dist2i(q, center) <= rr * rr {
                    lemma_sphere_in_cube(q, center, rr);
                    lemma_cube_key_range(q, center, rr);
                }
            }
            assert(self.to_load@.skip(base_load.len() as int).to_set() =~= sphere(
                center,
                rr,
            ).difference(old_set));
            assert(self.to_unload@.skip(base_unload.len() as int).to_set() =~= old_set.difference(
                sphere(center, rr),
            ));
        }
        true
    }
}

impl Default for ChunkLoader {
    /// An idle loader: origin centers, radius 10, nothing loaded, empty
    /// queues.
    fn default() -> (r: Self)
        ensures
            r.wf(),
            r.spec_request() == (Coord3 { x: 0, y: 0, z: 0 }),
            r.spec_center() == (Coord3 { x: 0, y: 0, z: 0 }),
            r.spec_radius() == 10,
            r.spec_loaded() == coord_set_empty(),
            r.spec_to_load() == Seq::<Coord3>::empty(),
            r.spec_to_unload() == Seq::<Coord3>::empty(),
    {
        ChunkLoader {
            request_world_position: Coord3 { x: 0, y: 0, z: 0 },
            world_position: Coord3 { x: 0, y: 0, z: 0 },
            loaded_set: coord_set_new(),
            load_distance: 10,
            to_load: Vec::new(),
            to_unload: Vec::new(),
        }
    }
}

/// A commit from an empty state loads the whole sphere and unloads
/// nothing: the sphere minus an empty set is the sphere, and the empty
/// set minus the sphere is empty. Together with the contract of
/// `commit_world_positon` this says: after one commit from an empty
/// state the loaded set equals the sphere, the load queue holds exactly
/// the sphere, and the unload queue stays empty.
pub proof fn lemma_commit_from_empty(center: Coord3, radius: int)
    ensures
        sphere(center, radius).difference(coord_set_empty()) == sphere(center, radius),
        coord_set_empty().difference(sphere(center, radius)) == coord_set_empty(),
{
    assert(sphere(center, radius).difference(coord_set_empty()) =~= sphere(center, radius));
    assert(coord_set_empty().difference(sphere(center, radius)) =~= coord_set_empty());
}

/// Moving the center does not touch the overlap: a coordinate in both
/// spheres belongs neither to the set of coordinates to load nor to the
/// set of coordinates to unload. Together with the contract of
/// `commit_world_positon`, applied with the old sphere as the loaded
/// set, this says: coordinates only in the old sphere are unloaded
/// exactly once, coordinates only in the new sphere are loaded exactly
/// once, and coordinates in the intersection appear on neither queue.
pub proof fn lemma_center_move_overlap(c1: Coord3, c2: Coord3, radius: int, q: Coord3)
    requires
        sphere(c1, radius).contains(q),
        sphere(c2, radius).contains(q),
    ensures
        !sphere(c2, radius).difference(sphere(c1, radius)).contains(q),
        !sphere(c1, radius).difference(sphere(c2, radius)).contains(q),
{
}

/// Appending a fresh element keeps a sequence free of duplicates.
proof fn lemma_push_no_duplicates<A>(s: Seq<A>, v: A)
    requires
        s.no_duplicates(),
        !s.contains(v),
    ensures
        s.push(v).no_duplicates(),
{
    let p = s.push(v);
    assert forall|i: int, j: int| 0 <= i < j < p.len() implies p[i] != p[j] by {
        if j < s.len() {
        } else {
            assert(p[j] == v);
            assert(p[i] == s[i]);
            assert(s.contains(s[i]));
        }
    }
}

/// A member of the sphere lies in the circumscribing cube.
pub proof fn lemma_sphere_in_cube(q: Coord3, center: Coord3, radius: int)
    requires
        radius >= 0,
        dist2i(q, center) <= radius * radius,
    ensures
        in_cube(q, center, radius),
{
    let dx = q.x - center.x;
    let dy = q.y - center.y;
    let dz = q.z - center.z;
    assert(dx * dx >= 0 && dy * dy >= 0 && dz * dz >= 0) by (nonlinear_arith);
    assert(dx * dx <= radius * radius);
    assert(-radius <= dx <= radius) by (nonlinear_arith)
        requires dx * dx <= radius * radius && radius >= 0;
    assert(dy * dy <= radius * radius);
    assert(-radius <= dy <= radius) by (nonlinear_arith)
        requires dy * dy <= radius * radius && radius >= 0;
    assert(dz * dz <= radius * radius);
    assert(-radius <= dz <= radius) by (nonlinear_arith)
        requires dz * dz <= radius * radius && radius >= 0;
}

/// The cube key of a cube member is in `[0, side^3)`.
pub proof fn lemma_cube_key_range(q: Coord3, center: Coord3, radius: int)
    requires
        radius >= 1,
        in_cube(q, center, radius),
    ensures
        0 <= cube_key(q, center, radius) < (2 * radius + 1) * (2 * radius + 1) * (2 * radius + 1),
{
    let s = 2 * radius + 1;
    let a = q.x - center.x + radius;
    let b = q.y - center.y + radius;
    let e = q.z - center.z + radius;
    assert(0 <= a < s && 0 <= b < s && 0 <= e < s);
    assert(a * (s * s) >= 0 && b * s >= 0) by (nonlinear_arith)
        requires a >= 0 && b >= 0 && s >= 1;
    assert(a * (s * s) <= (s - 1) * (s * s) && b * s <= (s - 1) * s) by (nonlinear_arith)
        requires a <= s - 1 && b <= s - 1 && s >= 1;
    assert((s - 1) * (s * s) + (s - 1) * s + (s - 1) == s * s * s - 1) by (nonlinear_arith);
}

/// Distinct cube members have distinct cube keys.
pub proof fn lemma_cube_key_injective(q1: Coord3, q2: Coord3, center: Coord3, radius: int)
    requires
        radius >= 1,
        in_cube(q1, center, radius),
        in_cube(q2, center, radius),
        cube_key(q1, center, radius) == cube_key(q2, center, radius),
    ensures
        q1 == q2,
{
    let s = 2 * radius + 1;
    lemma_cube_key_decompose(q1, center, radius);
    lemma_cube_key_decompose(q2, center, radius);
    assert(q1.x == q2.x && q1.y == q2.y && q1.z == q2.z);
}

/// The cube key determines the three per-axis offsets, by division and
/// remainder by the cube side.
proof fn lemma_cube_key_decompose(q: Coord3, center: Coord3, radius: int)
    requires
        radius >= 1,
        in_cube(q, center, radius),
    ensures
        cube_key(q, center, radius) / ((2 * radius + 1) * (2 * radius + 1)) == q.x - center.x
            + radius,
        (cube_key(q, center, radius) % ((2 * radius + 1) * (2 * radius + 1))) / (2 * radius + 1)
            == q.y - center.y + radius,
        cube_key(q, center, radius) % (2 * radius + 1) == q.z - center.z + radius,
{
    let s = 2 * radius + 1;
    let a = q.x - center.x + radius;
    let b = q.y - center.y + radius;
    let e = q.z - center.z + radius;
    let key = cube_key(q, center, radius);
    assert(0 <= a < s && 0 <= b < s && 0 <= e < s);
    assert(key == a * (s * s) + (b * s + e));
    assert(0 <= b * s + e < s * s) by (nonlinear_arith)
        requires 0 <= b <= s - 1 && 0 <= e < s && s >= 1;
    assert(s * s >= 1) by (nonlinear_arith)
        requires s >= 1;
    vstd::arithmetic::div_mod::lemma_fundamental_div_mod_converse(key, s * s, a, b * s + e);
    assert(key / (s * s) == a);
    assert(key % (s * s) == b * s + e);
    vstd::arithmetic::div_mod::lemma_fundamental_div_mod_converse(b * s + e, s, b, e);
    assert((key % (s * s)) / s == b);
    assert(a * (s * s) == (a * s) * s) by (nonlinear_arith);
    assert(key == (a * s + b) * s + e) by (nonlinear_arith)
        requires key == (a * s) * s + b * s + e;
    vstd::arithmetic::div_mod::lemma_fundamental_div_mod_converse(key, s, a * s + b, e);
    assert(key % s == e);
}

/// One step of the load pass preserves the two membership invariants.
proof fn lemma_load_step(
    view: Set<Coord3>,
    appended: Seq<Coord3>,
    mid_set: Set<Coord3>,
    center: Coord3,
    rr: int,
    k: int,
    position: Coord3,
)
    requires
        rr >= 1,
        in_cube(position, center, rr),
        cube_key(position, center, rr) == k,
        dist2i(position, center) <= rr * rr,
        forall|q: Coord3| #[trigger] view.contains(q) <==> (mid_set.contains(q) || (dist2i(
            q,
            center,
        ) <= rr * rr && cube_key(q, center, rr) < k) || q == position),
        forall|q: Coord3| #[trigger] appended.contains(q) <==> ((dist2i(q, center) <= rr * rr
            && cube_key(q, center, rr) < k && !mid_set.contains(q)) || (q == position
            && !mid_set.contains(q))),
    ensures
        forall|q: Coord3| #[trigger] view.contains(q) <==> (mid_set.contains(q) || (dist2i(
            q,
            center,
        ) <= rr * rr && cube_key(q, center, rr) < k + 1)),
        forall|q: Coord3| #[trigger] appended.contains(q) <==> (dist2i(q, center) <= rr * rr
            && cube_key(q, center, rr) < k + 1 && !mid_set.contains(q)),
{
    assert forall|q: Coord3| (dist2i(q, center) <= rr * rr && cube_key(q, center, rr) < k + 1)
        <==> ((dist2i(q, center) <= rr * rr && cube_key(q, center, rr) < k) || q
        == position) by {
        if dist2i(q, center) <= rr * rr && cube_key(q, center, rr) == k {
            lemma_sphere_in_cube(q, center, rr);
            lemma_cube_key_injective(q, position, center, rr);
        }
    }
}

/// The cube cell with the given row-major number, as an offset from the
/// center: the inverse of `cube_key` along the load pass.
fn decode_offset(k: usize, radius: i32) -> (o: Coord3)
    requires
        MIN_LOAD_DISTANCE <= radius <= MAX_LOAD_DISTANCE,
        k < (2 * radius + 1) * (2 * radius + 1) * (2 * radius + 1),
    ensures
        -radius <= o.x <= radius,
        -radius <= o.y <= radius,
        -radius <= o.z <= radius,
        (o.x + radius) * ((2 * radius + 1) * (2 * radius + 1)) + (o.y + radius) * (2 * radius + 1)
            + (o.z + radius) == k,
{
    let side: usize = 2 * (radius as usize) + 1;
    proof {
        assert(1 <= side * side <= 2601 && side * side * side <= 132651) by (nonlinear_arith)
            requires 1 <= side <= 51;
    }
    let sq: usize = side * side;
    let xq: usize = k / sq;
    let m: usize = k % sq;
    let yq: usize = m / side;
    let zq: usize = k % side;
    proof {
        let s = side as int;
        let ki = k as int;
        vstd::arithmetic::div_mod::lemma_fundamental_div_mod(ki, s * s);
        assert(0 <= ki % (s * s) < s * s);
        assert(ki == (s * s) * (ki / (s * s)) + ki % (s * s));
        assert(ki / (s * s) < s) by {
            if ki / (s * s) >= s {
                assert((s * s) * (ki / (s * s)) >= (s * s) * s) by (nonlinear_arith)
                    requires s >= 1 && ki / (s * s) >= s;
                assert(ki >= s * s * s);
            }
        }
        assert(ki / (s * s) >= 0) by {
            if ki / (s * s) < 0 {
                assert((s * s) * (ki / (s * s)) <= (s * s) * -1) by (nonlinear_arith)
                    requires s >= 1 && ki / (s * s) <= -1;
                assert(ki < 0);
            }
        }
        vstd::arithmetic::div_mod::lemma_fundamental_div_mod(ki % (s * s), s);
        vstd::arithmetic::div_mod::lemma_fundamental_div_mod(ki, s);
        let a = ki / (s * s);
        let b = (ki % (s * s)) / s;
        let e = ki % s;
        assert(ki % (s * s) == s * b + ((ki % (s * s)) % s));
        assert(b < s) by {
            if b >= s {
                assert(s * b >= s * s) by (nonlinear_arith)
                    requires s >= 1 && b >= s;
            }
        }
        assert(b >= 0) by {
            if b < 0 {
                assert(s * b <= s * -1) by (nonlinear_arith)
                    requires s >= 1 && b <= -1;
            }
        }
        assert(0 <= e < s);
        assert(ki == (s * s) * a + s * b + ((ki % (s * s)) % s));
        assert((s * s) * a + s * b == s * (s * a + b)) by (nonlinear_arith);
        assert(ki == s * (s * a + b) + ((ki % (s * s)) % s));
        vstd::arithmetic::div_mod::lemma_fundamental_div_mod_converse(
            ki,
            s,
            s * a + b,
            (ki % (s * s)) % s,
        );
        assert((ki % (s * s)) % s == ki % s);
        assert(a * (s * s) == (s * s) * a) by (nonlinear_arith);
        assert(b * s == s * b) by (nonlinear_arith);
        assert(a * (s * s) + b * s + e == ki);
    }
    Coord3 {
        x: xq as i32 - radius,
        y: yq as i32 - radius,
        z: zq as i32 - radius,
    }
}

} // verus!
