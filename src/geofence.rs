//! Geofence occupancy. A `LocationHandler` keeps named geofences, in the order
//! they were added, and the set of geofence IDs currently judged "inside". A poll
//! takes, for each geofence, whether the polled location lies inside it, and
//! reports the geofences entered and exited since the previous poll.
//!
//! The shapes themselves are opaque here (`C`): containment is computed by the
//! caller, which owns the geometry.

use vstd::prelude::*;
use crate::text::str_eq;

verus! {

/// A named region.
pub struct Geofence<C> {
    pub id: String,
    pub shape: C,
}

/// A change of occupancy seen by a poll.
#[derive(Clone, Debug, PartialEq, Eq)]
pub enum GeofenceEvent {
    Entered(String),
    Exited(String),
}

/// Misuse of the polling lifecycle.
#[derive(Clone, Copy, Debug, PartialEq, Eq)]
pub enum TrackerError {
    AlreadyStarted,
    NotStarted,
}

/// Geofences, their occupancy and whether polling runs.
pub struct LocationHandler<C> {
    shapes: Vec<Geofence<C>>,
    in_fences: Vec<String>,
    running: bool,
}

/// What a `LocationHandler` holds, for contracts: each geofence as its ID and shape.
pub struct LocationHandlerModel<C> {
    pub fences: Seq<(Seq<char>, C)>,
    pub occupied: Set<Seq<char>>,
    pub running: bool,
}

pub open spec fn fence_view<C>(g: Geofence<C>) -> (Seq<char>, C) {
    (g.id@, g.shape)
}

pub open spec fn set_of(s: Seq<String>) -> Set<Seq<char>> {
    Set::new(|x: Seq<char>| exists|i: int| 0 <= i < s.len() && s[i]@ == x)
}

pub open spec fn distinct_strings(s: Seq<String>) -> bool {
    forall|i: int, j: int| 0 <= i < s.len() && 0 <= j < s.len() && i != j ==> s[i]@ != s[j]@
}

pub open spec fn distinct_ids<C>(f: Seq<(Seq<char>, C)>) -> bool {
    forall|i: int, j: int| 0 <= i < f.len() && 0 <= j < f.len() && i != j ==> f[i].0 != f[j].0
}

pub open spec fn has_id<C>(f: Seq<(Seq<char>, C)>, id: Seq<char>) -> bool {
    exists|i: int| 0 <= i < f.len() && f[i].0 == id
}

/// Whether `e` reports that the geofence `id` was entered (`true`) or exited (`false`).
pub open spec fn event_view(e: GeofenceEvent) -> (bool, Seq<char>) {
    match e {
        GeofenceEvent::Entered(id) => (true, id@),
        GeofenceEvent::Exited(id) => (false, id@),
    }
}

/// The signals of one poll, in the order of the geofences: a geofence whose
/// containment differs from its occupancy before the poll is entered or exited.
pub open spec fn spec_poll_events<C>(
    fences: Seq<(Seq<char>, C)>,
    inside: Seq<bool>,
    occupied: Set<Seq<char>>,
) -> Seq<(bool, Seq<char>)>
    decreases fences.len(),
{
    if fences.len() == 0 {
        seq![]
    } else {
        let k = fences.len() - 1;
        let before = spec_poll_events(fences.drop_last(), inside.take(k), occupied);
        let id = fences[k].0;
        if inside[k] && !occupied.contains(id) {
            before.push((true, id))
        } else if !inside[k] && occupied.contains(id) {
            before.push((false, id))
        } else {
            before
        }
    }
}

/// Occupancy after a poll, recomputed from scratch: exactly the IDs of the current
/// geofences that contain the polled location.
pub open spec fn spec_poll_occupied<C>(fences: Seq<(Seq<char>, C)>, inside: Seq<bool>) -> Set<
    Seq<char>,
> {
    Set::new(
        |x: Seq<char>| exists|i: int| 0 <= i < fences.len() && fences[i].0 == x && inside[i],
    )
}

/// The geofences after adding `(id, shape)`: an existing geofence with that ID
/// gets the new shape in place, otherwise the geofence is appended.
pub open spec fn spec_add_fence<C>(f: Seq<(Seq<char>, C)>, id: Seq<char>, shape: C) -> Seq<
    (Seq<char>, C),
> {
    if has_id(f, id) {
        let k = choose|k: int| 0 <= k < f.len() && f[k].0 == id;
        f.update(k, (id, shape))
    } else {
        f.push((id, shape))
    }
}

/// The geofences after removing the one with ID `id`, if any.
pub open spec fn spec_remove_fence<C>(f: Seq<(Seq<char>, C)>, id: Seq<char>) -> Seq<
    (Seq<char>, C),
> {
    if has_id(f, id) {
        let k = choose|k: int| 0 <= k < f.len() && f[k].0 == id;
        f.remove(k)
    } else {
        f
    }
}

/// The geofences that a wholesale replacement by `list` installs.
pub open spec fn spec_fences_of<C>(list: Seq<(Seq<char>, C)>) -> Seq<(Seq<char>, C)>
    decreases list.len(),
{
    if list.len() == 0 {
        seq![]
    } else {
        spec_add_fence(spec_fences_of(list.drop_last()), list.last().0, list.last().1)
    }
}

impl<C> View for LocationHandler<C> {
    type V = LocationHandlerModel<C>;

    closed spec fn view(&self) -> LocationHandlerModel<C> {
        LocationHandlerModel {
            fences: self.shapes@.map_values(|g: Geofence<C>| fence_view(g)),
            occupied: set_of(self.in_fences@),
            running: self.running,
        }
    }
}

/// The position of `key` in `v`, comparing by content.
fn position_of(v: &Vec<String>, key: &String) -> (r: Option<usize>)
    ensures
        match r {
            Some(k) => k < v@.len() && v@[k as int]@ == key@,
            None => forall|j: int| 0 <= j < v@.len() ==> v@[j]@ != key@,
        },
{
    let mut i: usize = 0;
    while i < v.len()
        invariant
            i <= v@.len(),
            forall|j: int| 0 <= j < i ==> v@[j]@ != key@,
        decreases v@.len() - i,
    {
        if v[i].eq(key) {
            return Some(i);
        }
        i = i + 1;
    }
    None
}

impl<C> LocationHandler<C> {
    /// The handler's internal consistency: geofence IDs are unique, and so are
    /// the occupied IDs.
    pub closed spec fn well_formed(&self) -> bool {
        &&& distinct_ids(self@.fences)
        &&& distinct_strings(self.in_fences@)
    }

    /// A handler without geofences, with nothing occupied, not polling.
    pub fn new() -> (r: LocationHandler<C>)
        ensures
            r.well_formed(),
            r@.fences.len() == 0,
            r@.occupied.is_empty(),
            !r@.running,
    {
        let r = LocationHandler { shapes: Vec::new(), in_fences: Vec::new(), running: false };
        assert(r@.occupied =~= Set::<Seq<char>>::empty());
        r
    }

    /// The geofences, in order; a poll takes one containment result per entry.
    pub fn geofences(&self) -> (r: &Vec<Geofence<C>>)
        ensures
            r@.map_values(|g: Geofence<C>| fence_view(g)) == self@.fences,
    {
        &self.shapes
    }

    /// The position of the geofence with ID `id`.
    fn fence_position(&self, id: &str) -> (r: Option<usize>)
        requires
            self.well_formed(),
        ensures
            match r {
                Some(k) => k < self@.fences.len() && self@.fences[k as int].0 == id@,
                None => !has_id(self@.fences, id@),
            },
    {
        let mut i: usize = 0;
        while i < self.shapes.len()
            invariant
                i <= self.shapes@.len(),
                forall|j: int| 0 <= j < i ==> self.shapes@[j].id@ != id@,
            decreases self.shapes@.len() - i,
        {
            if str_eq(self.shapes[i].id.as_str(), id) {
                return Some(i);
            }
            i = i + 1;
        }
        None
    }

    /// Adds a geofence, or gives an existing geofence with the same ID a new shape.
    pub fn add_geofence_circle(&mut self, id: &str, shape: C)
        requires
            old(self).well_formed(),
        ensures
            final(self).well_formed(),
            final(self)@.fences == spec_add_fence(old(self)@.fences, id@, shape),
            final(self)@.occupied == old(self)@.occupied,
            final(self)@.running == old(self)@.running,
    {
        let ghost f0 = self@.fences;
        match self.fence_position(id) {
            Some(k) => {
                let g = Geofence { id: id.to_owned(), shape };
                self.shapes.set(k, g);
                proof {
                    let kc = choose|kc: int| 0 <= kc < f0.len() && f0[kc].0 == id@;
                    assert(kc == k as int);
                    assert(self@.fences =~= f0.update(k as int, (id@, shape)));
                }
            },
            None => {
                self.shapes.push(Geofence { id: id.to_owned(), shape });
                assert(self@.fences =~= f0.push((id@, shape)));
            },
        }
    }

    /// Removes the geofence with ID `id`, if there is one.
    pub fn remove_geofence(&mut self, id: &str)
        requires
            old(self).well_formed(),
        ensures
            final(self).well_formed(),
            final(self)@.fences == spec_remove_fence(old(self)@.fences, id@),
            final(self)@.occupied == old(self)@.occupied,
            final(self)@.running == old(self)@.running,
    {
        let ghost f0 = self@.fences;
        match self.fence_position(id) {
            Some(k) => {
                self.shapes.remove(k);
                proof {
                    let kc = choose|kc: int| 0 <= kc < f0.len() && f0[kc].0 == id@;
                    assert(kc == k as int);
                    assert(self@.fences =~= f0.remove(k as int));
                    assert forall|i: int, j: int|
                        0 <= i < self@.fences.len() && 0 <= j < self@.fences.len() && i != j
                        implies self@.fences[i].0 != self@.fences[j].0 by {
                        let oi = if i < k { i } else { i + 1 };
                        let oj = if j < k { j } else { j + 1 };
                        assert(self@.fences[i] == f0[oi]);
                        assert(self@.fences[j] == f0[oj]);
                    }
                }
            },
            None => {},
        }
    }

    /// Removes every geofence; occupancy is left as it is.
    pub fn clear_geofences(&mut self)
        requires
            old(self).well_formed(),
        ensures
            final(self).well_formed(),
            final(self)@.fences.len() == 0,
            final(self)@.occupied == old(self)@.occupied,
            final(self)@.running == old(self)@.running,
    {
        self.shapes = Vec::new();
        assert(self@.fences =~= Seq::<(Seq<char>, C)>::empty());
    }

    /// Replaces all geofences by `list`, added in order (a later entry with an ID
    /// already seen replaces the earlier shape). Occupancy is not diffed: it is
    /// recomputed by the next poll.
    pub fn replace_geofences(&mut self, list: Vec<Geofence<C>>)
        requires
            old(self).well_formed(),
        ensures
            final(self).well_formed(),
            final(self)@.fences == spec_fences_of(
                list@.map_values(|g: Geofence<C>| fence_view(g)),
            ),
            final(self)@.occupied == old(self)@.occupied,
            final(self)@.running == old(self)@.running,
    {
        let ghost all = list@.map_values(|g: Geofence<C>| fence_view(g));
        let ghost occupied0 = self@.occupied;
        let ghost running0 = self@.running;
        self.clear_geofences();
        let mut rest = list;
        let ghost mut done: int = 0;
        assert(all.take(0) =~= Seq::<(Seq<char>, C)>::empty());
        while rest.len() > 0
            invariant
                self.well_formed(),
                0 <= done <= all.len(),
                rest@.map_values(|g: Geofence<C>| fence_view(g)) =~= all.skip(done),
                self@.fences == spec_fences_of(all.take(done)),
                self@.occupied == occupied0,
                self@.running == running0,
            decreases rest@.len(),
        {
            proof {
                assert(rest@.map_values(|g: Geofence<C>| fence_view(g)).len() == rest@.len());
                assert(done < all.len());
            }
            let ghost rest0 = rest@;
            let g = rest.remove(0);
            proof {
                assert(rest0[0] == g);
                assert(rest0.map_values(|g: Geofence<C>| fence_view(g))[0] == fence_view(g));
                assert(all.skip(done)[0] == fence_view(g));
                assert(all.take(done + 1).drop_last() =~= all.take(done));
                assert(all.take(done + 1).last() == all[done]);
            }
            self.add_geofence_circle(g.id.as_str(), g.shape);
            proof {
                let before = rest0.map_values(|g: Geofence<C>| fence_view(g));
                let after = rest@.map_values(|g: Geofence<C>| fence_view(g));
                assert forall|j: int| 0 <= j < rest@.len() implies #[trigger] after[j] == all.skip(
                    done + 1,
                )[j] by {
                    assert(rest@[j] == rest0[j + 1]);
                    assert(before[j + 1] == all.skip(done)[j + 1]);
                }
                done = done + 1;
                assert(rest@.map_values(|g: Geofence<C>| fence_view(g)) =~= all.skip(done));
            }
        }
        assert(rest@.map_values(|g: Geofence<C>| fence_view(g)).len() == rest@.len());
        assert(all.take(done) =~= all);
    }

    /// The IDs currently judged inside, each once.
    pub fn get_occupied_geofences(&self) -> (r: Vec<String>)
        requires
            self.well_formed(),
        ensures
            set_of(r@) == self@.occupied,
            distinct_strings(r@),
    {
        let mut r: Vec<String> = Vec::new();
        let mut i: usize = 0;
        while i < self.in_fences.len()
            invariant
                i <= self.in_fences@.len(),
                r@ =~= self.in_fences@.take(i as int),
            decreases self.in_fences@.len() - i,
        {
            r.push(self.in_fences[i].clone());
            i = i + 1;
        }
        assert(r@ =~= self.in_fences@);
        r
    }

    /// Marks polling as started; starting twice is refused and changes nothing.
    pub fn start(&mut self) -> (r: Result<(), TrackerError>)
        ensures
            old(self)@.running ==> r == Err::<(), TrackerError>(TrackerError::AlreadyStarted)
                && *final(self) == *old(self),
            !old(self)@.running ==> r is Ok && final(self)@ == (LocationHandlerModel {
                running: true,
                ..old(self)@
            }),
            final(self).well_formed() == old(self).well_formed(),
    {
        if self.running {
            Err(TrackerError::AlreadyStarted)
        } else {
            self.running = true;
            Ok(())
        }
    }

    /// Marks polling as stopped; stopping a handler that does not poll is refused
    /// and changes nothing.
    pub fn stop(&mut self) -> (r: Result<(), TrackerError>)
        ensures
            !old(self)@.running ==> r == Err::<(), TrackerError>(TrackerError::NotStarted)
                && *final(self) == *old(self),
            old(self)@.running ==> r is Ok && final(self)@ == (LocationHandlerModel {
                running: false,
                ..old(self)@
            }),
            final(self).well_formed() == old(self).well_formed(),
    {
        if !self.running {
            Err(TrackerError::NotStarted)
        } else {
            self.running = false;
            Ok(())
        }
    }

    /// One poll round: `inside[i]` tells whether the location lies inside the
    /// `i`th geofence. Each geofence whose containment differs from its occupancy
    /// is entered or exited, in the order of the geofences; afterwards exactly the
    /// geofences that contain the location are occupied. No geofence changes.
    pub fn poll(&mut self, inside: &Vec<bool>) -> (r: Vec<GeofenceEvent>)
        requires
            old(self).well_formed(),
            inside@.len() == old(self)@.fences.len(),
        ensures
            final(self).well_formed(),
            final(self)@.fences == old(self)@.fences,
            final(self)@.running == old(self)@.running,
            final(self)@.occupied == spec_poll_occupied(old(self)@.fences, inside@),
            r@.map_values(|e: GeofenceEvent| event_view(e)) == spec_poll_events(
                old(self)@.fences,
                inside@,
                old(self)@.occupied,
            ),
    {
        let ghost f = self@.fences;
        let ghost occ0 = self@.occupied;
        let mut events: Vec<GeofenceEvent> = Vec::new();
        let mut now_in: Vec<String> = Vec::new();
        let mut i: usize = 0;
        proof {
            assert(spec_poll_occupied(f.take(0), inside@.take(0)) =~= set_of(now_in@));
            assert(f.take(0) =~= Seq::<(Seq<char>, C)>::empty());
        }
        while i < self.shapes.len()
            invariant
                self.well_formed(),
                self@.fences == f,
                self@.occupied == occ0,
                distinct_ids(f),
                inside@.len() == f.len(),
                i <= f.len(),
                self@.running == old(self)@.running,
                set_of(now_in@) == spec_poll_occupied(f.take(i as int), inside@.take(i as int)),
                distinct_strings(now_in@),
                events@.map_values(|e: GeofenceEvent| event_view(e)) == spec_poll_events(
                    f.take(i as int),
                    inside@.take(i as int),
                    occ0,
                ),
            decreases f.len() - i,
        {
            let id = self.shapes[i].id.clone();
            proof {
                assert(f[i as int].0 == id@);
                lemma_poll_step(f, inside@, occ0, i as int);
            }
            let was_in = position_of(&self.in_fences, &id).is_some();
            proof {
                if !was_in {
                    assert(!occ0.contains(id@));
                }
            }
            let ghost before = now_in@;
            if inside[i] {
                if !was_in {
                    events.push(GeofenceEvent::Entered(id.clone()));
                }
                now_in.push(id);
                proof {
                    lemma_set_of_push(before, now_in@.last());
                    assert(now_in@ =~= before.push(now_in@.last()));
                }
            } else if was_in {
                events.push(GeofenceEvent::Exited(id.clone()));
            }
            proof {
                assert(events@.map_values(|e: GeofenceEvent| event_view(e)) =~= spec_poll_events(
                    f.take(i as int + 1),
                    inside@.take(i as int + 1),
                    occ0,
                ));
                assert(set_of(now_in@) =~= spec_poll_occupied(
                    f.take(i as int + 1),
                    inside@.take(i as int + 1),
                ));
            }
            i = i + 1;
        }
        proof {
            assert(f.take(f.len() as int) =~= f);
            assert(inside@.take(f.len() as int) =~= inside@);
        }
        self.in_fences = now_in;
        events
    }

    /// Geofence IDs are unique in a well-formed handler.
    pub proof fn lemma_ids_distinct(&self)
        requires
            self.well_formed(),
        ensures
            distinct_ids(self@.fences),
    {
    }
}

/// What one more geofence does to a poll: none of the first `i` geofences has the
/// `i`th one's ID, so adding it sets only its own occupancy, by its containment,
/// and adds at most its own signal.
pub proof fn lemma_poll_step<C>(
    f: Seq<(Seq<char>, C)>,
    inside: Seq<bool>,
    occ: Set<Seq<char>>,
    i: int,
)
    requires
        distinct_ids(f),
        inside.len() == f.len(),
        0 <= i < f.len(),
    ensures
        !spec_poll_occupied(f.take(i), inside.take(i)).contains(f[i].0),
        forall|x: Seq<char>|
            #![trigger spec_poll_occupied(f.take(i + 1), inside.take(i + 1)).contains(x)]
            spec_poll_occupied(f.take(i + 1), inside.take(i + 1)).contains(x) == if x == f[i].0 {
                inside[i]
            } else {
                spec_poll_occupied(f.take(i), inside.take(i)).contains(x)
            },
        spec_poll_events(f.take(i + 1), inside.take(i + 1), occ) == ({
            let before = spec_poll_events(f.take(i), inside.take(i), occ);
            if inside[i] && !occ.contains(f[i].0) {
                before.push((true, f[i].0))
            } else if !inside[i] && occ.contains(f[i].0) {
                before.push((false, f[i].0))
            } else {
                before
            }
        }),
{
    let a = f.take(i);
    let b = f.take(i + 1);
    let ia = inside.take(i);
    let ib = inside.take(i + 1);
    assert(b.drop_last() =~= a);
    assert(ib.take(i) =~= ia);
    if spec_poll_occupied(a, ia).contains(f[i].0) {
        let j = choose|j: int| 0 <= j < a.len() && a[j].0 == f[i].0 && ia[j];
        assert(f[j].0 == f[i].0);
    }
    assert forall|x: Seq<char>|
        #![trigger spec_poll_occupied(b, ib).contains(x)]
        spec_poll_occupied(b, ib).contains(x) == if x == f[i].0 {
            inside[i]
        } else {
            spec_poll_occupied(a, ia).contains(x)
        } by {
        if x == f[i].0 {
            if inside[i] {
                assert(b[i].0 == x && ib[i]);
            } else {
                assert forall|j: int| 0 <= j < b.len() && b[j].0 == x implies !ib[j] by {
                    if j < i {
                        assert(f[j].0 == f[i].0);
                    }
                }
            }
        } else {
            if exists|j: int| 0 <= j < b.len() && b[j].0 == x && ib[j] {
                let j = choose|j: int| 0 <= j < b.len() && b[j].0 == x && ib[j];
                assert(j < i);
                assert(a[j].0 == x && ia[j]);
            }
            if exists|j: int| 0 <= j < a.len() && a[j].0 == x && ia[j] {
                let j = choose|j: int| 0 <= j < a.len() && a[j].0 == x && ia[j];
                assert(b[j].0 == x && ib[j]);
            }
        }
    }
}

/// Appending a string adds its content to the set.
pub proof fn lemma_set_of_push(s: Seq<String>, x: String)
    ensures
        set_of(s.push(x)) == set_of(s).insert(x@),
        distinct_strings(s) && !set_of(s).contains(x@) ==> distinct_strings(s.push(x)),
{
    if distinct_strings(s) && !set_of(s).contains(x@) {
        let t = s.push(x);
        assert forall|i: int, j: int| 0 <= i < t.len() && 0 <= j < t.len() && i != j implies t[i]@
            != t[j]@ by {
            if i < s.len() && j < s.len() {
                assert(t[i] == s[i] && t[j] == s[j]);
            } else if i < s.len() {
                assert(t[i] == s[i]);
            } else if j < s.len() {
                assert(t[j] == s[j]);
            }
        }
    }
    let t = s.push(x);
    assert forall|y: Seq<char>| set_of(t).contains(y) == set_of(s).insert(x@).contains(y) by {
        if set_of(t).contains(y) {
            let j = choose|j: int| 0 <= j < t.len() && t[j]@ == y;
            if j < s.len() {
                assert(s[j]@ == y);
            }
        }
        if set_of(s).contains(y) {
            let j = choose|j: int| 0 <= j < s.len() && s[j]@ == y;
            assert(t[j]@ == y);
        }
        if y == x@ {
            assert(t[s.len() as int]@ == y);
        }
    }
    assert(set_of(t) =~= set_of(s).insert(x@));
}

/// One signal per change of containment over a run of polls of the geofence
/// `id`, which starts out inside iff `was_inside`.
pub open spec fn spec_changes(id: Seq<char>, was_inside: bool, run: Seq<bool>) -> Seq<
    (bool, Seq<char>),
>
    decreases run.len(),
{
    if run.len() == 0 {
        seq![]
    } else {
        let head = if run[0] != was_inside {
            seq![(run[0], id)]
        } else {
            seq![]
        };
        head + spec_changes(id, run[0], run.skip(1))
    }
}

/// The signals of successive polls of a handler with the single geofence
/// `(id, shape)`, where `run[t]` is the containment seen by the `t`th poll.
pub open spec fn spec_poll_run<C>(id: Seq<char>, shape: C, run: Seq<bool>, occupied: Set<Seq<char>>) -> Seq<
    (bool, Seq<char>),
>
    decreases run.len(),
{
    if run.len() == 0 {
        seq![]
    } else {
        let fences = seq![(id, shape)];
        spec_poll_events(fences, seq![run[0]], occupied) + spec_poll_run(
            id,
            shape,
            run.skip(1),
            spec_poll_occupied(fences, seq![run[0]]),
        )
    }
}

/// Over any run of polls, a geofence signals exactly when its containment
/// changes: "entered" when the location moves in, "exited" when it moves out, and
/// nothing while it stays inside or outside.
pub proof fn lemma_signals_follow_changes<C>(
    id: Seq<char>,
    shape: C,
    run: Seq<bool>,
    occupied: Set<Seq<char>>,
)
    ensures
        spec_poll_run(id, shape, run, occupied) == spec_changes(id, occupied.contains(id), run),
    decreases run.len(),
{
    if run.len() > 0 {
        let fences = seq![(id, shape)];
        let inside = seq![run[0]];
        let next = spec_poll_occupied(fences, inside);
        assert(fences.drop_last() =~= Seq::<(Seq<char>, C)>::empty());
        assert(inside.take(0) =~= Seq::<bool>::empty());
        assert(fences[0].0 == id);
        assert(has_id(fences, id));
        if run[0] {
            assert(fences[0].0 == id && inside[0]);
            assert(next.contains(id));
        } else {
            assert(!next.contains(id));
        }
        lemma_signals_follow_changes(id, shape, run.skip(1), next);
        let head = if run[0] != occupied.contains(id) {
            seq![(run[0], id)]
        } else {
            seq![]
        };
        assert(spec_poll_events(fences.drop_last(), inside.take(0), occupied) =~= Seq::<
            (bool, Seq<char>),
        >::empty());
        assert(spec_poll_events(fences, inside, occupied) =~= head);
    }
}

/// The signals of the first `k` geofences of a poll: geofence `j` signals
/// `(b, id)` iff it is among them, `b` is its containment and that differs from
/// its occupancy before the poll.
pub proof fn lemma_poll_prefix_signals<C>(
    f: Seq<(Seq<char>, C)>,
    inside: Seq<bool>,
    occ: Set<Seq<char>>,
    k: int,
)
    requires
        distinct_ids(f),
        inside.len() == f.len(),
        0 <= k <= f.len(),
    ensures
        forall|j: int, b: bool|
            0 <= j < f.len() ==> #[trigger] spec_poll_events(f.take(k), inside.take(k), occ).contains(
                (b, f[j].0),
            ) == (j < k && b == inside[j] && inside[j] != occ.contains(f[j].0)),
    decreases k,
{
    if k == 0 {
        assert(f.take(0) =~= Seq::<(Seq<char>, C)>::empty());
        assert(spec_poll_events(f.take(0), inside.take(0), occ) =~= Seq::<(bool, Seq<char>)>::empty());
    } else {
        lemma_poll_prefix_signals(f, inside, occ, k - 1);
        lemma_poll_step(f, inside, occ, k - 1);
        let before = spec_poll_events(f.take(k - 1), inside.take(k - 1), occ);
        let after = spec_poll_events(f.take(k), inside.take(k), occ);
        assert forall|j: int, b: bool| 0 <= j < f.len() implies #[trigger] after.contains((b, f[j].0))
            == (j < k && b == inside[j] && inside[j] != occ.contains(f[j].0)) by {
            let e = (inside[k - 1], f[k - 1].0);
            if inside[k - 1] != occ.contains(f[k - 1].0) {
                assert(after == before.push(e));
                if after.contains((b, f[j].0)) {
                    let m = choose|m: int| 0 <= m < after.len() && after[m] == (b, f[j].0);
                    if m < before.len() {
                        assert(before[m] == after[m]);
                        assert(before.contains((b, f[j].0)));
                    } else {
                        assert(f[j].0 == f[k - 1].0);
                        assert(j == k - 1);
                    }
                }
                if before.contains((b, f[j].0)) {
                    let m = choose|m: int| 0 <= m < before.len() && before[m] == (b, f[j].0);
                    assert(after[m] == before[m]);
                }
                if j == k - 1 && b == inside[j] {
                    assert(after[before.len() as int] == (b, f[j].0));
                }
            } else {
                assert(after == before);
            }
        }
    }
}

/// Each geofence on its own, whatever the others do: a poll signals "entered"
/// for it iff the location is inside and it was not occupied, "exited" iff the
/// location is outside and it was occupied, nothing while it stays inside or
/// outside; afterwards it is occupied iff the location is inside.
pub proof fn lemma_poll_signals_per_fence<C>(
    f: Seq<(Seq<char>, C)>,
    inside: Seq<bool>,
    occ: Set<Seq<char>>,
    i: int,
)
    requires
        distinct_ids(f),
        inside.len() == f.len(),
        0 <= i < f.len(),
    ensures
        spec_poll_occupied(f, inside).contains(f[i].0) == inside[i],
        spec_poll_events(f, inside, occ).contains((true, f[i].0)) == (inside[i] && !occ.contains(
            f[i].0,
        )),
        spec_poll_events(f, inside, occ).contains((false, f[i].0)) == (!inside[i] && occ.contains(
            f[i].0,
        )),
{
    lemma_poll_prefix_signals(f, inside, occ, f.len() as int);
    assert(f.take(f.len() as int) =~= f);
    assert(inside.take(f.len() as int) =~= inside);
    assert(spec_poll_events(f, inside, occ).contains((true, f[i].0)) == (inside[i] && !occ.contains(
        f[i].0,
    )));
    assert(spec_poll_events(f, inside, occ).contains((false, f[i].0)) == (!inside[i] && occ.contains(
        f[i].0,
    )));
    if spec_poll_occupied(f, inside).contains(f[i].0) {
        let j = choose|j: int| 0 <= j < f.len() && f[j].0 == f[i].0 && inside[j];
        assert(j == i);
    }
    if inside[i] {
        assert(spec_poll_occupied(f, inside).contains(f[i].0));
    }
}

} // verus!
