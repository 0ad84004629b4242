//! The polygon registry: a process-wide store of named polygons together
//! with the set of reserved identifiers.
//!
//! The two collections are co-maintained: an identifier is present in both
//! or in neither (`Registry::wf`).  Registration reserves an id and inserts
//! a default polygon; removal destroys the polygon and releases the id.
//! Every operation fails with `NotInitialized` until the registry's
//! one-time initialization has run.

use vstd::prelude::*;

verus! {

use crate::error::Error;
use crate::polygon::{Polygon, PolygonId, PolygonModel};
use crate::utils::COORD_LIMIT;

/// Whether some element of `ids` has view `id`.
pub open spec fn contains_id(ids: Seq<String>, id: Seq<char>) -> bool {
    exists|i: int| 0 <= i < ids.len() && ids[i]@ == id
}

/// No two elements of `ids` share a view.
pub open spec fn ids_unique(ids: Seq<String>) -> bool {
    forall|i: int, j: int| 0 <= i < j < ids.len() ==> ids[i]@ != ids[j]@
}

/// The set of identifiers that `ids` holds.
pub open spec fn ids_as_set(ids: Seq<String>) -> Set<Seq<char>> {
    Set::new(|k: Seq<char>| contains_id(ids, k))
}

/// Whether some polygon in `s` carries the identifier `id`.
pub open spec fn contains_poly(s: Seq<Polygon>, id: Seq<char>) -> bool {
    exists|i: int| 0 <= i < s.len() && s[i].id@ == id
}

/// No two polygons in `s` share an identifier.
pub open spec fn polys_unique(s: Seq<Polygon>) -> bool {
    forall|i: int, j: int| 0 <= i < j < s.len() ==> s[i].id@ != s[j].id@
}

/// The index at which `s` holds the polygon with identifier `id`
/// (meaningful only when `contains_poly(s, id)` and `polys_unique(s)`).
pub open spec fn index_of_poly(s: Seq<Polygon>, id: Seq<char>) -> int {
    choose|i: int| 0 <= i < s.len() && s[i].id@ == id
}

/// The identifier-to-polygon mapping that the sequence `s` represents.
pub open spec fn polys_as_map(s: Seq<Polygon>) -> Map<Seq<char>, PolygonModel> {
    Map::new(|k: Seq<char>| contains_poly(s, k), |k: Seq<char>| s[index_of_poly(s, k)]@)
}

/// Abstract state of the registry: the reserved identifiers and the
/// mapping from identifier to polygon content.
#[verifier::ext_equal]
pub ghost struct RegistryView {
    pub initialized: bool,
    pub width: int,
    pub ids: Set<Seq<char>>,
    pub polygons: Map<Seq<char>, PolygonModel>,
}

impl RegistryView {
    /// The registry's invariant: an identifier is reserved exactly when a
    /// polygon is registered under it, every stored polygon keeps at least
    /// the three points it was created with, and all stored geometry is
    /// within the bounds the hit test can handle.
    pub open spec fn wf(self) -> bool {
        &&& self.ids =~= self.polygons.dom()
        &&& forall|k: Seq<char>| #[trigger]
            self.polygons.dom().contains(k) ==> self.polygons[k].wf()
                && self.polygons[k].points.len() >= 3
        &&& self.initialized ==> 1 <= self.width <= COORD_LIMIT
    }

    /// `register` succeeds exactly on a fresh id after initialization.
    pub open spec fn register_ok(self, id: Seq<char>) -> bool {
        self.initialized && !self.ids.contains(id)
    }

    /// State after `register`: on success the id is reserved and a default
    /// polygon is stored; otherwise nothing changes.
    pub open spec fn register_t(self, id: Seq<char>) -> RegistryView {
        if self.register_ok(id) {
            RegistryView {
                ids: self.ids.insert(id),
                polygons: self.polygons.insert(id, PolygonModel::default_model()),
                ..self
            }
        } else {
            self
        }
    }
    /// One upsert step of `register_all`: reserve the id (idempotently) and
    /// bind a fresh default polygon to it, overwriting any previous one.
    pub open spec fn upsert_default(self, id: Seq<char>) -> RegistryView {
        RegistryView {
            ids: self.ids.insert(id),
            polygons: self.polygons.insert(id, PolygonModel::default_model()),
            ..self
        }
    }

    /// State after `register_all`: a default polygon is upserted for each
    /// id in order.  Unlike `register`, duplicates are not an error; an
    /// existing polygon is overwritten by a fresh default one.
    pub open spec fn register_all_t(self, ids: Seq<Seq<char>>) -> RegistryView
        decreases ids.len(),
    {
        if ids.len() == 0 {
            self
        } else {
            self.register_all_t(ids.drop_last()).upsert_default(ids.last())
        }
    }

    /// `remove` succeeds exactly on a reserved id after initialization.
    pub open spec fn remove_ok(self, id: Seq<char>) -> bool {
        self.initialized && self.ids.contains(id)
    }

    /// State after `remove`: on success the id is released and its polygon
    /// destroyed; otherwise nothing changes.
    pub open spec fn remove_t(self, id: Seq<char>) -> RegistryView {
        if self.remove_ok(id) {
            RegistryView {
                ids: self.ids.remove(id),
                polygons: self.polygons.remove(id),
                ..self
            }
        } else {
            self
        }
    }

    /// State after `clear`: every polygon destroyed and every id released.
    pub open spec fn clear_t(self) -> RegistryView {
        if self.initialized {
            RegistryView {
                ids: Set::<Seq<char>>::empty(),
                polygons: Map::<Seq<char>, PolygonModel>::empty(),
                ..self
            }
        } else {
            self
        }
    }

    /// `update` succeeds exactly when at least three points are supplied
    /// and the id is registered (after initialization).
    pub open spec fn update_ok(self, id: Seq<char>, points: Seq<(i64, i64)>) -> bool {
        points.len() >= 3 && self.initialized && self.polygons.dom().contains(id)
    }

    /// State after `update`: on success the polygon's vertex list is
    /// replaced as a whole, flags untouched; otherwise nothing changes.
    pub open spec fn update_t(self, id: Seq<char>, points: Seq<(i64, i64)>) -> RegistryView {
        if self.update_ok(id, points) {
            RegistryView {
                polygons: self.polygons.insert(
                    id,
                    PolygonModel { points, ..self.polygons[id] },
                ),
                ..self
            }
        } else {
            self
        }
    }

    /// `show` and `conceal` succeed exactly on a registered id after
    /// initialization.
    pub open spec fn visibility_ok(self, id: Seq<char>) -> bool {
        self.initialized && self.polygons.dom().contains(id)
    }

    /// State after `show` or `conceal`: the polygon's visibility flag.
    pub open spec fn visibility_t(self, id: Seq<char>, display: bool) -> RegistryView {
        if self.visibility_ok(id) {
            RegistryView {
                polygons: self.polygons.insert(
                    id,
                    PolygonModel { display, ..self.polygons[id] },
                ),
                ..self
            }
        } else {
            self
        }
    }

    /// The ids that the cursor-containment snapshot reports: polygons that
    /// are currently displayed and contained the cursor at the last mouse
    /// move.
    pub open spec fn cursor_in_set(self) -> Set<Seq<char>> {
        Set::new(
            |k: Seq<char>|
                self.polygons.dom().contains(k) && self.polygons[k].cursor_in
                    && self.polygons[k].display,
        )
    }

    /// State after a mouse move recomputed containment at `p` (physical
    /// pixels): every polygon's containment flag reflects whether it is
    /// displayed and contains `p`; nothing else changes.
    pub open spec fn containment_t(self, p: (i64, i64)) -> RegistryView {
        RegistryView {
            polygons: Map::new(
                |k: Seq<char>| self.polygons.dom().contains(k),
                |k: Seq<char>|
                    PolygonModel {
                        cursor_in: self.polygons[k].display && crate::utils::spec_point_in_polygon(
                            self.polygons[k].points,
                            p,
                        ),
                        ..self.polygons[k]
                    },
            ),
            ..self
        }
    }

    /// The default polygon model is within the geometry bounds.
    pub proof fn lemma_default_model_wf()
        ensures
            PolygonModel::default_model().wf(),
    {
        let m = PolygonModel::default_model();
        assert forall|i: int| 0 <= i < m.points.len() implies (#[trigger] m.points[i]).0
            <= crate::utils::VERTEX_LIMIT && -crate::utils::VERTEX_LIMIT <= m.points[i].0
            && -crate::utils::VERTEX_LIMIT <= m.points[i].1 && m.points[i].1
            <= crate::utils::VERTEX_LIMIT by {
            assert(m.points[i] == (0i64, 0i64));
        }
    }

    /// Upserting a default polygon preserves the invariant.
    pub proof fn lemma_upsert_wf(self, id: Seq<char>)
        requires
            self.wf(),
        ensures
            self.upsert_default(id).wf(),
    {
        Self::lemma_default_model_wf();
        let m = self.upsert_default(id);
        assert(m.ids =~= m.polygons.dom());
    }

    /// `register` preserves the invariant.
    pub proof fn lemma_register_wf(self, id: Seq<char>)
        requires
            self.wf(),
        ensures
            self.register_t(id).wf(),
    {
        if self.register_ok(id) {
            self.lemma_upsert_wf(id);
            assert(self.register_t(id) =~= self.upsert_default(id));
        }
    }

    /// `register_all` preserves the invariant, reaches exactly the given
    /// ids in addition to the previous ones, binds a default polygon to
    /// each given id, and leaves other polygons untouched.
    pub proof fn lemma_register_all_props(self, ids: Seq<Seq<char>>)
        requires
            self.wf(),
        ensures
            self.register_all_t(ids).wf(),
            self.register_all_t(ids).initialized == self.initialized,
            self.register_all_t(ids).width == self.width,
            forall|k: Seq<char>| #[trigger]
                self.register_all_t(ids).ids.contains(k) <==> (self.ids.contains(k)
                    || ids.contains(k)),
            forall|k: Seq<char>|
                ids.contains(k) ==> #[trigger] self.register_all_t(ids).polygons.dom().contains(k)
                    && self.register_all_t(ids).polygons[k] == PolygonModel::default_model(),
            forall|k: Seq<char>|
                !ids.contains(k) ==> #[trigger] self.register_all_t(ids).polygons.dom().contains(k)
                    == self.polygons.dom().contains(k) && (self.polygons.dom().contains(k)
                    ==> self.register_all_t(ids).polygons[k] == self.polygons[k]),
        decreases ids.len(),
    {
        if ids.len() > 0 {
            let prefix = ids.drop_last();
            let last = ids.last();
            self.lemma_register_all_props(prefix);
            self.register_all_t(prefix).lemma_upsert_wf(last);
            assert forall|k: Seq<char>|
                ids.contains(k) implies #[trigger] self.register_all_t(
                ids,
            ).polygons.dom().contains(k) && self.register_all_t(ids).polygons[k]
                == PolygonModel::default_model() by {
                if k != last {
                    let i = choose|i: int| 0 <= i < ids.len() && ids[i] == k;
                    assert(prefix[i] == k);
                    assert(prefix.contains(k));
                }
            }
            assert forall|k: Seq<char>| #[trigger]
                self.register_all_t(ids).ids.contains(k) implies (self.ids.contains(k)
                || ids.contains(k)) by {
                if k != last && self.register_all_t(prefix).ids.contains(k)
                    && !self.ids.contains(k) {
                    assert(prefix.contains(k));
                    let i = choose|i: int| 0 <= i < prefix.len() && prefix[i] == k;
                    assert(ids[i] == k);
                }
            }
            assert forall|k: Seq<char>| self.ids.contains(k) || ids.contains(k) implies #[trigger]
                self.register_all_t(ids).ids.contains(k) by {
                if k != last && ids.contains(k) {
                    let i = choose|i: int| 0 <= i < ids.len() && ids[i] == k;
                    assert(prefix[i] == k);
                    assert(prefix.contains(k));
                }
            }
            assert forall|k: Seq<char>| !ids.contains(k) implies #[trigger] self.register_all_t(
                ids,
            ).polygons.dom().contains(k) == self.polygons.dom().contains(k) && (
            self.polygons.dom().contains(k) ==> self.register_all_t(ids).polygons[k]
                == self.polygons[k]) by {
                if prefix.contains(k) {
                    let i = choose|i: int| 0 <= i < prefix.len() && prefix[i] == k;
                    assert(ids[i] == k);
                }
                assert(!prefix.contains(k));
            }
        }
    }

    /// `remove` preserves the invariant.
    pub proof fn lemma_remove_wf(self, id: Seq<char>)
        requires
            self.wf(),
        ensures
            self.remove_t(id).wf(),
    {
        if self.remove_ok(id) {
            let m = self.remove_t(id);
            assert(m.ids =~= m.polygons.dom());
        }
    }

    /// `clear` preserves the invariant.
    pub proof fn lemma_clear_wf(self)
        requires
            self.wf(),
        ensures
            self.clear_t().wf(),
    {
        if self.initialized {
            let m = self.clear_t();
            assert(m.ids =~= m.polygons.dom());
        }
    }

    /// `update` preserves the invariant when the new points are in bounds.
    pub proof fn lemma_update_wf(self, id: Seq<char>, points: Seq<(i64, i64)>)
        requires
            self.wf(),
            crate::polygon::points_bounded(points),
        ensures
            self.update_t(id, points).wf(),
    {
        if self.update_ok(id, points) {
            let m = self.update_t(id, points);
            assert(m.ids =~= m.polygons.dom());
        }
    }

    /// `show` and `conceal` preserve the invariant.
    pub proof fn lemma_visibility_wf(self, id: Seq<char>, display: bool)
        requires
            self.wf(),
        ensures
            self.visibility_t(id, display).wf(),
    {
        if self.visibility_ok(id) {
            let m = self.visibility_t(id, display);
            assert(m.ids =~= m.polygons.dom());
        }
    }

    /// Recomputing containment preserves the invariant.
    pub proof fn lemma_containment_wf(self, p: (i64, i64))
        requires
            self.wf(),
        ensures
            self.containment_t(p).wf(),
    {
        let m = self.containment_t(p);
        assert(m.polygons.dom() =~= self.polygons.dom());
        assert(m.ids =~= m.polygons.dom());
    }
}

/// The concurrent polygon store.  Readers of one polygon's geometry are
/// never affected by structural changes to the store; exclusive access is
/// needed only for registration, removal and clearing.
pub struct Registry {
    pub initialized: bool,
    pub width: i64,
    pub ids: Vec<PolygonId>,
    pub polygons: Vec<Polygon>,
}

impl View for Registry {
    type V = RegistryView;

    open spec fn view(&self) -> RegistryView {
        RegistryView {
            initialized: self.initialized,
            width: self.width as int,
            ids: ids_as_set(self.ids@),
            polygons: polys_as_map(self.polygons@),
        }
    }
}

impl Registry {
    /// The concrete invariant: unique identifiers on both sides, and the
    /// abstract invariant of the represented state (an id is reserved
    /// exactly when a polygon is registered under it).
    pub open spec fn wf(&self) -> bool {
        &&& ids_unique(self.ids@)
        &&& polys_unique(self.polygons@)
        &&& self@.wf()
    }

    /// A registry that has not been initialized yet; every operation on it
    /// fails with `NotInitialized`.
    pub fn new() -> (r: Registry)
        ensures
            r.wf(),
            !r@.initialized,
            r@.ids =~= Set::<Seq<char>>::empty(),
            r@.polygons =~= Map::<Seq<char>, PolygonModel>::empty(),
    {
        let r = Registry { initialized: false, width: 0, ids: Vec::new(), polygons: Vec::new() };
        proof {
            assert(r@.ids =~= Set::<Seq<char>>::empty());
            assert(r@.polygons.dom() =~= Set::<Seq<char>>::empty());
        }
        r
    }

    /// One-time initialization: capture the physical screen width and
    /// start with no polygons.  Must run before any other operation; it
    /// must not run twice.
    pub fn init(&mut self, width: i64)
        requires
            !old(self).initialized,
            1 <= width <= COORD_LIMIT,
        ensures
            final(self).wf(),
            final(self)@.initialized,
            final(self)@.width == width as int,
            final(self)@.ids =~= Set::<Seq<char>>::empty(),
            final(self)@.polygons =~= Map::<Seq<char>, PolygonModel>::empty(),
    {
        self.initialized = true;
        self.width = width;
        self.ids = Vec::new();
        self.polygons = Vec::new();
        proof {
            assert(final(self)@.ids =~= Set::<Seq<char>>::empty());
            assert(final(self)@.polygons.dom() =~= Set::<Seq<char>>::empty());
        }
    }

    /// Register a default polygon under the given id.  Fails with
    /// `PolygonExists` if the id is already reserved.
    pub fn register(&mut self, id: &PolygonId) -> (r: Result<(), Error>)
        requires
            old(self).wf(),
        ensures
            final(self).wf(),
            final(self)@ == old(self)@.register_t(id@),
            r is Ok <==> old(self)@.register_ok(id@),
            !old(self).initialized ==> (r matches Err(e) && e is NotInitialized),
            old(self).initialized && old(self)@.ids.contains(id@) ==> (r matches Err(e)
                && e matches Error::PolygonExists(s) && s@ == id@),
    {
        if !self.initialized {
            return Err(Error::NotInitialized);
        }
        if ids_contains(&self.ids, id) {
            return Err(Error::PolygonExists(id.clone()));
        }
        proof {
            lemma_wf_contains(old(self), id@);
        }
        self.ids.push(id.clone());
        let p = Polygon::default(id.as_str());
        self.polygons.push(p);
        proof {
            lemma_ids_push(old(self).ids@, *id);
            lemma_polys_push(old(self).polygons@, self.polygons@.last());
            assert(self.ids@ == old(self).ids@.push(*id));
            assert(self@ =~= old(self)@.register_t(id@));
            old(self)@.lemma_register_wf(id@);
        }
        Ok(())
    }

    /// Register a default polygon under each of the given ids.  Unlike
    /// `register`, an already registered id is not an error: its polygon is
    /// silently replaced by a fresh default one.
    pub fn register_all(&mut self, ids: &Vec<PolygonId>) -> (r: Result<(), Error>)
        requires
            old(self).wf(),
        ensures
            final(self).wf(),
            r is Ok <==> old(self).initialized,
            !old(self).initialized ==> (r matches Err(e) && e is NotInitialized) && final(self)@
                == old(self)@,
            old(self).initialized ==> final(self)@ == old(self)@.register_all_t(ids.deep_view()),
    {
        if !self.initialized {
            return Err(Error::NotInitialized);
        }
        let ghost dv = ids.deep_view();
        let mut i: usize = 0;
        while i < ids.len()
            invariant
                0 <= i <= ids@.len(),
                dv == ids.deep_view(),
                dv.len() == ids@.len(),
                forall|j: int| 0 <= j < ids@.len() ==> dv[j] == ids@[j]@,
                self.wf(),
                self.initialized,
                self@ == old(self)@.register_all_t(dv.take(i as int)),
            decreases ids@.len() - i,
        {
            let ghost prev = self@;
            let id = &ids[i];
            match find_polygon_index(&self.polygons, id) {
                Some(j) => {
                    let fresh = Polygon::default(id.as_str());
                    proof {
                        assert(contains_poly(self.polygons@, id@));
                        lemma_wf_contains(self, id@);
                        lemma_polys_set(self.polygons@, j as int, fresh);
                    }
                    self.polygons[j] = fresh;
                    proof {
                        assert(contains_id(self.ids@, id@));
                        assert(self@.ids =~= prev.ids.insert(id@));
                        assert(self@ =~= prev.upsert_default(id@));
                    }
                },
                None => {
                    proof {
                        lemma_wf_contains(self, id@);
                        assert(!contains_id(self.ids@, id@));
                    }
                    let ghost ids_before = self.ids@;
                    let ghost polys_before = self.polygons@;
                    self.ids.push(id.clone());
                    let p = Polygon::default(id.as_str());
                    self.polygons.push(p);
                    proof {
                        lemma_ids_push(ids_before, *id);
                        lemma_polys_push(polys_before, self.polygons@.last());
                        assert(self.ids@ == ids_before.push(*id));
                        assert(self@ =~= prev.upsert_default(id@));
                    }
                },
            }
            i = i + 1;
            proof {
                prev.lemma_upsert_wf(id@);
                assert(dv.take(i as int).drop_last() =~= dv.take(i as int - 1));
                assert(dv.take(i as int).last() == dv[i as int - 1]);
                assert(self@ =~= old(self)@.register_all_t(dv.take(i as int)));
            }
        }
        proof {
            assert(dv.take(dv.len() as int) =~= dv);
        }
        Ok(())
    }

    /// Remove the polygon with the given id, destroying its geometry and
    /// releasing the id.  Fails with `PolygonNotFound` if the id is not
    /// reserved.
    pub fn remove(&mut self, id: &PolygonId) -> (r: Result<(), Error>)
        requires
            old(self).wf(),
        ensures
            final(self).wf(),
            final(self)@ == old(self)@.remove_t(id@),
            r is Ok <==> old(self)@.remove_ok(id@),
            !old(self).initialized ==> (r matches Err(e) && e is NotInitialized),
            old(self).initialized && !old(self)@.ids.contains(id@) ==> (r matches Err(e)
                && e matches Error::PolygonNotFound(s) && s@ == id@),
    {
        if !self.initialized {
            return Err(Error::NotInitialized);
        }
        let idx = match find_id_index(&self.ids, id) {
            Some(idx) => idx,
            None => {
                return Err(Error::PolygonNotFound(id.clone()));
            },
        };
        proof {
            lemma_wf_contains(old(self), id@);
            lemma_ids_remove(self.ids@, idx as int);
        }
        self.ids.remove(idx);
        match find_polygon_index(&self.polygons, id) {
            Some(j) => {
                proof {
                    lemma_polys_remove(self.polygons@, j as int);
                }
                self.polygons.remove(j);
            },
            None => {
                proof {
                    assert(contains_poly(old(self).polygons@, id@));
                    assert(false);
                }
            },
        }
        proof {
            assert(self@ =~= old(self)@.remove_t(id@));
            old(self)@.lemma_remove_wf(id@);
        }
        Ok(())
    }

    /// Destroy all polygons and release all ids.  Never fails once the
    /// registry is initialized.
    pub fn clear(&mut self) -> (r: Result<(), Error>)
        requires
            old(self).wf(),
        ensures
            final(self).wf(),
            final(self)@ == old(self)@.clear_t(),
            r is Ok <==> old(self).initialized,
            !old(self).initialized ==> (r matches Err(e) && e is NotInitialized),
    {
        if !self.initialized {
            return Err(Error::NotInitialized);
        }
        self.polygons.clear();
        self.ids.clear();
        proof {
            assert(self@ =~= old(self)@.clear_t());
            old(self)@.lemma_clear_wf();
        }
        Ok(())
    }

    /// Replace the vertex list of the polygon with the given id, as a
    /// whole.  Fails with `PointsNotEnough` on fewer than three points
    /// (checked before anything else) and with `PolygonNotFound` on an
    /// unknown id.  The points are physical-pixel coordinates, already
    /// scaled from viewport space by the caller's boundary.
    pub fn update(&mut self, id: &PolygonId, points: &Vec<(i64, i64)>) -> (r: Result<(), Error>)
        requires
            old(self).wf(),
            crate::polygon::points_bounded(points@),
        ensures
            final(self).wf(),
            final(self)@ == old(self)@.update_t(id@, points@),
            r is Ok <==> old(self)@.update_ok(id@, points@),
            points@.len() < 3 ==> (r matches Err(e) && e matches Error::PointsNotEnough(n) && n
                == points@.len()),
            points@.len() >= 3 && !old(self).initialized ==> (r matches Err(e)
                && e is NotInitialized),
            points@.len() >= 3 && old(self).initialized && !old(self)@.polygons.dom().contains(id@)
                ==> (r matches Err(e) && e matches Error::PolygonNotFound(s) && s@ == id@),
    {
        if points.len() < 3 {
            return Err(Error::PointsNotEnough(points.len()));
        }
        if !self.initialized {
            return Err(Error::NotInitialized);
        }
        match find_polygon_index(&self.polygons, id) {
            Some(j) => {
                let ghost before = self.polygons@;
                self.polygons[j].set_points(points);
                proof {
                    assert(contains_poly(before, id@));
                    assert(self.polygons@ == before.update(j as int, self.polygons@[j as int]));
                    lemma_polys_set(before, j as int, self.polygons@[j as int]);
                    lemma_poly_witness(before, id@);
                    assert(index_of_poly(before, id@) == j as int);
                    assert(old(self)@.polygons[id@] == before[j as int]@);
                    assert(self@ =~= old(self)@.update_t(id@, points@));
                    old(self)@.lemma_update_wf(id@, points@);
                }
                Ok(())
            },
            None => Err(Error::PolygonNotFound(id.clone())),
        }
    }

    /// Enable display of the polygon with the given id.  Fails with
    /// `PolygonNotFound` on an unknown id.
    pub fn show(&mut self, id: &PolygonId) -> (r: Result<(), Error>)
        requires
            old(self).wf(),
        ensures
            final(self).wf(),
            final(self)@ == old(self)@.visibility_t(id@, true),
            r is Ok <==> old(self)@.visibility_ok(id@),
            !old(self).initialized ==> (r matches Err(e) && e is NotInitialized),
            old(self).initialized && !old(self)@.polygons.dom().contains(id@) ==> (r matches Err(e)
                && e matches Error::PolygonNotFound(s) && s@ == id@),
    {
        if !self.initialized {
            return Err(Error::NotInitialized);
        }
        match find_polygon_index(&self.polygons, id) {
            Some(j) => {
                let ghost before = self.polygons@;
                self.polygons[j].show();
                proof {
                    assert(contains_poly(before, id@));
                    lemma_polys_set(before, j as int, self.polygons@[j as int]);
                    lemma_poly_witness(before, id@);
                    assert(old(self)@.polygons[id@] == before[j as int]@);
                    assert(self@ =~= old(self)@.visibility_t(id@, true));
                    old(self)@.lemma_visibility_wf(id@, true);
                }
                Ok(())
            },
            None => Err(Error::PolygonNotFound(id.clone())),
        }
    }

    /// Disable display of the polygon with the given id (the polygon stays
    /// registered).  Fails with `PolygonNotFound` on an unknown id.  The
    /// boundary that exposes this operation additionally forces the host
    /// window into passthrough mode as a side effect.
    pub fn conceal(&mut self, id: &PolygonId) -> (r: Result<(), Error>)
        requires
            old(self).wf(),
        ensures
            final(self).wf(),
            final(self)@ == old(self)@.visibility_t(id@, false),
            r is Ok <==> old(self)@.visibility_ok(id@),
            !old(self).initialized ==> (r matches Err(e) && e is NotInitialized),
            old(self).initialized && !old(self)@.polygons.dom().contains(id@) ==> (r matches Err(e)
                && e matches Error::PolygonNotFound(s) && s@ == id@),
    {
        if !self.initialized {
            return Err(Error::NotInitialized);
        }
        match find_polygon_index(&self.polygons, id) {
            Some(j) => {
                let ghost before = self.polygons@;
                self.polygons[j].conceal();
                proof {
                    assert(contains_poly(before, id@));
                    lemma_polys_set(before, j as int, self.polygons@[j as int]);
                    lemma_poly_witness(before, id@);
                    assert(old(self)@.polygons[id@] == before[j as int]@);
                    assert(self@ =~= old(self)@.visibility_t(id@, false));
                    old(self)@.lemma_visibility_wf(id@, false);
                }
                Ok(())
            },
            None => Err(Error::PolygonNotFound(id.clone())),
        }
    }

    /// The ids of the polygons that are displayed and contained the cursor
    /// at the last mouse move, in storage order.  The classifier uses this
    /// snapshot to suppress gesture emission inside registered regions.
    #[verifier::loop_isolation(false)]
    pub fn cursor_in(&self) -> (r: Result<Vec<PolygonId>, Error>)
        requires
            self.wf(),
        ensures
            r is Ok <==> self.initialized,
            !self.initialized ==> (r matches Err(e) && e is NotInitialized),
            self.initialized ==> (r matches Ok(v) && v.deep_view() == filtered_ids(
                self.polygons@,
                |m: PolygonModel| m.cursor_in && m.display,
            ) && (forall|k: Seq<char>|
                v.deep_view().contains(k) <==> self@.cursor_in_set().contains(k))),
    {
        if !self.initialized {
            return Err(Error::NotInitialized);
        }
        let ghost f = |m: PolygonModel| m.cursor_in && m.display;
        let mut v: Vec<PolygonId> = Vec::new();
        let mut i: usize = 0;
        while i < self.polygons.len()
            invariant
                0 <= i <= self.polygons@.len(),
                v.deep_view() == filtered_ids(self.polygons@.take(i as int), f),
            decreases self.polygons@.len() - i,
        {
            let ghost dv_before = v.deep_view();
            let p = &self.polygons[i];
            if p.cursor_in() && p.display() {
                v.push(p.id.clone());
                proof {
                    assert(v.deep_view() =~= dv_before.push(p.id@));
                }
            } else {
                proof {
                    assert(v.deep_view() =~= dv_before);
                }
            }
            i = i + 1;
            proof {
                let taken = self.polygons@.take(i as int);
                assert(taken.drop_last() =~= self.polygons@.take(i as int - 1));
                assert(taken.last() == self.polygons@[i as int - 1]);
                assert(v.deep_view() =~= filtered_ids(taken, f));
            }
        }
        proof {
            assert(self.polygons@.take(self.polygons@.len() as int) =~= self.polygons@);
            assert forall|k: Seq<char>|
                v.deep_view().contains(k) <==> self@.cursor_in_set().contains(k) by {
                lemma_filtered_ids_contains(self.polygons@, f, k);
            }
        }
        Ok(v)
    }

    /// Recompute every polygon's containment flag against the cursor's
    /// physical position, and report the ids of the polygons that are
    /// displayed and contain it, in storage order.
    #[verifier::loop_isolation(false)]
    pub fn update_containment(&mut self, x: i64, y: i64) -> (ids: Vec<PolygonId>)
        requires
            old(self).wf(),
            old(self).initialized,
            -COORD_LIMIT <= x <= COORD_LIMIT,
            -COORD_LIMIT <= y <= COORD_LIMIT,
        ensures
            final(self).wf(),
            final(self)@ == old(self)@.containment_t((x, y)),
            ids.deep_view() == filtered_ids(
                old(self).polygons@,
                |m: PolygonModel| m.display && crate::utils::spec_point_in_polygon(
                    m.points,
                    (x, y),
                ),
            ),
            forall|k: Seq<char>|
                ids.deep_view().contains(k) <==> final(self)@.cursor_in_set().contains(k),
    {
        let ghost f = |m: PolygonModel|
            m.display && crate::utils::spec_point_in_polygon(m.points, (x, y));
        let mut ids: Vec<PolygonId> = Vec::new();
        let mut i: usize = 0;
        let n = self.polygons.len();
        while i < n
            invariant
                0 <= i <= n,
                n == self.polygons@.len(),
                self.polygons@.len() == old(self).polygons@.len(),
                self.initialized == old(self).initialized,
                self.width == old(self).width,
                self.ids@ == old(self).ids@,
                forall|j: int| i <= j < n ==> self.polygons@[j] == old(self).polygons@[j],
                forall|j: int|
                    0 <= j < i ==> (#[trigger] self.polygons@[j]).id@ == old(
                        self,
                    ).polygons@[j].id@ && self.polygons@[j]@ == (PolygonModel {
                        cursor_in: old(self).polygons@[j]@.display
                            && crate::utils::spec_point_in_polygon(
                            old(self).polygons@[j]@.points,
                            (x, y),
                        ),
                        ..old(self).polygons@[j]@
                    }),
                ids.deep_view() == filtered_ids(old(self).polygons@.take(i as int), f),
            decreases n - i,
        {
            proof {
                lemma_element_wf(old(self), i as int);
            }
            let contained = pos_contained(&self.polygons[i], x, y);
            self.polygons[i].set_cursor_in(contained);
            let ghost dv_before = ids.deep_view();
            if contained {
                ids.push(self.polygons[i].id.clone());
                proof {
                    assert(ids.deep_view() =~= dv_before.push(self.polygons@[i as int].id@));
                }
            } else {
                proof {
                    assert(ids.deep_view() =~= dv_before);
                }
            }
            i = i + 1;
            proof {
                let taken = old(self).polygons@.take(i as int);
                assert(taken.drop_last() =~= old(self).polygons@.take(i as int - 1));
                assert(taken.last() == old(self).polygons@[i as int - 1]);
                assert(ids.deep_view() =~= filtered_ids(taken, f));
            }
        }
        proof {
            assert(old(self).polygons@.take(n as int) =~= old(self).polygons@);
            lemma_polys_containment(old(self).polygons@, self.polygons@, (x, y));
            assert(self@ =~= old(self)@.containment_t((x, y)));
            old(self)@.lemma_containment_wf((x, y));
            assert forall|k: Seq<char>|
                ids.deep_view().contains(k) <==> self@.cursor_in_set().contains(k) by {
                lemma_filtered_ids_contains(old(self).polygons@, f, k);
                if contains_poly(old(self).polygons@, k) {
                    lemma_poly_witness(old(self).polygons@, k);
                }
            }
        }
        ids
    }
}

/// A polygon registered and then removed is gone for good: the
/// cursor-containment snapshot never again reports its id, and the same id
/// can immediately be registered anew.
pub proof fn lemma_removed_polygon_is_gone(m: RegistryView, id: Seq<char>)
    requires
        m.wf(),
        m.remove_ok(id),
    ensures
        !m.remove_t(id).cursor_in_set().contains(id),
        m.remove_t(id).register_ok(id),
        m.remove_t(id).wf(),
{
    m.lemma_remove_wf(id);
}

/// Registering the same id twice: the second registration fails and leaves
/// the registry unchanged — still exactly the one polygon under that id,
/// with its geometry untouched.
pub proof fn lemma_register_twice(m: RegistryView, id: Seq<char>)
    requires
        m.wf(),
        m.register_ok(id),
    ensures
        ({
            let m1 = m.register_t(id);
            &&& !m1.register_ok(id)
            &&& m1.register_t(id) == m1
            &&& m1.polygons.dom().contains(id)
            &&& m1.polygons[id] == PolygonModel::default_model()
            &&& m1.wf()
        }),
{
    m.lemma_register_wf(id);
}

/// `register_all` twice with overlapping id lists: no duplicate error is
/// possible, and the final state holds one default polygon per given id —
/// geometry reset by the second round, not preserved from the first.
pub proof fn lemma_register_all_twice(m: RegistryView, ids1: Seq<Seq<char>>, ids2: Seq<Seq<char>>)
    requires
        m.wf(),
    ensures
        ({
            let m2 = m.register_all_t(ids1).register_all_t(ids2);
            &&& m2.wf()
            &&& forall|k: Seq<char>|
                ids1.contains(k) || ids2.contains(k) ==> #[trigger] m2.polygons.dom().contains(k)
                    && m2.polygons[k] == PolygonModel::default_model()
            &&& forall|k: Seq<char>| #[trigger]
                m2.ids.contains(k) <==> (m.ids.contains(k) || ids1.contains(k) || ids2.contains(
                    k,
                ))
        }),
{
    let m1 = m.register_all_t(ids1);
    m.lemma_register_all_props(ids1);
    m1.lemma_register_all_props(ids2);
}

/// After `clear`, the cursor-containment snapshot is empty and no id is
/// registered any longer: a later `update` under a formerly registered id
/// finds nothing, so it fails and changes nothing.
pub proof fn lemma_clear_empties(m: RegistryView, id: Seq<char>, points: Seq<(i64, i64)>)
    requires
        m.wf(),
        m.initialized,
    ensures
        ({
            let m1 = m.clear_t();
            &&& m1.wf()
            &&& m1.initialized
            &&& m1.cursor_in_set() =~= Set::<Seq<char>>::empty()
            &&& !m1.polygons.dom().contains(id)
            &&& !m1.update_ok(id, points)
            &&& m1.update_t(id, points) == m1
        }),
{
    m.lemma_clear_wf();
    assert(m.clear_t().cursor_in_set() =~= Set::<Seq<char>>::empty());
}

/// Whether the cursor's physical position lies inside the polygon: the
/// polygon must be displayed and the hit test must report containment.
pub fn pos_contained(polygon: &Polygon, x: i64, y: i64) -> (r: bool)
    requires
        polygon@.wf(),
        -COORD_LIMIT <= x <= COORD_LIMIT,
        -COORD_LIMIT <= y <= COORD_LIMIT,
    ensures
        r == (polygon@.display && crate::utils::spec_point_in_polygon(polygon@.points, (x, y))),
{
    if polygon.display() {
        let pts = polygon.points();
        crate::utils::is_point_in_polygon(&pts, (x, y))
    } else {
        false
    }
}

/// The identifiers of the polygons in `s` whose model satisfies `f`,
/// in storage order.
pub open spec fn filtered_ids(s: Seq<Polygon>, f: spec_fn(PolygonModel) -> bool) -> Seq<Seq<char>>
    decreases s.len(),
{
    if s.len() == 0 {
        Seq::<Seq<char>>::empty()
    } else {
        filtered_ids(s.drop_last(), f) + (if f(s.last()@) {
            seq![s.last().id@]
        } else {
            Seq::<Seq<char>>::empty()
        })
    }
}

/// With unique identifiers, the filtered id sequence holds `k` exactly when
/// the represented map binds `k` to a model satisfying `f`.
proof fn lemma_filtered_ids_contains(s: Seq<Polygon>, f: spec_fn(PolygonModel) -> bool, k: Seq<char>)
    requires
        polys_unique(s),
    ensures
        filtered_ids(s, f).contains(k) <==> (contains_poly(s, k) && f(polys_as_map(s)[k])),
    decreases s.len(),
{
    if s.len() == 0 {
        assert(!filtered_ids(s, f).contains(k));
    } else {
        let t = s.drop_last();
        let last = s.last();
        assert(polys_unique(t)) by {
            assert(forall|i: int, j: int| 0 <= i < j < t.len() ==> s[i].id@ != s[j].id@);
        }
        lemma_filtered_ids_contains(t, f, k);
        let tail: Seq<Seq<char>> = if f(last@) {
            seq![last.id@]
        } else {
            Seq::<Seq<char>>::empty()
        };
        assert(filtered_ids(s, f) == filtered_ids(t, f) + tail);
        if filtered_ids(s, f).contains(k) {
            let i = choose|i: int| 0 <= i < filtered_ids(s, f).len() && filtered_ids(s, f)[i] == k;
            if i < filtered_ids(t, f).len() {
                assert(filtered_ids(t, f)[i] == k);
                assert(filtered_ids(t, f).contains(k));
                assert(contains_poly(t, k));
                let j = choose|j: int| 0 <= j < t.len() && t[j].id@ == k;
                assert(s[j].id@ == k);
                assert(contains_poly(s, k));
                lemma_poly_witness(s, k);
                lemma_poly_witness(t, k);
                assert(index_of_poly(s, k) == j && index_of_poly(t, k) == j);
                assert(t[j] == s[j]);
            } else {
                assert(tail[i - filtered_ids(t, f).len()] == k);
                assert(f(last@) && last.id@ == k);
                assert(s[s.len() - 1].id@ == k);
                assert(contains_poly(s, k));
                lemma_poly_witness(s, k);
                assert(index_of_poly(s, k) == s.len() - 1);
            }
        }
        if contains_poly(s, k) && f(polys_as_map(s)[k]) {
            lemma_poly_witness(s, k);
            let j = index_of_poly(s, k);
            if j == s.len() - 1 {
                assert(f(last@) && last.id@ == k);
                assert(filtered_ids(s, f).last() == k);
                assert(filtered_ids(s, f).contains(k));
            } else {
                assert(t[j].id@ == k);
                assert(contains_poly(t, k));
                lemma_poly_witness(t, k);
                assert(index_of_poly(t, k) == j);
                assert(t[j] == s[j]);
                assert(filtered_ids(t, f).contains(k));
                let i = choose|i: int|
                    0 <= i < filtered_ids(t, f).len() && filtered_ids(t, f)[i] == k;
                assert(filtered_ids(s, f)[i] == k);
                assert(filtered_ids(s, f).contains(k));
            }
        }
    }
}

/// Elementwise recomputing the containment flag turns the represented map
/// into the containment transition of the map it started from.
proof fn lemma_polys_containment(s: Seq<Polygon>, t: Seq<Polygon>, p: (i64, i64))
    requires
        polys_unique(s),
        t.len() == s.len(),
        forall|j: int| 0 <= j < s.len() ==> (#[trigger] t[j]).id@ == s[j].id@ && t[j]@ == (
        PolygonModel {
            cursor_in: s[j]@.display && crate::utils::spec_point_in_polygon(s[j]@.points, p),
            ..s[j]@
        }),
    ensures
        polys_unique(t),
        polys_as_map(t) =~= Map::new(
            |k: Seq<char>| contains_poly(s, k),
            |k: Seq<char>|
                PolygonModel {
                    cursor_in: polys_as_map(s)[k].display && crate::utils::spec_point_in_polygon(
                        polys_as_map(s)[k].points,
                        p,
                    ),
                    ..polys_as_map(s)[k]
                },
        ),
{
    assert(forall|j: int| 0 <= j < s.len() ==> (#[trigger] t[j]).id@ == s[j].id@);
    assert forall|k: Seq<char>| #[trigger] contains_poly(t, k) == contains_poly(s, k) by {
        if contains_poly(t, k) {
            let j = choose|j: int| 0 <= j < t.len() && t[j].id@ == k;
            assert(s[j].id@ == k);
        }
        if contains_poly(s, k) {
            let j = choose|j: int| 0 <= j < s.len() && s[j].id@ == k;
            assert(t[j].id@ == k);
        }
    }
    assert forall|k: Seq<char>| #[trigger] contains_poly(t, k) implies polys_as_map(t)[k] == (
    PolygonModel {
        cursor_in: polys_as_map(s)[k].display && crate::utils::spec_point_in_polygon(
            polys_as_map(s)[k].points,
            p,
        ),
        ..polys_as_map(s)[k]
    }) by {
        lemma_poly_witness(t, k);
        lemma_poly_witness(s, k);
        let a = index_of_poly(t, k);
        assert(s[a].id@ == k);
        assert(index_of_poly(s, k) == a);
    }
}

/// The index of the identifier `id` in `ids`, if any.
fn find_id_index(ids: &Vec<PolygonId>, id: &PolygonId) -> (r: Option<usize>)
    ensures
        match r {
            Some(i) => i < ids@.len() && ids@[i as int]@ == id@,
            None => !contains_id(ids@, id@),
        },
{
    let mut i: usize = 0;
    while i < ids.len()
        invariant
            0 <= i <= ids@.len(),
            forall|j: int| 0 <= j < i ==> ids@[j]@ != id@,
        decreases ids@.len() - i,
    {
        if ids[i] == *id {
            return Some(i);
        }
        i = i + 1;
    }
    None
}

/// Under the registry invariant, an identifier is reserved exactly when a
/// polygon carries it.
proof fn lemma_wf_contains(r: &Registry, k: Seq<char>)
    requires
        r.wf(),
    ensures
        contains_id(r.ids@, k) <==> contains_poly(r.polygons@, k),
{
    assert(ids_as_set(r.ids@).contains(k) == contains_id(r.ids@, k));
    assert(polys_as_map(r.polygons@).dom().contains(k) == contains_poly(r.polygons@, k));
    assert(r@.ids.contains(k) == r@.polygons.dom().contains(k));
}

/// Under the registry invariant, every stored polygon is within the
/// geometry bounds.
proof fn lemma_element_wf(r: &Registry, i: int)
    requires
        r.wf(),
        0 <= i < r.polygons@.len(),
    ensures
        r.polygons@[i]@.wf(),
{
    let k = r.polygons@[i].id@;
    assert(contains_poly(r.polygons@, k));
    lemma_poly_witness(r.polygons@, k);
    assert(r@.polygons.dom().contains(k));
    assert(r@.polygons[k] == r.polygons@[index_of_poly(r.polygons@, k)]@);
    assert(index_of_poly(r.polygons@, k) == i);
}

/// With unique identifiers, `index_of_poly` is the one index carrying `id`,
/// and the represented map holds that polygon's model under `id`.
proof fn lemma_poly_witness(s: Seq<Polygon>, k: Seq<char>)
    requires
        polys_unique(s),
        contains_poly(s, k),
    ensures
        0 <= index_of_poly(s, k) < s.len(),
        s[index_of_poly(s, k)].id@ == k,
        polys_as_map(s)[k] == s[index_of_poly(s, k)]@,
        forall|j: int| 0 <= j < s.len() && s[j].id@ == k ==> j == index_of_poly(s, k),
{
    let i = index_of_poly(s, k);
    assert(0 <= i < s.len() && s[i].id@ == k);
    assert forall|j: int| 0 <= j < s.len() && s[j].id@ == k implies j == i by {
        if j != i {
            if j < i {
                assert(s[j].id@ != s[i].id@);
            } else {
                assert(s[i].id@ != s[j].id@);
            }
        }
    }
}

/// Appending a polygon under a fresh identifier inserts it into the
/// represented map.
proof fn lemma_polys_push(s: Seq<Polygon>, p: Polygon)
    requires
        polys_unique(s),
        !contains_poly(s, p.id@),
    ensures
        polys_unique(s.push(p)),
        polys_as_map(s.push(p)) =~= polys_as_map(s).insert(p.id@, p@),
{
    let t = s.push(p);
    assert forall|i: int, j: int| 0 <= i < j < t.len() implies t[i].id@ != t[j].id@ by {
        if j < s.len() {
            assert(s[i].id@ != s[j].id@);
        } else {
            assert(t[j] == p);
            assert(t[i] == s[i]);
            if t[i].id@ == p.id@ {
                assert(contains_poly(s, p.id@));
            }
        }
    }
    assert forall|k: Seq<char>| #[trigger] contains_poly(t, k) implies contains_poly(s, k) || k
        == p.id@ by {
        let i = choose|i: int| 0 <= i < t.len() && t[i].id@ == k;
        if i < s.len() {
            assert(s[i].id@ == k);
        } else {
            assert(t[i] == p);
        }
    }
    assert forall|k: Seq<char>| contains_poly(s, k) || k == p.id@ implies #[trigger] contains_poly(
        t,
        k,
    ) by {
        if k == p.id@ {
            assert(t[s.len() as int].id@ == k);
        } else {
            let i = choose|i: int| 0 <= i < s.len() && s[i].id@ == k;
            assert(t[i].id@ == k);
        }
    }
    assert forall|k: Seq<char>| #[trigger] contains_poly(t, k) implies polys_as_map(t)[k]
        == polys_as_map(s).insert(p.id@, p@)[k] by {
        lemma_poly_witness(t, k);
        let i = index_of_poly(t, k);
        if k == p.id@ {
            assert(t[s.len() as int].id@ == k);
            assert(i == s.len());
            assert(t[i] == p);
        } else {
            assert(contains_poly(s, k));
            lemma_poly_witness(s, k);
            let j = index_of_poly(s, k);
            assert(t[j].id@ == k);
            assert(i == j);
            assert(t[i] == s[j]);
        }
    }
}

/// Replacing the polygon at index `i` by one carrying the same identifier
/// re-binds that identifier in the represented map.
proof fn lemma_polys_set(s: Seq<Polygon>, i: int, p: Polygon)
    requires
        polys_unique(s),
        0 <= i < s.len(),
        p.id@ == s[i].id@,
    ensures
        polys_unique(s.update(i, p)),
        polys_as_map(s.update(i, p)) =~= polys_as_map(s).insert(p.id@, p@),
{
    let t = s.update(i, p);
    assert forall|a: int, b: int| 0 <= a < b < t.len() implies t[a].id@ != t[b].id@ by {
        assert(s[a].id@ != s[b].id@);
        assert(t[a].id@ == s[a].id@ && t[b].id@ == s[b].id@);
    }
    assert forall|k: Seq<char>| #[trigger] contains_poly(t, k) <==> contains_poly(s, k) by {
        if contains_poly(t, k) {
            let a = choose|a: int| 0 <= a < t.len() && t[a].id@ == k;
            assert(s[a].id@ == k);
        }
        if contains_poly(s, k) {
            let a = choose|a: int| 0 <= a < s.len() && s[a].id@ == k;
            assert(t[a].id@ == k);
        }
    }
    assert forall|k: Seq<char>| #[trigger] contains_poly(t, k) implies polys_as_map(t)[k]
        == polys_as_map(s).insert(p.id@, p@)[k] by {
        lemma_poly_witness(t, k);
        lemma_poly_witness(s, k);
        let a = index_of_poly(t, k);
        if k == p.id@ {
            assert(t[i].id@ == k);
            assert(a == i);
        } else {
            let b = index_of_poly(s, k);
            assert(b != i);
            assert(t[b].id@ == k);
            assert(a == b);
            assert(t[a] == s[b]);
        }
    }
}

/// Removing the polygon at index `i` removes its identifier from the
/// represented map.
proof fn lemma_polys_remove(s: Seq<Polygon>, i: int)
    requires
        polys_unique(s),
        0 <= i < s.len(),
    ensures
        polys_unique(s.remove(i)),
        polys_as_map(s.remove(i)) =~= polys_as_map(s).remove(s[i].id@),
{
    let t = s.remove(i);
    assert forall|a: int, b: int| 0 <= a < b < t.len() implies t[a].id@ != t[b].id@ by {
        let sa: int = if a < i {
            a
        } else {
            a + 1
        };
        let sb: int = if b < i {
            b
        } else {
            b + 1
        };
        assert(t[a] == s[sa] && t[b] == s[sb]);
        assert(s[sa].id@ != s[sb].id@);
    }
    assert forall|k: Seq<char>| #[trigger] contains_poly(t, k) implies contains_poly(s, k) && k
        != s[i].id@ by {
        let a = choose|a: int| 0 <= a < t.len() && t[a].id@ == k;
        let sa: int = if a < i {
            a
        } else {
            a + 1
        };
        assert(t[a] == s[sa]);
        assert(s[sa].id@ == k);
        if k == s[i].id@ {
            if sa < i {
                assert(s[sa].id@ != s[i].id@);
            } else {
                assert(s[i].id@ != s[sa].id@);
            }
        }
    }
    assert forall|k: Seq<char>| contains_poly(s, k) && k != s[i].id@ implies #[trigger]
        contains_poly(t, k) by {
        let a = choose|a: int| 0 <= a < s.len() && s[a].id@ == k;
        if a < i {
            assert(t[a] == s[a]);
            assert(t[a].id@ == k);
        } else {
            assert(a != i);
            assert(t[a - 1] == s[a]);
            assert(t[a - 1].id@ == k);
        }
    }
    assert forall|k: Seq<char>| #[trigger] contains_poly(t, k) implies polys_as_map(t)[k]
        == polys_as_map(s).remove(s[i].id@)[k] by {
        lemma_poly_witness(t, k);
        lemma_poly_witness(s, k);
        let a = index_of_poly(t, k);
        let sa: int = if a < i {
            a
        } else {
            a + 1
        };
        assert(t[a] == s[sa]);
        assert(sa == index_of_poly(s, k));
    }
}

/// Appending an identifier inserts it into the represented set.
proof fn lemma_ids_push(s: Seq<String>, x: String)
    ensures
        ids_as_set(s.push(x)) =~= ids_as_set(s).insert(x@),
        ids_unique(s) && !contains_id(s, x@) ==> ids_unique(s.push(x)),
{
    let t = s.push(x);
    assert forall|k: Seq<char>| #[trigger] contains_id(t, k) implies contains_id(s, k) || k
        == x@ by {
        let i = choose|i: int| 0 <= i < t.len() && t[i]@ == k;
        if i < s.len() {
            assert(s[i]@ == k);
        } else {
            assert(t[i] == x);
        }
    }
    assert forall|k: Seq<char>| contains_id(s, k) || k == x@ implies #[trigger] contains_id(
        t,
        k,
    ) by {
        if k == x@ {
            assert(t[s.len() as int]@ == k);
        } else {
            let i = choose|i: int| 0 <= i < s.len() && s[i]@ == k;
            assert(t[i]@ == k);
        }
    }
    if ids_unique(s) && !contains_id(s, x@) {
        assert forall|i: int, j: int| 0 <= i < j < t.len() implies t[i]@ != t[j]@ by {
            if j < s.len() {
                assert(s[i]@ != s[j]@);
            } else {
                assert(t[j] == x);
                assert(t[i] == s[i]);
                if t[i]@ == x@ {
                    assert(contains_id(s, x@));
                }
            }
        }
    }
}

/// Removing the identifier at index `i` removes it from the represented set.
proof fn lemma_ids_remove(s: Seq<String>, i: int)
    requires
        ids_unique(s),
        0 <= i < s.len(),
    ensures
        ids_unique(s.remove(i)),
        ids_as_set(s.remove(i)) =~= ids_as_set(s).remove(s[i]@),
{
    let t = s.remove(i);
    assert forall|a: int, b: int| 0 <= a < b < t.len() implies t[a]@ != t[b]@ by {
        let sa: int = if a < i {
            a
        } else {
            a + 1
        };
        let sb: int = if b < i {
            b
        } else {
            b + 1
        };
        assert(t[a] == s[sa] && t[b] == s[sb]);
        assert(s[sa]@ != s[sb]@);
    }
    assert forall|k: Seq<char>| #[trigger] contains_id(t, k) implies contains_id(s, k) && k
        != s[i]@ by {
        let a = choose|a: int| 0 <= a < t.len() && t[a]@ == k;
        let sa: int = if a < i {
            a
        } else {
            a + 1
        };
        assert(t[a] == s[sa]);
        assert(s[sa]@ == k);
        if k == s[i]@ {
            if sa < i {
                assert(s[sa]@ != s[i]@);
            } else {
                assert(s[i]@ != s[sa]@);
            }
        }
    }
    assert forall|k: Seq<char>| contains_id(s, k) && k != s[i]@ implies #[trigger] contains_id(
        t,
        k,
    ) by {
        let a = choose|a: int| 0 <= a < s.len() && s[a]@ == k;
        if a < i {
            assert(t[a] == s[a]);
            assert(t[a]@ == k);
        } else {
            assert(a != i);
            assert(t[a - 1] == s[a]);
            assert(t[a - 1]@ == k);
        }
    }
}

/// Whether `ids` holds the identifier `id`.
fn ids_contains(ids: &Vec<PolygonId>, id: &PolygonId) -> (r: bool)
    ensures
        r == contains_id(ids@, id@),
{
    let mut i: usize = 0;
    while i < ids.len()
        invariant
            0 <= i <= ids@.len(),
            forall|j: int| 0 <= j < i ==> ids@[j]@ != id@,
        decreases ids@.len() - i,
    {
        if ids[i] == *id {
            return true;
        }
        i = i + 1;
    }
    false
}

/// The index of the polygon carrying `id`, if any.
fn find_polygon_index(s: &Vec<Polygon>, id: &PolygonId) -> (r: Option<usize>)
    ensures
        match r {
            Some(i) => i < s@.len() && s@[i as int].id@ == id@,
            None => !contains_poly(s@, id@),
        },
{
    let mut i: usize = 0;
    while i < s.len()
        invariant
            0 <= i <= s@.len(),
            forall|j: int| 0 <= j < i ==> s@[j].id@ != id@,
        decreases s@.len() - i,
    {
        if s[i].id == *id {
            return Some(i);
        }
        i = i + 1;
    }
    None
}

} // verus!
