//! Location storage service

use vstd::prelude::*;

use crate::models::{GeoPoint, Id, MemberLocation, MemberLocationView};
use crate::sweep::{
    distinct_by, lemma_filter_keeps_distinct, lemma_sweep_end, lemma_sweep_start, lemma_sweep_step,
};
use crate::time::{elapsed_exceeds, Timestamp, NANOS_PER_SEC};

verus! {

/// The time to live of a store that was made without one: five minutes.
pub const DEFAULT_TTL_SECS: i64 = 300;

/// The last position that a member has reported.
#[derive(Debug)]
pub struct StoredLocation {
    pub member_id: Id,
    pub display_name: String,
    pub location: GeoPoint,
    pub updated_at: Timestamp,
}

/// What a [`StoredLocation`] holds, as mathematical values.
pub struct StoredLocationView {
    pub member_id: Id,
    pub display_name: Seq<char>,
    pub location: GeoPoint,
    pub updated_at: Timestamp,
}

impl View for StoredLocation {
    type V = StoredLocationView;

    open spec fn view(&self) -> StoredLocationView {
        StoredLocationView {
            member_id: self.member_id,
            display_name: self.display_name@,
            location: self.location,
            updated_at: self.updated_at,
        }
    }
}

/// The views of a list of stored locations, in order.
pub open spec fn entry_views(entries: Seq<StoredLocation>) -> Seq<StoredLocationView> {
    entries.map_values(|e: StoredLocation| e@)
}

/// The locations of one squad, one for each member who has reported.
struct SquadLocations {
    squad_id: Id,
    entries: Vec<StoredLocation>,
}

/// What the store holds for one squad, as mathematical values.
pub struct SquadLocationsView {
    pub squad_id: Id,
    pub entries: Seq<StoredLocationView>,
}

impl View for SquadLocations {
    type V = SquadLocationsView;

    closed spec fn view(&self) -> SquadLocationsView {
        SquadLocationsView { squad_id: self.squad_id, entries: entry_views(self.entries@) }
    }
}

/// What a [`LocationStore`] holds, as mathematical values.
pub struct LocationStoreView {
    /// Seconds after which a location is shown as stale.
    pub ttl_secs: i64,
    /// The squads that have locations, in the order of their first report.
    pub squads: Seq<SquadLocationsView>,
}

/// Whether `squads` has an entry for the squad `id`.
pub open spec fn has_squad(squads: Seq<SquadLocationsView>, id: Id) -> bool {
    exists|i: int| 0 <= i < squads.len() && (#[trigger] squads[i]).squad_id == id
}

/// The place of the squad `id`.
pub open spec fn squad_index(squads: Seq<SquadLocationsView>, id: Id) -> int {
    choose|i: int| 0 <= i < squads.len() && (#[trigger] squads[i]).squad_id == id
}

/// Whether `entries` has a location of the member `id`.
pub open spec fn has_entry(entries: Seq<StoredLocationView>, id: Id) -> bool {
    exists|i: int| 0 <= i < entries.len() && (#[trigger] entries[i]).member_id == id
}

/// The place of the location of the member `id`.
pub open spec fn entry_index(entries: Seq<StoredLocationView>, id: Id) -> int {
    choose|i: int| 0 <= i < entries.len() && (#[trigger] entries[i]).member_id == id
}

/// The locations stored for the squad `id`; none where the squad is
/// unknown.
pub open spec fn entries_of(squads: Seq<SquadLocationsView>, id: Id) -> Seq<StoredLocationView> {
    if has_squad(squads, id) {
        squads[squad_index(squads, id)].entries
    } else {
        Seq::empty()
    }
}

/// No two locations belong to the same member.
#[verifier::opaque]
pub open spec fn entries_wf(entries: Seq<StoredLocationView>) -> bool {
    forall|i: int, j: int|
        0 <= i < j < entries.len() ==> (#[trigger] entries[i]).member_id != (
        #[trigger] entries[j]).member_id
}

/// What holds of the store: no two entries are for the same squad, and
/// within a squad no two locations belong to the same member.
#[verifier::opaque]
pub open spec fn store_wf(squads: Seq<SquadLocationsView>) -> bool {
    &&& forall|i: int| 0 <= i < squads.len() ==> entries_wf((#[trigger] squads[i]).entries)
    &&& forall|i: int, j: int|
        0 <= i < j < squads.len() ==> (#[trigger] squads[i]).squad_id != (
        #[trigger] squads[j]).squad_id
}

/// `entries` after `entry` was written: in the place of the member's
/// earlier location, or else at the end.
pub open spec fn entries_with(entries: Seq<StoredLocationView>, entry: StoredLocationView) -> Seq<
    StoredLocationView,
> {
    if has_entry(entries, entry.member_id) {
        entries.update(entry_index(entries, entry.member_id), entry)
    } else {
        entries.push(entry)
    }
}

/// The store after `entry` was written for the squad `squad_id`.
pub open spec fn after_update(
    squads: Seq<SquadLocationsView>,
    squad_id: Id,
    entry: StoredLocationView,
) -> Seq<SquadLocationsView> {
    if has_squad(squads, squad_id) {
        let k = squad_index(squads, squad_id);
        squads.update(
            k,
            SquadLocationsView { squad_id, entries: entries_with(squads[k].entries, entry) },
        )
    } else {
        squads.push(SquadLocationsView { squad_id, entries: seq![entry] })
    }
}

/// Whether a location written at `updated_at` is stale at `now`: more than
/// `ttl_secs` seconds have passed.
pub open spec fn is_stale(updated_at: Timestamp, now: Timestamp, ttl_secs: i64) -> bool {
    elapsed_exceeds(now@, updated_at@, ttl_secs as int)
}

/// Whether a location written at `updated_at` is due for removal at `now`:
/// more than twice `ttl_secs` seconds have passed.
pub open spec fn is_purgeable(updated_at: Timestamp, now: Timestamp, ttl_secs: i64) -> bool {
    elapsed_exceeds(now@, updated_at@, 2 * ttl_secs)
}

/// What is reported of a stored location at `now`.
pub open spec fn report(entry: StoredLocationView, now: Timestamp, ttl_secs: i64) -> MemberLocationView {
    MemberLocationView {
        member_id: entry.member_id,
        display_name: entry.display_name,
        location: entry.location,
        updated_at: entry.updated_at,
        is_stale: is_stale(entry.updated_at, now, ttl_secs),
    }
}

/// What is reported of a squad at `now`: one entry for each member who has
/// reported, in the order of their first reports.
pub open spec fn squad_report(
    squads: Seq<SquadLocationsView>,
    squad_id: Id,
    now: Timestamp,
    ttl_secs: i64,
) -> Seq<MemberLocationView> {
    entries_of(squads, squad_id).map_values(|e: StoredLocationView| report(e, now, ttl_secs))
}

/// The store after the location of the member `member_id` was taken out of
/// the squad `squad_id`.
pub open spec fn after_remove_member(
    squads: Seq<SquadLocationsView>,
    squad_id: Id,
    member_id: Id,
) -> Seq<SquadLocationsView> {
    if has_squad(squads, squad_id) && has_entry(
        squads[squad_index(squads, squad_id)].entries,
        member_id,
    ) {
        let k = squad_index(squads, squad_id);
        squads.update(
            k,
            SquadLocationsView {
                squad_id: squads[k].squad_id,
                entries: squads[k].entries.remove(entry_index(squads[k].entries, member_id)),
            },
        )
    } else {
        squads
    }
}

/// The store after the squad `squad_id` was taken out.
pub open spec fn after_remove_squad(squads: Seq<SquadLocationsView>, squad_id: Id) -> Seq<
    SquadLocationsView,
> {
    if has_squad(squads, squad_id) {
        squads.remove(squad_index(squads, squad_id))
    } else {
        squads
    }
}

/// The locations that a cleanup at `now` keeps.
pub open spec fn kept_at(now: Timestamp, ttl_secs: i64) -> spec_fn(StoredLocationView) -> bool {
    |e: StoredLocationView| !is_purgeable(e.updated_at, now, ttl_secs)
}

/// A squad's entry after a cleanup at `now`.
pub open spec fn swept(squad: SquadLocationsView, now: Timestamp, ttl_secs: i64) -> SquadLocationsView {
    SquadLocationsView {
        squad_id: squad.squad_id,
        entries: squad.entries.filter(kept_at(now, ttl_secs)),
    }
}

/// The squads that still have a location.
pub open spec fn occupied() -> spec_fn(SquadLocationsView) -> bool {
    |s: SquadLocationsView| s.entries.len() > 0
}

/// The store after a cleanup at `now`: every squad keeps the locations that
/// are not due for removal, and the squads that keep none are gone.
pub open spec fn after_cleanup(squads: Seq<SquadLocationsView>, now: Timestamp, ttl_secs: i64) -> Seq<
    SquadLocationsView,
> {
    squads.map_values(|s: SquadLocationsView| swept(s, now, ttl_secs)).filter(occupied())
}

/// In a well-formed list a member's location is found at its own place.
pub proof fn lemma_wf_entry_index(entries: Seq<StoredLocationView>, j: int)
    requires
        entries_wf(entries),
        0 <= j < entries.len(),
    ensures
        has_entry(entries, entries[j].member_id),
        entry_index(entries, entries[j].member_id) == j,
{
    reveal(entries_wf);
    let i = entry_index(entries, entries[j].member_id);
    if i < j {
        assert(entries[i].member_id != entries[j].member_id);
    } else if j < i {
        assert(entries[j].member_id != entries[i].member_id);
    }
}

/// Writing a member's location keeps the list well formed.
pub proof fn lemma_entries_with_wf(entries: Seq<StoredLocationView>, entry: StoredLocationView)
    requires
        entries_wf(entries),
    ensures
        entries_wf(entries_with(entries, entry)),
{
    reveal(entries_wf);
    let next = entries_with(entries, entry);
    if has_entry(entries, entry.member_id) {
        let k = entry_index(entries, entry.member_id);
        assert forall|i: int, j: int| 0 <= i < j < next.len() implies (#[trigger] next[i]).member_id
            != (#[trigger] next[j]).member_id by {
            assert(next[i].member_id == entries[i].member_id);
            assert(next[j].member_id == entries[j].member_id);
        }
    } else {
        assert forall|i: int, j: int| 0 <= i < j < next.len() implies (#[trigger] next[i]).member_id
            != (#[trigger] next[j]).member_id by {
            assert(next[i] == entries[i]);
            if j < entries.len() {
                assert(next[j] == entries[j]);
            }
        }
    }
}

/// Taking a location out keeps the list well formed.
pub proof fn lemma_entries_remove_wf(entries: Seq<StoredLocationView>, k: int)
    requires
        entries_wf(entries),
        0 <= k < entries.len(),
    ensures
        entries_wf(entries.remove(k)),
{
    reveal(entries_wf);
    let rest = entries.remove(k);
    assert forall|i: int, j: int| 0 <= i < j < rest.len() implies (#[trigger] rest[i]).member_id != (
    #[trigger] rest[j]).member_id by {
        let a = if i < k { i } else { i + 1 };
        let b = if j < k { j } else { j + 1 };
        assert(rest[i] == entries[a]);
        assert(rest[j] == entries[b]);
    }
}

/// Every squad of a well-formed store has a well-formed list.
pub proof fn lemma_wf_entries(squads: Seq<SquadLocationsView>, k: int)
    requires
        store_wf(squads),
        0 <= k < squads.len(),
    ensures
        entries_wf(squads[k].entries),
{
    reveal(store_wf);
}

/// In a well-formed store a squad is found at its own place.
pub proof fn lemma_wf_squad_index(squads: Seq<SquadLocationsView>, k: int)
    requires
        store_wf(squads),
        0 <= k < squads.len(),
    ensures
        has_squad(squads, squads[k].squad_id),
        squad_index(squads, squads[k].squad_id) == k,
        entries_of(squads, squads[k].squad_id) == squads[k].entries,
{
    reveal(store_wf);
    let i = squad_index(squads, squads[k].squad_id);
    if i < k {
        assert(squads[i].squad_id != squads[k].squad_id);
    } else if k < i {
        assert(squads[k].squad_id != squads[i].squad_id);
    }
}

/// Adding a squad that was unknown keeps the store well formed.
pub proof fn lemma_push_keeps_wf(squads: Seq<SquadLocationsView>, squad: SquadLocationsView)
    requires
        store_wf(squads),
        entries_wf(squad.entries),
        !has_squad(squads, squad.squad_id),
    ensures
        store_wf(squads.push(squad)),
{
    reveal(store_wf);
    let next = squads.push(squad);
    assert forall|i: int| 0 <= i < next.len() implies entries_wf((#[trigger] next[i]).entries) by {
        if i < squads.len() {
            assert(next[i] == squads[i]);
        }
    }
    assert forall|i: int, j: int| 0 <= i < j < next.len() implies (#[trigger] next[i]).squad_id != (
    #[trigger] next[j]).squad_id by {
        assert(next[i] == squads[i]);
        if j < squads.len() {
            assert(next[j] == squads[j]);
        }
    }
}

/// Taking a squad out keeps the store well formed.
pub proof fn lemma_remove_keeps_wf(squads: Seq<SquadLocationsView>, k: int)
    requires
        store_wf(squads),
        0 <= k < squads.len(),
    ensures
        store_wf(squads.remove(k)),
{
    reveal(store_wf);
    let rest = squads.remove(k);
    assert forall|i: int| 0 <= i < rest.len() implies entries_wf((#[trigger] rest[i]).entries) by {
        let a = if i < k { i } else { i + 1 };
        assert(rest[i] == squads[a]);
    }
    assert forall|i: int, j: int| 0 <= i < j < rest.len() implies (#[trigger] rest[i]).squad_id != (
    #[trigger] rest[j]).squad_id by {
        let a = if i < k { i } else { i + 1 };
        let b = if j < k { j } else { j + 1 };
        assert(rest[i] == squads[a]);
        assert(rest[j] == squads[b]);
    }
}

/// Replacing a squad's list by a well-formed one keeps the store well
/// formed.
pub proof fn lemma_update_keeps_wf(squads: Seq<SquadLocationsView>, k: int, squad: SquadLocationsView)
    requires
        store_wf(squads),
        0 <= k < squads.len(),
        entries_wf(squad.entries),
        squad.squad_id == squads[k].squad_id,
    ensures
        store_wf(squads.update(k, squad)),
{
    reveal(store_wf);
    let next = squads.update(k, squad);
    assert forall|i: int| 0 <= i < next.len() implies entries_wf((#[trigger] next[i]).entries) by {
        if i != k {
            assert(next[i] == squads[i]);
        }
    }
    assert forall|i: int, j: int| 0 <= i < j < next.len() implies (#[trigger] next[i]).squad_id != (
    #[trigger] next[j]).squad_id by {
        assert(next[i].squad_id == squads[i].squad_id);
        assert(next[j].squad_id == squads[j].squad_id);
    }
}

/// A location is reported stale exactly when more than the time to live
/// has passed since it was written: one nanosecond past it, and so one
/// second past it, the location is stale; at it, and before it, fresh.
pub proof fn lemma_stale_boundary(entry: StoredLocationView, now: Timestamp, ttl_secs: i64)
    ensures
        report(entry, now, ttl_secs).is_stale <==> now@ - entry.updated_at@ > ttl_secs
            * NANOS_PER_SEC,
        now@ >= entry.updated_at@ + ttl_secs * NANOS_PER_SEC + 1 ==> report(
            entry,
            now,
            ttl_secs,
        ).is_stale,
        now@ == entry.updated_at@ + (ttl_secs + 1) * NANOS_PER_SEC ==> report(
            entry,
            now,
            ttl_secs,
        ).is_stale,
        now@ <= entry.updated_at@ + ttl_secs * NANOS_PER_SEC ==> !report(
            entry,
            now,
            ttl_secs,
        ).is_stale,
        now@ == entry.updated_at@ + (ttl_secs - 1) * NANOS_PER_SEC ==> !report(
            entry,
            now,
            ttl_secs,
        ).is_stale,
{
    assert((ttl_secs + 1) * NANOS_PER_SEC == ttl_secs * NANOS_PER_SEC + NANOS_PER_SEC)
        by (nonlinear_arith);
    assert((ttl_secs - 1) * NANOS_PER_SEC == ttl_secs * NANOS_PER_SEC - NANOS_PER_SEC)
        by (nonlinear_arith);
}

/// The report of a squad has one entry for each stored location, in the
/// same order, with the member, the name, the position and the time of
/// writing as stored, and stale exactly when more than the time to live
/// has passed since the writing. A squad that is unknown has an empty
/// report.
pub proof fn lemma_report_entries(
    squads: Seq<SquadLocationsView>,
    squad_id: Id,
    now: Timestamp,
    ttl_secs: i64,
)
    ensures
        squad_report(squads, squad_id, now, ttl_secs).len() == entries_of(squads, squad_id).len(),
        !has_squad(squads, squad_id) ==> squad_report(squads, squad_id, now, ttl_secs).len() == 0,
        forall|i: int|
            0 <= i < entries_of(squads, squad_id).len() ==> {
                let stored = entries_of(squads, squad_id)[i];
                let shown = #[trigger] squad_report(squads, squad_id, now, ttl_secs)[i];
                &&& shown.member_id == stored.member_id
                &&& shown.display_name == stored.display_name
                &&& shown.location == stored.location
                &&& shown.updated_at == stored.updated_at
                &&& shown.is_stale <==> now@ - stored.updated_at@ > ttl_secs * NANOS_PER_SEC
            },
{
}

/// After a member's location was written, the squad's list holds it, and
/// holds the locations of the other members as before.
pub proof fn lemma_written_location_is_stored(
    squads: Seq<SquadLocationsView>,
    squad_id: Id,
    entry: StoredLocationView,
)
    requires
        store_wf(squads),
    ensures
        ({
            let after = after_update(squads, squad_id, entry);
            let list = entries_of(after, squad_id);
            &&& store_wf(after)
            &&& has_squad(after, squad_id)
            &&& list == entries_with(entries_of(squads, squad_id), entry)
            &&& has_entry(list, entry.member_id)
            &&& list[entry_index(list, entry.member_id)] == entry
        }),
{
    let after = after_update(squads, squad_id, entry);
    if has_squad(squads, squad_id) {
        let k = squad_index(squads, squad_id);
        let old_list = squads[k].entries;
        let next = SquadLocationsView { squad_id, entries: entries_with(old_list, entry) };
        lemma_wf_squad_index(squads, k);
        lemma_wf_entries(squads, k);
        lemma_entries_with_wf(old_list, entry);
        lemma_update_keeps_wf(squads, k, next);
        assert(after[k] == next);
        lemma_wf_squad_index(after, k);
        lemma_entry_is_written(old_list, entry);
    } else {
        let next = SquadLocationsView { squad_id, entries: seq![entry] };
        assert(entries_wf(next.entries)) by {
            reveal(entries_wf);
        }
        lemma_push_keeps_wf(squads, next);
        let k = squads.len() as int;
        assert(after[k] == next);
        lemma_wf_squad_index(after, k);
        let empty = Seq::<StoredLocationView>::empty();
        assert(entries_wf(empty)) by {
            reveal(entries_wf);
        }
        assert(!has_entry(empty, entry.member_id));
        assert(entries_with(empty, entry) =~= seq![entry]);
        lemma_entry_is_written(empty, entry);
    }
}

/// A list holds a location right after it was written into it.
pub proof fn lemma_entry_is_written(entries: Seq<StoredLocationView>, entry: StoredLocationView)
    requires
        entries_wf(entries),
    ensures
        ({
            let list = entries_with(entries, entry);
            &&& has_entry(list, entry.member_id)
            &&& list[entry_index(list, entry.member_id)] == entry
        }),
{
    let list = entries_with(entries, entry);
    lemma_entries_with_wf(entries, entry);
    if has_entry(entries, entry.member_id) {
        let j = entry_index(entries, entry.member_id);
        assert(list[j] == entry);
        lemma_wf_entry_index(list, j);
    } else {
        let j = entries.len() as int;
        assert(list[j] == entry);
        lemma_wf_entry_index(list, j);
    }
}

/// The key by which the locations of a squad are told apart.
pub open spec fn by_member() -> spec_fn(StoredLocationView) -> Id {
    |e: StoredLocationView| e.member_id
}

/// The key by which the squads are told apart.
pub open spec fn by_squad() -> spec_fn(SquadLocationsView) -> Id {
    |s: SquadLocationsView| s.squad_id
}

/// What a cleanup at `now` keeps of a well-formed list is well formed.
pub proof fn lemma_kept_entries_wf(entries: Seq<StoredLocationView>, now: Timestamp, ttl_secs: i64)
    requires
        entries_wf(entries),
    ensures
        entries_wf(entries.filter(kept_at(now, ttl_secs))),
{
    reveal(entries_wf);
    assert(distinct_by(entries, by_member()));
    lemma_filter_keeps_distinct(entries, by_member(), kept_at(now, ttl_secs));
    let kept = entries.filter(kept_at(now, ttl_secs));
    assert forall|i: int, j: int| 0 <= i < j < kept.len() implies (#[trigger] kept[i]).member_id != (
    #[trigger] kept[j]).member_id by {
        assert(by_member()(kept[i]) != by_member()(kept[j]));
    }
}

/// A cleanup keeps the store well formed.
pub proof fn lemma_cleanup_keeps_wf(squads: Seq<SquadLocationsView>, now: Timestamp, ttl_secs: i64)
    requires
        store_wf(squads),
    ensures
        store_wf(squads.map_values(|s: SquadLocationsView| swept(s, now, ttl_secs))),
        store_wf(after_cleanup(squads, now, ttl_secs)),
{
    let mapped = squads.map_values(|s: SquadLocationsView| swept(s, now, ttl_secs));
    assert forall|i: int| 0 <= i < mapped.len() implies entries_wf(
        (#[trigger] mapped[i]).entries,
    ) by {
        lemma_wf_entries(squads, i);
        lemma_kept_entries_wf(squads[i].entries, now, ttl_secs);
    }
    assert(distinct_by(mapped, by_squad())) by {
        reveal(store_wf);
        assert forall|i: int, j: int| 0 <= i < j < mapped.len() implies by_squad()(
            #[trigger] mapped[i],
        ) != by_squad()(#[trigger] mapped[j]) by {
            assert(mapped[i].squad_id == squads[i].squad_id);
            assert(mapped[j].squad_id == squads[j].squad_id);
        }
    }
    assert(store_wf(mapped)) by {
        reveal(store_wf);
        assert forall|i: int, j: int| 0 <= i < j < mapped.len() implies (#[trigger] mapped[i]).squad_id
            != (#[trigger] mapped[j]).squad_id by {
            assert(by_squad()(mapped[i]) != by_squad()(mapped[j]));
        }
    }
    let after = mapped.filter(occupied());
    lemma_filter_keeps_distinct(mapped, by_squad(), occupied());
    assert(store_wf(after)) by {
        reveal(store_wf);
        assert forall|i: int| 0 <= i < after.len() implies entries_wf(
            (#[trigger] after[i]).entries,
        ) by {
            assert(after.contains(after[i]));
            mapped.lemma_filter_contains_rev(occupied(), after[i]);
            let a = choose|a: int| 0 <= a < mapped.len() && mapped[a] == after[i];
            assert(entries_wf(mapped[a].entries));
        }
        assert forall|i: int, j: int| 0 <= i < j < after.len() implies (#[trigger] after[i]).squad_id
            != (#[trigger] after[j]).squad_id by {
            assert(by_squad()(after[i]) != by_squad()(after[j]));
        }
    }
}

/// A cleanup at `now` leaves, of every squad, exactly the locations that
/// are not older than twice the time to live, in their order; a squad of
/// which nothing is left is unknown afterwards, and every squad that is
/// known afterwards has a location.
pub proof fn lemma_cleanup_squad(
    squads: Seq<SquadLocationsView>,
    now: Timestamp,
    ttl_secs: i64,
    k: int,
)
    requires
        store_wf(squads),
        0 <= k < squads.len(),
    ensures
        ({
            let after = after_cleanup(squads, now, ttl_secs);
            let id = squads[k].squad_id;
            let kept = squads[k].entries.filter(kept_at(now, ttl_secs));
            &&& entries_of(after, id) == kept
            &&& has_squad(after, id) <==> kept.len() > 0
            &&& forall|j: int|
                0 <= j < squads[k].entries.len() ==> (kept.contains(
                    #[trigger] squads[k].entries[j],
                ) <==> now@ - squads[k].entries[j].updated_at@ <= 2 * ttl_secs * NANOS_PER_SEC)
        }),
{
    let mapped = squads.map_values(|s: SquadLocationsView| swept(s, now, ttl_secs));
    let after = mapped.filter(occupied());
    let id = squads[k].squad_id;
    let keep = kept_at(now, ttl_secs);
    let kept = squads[k].entries.filter(keep);
    lemma_cleanup_keeps_wf(squads, now, ttl_secs);
    lemma_wf_squad_index(squads, k);
    assert(mapped[k] == swept(squads[k], now, ttl_secs));
    if kept.len() > 0 {
        assert(occupied()(mapped[k]));
        mapped.lemma_filter_contains(occupied(), k);
        let b = choose|b: int| 0 <= b < after.len() && after[b] == mapped[k];
        lemma_wf_squad_index(after, b);
    } else if has_squad(after, id) {
        let b = squad_index(after, id);
        assert(after.contains(after[b]));
        mapped.lemma_filter_contains_rev(occupied(), after[b]);
        let a = choose|a: int| 0 <= a < mapped.len() && mapped[a] == after[b];
        assert(squads[a].squad_id == id);
        lemma_wf_squad_index(squads, a);
        mapped.lemma_filter_pred(occupied(), b);
    } else {
        assert(kept =~= Seq::<StoredLocationView>::empty());
    }
    assert forall|j: int| 0 <= j < squads[k].entries.len() implies (kept.contains(
        #[trigger] squads[k].entries[j],
    ) <==> now@ - squads[k].entries[j].updated_at@ <= 2 * ttl_secs * NANOS_PER_SEC) by {
        let entry = squads[k].entries[j];
        if keep(entry) {
            squads[k].entries.lemma_filter_contains(keep, j);
        }
        if kept.contains(entry) {
            let i = choose|i: int| 0 <= i < kept.len() && kept[i] == entry;
            squads[k].entries.lemma_filter_pred(keep, i);
        }
    }
}

/// After a cleanup every squad that the store knows has a location, and
/// was known before.
pub proof fn lemma_cleanup_leaves_no_empty_squad(
    squads: Seq<SquadLocationsView>,
    now: Timestamp,
    ttl_secs: i64,
    b: int,
)
    requires
        store_wf(squads),
        0 <= b < after_cleanup(squads, now, ttl_secs).len(),
    ensures
        after_cleanup(squads, now, ttl_secs)[b].entries.len() > 0,
        has_squad(squads, after_cleanup(squads, now, ttl_secs)[b].squad_id),
{
    let mapped = squads.map_values(|s: SquadLocationsView| swept(s, now, ttl_secs));
    let after = mapped.filter(occupied());
    mapped.lemma_filter_pred(occupied(), b);
    assert(after.contains(after[b]));
    mapped.lemma_filter_contains_rev(occupied(), after[b]);
    let a = choose|a: int| 0 <= a < mapped.len() && mapped[a] == after[b];
    assert(squads[a].squad_id == after[b].squad_id);
}

/// Stores member locations with TTL
pub struct LocationStore {
    /// One entry for each squad with locations
    locations: Vec<SquadLocations>,
    /// TTL for locations in seconds
    ttl_secs: i64,
}

/// The views of a list of squad entries, in order.
spec fn squad_views(squads: Seq<SquadLocations>) -> Seq<SquadLocationsView> {
    squads.map_values(|s: SquadLocations| s@)
}

impl View for LocationStore {
    type V = LocationStoreView;

    closed spec fn view(&self) -> LocationStoreView {
        LocationStoreView { ttl_secs: self.ttl_secs, squads: squad_views(self.locations@) }
    }
}

/// The place of the location of the member `id`.
fn find_entry(entries: &Vec<StoredLocation>, id: Id) -> (at: Option<usize>)
    ensures
        match at {
            Some(j) => j < entries@.len() && entry_views(entries@)[j as int].member_id == id,
            None => !has_entry(entry_views(entries@), id),
        },
{
    let mut i: usize = 0;
    while i < entries.len()
        invariant
            i <= entries@.len(),
            forall|j: int| 0 <= j < i ==> (#[trigger] entry_views(entries@)[j]).member_id != id,
        decreases entries@.len() - i,
    {
        if entries[i].member_id == id {
            assert(entry_views(entries@)[i as int].member_id == id);
            return Some(i);
        }
        i += 1;
    }
    None
}

/// Writes `entry` into `entries`, over the member's earlier location if
/// there is one.
fn write_entry(entries: &mut Vec<StoredLocation>, entry: StoredLocation)
    requires
        entries_wf(entry_views(old(entries)@)),
    ensures
        entry_views(final(entries)@) == entries_with(entry_views(old(entries)@), entry@),
        entries_wf(entry_views(final(entries)@)),
{
    proof {
        lemma_entries_with_wf(entry_views(entries@), entry@);
    }
    match find_entry(entries, entry.member_id) {
        Some(j) => {
            proof {
                lemma_wf_entry_index(entry_views(entries@), j as int);
                assert(entry_views(entries@.update(j as int, entry)) =~= entry_views(
                    entries@,
                ).update(j as int, entry@));
            }
            entries[j] = entry;
        },
        None => {
            proof {
                assert(entry_views(entries@.push(entry)) =~= entry_views(entries@).push(entry@));
            }
            entries.push(entry);
        },
    }
}

/// Drops from `entries` the locations that are due for removal at `now`.
fn sweep_entries(entries: &mut Vec<StoredLocation>, now: Timestamp, ttl_secs: i64)
    requires
        entries_wf(entry_views(old(entries)@)),
    ensures
        entry_views(final(entries)@) == entry_views(old(entries)@).filter(kept_at(now, ttl_secs)),
        entries_wf(entry_views(final(entries)@)),
{
    let ghost keep = kept_at(now, ttl_secs);
    let ghost before = entry_views(entries@);
    let mut i: usize = 0;
    let ghost mut dropped: int = 0;
    proof {
        lemma_sweep_start(before, keep);
    }
    while i < entries.len()
        invariant
            entries_wf(entry_views(entries@)),
            i <= entries@.len(),
            0 <= dropped,
            dropped + entries@.len() == before.len(),
            keep == kept_at(now, ttl_secs),
            entry_views(entries@).subrange(0, i as int) == before.subrange(0, i + dropped).filter(
                keep,
            ),
            entry_views(entries@).subrange(i as int, entries@.len() as int) == before.subrange(
                i + dropped,
                before.len() as int,
            ),
        decreases entries@.len() - i,
    {
        proof {
            lemma_sweep_step(before, entry_views(entries@), keep, i as int, dropped);
        }
        if !now.elapsed_exceeds_twice(entries[i].updated_at, ttl_secs) {
            i += 1;
        } else {
            proof {
                lemma_entries_remove_wf(entry_views(entries@), i as int);
                assert(entry_views(entries@.remove(i as int)) =~= entry_views(entries@).remove(
                    i as int,
                ));
                dropped = dropped + 1;
            }
            entries.remove(i);
        }
    }
    proof {
        lemma_sweep_end(before, entry_views(entries@), keep);
    }
}

impl LocationStore {
    /// The invariant of the store.
    pub open spec fn wf(&self) -> bool {
        store_wf(self@.squads)
    }

    pub fn new() -> (store: LocationStore)
        ensures
            store@.ttl_secs == DEFAULT_TTL_SECS,
            store@.squads == Seq::<SquadLocationsView>::empty(),
            store.wf(),
    {
        LocationStore::with_ttl(DEFAULT_TTL_SECS)
    }

    pub fn with_ttl(ttl_secs: i64) -> (store: LocationStore)
        ensures
            store@.ttl_secs == ttl_secs,
            store@.squads == Seq::<SquadLocationsView>::empty(),
            store.wf(),
    {
        let store = LocationStore { locations: Vec::new(), ttl_secs };
        proof {
            reveal(store_wf);
            assert(store@.squads =~= Seq::<SquadLocationsView>::empty());
        }
        store
    }

    /// The place of the squad `id`.
    fn find_squad(&self, id: Id) -> (at: Option<usize>)
        ensures
            match at {
                Some(k) => k < self.locations@.len() && self@.squads[k as int].squad_id == id,
                None => !has_squad(self@.squads, id),
            },
    {
        let mut i: usize = 0;
        while i < self.locations.len()
            invariant
                i <= self.locations@.len(),
                self@.squads.len() == self.locations@.len(),
                forall|j: int| 0 <= j < i ==> (#[trigger] self@.squads[j]).squad_id != id,
            decreases self.locations@.len() - i,
        {
            if self.locations[i].squad_id == id {
                return Some(i);
            }
            i += 1;
        }
        None
    }

    /// Takes out the squad at the place `k`.
    fn drop_squad(&mut self, k: usize)
        requires
            k < old(self)@.squads.len(),
        ensures
            final(self)@.squads == old(self)@.squads.remove(k as int),
            final(self)@.ttl_secs == old(self)@.ttl_secs,
    {
        proof {
            assert(squad_views(self.locations@.remove(k as int)) =~= squad_views(
                self.locations@,
            ).remove(k as int));
        }
        self.locations.remove(k);
    }

    /// Update a member's location, written at the instant `now`
    pub fn update_location_at(
        &mut self,
        squad_id: Id,
        member_id: Id,
        display_name: String,
        location: GeoPoint,
        now: Timestamp,
    )
        requires
            old(self).wf(),
        ensures
            final(self).wf(),
            final(self)@.ttl_secs == old(self)@.ttl_secs,
            final(self)@.squads == after_update(
                old(self)@.squads,
                squad_id,
                StoredLocationView {
                    member_id,
                    display_name: display_name@,
                    location,
                    updated_at: now,
                },
            ),
    {
        let entry = StoredLocation { member_id, display_name, location, updated_at: now };
        match self.find_squad(squad_id) {
            Some(k) => {
                proof {
                    lemma_wf_squad_index(old(self)@.squads, k as int);
                    lemma_wf_entries(old(self)@.squads, k as int);
                    lemma_entries_with_wf(old(self)@.squads[k as int].entries, entry@);
                    lemma_update_keeps_wf(
                        old(self)@.squads,
                        k as int,
                        SquadLocationsView {
                            squad_id,
                            entries: entries_with(old(self)@.squads[k as int].entries, entry@),
                        },
                    );
                }
                write_entry(&mut self.locations[k].entries, entry);
                proof {
                    assert(self@.squads =~= old(self)@.squads.update(
                        k as int,
                        SquadLocationsView {
                            squad_id,
                            entries: entries_with(old(self)@.squads[k as int].entries, entry@),
                        },
                    ));
                }
            },
            None => {
                let mut entries: Vec<StoredLocation> = Vec::new();
                entries.push(entry);
                let squad = SquadLocations { squad_id, entries };
                proof {
                    reveal(entries_wf);
                    assert(squad@.entries =~= seq![entry@]);
                    lemma_push_keeps_wf(old(self)@.squads, squad@);
                    assert(squad_views(self.locations@.push(squad)) =~= squad_views(
                        self.locations@,
                    ).push(squad@));
                }
                self.locations.push(squad);
            },
        }
    }

    /// Update a member's location
    pub fn update_location(
        &mut self,
        squad_id: Id,
        member_id: Id,
        display_name: String,
        location: GeoPoint,
    )
        requires
            old(self).wf(),
        ensures
            final(self).wf(),
            final(self)@.ttl_secs == old(self)@.ttl_secs,
            exists|now: Timestamp|
                now.in_unix_range() && final(self)@.squads == #[trigger] after_update(
                    old(self)@.squads,
                    squad_id,
                    StoredLocationView {
                        member_id,
                        display_name: display_name@,
                        location,
                        updated_at: now,
                    },
                ),
    {
        let now = Timestamp::now();
        self.update_location_at(squad_id, member_id, display_name, location, now);
        assert(self@.squads == after_update(
            old(self)@.squads,
            squad_id,
            StoredLocationView { member_id, display_name: display_name@, location, updated_at: now },
        ));
    }

    /// Get all locations for a squad, as seen at the instant `now`
    pub fn get_squad_locations_at(&self, squad_id: &Id, now: Timestamp) -> (locations: Vec<
        MemberLocation,
    >)
        requires
            self.wf(),
        ensures
            crate::models::member_location_views(locations@) == squad_report(
                self@.squads,
                *squad_id,
                now,
                self@.ttl_secs,
            ),
    {
        let mut locations: Vec<MemberLocation> = Vec::new();
        let k = match self.find_squad(*squad_id) {
            Some(k) => k,
            None => {
                assert(crate::models::member_location_views(locations@) =~= squad_report(
                    self@.squads,
                    *squad_id,
                    now,
                    self@.ttl_secs,
                ));
                return locations;
            },
        };
        proof {
            lemma_wf_squad_index(self@.squads, k as int);
        }
        let entries = &self.locations[k].entries;
        let mut i: usize = 0;
        while i < entries.len()
            invariant
                i <= entries@.len(),
                locations@.len() == i,
                forall|j: int|
                    0 <= j < i ==> (#[trigger] locations@[j])@ == report(
                        entry_views(entries@)[j],
                        now,
                        self@.ttl_secs,
                    ),
            decreases entries@.len() - i,
        {
            let entry = &entries[i];
            locations.push(
                MemberLocation {
                    member_id: entry.member_id,
                    display_name: entry.display_name.clone(),
                    location: entry.location,
                    updated_at: entry.updated_at,
                    is_stale: now.elapsed_exceeds(entry.updated_at, self.ttl_secs),
                },
            );
            i += 1;
        }
        proof {
            assert(crate::models::member_location_views(locations@) =~= squad_report(
                self@.squads,
                *squad_id,
                now,
                self@.ttl_secs,
            ));
        }
        locations
    }

    /// Get all locations for a squad
    pub fn get_squad_locations(&self, squad_id: &Id) -> (locations: Vec<MemberLocation>)
        requires
            self.wf(),
        ensures
            exists|now: Timestamp|
                now.in_unix_range() && crate::models::member_location_views(locations@) == #[trigger] squad_report(
                    self@.squads,
                    *squad_id,
                    now,
                    self@.ttl_secs,
                ),
    {
        let now = Timestamp::now();
        let locations = self.get_squad_locations_at(squad_id, now);
        assert(crate::models::member_location_views(locations@) == squad_report(
            self@.squads,
            *squad_id,
            now,
            self@.ttl_secs,
        ));
        locations
    }

    /// Remove a member's location (when they leave)
    pub fn remove_member(&mut self, squad_id: &Id, member_id: &Id)
        requires
            old(self).wf(),
        ensures
            final(self).wf(),
            final(self)@.ttl_secs == old(self)@.ttl_secs,
            final(self)@.squads == after_remove_member(old(self)@.squads, *squad_id, *member_id),
    {
        let k = match self.find_squad(*squad_id) {
            Some(k) => k,
            None => {
                return ;
            },
        };
        proof {
            lemma_wf_squad_index(old(self)@.squads, k as int);
            lemma_wf_entries(old(self)@.squads, k as int);
        }
        let j = match find_entry(&self.locations[k].entries, *member_id) {
            Some(j) => j,
            None => {
                return ;
            },
        };
        proof {
            let entries = old(self)@.squads[k as int].entries;
            lemma_wf_entry_index(entries, j as int);
            lemma_entries_remove_wf(entries, j as int);
            lemma_update_keeps_wf(
                old(self)@.squads,
                k as int,
                SquadLocationsView { squad_id: *squad_id, entries: entries.remove(j as int) },
            );
            assert(entry_views(self.locations@[k as int].entries@.remove(j as int)) =~= entries.remove(
                j as int,
            ));
        }
        self.locations[k].entries.remove(j);
        proof {
            assert(self@.squads =~= old(self)@.squads.update(
                k as int,
                SquadLocationsView {
                    squad_id: *squad_id,
                    entries: old(self)@.squads[k as int].entries.remove(j as int),
                },
            ));
        }
    }

    /// Remove all locations for a squad
    pub fn remove_squad(&mut self, squad_id: &Id)
        requires
            old(self).wf(),
        ensures
            final(self).wf(),
            final(self)@.ttl_secs == old(self)@.ttl_secs,
            final(self)@.squads == after_remove_squad(old(self)@.squads, *squad_id),
    {
        match self.find_squad(*squad_id) {
            Some(k) => {
                proof {
                    lemma_wf_squad_index(old(self)@.squads, k as int);
                    lemma_remove_keeps_wf(old(self)@.squads, k as int);
                }
                self.drop_squad(k);
            },
            None => {},
        }
    }

    /// Drops, in every squad, the locations that are due for removal at
    /// `now`.
    fn sweep_all(&mut self, now: Timestamp)
        requires
            old(self).wf(),
        ensures
            final(self).wf(),
            final(self)@.ttl_secs == old(self)@.ttl_secs,
            final(self)@.squads == old(self)@.squads.map_values(
                |s: SquadLocationsView| swept(s, now, old(self)@.ttl_secs),
            ),
    {
        let ghost before = self@.squads;
        let ttl_secs = self.ttl_secs;
        let mut k: usize = 0;
        while k < self.locations.len()
            invariant
                self.wf(),
                self.ttl_secs == ttl_secs,
                k <= self.locations@.len(),
                self@.squads.len() == self.locations@.len(),
                self@.squads.len() == before.len(),
                forall|i: int| 0 <= i < k ==> (#[trigger] self@.squads[i]) == swept(
                    before[i],
                    now,
                    ttl_secs,
                ),
                forall|i: int| k <= i < before.len() ==> (#[trigger] self@.squads[i]) == before[i],
            decreases self.locations@.len() - k,
        {
            let ghost at_k = self@.squads;
            proof {
                lemma_wf_entries(at_k, k as int);
            }
            sweep_entries(&mut self.locations[k].entries, now, ttl_secs);
            proof {
                let next = swept(before[k as int], now, ttl_secs);
                assert(self@.squads =~= at_k.update(k as int, next));
                lemma_update_keeps_wf(at_k, k as int, next);
            }
            k += 1;
        }
        proof {
            assert(self@.squads =~= before.map_values(
                |s: SquadLocationsView| swept(s, now, ttl_secs),
            ));
        }
    }

    /// Drops the squads that have no location left.
    fn drop_empty(&mut self)
        requires
            old(self).wf(),
        ensures
            final(self).wf(),
            final(self)@.ttl_secs == old(self)@.ttl_secs,
            final(self)@.squads == old(self)@.squads.filter(occupied()),
    {
        let ghost keep = occupied();
        let ghost before = self@.squads;
        let mut i: usize = 0;
        let ghost mut dropped: int = 0;
        proof {
            lemma_sweep_start(before, keep);
        }
        while i < self.locations.len()
            invariant
                self.wf(),
                self@.ttl_secs == old(self)@.ttl_secs,
                self@.squads.len() == self.locations@.len(),
                i <= self.locations@.len(),
                0 <= dropped,
                dropped + self@.squads.len() == before.len(),
                keep == occupied(),
                self@.squads.subrange(0, i as int) == before.subrange(0, i + dropped).filter(keep),
                self@.squads.subrange(i as int, self@.squads.len() as int) == before.subrange(
                    i + dropped,
                    before.len() as int,
                ),
            decreases self.locations@.len() - i,
        {
            proof {
                lemma_sweep_step(before, self@.squads, keep, i as int, dropped);
            }
            if !self.locations[i].entries.is_empty() {
                assert(keep(self@.squads[i as int]));
                i += 1;
            } else {
                assert(!keep(self@.squads[i as int]));
                proof {
                    lemma_remove_keeps_wf(self@.squads, i as int);
                    dropped = dropped + 1;
                }
                self.drop_squad(i);
            }
        }
        proof {
            lemma_sweep_end(before, self@.squads, keep);
        }
    }

    /// Clean up the locations that are due for removal at the instant `now`
    pub fn cleanup_stale_at(&mut self, now: Timestamp)
        requires
            old(self).wf(),
        ensures
            final(self).wf(),
            final(self)@.ttl_secs == old(self)@.ttl_secs,
            final(self)@.squads == after_cleanup(old(self)@.squads, now, old(self)@.ttl_secs),
    {
        self.sweep_all(now);
        // Remove empty squads
        self.drop_empty();
    }

    /// Clean up stale locations (call periodically)
    pub fn cleanup_stale(&mut self)
        requires
            old(self).wf(),
        ensures
            final(self).wf(),
            final(self)@.ttl_secs == old(self)@.ttl_secs,
            exists|now: Timestamp|
                now.in_unix_range() && final(self)@.squads == #[trigger] after_cleanup(
                    old(self)@.squads,
                    now,
                    old(self)@.ttl_secs,
                ),
    {
        let now = Timestamp::now();
        self.cleanup_stale_at(now);
        assert(self@.squads == after_cleanup(old(self)@.squads, now, old(self)@.ttl_secs));
    }
}

} // verus!
