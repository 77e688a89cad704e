//! The list of accessories a server exposes: their ids, and what reading or writing a
//! characteristic answers.

use vstd::prelude::*;
use crate::characteristic::Perm;

verus! {

/// Implemented by what an `AccessoryList` holds: every type is a member.
pub trait AccessoryListMember {}

impl<T> AccessoryListMember for T {}

/// Errors of the accessory list.
#[derive(Debug, Clone, Copy, PartialEq, Eq)]
pub enum AccessoryListError {
    /// No accessory of the given id is in the list.
    NotFound,
}

/// A list of accessories, each with the id it was given when added, and the next id
/// to give.
pub struct AccessoryList<M: AccessoryListMember, E> {
    entries: Vec<(u64, M)>,
    event_emitter: E,
    id_count: u64,
}

impl<M: AccessoryListMember, E> AccessoryList<M, E> {
    /// The ids of the accessories, in the order they were added.
    pub closed spec fn spec_ids(&self) -> Seq<u64> {
        self.entries@.map_values(|e: (u64, M)| e.0)
    }

    /// The accessories, in the order they were added.
    pub closed spec fn spec_members(&self) -> Seq<M> {
        self.entries@.map_values(|e: (u64, M)| e.1)
    }

    /// The id the next accessory gets.
    pub closed spec fn spec_next_id(&self) -> u64 {
        self.id_count
    }

    /// The event emitter the list was made with.
    pub closed spec fn spec_event_emitter(&self) -> E {
        self.event_emitter
    }

    #[verifier::type_invariant]
    closed spec fn inv(&self) -> bool {
        &&& self.id_count >= 1
        &&& forall|i: int| 0 <= i < self.entries@.len() ==> 1 <= #[trigger] self.entries@[i].0 < self.id_count
        &&& forall|i: int, j: int| 0 <= i < j < self.entries@.len() ==> #[trigger] self.entries@[i].0 < #[trigger] self.entries@[j].0
    }

    /// An empty list whose first accessory gets id 1.
    pub fn new(event_emitter: E) -> (r: AccessoryList<M, E>)
        ensures
            r.spec_ids() == Seq::<u64>::empty(),
            r.spec_members() == Seq::<M>::empty(),
            r.spec_next_id() == 1,
            r.spec_event_emitter() == event_emitter,
    {
        let r = AccessoryList { entries: Vec::new(), event_emitter, id_count: 1 };
        assert(r.spec_ids() =~= Seq::<u64>::empty());
        assert(r.spec_members() =~= Seq::<M>::empty());
        r
    }

    /// The event emitter the accessories' characteristics report to.
    pub fn event_emitter(&self) -> (r: &E)
        ensures
            *r == self.spec_event_emitter(),
    {
        &self.event_emitter
    }

    /// Where the accessory of id `id` stands, if it is in the list.
    fn position(&self, id: u64) -> (r: Option<usize>)
        ensures
            r is Some <==> self.spec_ids().contains(id),
            r matches Some(i) ==> i < self.spec_ids().len() && self.spec_ids()[i as int] == id,
    {
        let mut i: usize = 0;
        while i < self.entries.len()
            invariant
                i <= self.entries@.len(),
                forall|j: int| 0 <= j < i ==> self.entries@[j].0 != id,
            decreases self.entries@.len() - i,
        {
            if self.entries[i].0 == id {
                assert(self.spec_ids()[i as int] == id);
                return Some(i);
            }
            i = i + 1;
        }
        proof {
            if self.spec_ids().contains(id) {
                let k = choose|k: int| 0 <= k < self.spec_ids().len() && self.spec_ids()[k] == id;
                assert(self.entries@[k].0 == id);
            }
        }
        None
    }

    /// The accessory of id `id`, if it is in the list.
    pub fn get(&self, id: u64) -> (r: Option<&M>)
        ensures
            r is Some <==> self.spec_ids().contains(id),
            r matches Some(m) ==> exists|i: int|
                0 <= i < self.spec_ids().len() && self.spec_ids()[i] == id && self.spec_members()[i] == *m,
    {
        match self.position(id) {
            Some(i) => Some(&self.entries[i].1),
            None => None,
        }
    }

    /// The number of accessories.
    pub fn len(&self) -> (r: usize)
        ensures
            r == self.spec_ids().len(),
    {
        self.entries.len()
    }

    /// The id the next accessory gets.
    pub fn next_id(&self) -> (r: u64)
        ensures
            r == self.spec_next_id(),
    {
        self.id_count
    }

    /// Adds an accessory under the next id, which it returns; the id after it comes
    /// next. The id is greater than every id in the list, so no two accessories ever
    /// share one.
    pub fn add_accessory(&mut self, accessory: M) -> (r: u64)
        requires
            old(self).spec_next_id() < u64::MAX,
        ensures
            r == old(self).spec_next_id(),
            forall|i: int| 0 <= i < old(self).spec_ids().len() ==> old(self).spec_ids()[i] < r,
            final(self).spec_ids() == old(self).spec_ids().push(r),
            final(self).spec_members() == old(self).spec_members().push(accessory),
            final(self).spec_next_id() == r + 1,
            final(self).spec_event_emitter() == old(self).spec_event_emitter(),
    {
        proof {
            use_type_invariant(&*self);
        }
        let id = self.id_count;
        self.id_count = id + 1;
        let ghost before = self.entries@;
        let mut entries: Vec<(u64, M)> = Vec::new();
        std::mem::swap(&mut entries, &mut self.entries);
        entries.push((id, accessory));
        proof {
            assert(entries@ == before.push((id, accessory)));
            assert(entries@.map_values(|e: (u64, M)| e.0) =~= before.map_values(|e: (u64, M)| e.0).push(id));
            assert(entries@.map_values(|e: (u64, M)| e.1) =~= before.map_values(|e: (u64, M)| e.1).push(accessory));
        }
        std::mem::swap(&mut entries, &mut self.entries);
        id
    }

    /// Removes the accessory of id `id` and hands it back; `NotFound` when there is none.
    pub fn remove_accessory(&mut self, id: u64) -> (r: Result<M, AccessoryListError>)
        ensures
            !old(self).spec_ids().contains(id) ==> r == Err::<M, AccessoryListError>(AccessoryListError::NotFound)
                && final(self).spec_ids() == old(self).spec_ids()
                && final(self).spec_members() == old(self).spec_members(),
            old(self).spec_ids().contains(id) ==> exists|i: int|
                0 <= i < old(self).spec_ids().len() && old(self).spec_ids()[i] == id
                    && r == Ok::<M, AccessoryListError>(old(self).spec_members()[i])
                    && final(self).spec_ids() == old(self).spec_ids().remove(i)
                    && final(self).spec_members() == old(self).spec_members().remove(i),
            !final(self).spec_ids().contains(id),
            final(self).spec_next_id() == old(self).spec_next_id(),
            final(self).spec_event_emitter() == old(self).spec_event_emitter(),
    {
        proof {
            use_type_invariant(&*self);
        }
        let i = match self.position(id) {
            Some(i) => i,
            None => return Err(AccessoryListError::NotFound),
        };
        let ghost old_entries = self.entries@;
        let ghost old_ids = self.spec_ids();
        let ghost old_members = self.spec_members();
        let mut entries: Vec<(u64, M)> = Vec::new();
        std::mem::swap(&mut entries, &mut self.entries);
        let (_, m) = entries.remove(i);
        proof {
            assert(entries@ =~= old_entries.remove(i as int));
            let ids = entries@.map_values(|e: (u64, M)| e.0);
            assert(ids =~= old_ids.remove(i as int));
            assert(entries@.map_values(|e: (u64, M)| e.1) =~= old_members.remove(i as int));
            assert forall|a: int, b: int| 0 <= a < b < entries@.len() implies #[trigger] entries@[a].0 < #[trigger] entries@[b].0 by {
                let a2 = if a < i { a } else { a + 1 };
                let b2 = if b < i { b } else { b + 1 };
                assert(entries@[a] == old_entries[a2] && entries@[b] == old_entries[b2]);
                assert(old_entries[a2].0 < old_entries[b2].0);
            }
            assert forall|a: int| 0 <= a < entries@.len() implies 1 <= #[trigger] entries@[a].0 < self.id_count by {
                let a2 = if a < i { a } else { a + 1 };
                assert(entries@[a] == old_entries[a2]);
            }
            if ids.contains(id) {
                let j = choose|j: int| 0 <= j < ids.len() && ids[j] == id;
                let j2 = if j < i { j } else { j + 1 };
                assert(old_entries[j2].0 == id && old_entries[i as int].0 == id);
                if j2 < i {
                    assert(old_entries[j2].0 < old_entries[i as int].0);
                } else {
                    assert(old_entries[i as int].0 < old_entries[j2].0);
                }
            }
            assert(old_ids[i as int] == id);
        }
        std::mem::swap(&mut entries, &mut self.entries);
        Ok(m)
    }
}

/// The ids 1, 2, ..., `k`.
pub open spec fn count_up(k: nat) -> Seq<u64> {
    Seq::new(k, |i: int| (i + 1) as u64)
}

/// A list made by `new` and then added to `k` times holds the ids 1 to `k`, in order,
/// and gives `k + 1` next: `lists[0]` is as `new` leaves a list, and each later list is
/// as `add_accessory` leaves the one before it.
pub proof fn lemma_additions_count_up<M: AccessoryListMember, E>(lists: Seq<AccessoryList<M, E>>, k: int)
    requires
        0 <= k < lists.len(),
        lists[0].spec_ids() == Seq::<u64>::empty(),
        lists[0].spec_next_id() == 1,
        forall|i: int|
            1 <= i < lists.len() ==> #[trigger] lists[i].spec_ids() == lists[i - 1].spec_ids().push(
                lists[i - 1].spec_next_id(),
            ) && lists[i].spec_next_id() == lists[i - 1].spec_next_id() + 1,
    ensures
        lists[k].spec_ids() == count_up(k as nat),
        lists[k].spec_next_id() == k + 1,
    decreases k,
{
    if k == 0 {
        assert(count_up(0) =~= Seq::<u64>::empty());
    } else {
        lemma_additions_count_up(lists, k - 1);
        assert(lists[k].spec_ids() == lists[k - 1].spec_ids().push(lists[k - 1].spec_next_id()));
        assert(count_up((k - 1) as nat).push(k as u64) =~= count_up(k as nat));
    }
}

/// HAP status: success.
pub const STATUS_SUCCESS: i32 = 0;
/// HAP status: the characteristic cannot be written.
pub const STATUS_READ_ONLY_CHARACTERISTIC: i32 = -70404;
/// HAP status: the characteristic cannot be read.
pub const STATUS_WRITE_ONLY_CHARACTERISTIC: i32 = -70405;
/// HAP status: the characteristic does not send notifications.
pub const STATUS_NOTIFICATION_NOT_SUPPORTED: i32 = -70406;

/// Whether `perms` grants `p`.
pub fn has_perm(perms: &Vec<Perm>, p: Perm) -> (r: bool)
    ensures
        r == perms@.contains(p),
{
    let mut i: usize = 0;
    while i < perms.len()
        invariant
            i <= perms@.len(),
            forall|j: int| 0 <= j < i ==> perms@[j] != p,
        decreases perms@.len() - i,
    {
        if perms[i] == p {
            assert(perms@[i as int] == p);
            return true;
        }
        i = i + 1;
    }
    proof {
        if perms@.contains(p) {
            let k = choose|k: int| 0 <= k < perms@.len() && perms@[k] == p;
            assert(perms@[k] != p);
        }
    }
    false
}

/// What reading a characteristic reports: its value and the requested metadata,
/// permissions, type and notification flag when it is readable; otherwise only the
/// write-only status.
#[derive(Debug, Clone, Copy, PartialEq, Eq)]
pub struct ReadPlan {
    pub read_value: bool,
    pub include_meta: bool,
    pub include_perms: bool,
    pub include_type: bool,
    pub include_ev: bool,
    pub status: i32,
}

/// What reading a characteristic with permissions `perms` reports, given which extras
/// the controller asked for.
pub open spec fn spec_read_plan(perms: Seq<Perm>, meta: bool, perms_requested: bool, hap_type: bool, ev: bool) -> ReadPlan {
    let readable = perms.contains(Perm::PairedRead);
    ReadPlan {
        read_value: readable,
        include_meta: readable && meta,
        include_perms: readable && perms_requested,
        include_type: readable && hap_type,
        include_ev: readable && ev,
        status: if readable { STATUS_SUCCESS } else { STATUS_WRITE_ONLY_CHARACTERISTIC },
    }
}

/// What reading a characteristic with permissions `perms` reports, given which extras
/// the controller asked for (see `spec_read_plan`).
pub fn read_plan(perms: &Vec<Perm>, meta: bool, perms_requested: bool, hap_type: bool, ev: bool) -> (r: ReadPlan)
    ensures
        r.read_value == perms@.contains(Perm::PairedRead),
        r.include_meta == (perms@.contains(Perm::PairedRead) && meta),
        r.include_perms == (perms@.contains(Perm::PairedRead) && perms_requested),
        r.include_type == (perms@.contains(Perm::PairedRead) && hap_type),
        r.include_ev == (perms@.contains(Perm::PairedRead) && ev),
        r.status == if perms@.contains(Perm::PairedRead) { STATUS_SUCCESS } else { STATUS_WRITE_ONLY_CHARACTERISTIC },
        r == spec_read_plan(perms@, meta, perms_requested, hap_type, ev),
{
    if has_perm(perms, Perm::PairedRead) {
        ReadPlan {
            read_value: true,
            include_meta: meta,
            include_perms: perms_requested,
            include_type: hap_type,
            include_ev: ev,
            status: STATUS_SUCCESS,
        }
    } else {
        ReadPlan {
            read_value: false,
            include_meta: false,
            include_perms: false,
            include_type: false,
            include_ev: false,
            status: STATUS_WRITE_ONLY_CHARACTERISTIC,
        }
    }
}

/// What writing a characteristic does: the notification setting to record (if any),
/// whether to write the value, and the status to answer.
#[derive(Debug, Clone, Copy, PartialEq, Eq)]
pub struct WritePlan {
    pub set_event_notifications: Option<bool>,
    pub write_value: bool,
    pub status: i32,
}

/// What a write of a notification setting `ev` and (if `has_value`) a value does to a
/// characteristic with permissions `perms` (see `write_plan`).
pub open spec fn spec_write_plan(perms: Seq<Perm>, ev: Option<bool>, has_value: bool) -> WritePlan {
    WritePlan {
        set_event_notifications: if perms.contains(Perm::Events) { ev } else { None },
        write_value: has_value && perms.contains(Perm::PairedWrite),
        status: if has_value && !perms.contains(Perm::PairedWrite) {
            STATUS_READ_ONLY_CHARACTERISTIC
        } else if ev is Some && !perms.contains(Perm::Events) {
            STATUS_NOTIFICATION_NOT_SUPPORTED
        } else {
            STATUS_SUCCESS
        },
    }
}

/// What a write of a notification setting `ev` and (if `has_value`) a value does to a
/// characteristic with permissions `perms`: the setting is recorded where events are
/// permitted, the value written where paired writes are; a refused value answers
/// read-only, else a refused setting answers notification-not-supported.
pub fn write_plan(perms: &Vec<Perm>, ev: Option<bool>, has_value: bool) -> (r: WritePlan)
    ensures
        r.set_event_notifications == if perms@.contains(Perm::Events) { ev } else { None },
        r.write_value == (has_value && perms@.contains(Perm::PairedWrite)),
        r.status == if has_value && !perms@.contains(Perm::PairedWrite) {
            STATUS_READ_ONLY_CHARACTERISTIC
        } else if ev is Some && !perms@.contains(Perm::Events) {
            STATUS_NOTIFICATION_NOT_SUPPORTED
        } else {
            STATUS_SUCCESS
        },
        r == spec_write_plan(perms@, ev, has_value),
{
    let mut status = STATUS_SUCCESS;
    let mut set_event_notifications = None;
    if let Some(e) = ev {
        if has_perm(perms, Perm::Events) {
            set_event_notifications = Some(e);
        } else {
            status = STATUS_NOTIFICATION_NOT_SUPPORTED;
        }
    }
    let mut write_value = false;
    if has_value {
        if has_perm(perms, Perm::PairedWrite) {
            write_value = true;
        } else {
            status = STATUS_READ_ONLY_CHARACTERISTIC;
        }
    }
    WritePlan { set_event_notifications, write_value, status }
}

/// Where the first characteristic with instance id `iid` stands among `chars`, given as
/// (instance id, permissions).
fn position_of(chars: &Vec<(u64, Vec<Perm>)>, iid: u64) -> (r: Option<usize>)
    ensures
        match r {
            Some(i) => i < chars@.len() && chars@[i as int].0 == iid
                && forall|j: int| 0 <= j < i ==> #[trigger] chars@[j].0 != iid,
            None => forall|j: int| 0 <= j < chars@.len() ==> #[trigger] chars@[j].0 != iid,
        },
{
    let mut i: usize = 0;
    while i < chars.len()
        invariant
            i <= chars@.len(),
            forall|j: int| 0 <= j < i ==> #[trigger] chars@[j].0 != iid,
        decreases chars@.len() - i,
    {
        if chars[i].0 == iid {
            return Some(i);
        }
        i = i + 1;
    }
    None
}

/// What reading characteristic `iid` of an accessory answers, given the accessory's
/// characteristics as (instance id, permissions), in order: the position of the first
/// with that id and its read plan. When none has it (or the accessory is not there and
/// `chars` is empty), nothing is read and the answer is success.
pub fn read_answer(
    chars: &Vec<(u64, Vec<Perm>)>,
    iid: u64,
    meta: bool,
    perms_requested: bool,
    hap_type: bool,
    ev: bool,
) -> (r: (Option<usize>, ReadPlan))
    ensures
        match r.0 {
            Some(i) => i < chars@.len() && chars@[i as int].0 == iid
                && (forall|j: int| 0 <= j < i ==> #[trigger] chars@[j].0 != iid)
                && r.1 == spec_read_plan(chars@[i as int].1@, meta, perms_requested, hap_type, ev),
            None => (forall|j: int| 0 <= j < chars@.len() ==> #[trigger] chars@[j].0 != iid) && r.1 == (ReadPlan {
                read_value: false,
                include_meta: false,
                include_perms: false,
                include_type: false,
                include_ev: false,
                status: STATUS_SUCCESS,
            }),
        },
{
    match position_of(chars, iid) {
        Some(i) => (Some(i), read_plan(&chars[i].1, meta, perms_requested, hap_type, ev)),
        None => (
            None,
            ReadPlan {
                read_value: false,
                include_meta: false,
                include_perms: false,
                include_type: false,
                include_ev: false,
                status: STATUS_SUCCESS,
            },
        ),
    }
}

/// What writing characteristic `iid` of an accessory does, given the accessory's
/// characteristics as (instance id, permissions), in order: the position of the first
/// with that id and its write plan. When none has it, nothing is written and the answer
/// is success.
pub fn write_answer(chars: &Vec<(u64, Vec<Perm>)>, iid: u64, ev: Option<bool>, has_value: bool) -> (r: (
    Option<usize>,
    WritePlan,
))
    ensures
        match r.0 {
            Some(i) => i < chars@.len() && chars@[i as int].0 == iid
                && (forall|j: int| 0 <= j < i ==> #[trigger] chars@[j].0 != iid)
                && r.1 == spec_write_plan(chars@[i as int].1@, ev, has_value),
            None => (forall|j: int| 0 <= j < chars@.len() ==> #[trigger] chars@[j].0 != iid) && r.1 == (WritePlan {
                set_event_notifications: None,
                write_value: false,
                status: STATUS_SUCCESS,
            }),
        },
{
    match position_of(chars, iid) {
        Some(i) => (Some(i), write_plan(&chars[i].1, ev, has_value)),
        None => (None, WritePlan { set_event_notifications: None, write_value: false, status: STATUS_SUCCESS }),
    }
}

/// Records a controller's notification setting for `subscription` (accessory id,
/// instance id): subscribing adds it when absent; unsubscribing removes its first
/// occurrence when present; otherwise nothing changes.
pub fn update_subscriptions(subs: &mut Vec<(u64, u64)>, subscription: (u64, u64), ev: bool)
    ensures
        ev && !old(subs)@.contains(subscription) ==> final(subs)@ == old(subs)@.push(subscription),
        !ev && old(subs)@.contains(subscription) ==> exists|i: int|
            0 <= i < old(subs)@.len() && old(subs)@[i] == subscription
                && (forall|j: int| 0 <= j < i ==> old(subs)@[j] != subscription)
                && final(subs)@ == old(subs)@.remove(i),
        ev == old(subs)@.contains(subscription) ==> final(subs)@ == old(subs)@,
{
    let mut pos: Option<usize> = None;
    let mut i: usize = 0;
    while i < subs.len()
        invariant_except_break
            pos is None,
        invariant
            i <= subs@.len(),
            subs@ == old(subs)@,
            forall|j: int| 0 <= j < i ==> subs@[j] != subscription,
        ensures
            subs@ == old(subs)@,
            pos is None ==> !subs@.contains(subscription),
            pos matches Some(p) ==> p < subs@.len() && subs@[p as int] == subscription
                && forall|j: int| 0 <= j < p ==> subs@[j] != subscription,
        decreases subs@.len() - i,
    {
        if subs[i].0 == subscription.0 && subs[i].1 == subscription.1 {
            pos = Some(i);
            break;
        }
        i = i + 1;
    }
    proof {
        if pos is None && subs@.contains(subscription) {
            let k = choose|k: int| 0 <= k < subs@.len() && subs@[k] == subscription;
            assert(subs@[k] != subscription);
        }
    }
    match (ev, pos) {
        (true, None) => {
            subs.push(subscription);
        },
        (false, Some(p)) => {
            subs.remove(p);
        },
        _ => {},
    }
}

} // verus!
