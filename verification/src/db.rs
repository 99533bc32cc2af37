//! The projection of the log: applying one decoded entry to project state,
//! and the replay engine that folds an ordered entry sequence into a fresh
//! [`Project`], all-or-nothing.

use vstd::prelude::*;
use crate::date::Date;
use crate::entry::{LogEntry, SpecLogEntry, EntryKind, SpecEntryKind, Parameter, SpecParameter, SetKind};
use crate::error::{ApplyError, ReplayError, SpecReplayError};
use crate::item::{
    Item, SpecItem, ItemId, Size, LogRecord, SpecLogRecord, UserId, spec_new_item, sum_spent,
    lemma_sum_spent_bound,
};

verus! {

/// The project's own two fields: a title and a description.
#[derive(Debug, Clone, PartialEq, Eq)]
pub struct Details {
    pub title: String,
    pub description: String,
}

/// The mathematical reading of [`Details`].
pub struct SpecDetails {
    pub title: Seq<char>,
    pub description: Seq<char>,
}

impl View for Details {
    type V = SpecDetails;

    open spec fn view(&self) -> SpecDetails {
        SpecDetails { title: self.title@, description: self.description@ }
    }
}

impl Details {
    pub fn title(&self) -> (r: &str)
        ensures
            r@ == self@.title,
    {
        self.title.as_str()
    }

    pub fn description(&self) -> (r: &str)
        ensures
            r@ == self@.description,
    {
        self.description.as_str()
    }
}

/// The projected state of the whole project: its details and its items, in
/// creation order.
#[derive(Debug, Clone, PartialEq, Eq)]
pub struct Project {
    pub details: Details,
    pub items: Vec<Item>,
}

/// The mathematical reading of a [`Project`].
pub struct SpecProject {
    pub details: SpecDetails,
    pub items: Seq<SpecItem>,
}

impl View for Project {
    type V = SpecProject;

    open spec fn view(&self) -> SpecProject {
        SpecProject { details: self.details@, items: self.items.deep_view() }
    }
}

/// The state a replay starts from: no details, no items.
pub open spec fn spec_empty_project() -> SpecProject {
    SpecProject {
        details: SpecDetails { title: Seq::empty(), description: Seq::empty() },
        items: Seq::empty(),
    }
}

impl SpecProject {
    /// Consistency of projected state: every item is internally consistent
    /// and item identifiers are unique.
    pub open spec fn wf(self) -> bool {
        &&& forall|i: int| 0 <= i < self.items.len() ==> (#[trigger] self.items[i]).wf()
        &&& forall|i: int, j: int|
            0 <= i < j < self.items.len() ==> self.items[i].id != self.items[j].id
    }
}

/// The first position holding an item with the given id, if any.
pub open spec fn spec_find_item(items: Seq<SpecItem>, id: ItemId) -> Option<int>
    decreases items.len(),
{
    if items.len() == 0 {
        None
    } else if items[0].id == id {
        Some(0)
    } else {
        match spec_find_item(items.skip(1), id) {
            Some(i) => Some(i + 1),
            None => None,
        }
    }
}

/// What `spec_find_item` returns, spelled out: the first matching position,
/// or `None` when no item carries the id.
pub proof fn lemma_find_item(items: Seq<SpecItem>, id: ItemId)
    ensures
        match spec_find_item(items, id) {
            Some(i) => 0 <= i < items.len() && items[i].id == id && forall|j: int|
                0 <= j < i ==> (#[trigger] items[j]).id != id,
            None => forall|j: int| 0 <= j < items.len() ==> (#[trigger] items[j]).id != id,
        },
    decreases items.len(),
{
    if items.len() == 0 {
    } else if items[0].id == id {
    } else {
        lemma_find_item(items.skip(1), id);
        match spec_find_item(items.skip(1), id) {
            Some(i) => {
                assert(items.skip(1)[i] == items[i + 1]);
                assert forall|j: int| 0 <= j < i + 1 implies (#[trigger] items[j]).id != id by {
                    if j > 0 {
                        assert(items.skip(1)[j - 1] == items[j]);
                    }
                }
            },
            None => {
                assert forall|j: int| 0 <= j < items.len() implies (#[trigger] items[j]).id
                    != id by {
                    if j > 0 {
                        assert(items.skip(1)[j - 1] == items[j]);
                    }
                }
            },
        }
    }
}

/// One field assignment on one item. Fields are overwritten wholesale; a
/// due date is stored as the full instant the parameter carried; `Spent`
/// and `Message` belong to Log entries and assign nothing here.
pub open spec fn spec_set_param(it: SpecItem, p: SpecParameter) -> SpecItem {
    match p {
        SpecParameter::Title(t) => SpecItem { title: Some(t), ..it },
        SpecParameter::Description(t) => SpecItem { description: Some(t), ..it },
        SpecParameter::Size(q) => SpecItem { size: Some(q), ..it },
        SpecParameter::Remaining(q) => SpecItem { remaining: Some(q), ..it },
        SpecParameter::Priority(pr) => SpecItem { priority: Some(pr), ..it },
        SpecParameter::Owner(u) => SpecItem { owner: Some(u), ..it },
        SpecParameter::Duedate(d) => SpecItem { duedate: Some(d), ..it },
        SpecParameter::Kind(k) => SpecItem { item_kind: Some(k), ..it },
        SpecParameter::Status(st) => SpecItem { status: st, ..it },
        SpecParameter::Spent(_) => it,
        SpecParameter::Message(_) => it,
    }
}

/// Field assignments applied in list order: when one key appears twice, the
/// later value wins.
pub open spec fn spec_set_params(it: SpecItem, ps: Seq<SpecParameter>) -> SpecItem
    decreases ps.len(),
{
    if ps.len() == 0 {
        it
    } else {
        spec_set_param(spec_set_params(it, ps.drop_last()), ps.last())
    }
}

/// Field assignments never touch an item's identity, its log, or its
/// accumulated hours.
pub proof fn lemma_set_params_frame(it: SpecItem, ps: Seq<SpecParameter>)
    ensures
        spec_set_params(it, ps).id == it.id,
        spec_set_params(it, ps).log == it.log,
        spec_set_params(it, ps).hours_spent == it.hours_spent,
    decreases ps.len(),
{
    if ps.len() > 0 {
        lemma_set_params_frame(it, ps.drop_last());
    }
}

/// One detail assignment on the project itself: only titles and
/// descriptions land here; every other key assigns nothing.
pub open spec fn spec_set_detail(d: SpecDetails, p: SpecParameter) -> SpecDetails {
    match p {
        SpecParameter::Title(t) => SpecDetails { title: t, ..d },
        SpecParameter::Description(t) => SpecDetails { description: t, ..d },
        _ => d,
    }
}

pub open spec fn spec_set_details(d: SpecDetails, ps: Seq<SpecParameter>) -> SpecDetails
    decreases ps.len(),
{
    if ps.len() == 0 {
        d
    } else {
        spec_set_detail(spec_set_details(d, ps.drop_last()), ps.last())
    }
}

/// The hours delta a Log entry records: the amount of its last `Spent`
/// parameter, or 0 when it carries none.
pub open spec fn spec_last_spent(ps: Seq<SpecParameter>) -> i32
    decreases ps.len(),
{
    if ps.len() == 0 {
        0
    } else {
        match ps.last() {
            SpecParameter::Spent(q) => q.spec_amount(),
            _ => spec_last_spent(ps.drop_last()),
        }
    }
}

/// The remaining quantity a Log entry snapshots: its last `Remaining`
/// parameter, or the given current value when it carries none.
pub open spec fn spec_last_remaining(ps: Seq<SpecParameter>, cur: Option<Size>) -> Option<Size>
    decreases ps.len(),
{
    if ps.len() == 0 {
        cur
    } else {
        match ps.last() {
            SpecParameter::Remaining(q) => Some(q),
            _ => spec_last_remaining(ps.drop_last(), cur),
        }
    }
}

/// The message a Log entry records: its last `Message` parameter, or the
/// empty text.
pub open spec fn spec_last_message(ps: Seq<SpecParameter>) -> Seq<char>
    decreases ps.len(),
{
    if ps.len() == 0 {
        Seq::empty()
    } else {
        match ps.last() {
            SpecParameter::Message(m) => m,
            _ => spec_last_message(ps.drop_last()),
        }
    }
}

/// One Log entry applied to one item: append one record and accumulate the
/// hours delta; a `Remaining` parameter also updates the item's remaining
/// quantity.
pub open spec fn spec_apply_log(
    it: SpecItem,
    ps: Seq<SpecParameter>,
    date: Date,
    user: Seq<char>,
) -> SpecItem {
    let delta = spec_last_spent(ps);
    let rem = spec_last_remaining(ps, it.remaining);
    let rec = SpecLogRecord {
        spent: delta,
        remaining: rem,
        message: spec_last_message(ps),
        created_at: date,
        created_by: user,
    };
    SpecItem {
        remaining: rem,
        hours_spent: (it.hours_spent + delta) as i128,
        log: it.log.push(rec),
        ..it
    }
}

/// One decoded entry applied to project state, in entry order semantics:
/// - `Create` instantiates a fresh item, and fails with `DuplicateItem` when
///   the id already exists;
/// - `Assign` on an item overwrites the named fields (last assignment in
///   the list wins) and fails with `ItemNotFound` when no `Create` for the
///   id has been folded in;
/// - `Assign` on the project updates the project details only;
/// - `Log` appends one work record and fails with `ItemNotFound` likewise.
/// On failure the state is returned unchanged.
pub open spec fn spec_apply(p: SpecProject, e: SpecLogEntry) -> Result<SpecProject, ApplyError> {
    match e.entry_kind {
        SpecEntryKind::Create { id } => match spec_find_item(p.items, id) {
            Some(_) => Err(ApplyError::DuplicateItem),
            None => Ok(
                SpecProject { items: p.items.push(spec_new_item(id, e.date, e.userid)), ..p },
            ),
        },
        SpecEntryKind::Assign { kind: SetKind::Project, params } => Ok(
            SpecProject { details: spec_set_details(p.details, params), ..p },
        ),
        SpecEntryKind::Assign { kind: SetKind::Item(id), params } => match spec_find_item(
            p.items,
            id,
        ) {
            None => Err(ApplyError::ItemNotFound),
            Some(i) => Ok(
                SpecProject { items: p.items.update(i, spec_set_params(p.items[i], params)), ..p },
            ),
        },
        SpecEntryKind::Log { id, params } => match spec_find_item(p.items, id) {
            None => Err(ApplyError::ItemNotFound),
            Some(i) => Ok(
                SpecProject {
                    items: p.items.update(
                        i,
                        spec_apply_log(p.items[i], params, e.date, e.userid),
                    ),
                    ..p
                },
            ),
        },
    }
}

/// Replay of `rest`, already `base` entries into the full sequence: fold
/// entry by entry, and stop at the first failure with its absolute position.
pub open spec fn spec_replay(
    p: SpecProject,
    rest: Seq<SpecLogEntry>,
    base: int,
) -> Result<SpecProject, SpecReplayError>
    decreases rest.len(),
{
    if rest.len() == 0 {
        Ok(p)
    } else {
        match spec_apply(p, rest[0]) {
            Err(e) => Err(SpecReplayError::Apply { index: base, error: e }),
            Ok(p2) => spec_replay(p2, rest.skip(1), base + 1),
        }
    }
}

/// Rebuilding the whole project from the ordered entry sequence, starting
/// from nothing.
pub open spec fn spec_reindex(entries: Seq<SpecLogEntry>) -> Result<SpecProject, SpecReplayError> {
    spec_replay(spec_empty_project(), entries, 0)
}


/// `spec_find_item` from the other side: a first matching position pins the
/// result down.
pub proof fn lemma_find_item_is(items: Seq<SpecItem>, id: ItemId, i: int)
    requires
        0 <= i < items.len(),
        items[i].id == id,
        forall|j: int| 0 <= j < i ==> (#[trigger] items[j]).id != id,
    ensures
        spec_find_item(items, id) == Some(i),
    decreases items.len(),
{
    if i == 0 {
    } else {
        assert(items[0].id != id);
        assert forall|j: int| 0 <= j < i - 1 implies (#[trigger] items.skip(1)[j]).id != id by {
            assert(items.skip(1)[j] == items[j + 1]);
        }
        assert(items.skip(1)[i - 1] == items[i]);
        lemma_find_item_is(items.skip(1), id, i - 1);
    }
}

/// The first position of the item with the given id, scanned left to right.
fn find_index(items: &Vec<Item>, id: ItemId) -> (r: Option<usize>)
    ensures
        r matches Some(i) ==> spec_find_item(items.deep_view(), id) == Some(i as int),
        r is None ==> spec_find_item(items.deep_view(), id) is None,
{
    let ghost dv = items.deep_view();
    let n = items.len();
    let mut i: usize = 0;
    while i < n
        invariant
            i <= n,
            n == items.len(),
            dv == items.deep_view(),
            forall|j: int| 0 <= j < i ==> (#[trigger] dv[j]).id != id,
        decreases n - i,
    {
        if items[i].id == id {
            proof {
                assert(dv[i as int] == items@[i as int].deep_view());
                lemma_find_item_is(dv, id, i as int);
            }
            return Some(i);
        }
        proof {
            assert(dv[i as int] == items@[i as int].deep_view());
        }
        i = i + 1;
    }
    proof {
        lemma_find_item(dv, id);
        if spec_find_item(dv, id) is Some {
        }
    }
    None
}

impl Item {
    /// Applies the field assignments of one Set entry to this item, in list
    /// order: the later assignment of a field wins.
    pub fn set_entry(&mut self, params: &Vec<Parameter>)
        ensures
            final(self)@ == spec_set_params(old(self)@, params.deep_view()),
    {
        let ghost dv = params.deep_view();
        let n = params.len();
        let mut i: usize = 0;
        while i < n
            invariant
                i <= n,
                n == params.len(),
                dv == params.deep_view(),
                self@ == spec_set_params(old(self)@, dv.take(i as int)),
            decreases n - i,
        {
            proof {
                assert(dv.take(i + 1).drop_last() =~= dv.take(i as int));
                assert(dv.take(i + 1).last() == dv[i as int]);
                assert(dv[i as int] == params@[i as int].deep_view());
            }
            match &params[i] {
                Parameter::Title(t) => {
                    self.title = Some(t.clone());
                },
                Parameter::Description(t) => {
                    self.description = Some(t.clone());
                },
                Parameter::Size(q) => {
                    self.size = Some(*q);
                },
                Parameter::Remaining(q) => {
                    self.remaining = Some(*q);
                },
                Parameter::Priority(pr) => {
                    self.priority = Some(*pr);
                },
                Parameter::Owner(u) => {
                    self.owner = Some(UserId(u.0.clone()));
                },
                Parameter::Duedate(d) => {
                    self.duedate = Some(*d);
                },
                Parameter::Kind(k) => {
                    self.item_kind = Some(*k);
                },
                Parameter::Status(st) => {
                    self.status = *st;
                },
                Parameter::Spent(_) => {},
                Parameter::Message(_) => {},
            }
            i = i + 1;
        }
        proof {
            assert(dv.take(n as int) =~= dv);
        }
    }

    /// Applies one Log entry to this item: appends one record and
    /// accumulates the hours delta; a Remaining parameter also updates the
    /// item's remaining quantity.
    pub fn apply_log(&mut self, params: &Vec<Parameter>, date: Date, user: String)
        requires
            old(self)@.wf(),
        ensures
            final(self)@ == spec_apply_log(old(self)@, params.deep_view(), date, user@),
            final(self)@.wf(),
    {
        let ghost dv = params.deep_view();
        let n = params.len();
        let mut spent: i32 = 0;
        let mut rem: Option<Size> = self.remaining;
        let mut msg: String = String::new();
        let mut i: usize = 0;
        while i < n
            invariant
                i <= n,
                n == params.len(),
                dv == params.deep_view(),
                spent == spec_last_spent(dv.take(i as int)),
                rem == spec_last_remaining(dv.take(i as int), old(self)@.remaining),
                msg@ == spec_last_message(dv.take(i as int)),
                self == old(self),
            decreases n - i,
        {
            proof {
                assert(dv.take(i + 1).drop_last() =~= dv.take(i as int));
                assert(dv.take(i + 1).last() == dv[i as int]);
                assert(dv[i as int] == params@[i as int].deep_view());
            }
            match &params[i] {
                Parameter::Spent(q) => {
                    spent = q.amount();
                },
                Parameter::Remaining(q) => {
                    rem = Some(*q);
                },
                Parameter::Message(m) => {
                    msg = m.clone();
                },
                _ => {},
            }
            i = i + 1;
        }
        let loglen = self.log.len();
        proof {
            assert(dv.take(n as int) =~= dv);
            lemma_sum_spent_bound(old(self)@.log);
            assert(old(self)@.log.len() == loglen);
        }
        let rec = LogRecord {
            spent,
            remaining: rem,
            message: msg,
            created_at: date,
            created_by: UserId(user),
        };
        let ghost log0 = self.log.deep_view();
        self.hours_spent = self.hours_spent + (spent as i128);
        self.remaining = rem;
        self.log.push(rec);
        proof {
            assert(self.log.deep_view() =~= log0.push(rec@));
            assert(self.log.deep_view().drop_last() =~= log0);
            assert(sum_spent(self.log.deep_view()) == sum_spent(log0) + spent);
        }
    }
}

/// Applies the Title and Description assignments of a project-level Set
/// entry to the project details, in list order.
fn set_details(d: &mut Details, params: &Vec<Parameter>)
    ensures
        final(d)@ == spec_set_details(old(d)@, params.deep_view()),
{
    let ghost dv = params.deep_view();
    let n = params.len();
    let mut i: usize = 0;
    while i < n
        invariant
            i <= n,
            n == params.len(),
            dv == params.deep_view(),
            d@ == spec_set_details(old(d)@, dv.take(i as int)),
        decreases n - i,
    {
        proof {
            assert(dv.take(i + 1).drop_last() =~= dv.take(i as int));
            assert(dv.take(i + 1).last() == dv[i as int]);
            assert(dv[i as int] == params@[i as int].deep_view());
        }
        match &params[i] {
            Parameter::Title(t) => {
                d.title = t.clone();
            },
            Parameter::Description(t) => {
                d.description = t.clone();
            },
            _ => {},
        }
        i = i + 1;
    }
    proof {
        assert(dv.take(n as int) =~= dv);
    }
}

/// Applies one decoded entry to the project state: the executable form of
/// `spec_apply`. On failure the state is left exactly as it was; on success
/// the state is exactly what `spec_apply` says, and stays consistent.
pub fn apply(state: &mut Project, entry: &LogEntry) -> (r: Result<(), ApplyError>)
    requires
        old(state)@.wf(),
    ensures
        final(state)@.wf(),
        r matches Ok(u) ==> spec_apply(old(state)@, entry@) == Ok::<_, ApplyError>(
            final(state)@,
        ),
        r matches Err(e) ==> spec_apply(old(state)@, entry@) == Err::<SpecProject, _>(e)
            && final(state)@ == old(state)@,
{
    let ghost p0 = old(state)@;
    match &entry.entry_kind {
        EntryKind::Create { id } => {
            match find_index(&state.items, *id) {
                Some(_) => Err(ApplyError::DuplicateItem),
                None => {
                    proof {
                        lemma_find_item(p0.items, *id);
                    }
                    let it = Item::new(*id, entry.date, entry.userid.clone());
                    state.items.push(it);
                    proof {
                        assert(state.items.deep_view() =~= p0.items.push(
                            spec_new_item(*id, entry.date, entry@.userid),
                        ));
                        let items = state@.items;
                        assert forall|i: int, j: int|
                            0 <= i < j < items.len() implies items[i].id != items[j].id by {
                            if j == items.len() - 1 {
                                assert(items[i] == p0.items[i]);
                            } else {
                                assert(items[i] == p0.items[i]);
                                assert(items[j] == p0.items[j]);
                            }
                        }
                        assert forall|i: int|
                            0 <= i < items.len() implies (#[trigger] items[i]).wf() by {
                            if i < items.len() - 1 {
                                assert(items[i] == p0.items[i]);
                            }
                        }
                    }
                    Ok(())
                },
            }
        },
        EntryKind::Assign { kind, params } => match kind {
            SetKind::Project => {
                set_details(&mut state.details, params);
                proof {
                    assert(state@.items =~= p0.items);
                }
                Ok(())
            },
            SetKind::Item(id) => {
                match find_index(&state.items, *id) {
                    None => Err(ApplyError::ItemNotFound),
                    Some(i) => {
                        let ghost items0 = state.items.deep_view();
                        proof {
                            lemma_find_item(p0.items, *id);
                            assert(items0.len() == state.items@.len());
                        }
                        let mut it = state.items.remove(i);
                        it.set_entry(params);
                        state.items.insert(i, it);
                        proof {
                            lemma_set_params_frame(items0[i as int], params.deep_view());
                            assert(state.items.deep_view() =~= items0.update(
                                i as int,
                                spec_set_params(items0[i as int], params.deep_view()),
                            ));
                            let items = state@.items;
                            assert forall|a: int, b: int|
                                0 <= a < b < items.len() implies items[a].id != items[b].id by {
                                assert(items[a].id == p0.items[a].id);
                                assert(items[b].id == p0.items[b].id);
                            }
                            assert forall|a: int|
                                0 <= a < items.len() implies (#[trigger] items[a]).wf() by {
                                if a != i {
                                    assert(items[a] == p0.items[a]);
                                }
                            }
                        }
                        Ok(())
                    },
                }
            },
        },
        EntryKind::Log { id, params } => {
            match find_index(&state.items, *id) {
                None => Err(ApplyError::ItemNotFound),
                Some(i) => {
                    let ghost items0 = state.items.deep_view();
                    proof {
                        lemma_find_item(p0.items, *id);
                        assert(items0.len() == state.items@.len());
                        assert(items0[i as int] == state.items@[i as int].deep_view());
                    }
                    let mut it = state.items.remove(i);
                    it.apply_log(params, entry.date, entry.userid.clone());
                    state.items.insert(i, it);
                    proof {
                        assert(state.items.deep_view() =~= items0.update(
                            i as int,
                            spec_apply_log(
                                items0[i as int],
                                params.deep_view(),
                                entry.date,
                                entry@.userid,
                            ),
                        ));
                        let items = state@.items;
                        assert forall|a: int, b: int|
                            0 <= a < b < items.len() implies items[a].id != items[b].id by {
                            assert(items[a].id == p0.items[a].id);
                            assert(items[b].id == p0.items[b].id);
                        }
                        assert forall|a: int|
                            0 <= a < items.len() implies (#[trigger] items[a]).wf() by {
                            if a != i {
                                assert(items[a] == p0.items[a]);
                            }
                        }
                    }
                    Ok(())
                },
            }
        },
    }
}

impl Default for Project {
    /// An empty project: no details, no items.
    fn default() -> (r: Self)
        ensures
            r@ == spec_empty_project(),
            r@.wf(),
    {
        let r = Project { details: Details { title: String::new(), description: String::new() }, items: Vec::new() };
        proof {
            assert(r@.items =~= spec_empty_project().items);
            assert(r@.details.title =~= spec_empty_project().details.title);
            assert(r@.details.description =~= spec_empty_project().details.description);
        }
        r
    }
}

impl Project {
    /// The project's details.
    pub fn detials(&self) -> (r: &Details)
        ensures
            r@ == self@.details,
    {
        &self.details
    }

    /// The items, in creation order.
    pub fn items(&self) -> (r: &Vec<Item>)
        ensures
            r.deep_view() == self@.items,
    {
        &self.items
    }

    /// The id of the item at the given creation-order position.
    pub fn get_item_id_by_pos(&self, pos: usize) -> (r: Option<ItemId>)
        ensures
            pos < self@.items.len() ==> r == Some(self@.items[pos as int].id),
            pos >= self@.items.len() ==> r is None,
    {
        if pos < self.items.len() {
            proof {
                assert(self@.items[pos as int] == self.items@[pos as int].deep_view());
            }
            Some(self.items[pos].id)
        } else {
            None
        }
    }

    /// Empties the project in place.
    pub fn reset(&mut self)
        ensures
            final(self)@ == spec_empty_project(),
            final(self)@.wf(),
    {
        self.details = Details { title: String::new(), description: String::new() };
        self.items = Vec::new();
        proof {
            assert(self@.items =~= spec_empty_project().items);
            assert(self@.details.title =~= spec_empty_project().details.title);
            assert(self@.details.description =~= spec_empty_project().details.description);
        }
    }

    /// Applies one new entry to this project, as `apply` does.
    pub fn add_entry_public(&mut self, entry: &LogEntry) -> (r: Result<(), ApplyError>)
        requires
            old(self)@.wf(),
        ensures
            final(self)@.wf(),
            r matches Ok(u) ==> spec_apply(old(self)@, entry@) == Ok::<_, ApplyError>(
                final(self)@,
            ),
            r matches Err(e) ==> spec_apply(old(self)@, entry@) == Err::<SpecProject, _>(e)
                && final(self)@ == old(self)@,
    {
        apply(self, entry)
    }
}

/// Rebuilds a project from nothing by folding the entries in the exact
/// order given: the executable form of `spec_reindex`. All-or-nothing: on
/// the first failing entry the error and that entry's position are
/// returned, and no project at all.
pub fn reindex(entries: &Vec<LogEntry>) -> (r: Result<Project, ReplayError>)
    ensures
        r matches Ok(p) ==> spec_reindex(entries.deep_view()) == Ok::<_, SpecReplayError>(p@)
            && p@.wf(),
        r matches Err(e) ==> spec_reindex(entries.deep_view()) == Err::<SpecProject, _>(e@),
{
    let ghost dv = entries.deep_view();
    let mut state = Project::default();
    let n = entries.len();
    let mut i: usize = 0;
    proof {
        assert(dv.skip(0) =~= dv);
    }
    while i < n
        invariant
            i <= n,
            n == entries.len(),
            dv == entries.deep_view(),
            state@.wf(),
            spec_replay(spec_empty_project(), dv, 0) == spec_replay(
                state@,
                dv.skip(i as int),
                i as int,
            ),
        decreases n - i,
    {
        proof {
            assert(dv.skip(i as int)[0] == dv[i as int]);
            assert(dv[i as int] == entries@[i as int].deep_view());
        }
        match apply(&mut state, &entries[i]) {
            Ok(_) => {},
            Err(e) => {
                return Err(ReplayError::Apply { index: i, error: e });
            },
        }
        proof {
            assert(dv.skip(i as int).skip(1) =~= dv.skip(i + 1));
        }
        i = i + 1;
    }
    proof {
        assert(dv.skip(n as int) =~= Seq::<SpecLogEntry>::empty());
    }
    Ok(state)
}


/// Replay determinism: replaying one and the same ordered entry sequence
/// always yields the same outcome. `spec_reindex` consults nothing but the
/// entries, and [`reindex`]'s contract pins its result to `spec_reindex`, so
/// two runs of `reindex` over equal entry sequences build equal projects.
pub proof fn lemma_replay_deterministic(e1: Seq<SpecLogEntry>, e2: Seq<SpecLogEntry>)
    requires
        e1 == e2,
    ensures
        spec_reindex(e1) == spec_reindex(e2),
{
}

/// Replay processes a concatenation left to right: the first part runs
/// first, and only if it succeeds does the second part run on its outcome.
pub proof fn lemma_replay_split(
    p: SpecProject,
    a: Seq<SpecLogEntry>,
    b: Seq<SpecLogEntry>,
    base: int,
)
    ensures
        spec_replay(p, a + b, base) == (match spec_replay(p, a, base) {
            Ok(q) => spec_replay(q, b, base + a.len()),
            Err(e) => Err(e),
        }),
    decreases a.len(),
{
    if a.len() == 0 {
        assert(a + b =~= b);
    } else {
        assert((a + b)[0] == a[0]);
        match spec_apply(p, a[0]) {
            Err(e) => {},
            Ok(p2) => {
                assert((a + b).skip(1) =~= a.skip(1) + b);
                lemma_replay_split(p2, a.skip(1), b, base + 1);
            },
        }
    }
}

/// An entry that names an item with no prior Create fails with
/// `ItemNotFound`: applying a Set or Log entry for an id that no item of the
/// state carries returns exactly that error.
pub proof fn lemma_missing_create(p: SpecProject, e: SpecLogEntry, b: ItemId)
    requires
        forall|j: int| 0 <= j < p.items.len() ==> (#[trigger] p.items[j]).id != b,
        (e.entry_kind matches SpecEntryKind::Assign { kind, .. } && kind == SetKind::Item(b)) || (
        e.entry_kind matches SpecEntryKind::Log { id, .. } && id == b),
    ensures
        spec_apply(p, e) == Err::<SpecProject, ApplyError>(ApplyError::ItemNotFound),
{
    lemma_find_item(p.items, b);
    match spec_find_item(p.items, b) {
        Some(i) => {
            assert(p.items[i].id != b);
            assert(false);
        },
        None => {},
    }
}

/// Replay reports the exact position of the first failure: if the first `i`
/// entries replay to `q` and entry `i` fails on `q`, the whole replay fails
/// with that error at index `i`, and no project is produced.
pub proof fn lemma_reindex_failure_position(
    entries: Seq<SpecLogEntry>,
    i: int,
    q: SpecProject,
    err: ApplyError,
)
    requires
        0 <= i < entries.len(),
        spec_reindex(entries.take(i)) == Ok::<SpecProject, SpecReplayError>(q),
        spec_apply(q, entries[i]) == Err::<SpecProject, ApplyError>(err),
    ensures
        spec_reindex(entries) == Err::<SpecProject, SpecReplayError>(
            SpecReplayError::Apply { index: i, error: err },
        ),
{
    assert(entries =~= entries.take(i) + entries.skip(i));
    lemma_replay_split(spec_empty_project(), entries.take(i), entries.skip(i), 0);
    assert(entries.skip(i)[0] == entries[i]);
}

/// A Set entry addressed to the project changes the project details only
/// and leaves every item exactly as it was.
pub proof fn lemma_project_set_keeps_items(
    p: SpecProject,
    e: SpecLogEntry,
    params: Seq<SpecParameter>,
)
    requires
        e.entry_kind == (SpecEntryKind::Assign { kind: SetKind::Project, params }),
    ensures
        spec_apply(p, e) == Ok::<SpecProject, ApplyError>(
            SpecProject { details: spec_set_details(p.details, params), items: p.items },
        ),
{
}

/// Last write wins: replaying Create(a), then Set(a, Title(x)), then
/// Set(a, Title(y)) yields one item whose title is `y` — the later Set
/// entry's value supersedes the earlier one's, by log position.
pub proof fn lemma_last_write_wins(
    a: ItemId,
    x: Seq<char>,
    y: Seq<char>,
    e1: SpecLogEntry,
    e2: SpecLogEntry,
    e3: SpecLogEntry,
)
    requires
        e1.entry_kind == (SpecEntryKind::Create { id: a }),
        e2.entry_kind == (SpecEntryKind::Assign {
            kind: SetKind::Item(a),
            params: seq![SpecParameter::Title(x)],
        }),
        e3.entry_kind == (SpecEntryKind::Assign {
            kind: SetKind::Item(a),
            params: seq![SpecParameter::Title(y)],
        }),
    ensures
        spec_reindex(seq![e1, e2, e3]) matches Ok(p) && p.items.len() == 1 && p.items[0].id == a
            && p.items[0].title == Some(y),
{
    let entries = seq![e1, e2, e3];
    let p0 = spec_empty_project();
    assert(entries[0] == e1);
    assert(spec_find_item(p0.items, a) is None);
    let it0 = spec_new_item(a, e1.date, e1.userid);
    let p1 = spec_apply(p0, e1)->Ok_0;
    assert(p1.items =~= seq![it0]);
    assert(entries.skip(1) =~= seq![e2, e3]);
    assert(spec_find_item(p1.items, a) == Some(0int));
    let ps2 = seq![SpecParameter::Title(x)];
    assert(ps2.drop_last() =~= Seq::<SpecParameter>::empty());
    assert(spec_set_params(it0, ps2.drop_last()) == it0);
    assert(ps2.last() == SpecParameter::Title(x));
    let it1 = spec_set_params(it0, ps2);
    assert(it1.title == Some(x) && it1.id == a);
    let p2 = spec_apply(p1, e2)->Ok_0;
    assert(p2.items =~= seq![it1]);
    assert(seq![e2, e3].skip(1) =~= seq![e3]);
    assert(spec_find_item(p2.items, a) == Some(0int));
    let ps3 = seq![SpecParameter::Title(y)];
    assert(ps3.drop_last() =~= Seq::<SpecParameter>::empty());
    assert(spec_set_params(it1, ps3.drop_last()) == it1);
    assert(ps3.last() == SpecParameter::Title(y));
    let it2 = spec_set_params(it1, ps3);
    assert(it2.title == Some(y) && it2.id == a);
    let p3 = spec_apply(p2, e3)->Ok_0;
    assert(p3.items =~= seq![it2]);
    assert(seq![e3].skip(1) =~= Seq::<SpecLogEntry>::empty());
    assert(spec_replay(p3, seq![e3].skip(1), 3) == Ok::<SpecProject, SpecReplayError>(p3));
    assert(spec_replay(p2, entries.skip(1).skip(1), 2) == Ok::<SpecProject, SpecReplayError>(p3))
        by {
        assert(entries.skip(1).skip(1) =~= seq![e3]);
    }
    assert(spec_replay(p1, entries.skip(1), 1) == Ok::<SpecProject, SpecReplayError>(p3)) by {
        assert(entries.skip(1)[0] == e2);
    }
    assert(spec_reindex(entries) == Ok::<SpecProject, SpecReplayError>(p3));
}


} // verus!
