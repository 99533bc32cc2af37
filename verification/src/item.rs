//! The value types of the tracker — identifiers, quantities, priorities,
//! kinds, statuses — with their canonical text codecs, and the projected
//! [`Item`] state those values land in.

use vstd::prelude::*;
use crate::chars::{eq_chars_str, str_to_chars, chars_to_string, is_ws};
use crate::date::{Date, token_like};
use crate::error::{DecodeError, SpecDecodeError};
use crate::num::{
    dec_int, hex32, parse_hex32, parse_i32, push_dec_i32, push_hex32, parse_i32_chars,
    parse_hex32_chars, lemma_dec_i32_round_trip, lemma_hex32_round_trip,
};

verus! {

/// A 128-bit identifier, written on the wire as 32 hexadecimal digits.
#[derive(Debug, Clone, Copy, PartialEq, Eq, Hash, Structural)]
pub struct ItemId(pub u128);

impl ItemId {
    /// The canonical 32-digit lowercase hexadecimal text of this identifier.
    pub open spec fn spec_encode(self) -> Seq<char> {
        hex32(self.0)
    }

    pub fn encode(&self) -> (r: String)
        ensures
            r@ == self.spec_encode(),
    {
        let mut out: Vec<char> = Vec::new();
        push_hex32(&mut out, self.0);
        proof {
            assert(out@ =~= hex32(self.0));
        }
        chars_to_string(&out)
    }

    pub(crate) fn from_chars(v: &Vec<char>) -> (r: Option<ItemId>)
        ensures
            r == spec_parse_item_id(v@),
    {
        match parse_hex32_chars(v) {
            Some(x) => Some(ItemId(x)),
            None => None,
        }
    }

    /// Reads an identifier from 32 hexadecimal digits.
    pub fn from_str(s: &str) -> (r: Result<ItemId, DecodeError>)
        ensures
            r matches Ok(id) ==> spec_parse_item_id(s@) == Some(id),
            r matches Err(e) ==> spec_parse_item_id(s@) is None && e@
                == SpecDecodeError::InvalidId,
    {
        let v = str_to_chars(s);
        match Self::from_chars(&v) {
            Some(id) => Ok(id),
            None => Err(DecodeError::InvalidId),
        }
    }
}

/// The reading of an identifier field: exactly 32 hexadecimal digits.
pub open spec fn spec_parse_item_id(s: Seq<char>) -> Option<ItemId> {
    match parse_hex32(s) {
        Some(x) => Some(ItemId(x)),
        None => None,
    }
}

/// The identifier codec round-trips, and its text can stand as one field of
/// a log line.
pub proof fn lemma_item_id_round_trip(id: ItemId)
    ensures
        spec_parse_item_id(id.spec_encode()) == Some(id),
        token_like(id.spec_encode()),
        id.spec_encode().len() == 32,
{
    lemma_hex32_round_trip(id.0);
}

/// A sized effort: so many hours or so many story points.
#[derive(Debug, Clone, Copy, PartialEq, Eq, Structural)]
pub enum Size {
    Hour(i32),
    StoryPoint(i32),
}

impl Size {
    /// The canonical quantity text: the signed amount followed by the unit
    /// letter, `h` for hours, `p` for story points.
    pub open spec fn spec_encode(self) -> Seq<char> {
        match self {
            Size::Hour(n) => dec_int(n as int).push('h'),
            Size::StoryPoint(n) => dec_int(n as int).push('p'),
        }
    }

    /// The signed amount, whatever the unit.
    pub open spec fn spec_amount(self) -> i32 {
        match self {
            Size::Hour(n) => n,
            Size::StoryPoint(n) => n,
        }
    }

    pub fn encode(&self) -> (r: String)
        ensures
            r@ == self.spec_encode(),
    {
        let mut out: Vec<char> = Vec::new();
        match self {
            Size::Hour(n) => {
                push_dec_i32(&mut out, *n);
                out.push('h');
            },
            Size::StoryPoint(n) => {
                push_dec_i32(&mut out, *n);
                out.push('p');
            },
        }
        proof {
            assert(out@ =~= self.spec_encode());
        }
        chars_to_string(&out)
    }

    /// The signed amount, whatever the unit.
    pub fn amount(&self) -> (r: i32)
        ensures
            r == self.spec_amount(),
    {
        match self {
            Size::Hour(n) => *n,
            Size::StoryPoint(n) => *n,
        }
    }

    pub(crate) fn from_chars(v: &Vec<char>) -> (r: Option<Size>)
        ensures
            r == spec_parse_size(v@),
    {
        let n = v.len();
        if n == 0 {
            return None;
        }
        let unit = v[n - 1];
        if unit != 'h' && unit != 'p' {
            return None;
        }
        let digits = crate::chars::subvec(v, 0, n - 1);
        proof {
            assert(digits@ =~= v@.take(v@.len() - 1));
        }
        match parse_i32_chars(&digits) {
            Some(m) => if unit == 'h' {
                Some(Size::Hour(m))
            } else {
                Some(Size::StoryPoint(m))
            },
            None => None,
        }
    }

    /// Reads a quantity text such as `3h` or `-2p`.
    pub fn from_str(s: &str) -> (r: Result<Size, DecodeError>)
        ensures
            r matches Ok(q) ==> spec_parse_size(s@) == Some(q),
            r matches Err(e) ==> spec_parse_size(s@) is None && e@
                == SpecDecodeError::MalformedQuantity,
    {
        let v = str_to_chars(s);
        match Self::from_chars(&v) {
            Some(q) => Ok(q),
            None => Err(DecodeError::MalformedQuantity),
        }
    }
}

/// The reading of a quantity text: a signed base-10 integer directly
/// followed by the unit letter `h` or `p`, and nothing else.
pub open spec fn spec_parse_size(s: Seq<char>) -> Option<Size> {
    if s.len() == 0 {
        None
    } else {
        let unit = s[s.len() - 1];
        let num = parse_i32(s.take(s.len() - 1));
        if unit == 'h' {
            match num {
                Some(m) => Some(Size::Hour(m)),
                None => None,
            }
        } else if unit == 'p' {
            match num {
                Some(m) => Some(Size::StoryPoint(m)),
                None => None,
            }
        } else {
            None
        }
    }
}

/// The quantity codec round-trips, and its text can stand as one field of a
/// log line.
pub proof fn lemma_size_round_trip(q: Size)
    ensures
        spec_parse_size(q.spec_encode()) == Some(q),
        token_like(q.spec_encode()),
{
    let n = q.spec_amount();
    lemma_dec_i32_round_trip(n);
    let s = q.spec_encode();
    assert(s.take(s.len() - 1) =~= dec_int(n as int));
    assert forall|i: int| 0 <= i < s.len() implies !is_ws(#[trigger] s[i]) && s[i] != ';' by {
        if i < s.len() - 1 {
            assert(s[i] == dec_int(n as int)[i]);
        }
    }
}

/// Urgency, from `I` (most urgent) down to `III` (least urgent, the
/// default).
#[derive(Debug, Clone, Copy, PartialEq, Eq, Structural)]
pub enum Priority {
    I,
    II,
    III,
}

impl Default for Priority {
    /// Absent any priority in the history, an item counts as least urgent.
    fn default() -> (r: Self)
        ensures
            r == Priority::III,
    {
        Priority::III
    }
}

impl Priority {
    /// The canonical priority text: the digit 1, 2 or 3.
    pub open spec fn spec_encode(self) -> Seq<char> {
        match self {
            Priority::I => seq!['1'],
            Priority::II => seq!['2'],
            Priority::III => seq!['3'],
        }
    }

    pub fn encode(&self) -> (r: String)
        ensures
            r@ == self.spec_encode(),
    {
        let mut out: Vec<char> = Vec::new();
        match self {
            Priority::I => out.push('1'),
            Priority::II => out.push('2'),
            Priority::III => out.push('3'),
        }
        proof {
            assert(out@ =~= self.spec_encode());
        }
        chars_to_string(&out)
    }

    pub(crate) fn from_chars(v: &Vec<char>) -> (r: Option<Priority>)
        ensures
            r == spec_parse_priority(v@),
    {
        if v.len() != 1 {
            proof {
                assert(v@ !~= seq!['1']);
                assert(v@ !~= seq!['2']);
                assert(v@ !~= seq!['3']);
            }
            return None;
        }
        let c = v[0];
        let r = if c == '1' {
            Some(Priority::I)
        } else if c == '2' {
            Some(Priority::II)
        } else if c == '3' {
            Some(Priority::III)
        } else {
            None
        };
        proof {
            assert(v@.len() == 1);
            assert(v@ =~= seq![v@[0]]);
        }
        r
    }

    /// Reads a priority digit.
    pub fn from_str(s: &str) -> (r: Result<Priority, DecodeError>)
        ensures
            r matches Ok(p) ==> spec_parse_priority(s@) == Some(p),
            r matches Err(e) ==> spec_parse_priority(s@) is None && e@
                == SpecDecodeError::MalformedPriority,
    {
        let v = str_to_chars(s);
        match Self::from_chars(&v) {
            Some(p) => Ok(p),
            None => Err(DecodeError::MalformedPriority),
        }
    }
}

/// The reading of a priority text: exactly one of the digits 1, 2, 3.
pub open spec fn spec_parse_priority(s: Seq<char>) -> Option<Priority> {
    if s == seq!['1'] {
        Some(Priority::I)
    } else if s == seq!['2'] {
        Some(Priority::II)
    } else if s == seq!['3'] {
        Some(Priority::III)
    } else {
        None
    }
}

pub proof fn lemma_priority_round_trip(p: Priority)
    ensures
        spec_parse_priority(p.spec_encode()) == Some(p),
        token_like(p.spec_encode()),
{
    assert(seq!['1'][0] == '1');
    assert(seq!['2'][0] == '2');
    assert(seq!['3'][0] == '3');
}

/// What an item is: the closed set of kinds the tracker knows.
#[derive(Debug, Clone, Copy, PartialEq, Eq, Structural)]
pub enum ItemKind {
    Task,
    Note,
    UserStory,
    BacklogItem,
    Issue,
    Milestone,
}

impl ItemKind {
    /// The canonical kind token, lowercase with underscores.
    pub open spec fn spec_encode(self) -> Seq<char> {
        match self {
            ItemKind::Task => "task"@,
            ItemKind::Note => "note"@,
            ItemKind::UserStory => "user_story"@,
            ItemKind::BacklogItem => "backlog_item"@,
            ItemKind::Issue => "issue"@,
            ItemKind::Milestone => "milestone"@,
        }
    }

    pub fn encode(&self) -> (r: String)
        ensures
            r@ == self.spec_encode(),
    {
        match self {
            ItemKind::Task => "task".to_owned(),
            ItemKind::Note => "note".to_owned(),
            ItemKind::UserStory => "user_story".to_owned(),
            ItemKind::BacklogItem => "backlog_item".to_owned(),
            ItemKind::Issue => "issue".to_owned(),
            ItemKind::Milestone => "milestone".to_owned(),
        }
    }

    pub(crate) fn from_chars(v: &Vec<char>) -> (r: Option<ItemKind>)
        ensures
            r == spec_parse_kind(v@),
    {
        if eq_chars_str(v, "task") {
            Some(ItemKind::Task)
        } else if eq_chars_str(v, "note") {
            Some(ItemKind::Note)
        } else if eq_chars_str(v, "user_story") {
            Some(ItemKind::UserStory)
        } else if eq_chars_str(v, "backlog_item") {
            Some(ItemKind::BacklogItem)
        } else if eq_chars_str(v, "issue") {
            Some(ItemKind::Issue)
        } else if eq_chars_str(v, "milestone") {
            Some(ItemKind::Milestone)
        } else {
            None
        }
    }

    /// Reads a kind token.
    pub fn from_str(s: &str) -> (r: Result<ItemKind, DecodeError>)
        ensures
            r matches Ok(k) ==> spec_parse_kind(s@) == Some(k),
            r matches Err(e) ==> spec_parse_kind(s@) is None && e@
                == SpecDecodeError::MalformedKind,
    {
        let v = str_to_chars(s);
        match Self::from_chars(&v) {
            Some(k) => Ok(k),
            None => Err(DecodeError::MalformedKind),
        }
    }
}

/// The reading of a kind text: one of the six fixed tokens.
pub open spec fn spec_parse_kind(s: Seq<char>) -> Option<ItemKind> {
    if s == "task"@ {
        Some(ItemKind::Task)
    } else if s == "note"@ {
        Some(ItemKind::Note)
    } else if s == "user_story"@ {
        Some(ItemKind::UserStory)
    } else if s == "backlog_item"@ {
        Some(ItemKind::BacklogItem)
    } else if s == "issue"@ {
        Some(ItemKind::Issue)
    } else if s == "milestone"@ {
        Some(ItemKind::Milestone)
    } else {
        None
    }
}

pub proof fn lemma_kind_round_trip(k: ItemKind)
    ensures
        spec_parse_kind(k.spec_encode()) == Some(k),
        token_like(k.spec_encode()),
{
    reveal_strlit("task");
    reveal_strlit("note");
    reveal_strlit("user_story");
    reveal_strlit("backlog_item");
    reveal_strlit("issue");
    reveal_strlit("milestone");
    assert("task"@.len() == 4);
    assert("note"@.len() == 4);
    assert("user_story"@.len() == 10);
    assert("backlog_item"@.len() == 12);
    assert("issue"@.len() == 5);
    assert("milestone"@.len() == 9);
    assert("task"@[0] == 't');
    assert("note"@[0] == 'n');
}

/// Where an item stands in its life: new, being worked on, or done.
#[derive(Debug, Clone, Copy, PartialEq, Eq, Structural)]
pub enum Status {
    New,
    InProgress,
    Done,
}

impl Default for Status {
    /// A fresh item starts out new.
    fn default() -> (r: Self)
        ensures
            r == Status::New,
    {
        Status::New
    }
}

impl Status {
    /// The canonical status token.
    pub open spec fn spec_encode(self) -> Seq<char> {
        match self {
            Status::New => "new"@,
            Status::InProgress => "progress"@,
            Status::Done => "done"@,
        }
    }

    pub fn encode(&self) -> (r: String)
        ensures
            r@ == self.spec_encode(),
    {
        match self {
            Status::New => "new".to_owned(),
            Status::InProgress => "progress".to_owned(),
            Status::Done => "done".to_owned(),
        }
    }

    pub(crate) fn from_chars(v: &Vec<char>) -> (r: Option<Status>)
        ensures
            r == spec_parse_status(v@),
    {
        if eq_chars_str(v, "new") {
            Some(Status::New)
        } else if eq_chars_str(v, "progress") || eq_chars_str(v, "inprogress") {
            Some(Status::InProgress)
        } else if eq_chars_str(v, "done") {
            Some(Status::Done)
        } else {
            None
        }
    }

    /// Reads a status token; `progress` and `inprogress` both mean in
    /// progress.
    pub fn from_str(s: &str) -> (r: Result<Status, DecodeError>)
        ensures
            r matches Ok(st) ==> spec_parse_status(s@) == Some(st),
            r matches Err(e) ==> spec_parse_status(s@) is None && e@
                == SpecDecodeError::MalformedStatus,
    {
        let v = str_to_chars(s);
        match Self::from_chars(&v) {
            Some(st) => Ok(st),
            None => Err(DecodeError::MalformedStatus),
        }
    }
}

/// The reading of a status text: one of the fixed tokens, with two spellings
/// for the in-progress state.
pub open spec fn spec_parse_status(s: Seq<char>) -> Option<Status> {
    if s == "new"@ {
        Some(Status::New)
    } else if s == "progress"@ || s == "inprogress"@ {
        Some(Status::InProgress)
    } else if s == "done"@ {
        Some(Status::Done)
    } else {
        None
    }
}

pub proof fn lemma_status_round_trip(st: Status)
    ensures
        spec_parse_status(st.spec_encode()) == Some(st),
        token_like(st.spec_encode()),
{
    reveal_strlit("new");
    reveal_strlit("progress");
    reveal_strlit("inprogress");
    reveal_strlit("done");
}

/// An opaque user identifier.
#[derive(Debug, Clone, PartialEq, Eq)]
pub struct UserId(pub String);

impl View for UserId {
    type V = Seq<char>;

    open spec fn view(&self) -> Seq<char> {
        self.0@
    }
}

impl UserId {
    /// The identifier's own text.
    pub fn as_str(&self) -> (r: &str)
        ensures
            r@ == self@,
    {
        self.0.as_str()
    }
}

/// One work-log append on an item: the signed hours delta, the remaining
/// quantity as of the append, the free-text message, and who logged it when.
/// Never mutated once appended.
#[derive(Debug, Clone, PartialEq, Eq)]
pub struct LogRecord {
    pub spent: i32,
    pub remaining: Option<Size>,
    pub message: String,
    pub created_at: Date,
    pub created_by: UserId,
}

/// The mathematical reading of a [`LogRecord`].
pub struct SpecLogRecord {
    pub spent: i32,
    pub remaining: Option<Size>,
    pub message: Seq<char>,
    pub created_at: Date,
    pub created_by: Seq<char>,
}

impl View for LogRecord {
    type V = SpecLogRecord;

    open spec fn view(&self) -> SpecLogRecord {
        SpecLogRecord {
            spent: self.spent,
            remaining: self.remaining,
            message: self.message@,
            created_at: self.created_at,
            created_by: self.created_by@,
        }
    }
}

impl DeepView for LogRecord {
    type V = SpecLogRecord;

    open spec fn deep_view(&self) -> SpecLogRecord {
        self.view()
    }
}

/// The projected state of one item: every field is the last value some Set
/// entry wrote (or the creation default), the log is the ordered run of Log
/// appends, and the hours spent accumulate the log's deltas. The due date is
/// kept as the full instant its parameter carried, not narrowed to a
/// calendar day.
#[derive(Debug, Clone, PartialEq, Eq)]
pub struct Item {
    pub id: ItemId,
    pub item_kind: Option<ItemKind>,
    pub size: Option<Size>,
    pub remaining: Option<Size>,
    pub hours_spent: i128,
    pub log: Vec<LogRecord>,
    pub title: Option<String>,
    pub description: Option<String>,
    pub priority: Option<Priority>,
    pub owner: Option<UserId>,
    pub duedate: Option<Date>,
    pub status: Status,
    pub created_at: Date,
    pub created_by: UserId,
}

/// The mathematical reading of an [`Item`].
pub struct SpecItem {
    pub id: ItemId,
    pub item_kind: Option<ItemKind>,
    pub size: Option<Size>,
    pub remaining: Option<Size>,
    pub hours_spent: i128,
    pub log: Seq<SpecLogRecord>,
    pub title: Option<Seq<char>>,
    pub description: Option<Seq<char>>,
    pub priority: Option<Priority>,
    pub owner: Option<Seq<char>>,
    pub duedate: Option<Date>,
    pub status: Status,
    pub created_at: Date,
    pub created_by: Seq<char>,
}

impl View for Item {
    type V = SpecItem;

    open spec fn view(&self) -> SpecItem {
        SpecItem {
            id: self.id,
            item_kind: self.item_kind,
            size: self.size,
            remaining: self.remaining,
            hours_spent: self.hours_spent,
            log: self.log.deep_view(),
            title: match self.title {
                Some(t) => Some(t@),
                None => None,
            },
            description: match self.description {
                Some(t) => Some(t@),
                None => None,
            },
            priority: self.priority,
            owner: match self.owner {
                Some(u) => Some(u@),
                None => None,
            },
            duedate: self.duedate,
            status: self.status,
            created_at: self.created_at,
            created_by: self.created_by@,
        }
    }
}

impl DeepView for Item {
    type V = SpecItem;

    open spec fn deep_view(&self) -> SpecItem {
        self.view()
    }
}

/// The sum of the signed hour deltas of a log.
pub open spec fn sum_spent(log: Seq<SpecLogRecord>) -> int
    decreases log.len(),
{
    if log.len() == 0 {
        0
    } else {
        sum_spent(log.drop_last()) + log.last().spent
    }
}

/// Each delta is an `i32`, so the sum of a log's deltas is bounded by the
/// log's length.
pub proof fn lemma_sum_spent_bound(log: Seq<SpecLogRecord>)
    ensures
        -0x8000_0000 * log.len() <= sum_spent(log) <= 0x8000_0000 * log.len(),
    decreases log.len(),
{
    if log.len() > 0 {
        lemma_sum_spent_bound(log.drop_last());
    }
}

/// The state a freshly created item starts from: status new, nothing set,
/// no hours spent, an empty log, stamped with its creation entry's
/// timestamp and author.
pub open spec fn spec_new_item(id: ItemId, created_at: Date, created_by: Seq<char>) -> SpecItem {
    SpecItem {
        id,
        item_kind: None,
        size: None,
        remaining: None,
        hours_spent: 0,
        log: Seq::empty(),
        title: None,
        description: None,
        priority: None,
        owner: None,
        duedate: None,
        status: Status::New,
        created_at,
        created_by,
    }
}

impl SpecItem {
    /// Internal consistency of a projected item: the accumulated hours are
    /// exactly the sum of the log's deltas.
    pub open spec fn wf(self) -> bool {
        self.hours_spent == sum_spent(self.log)
    }
}

impl Item {
    /// A fresh item as a Create entry instantiates it.
    pub fn new(id: ItemId, created_at: Date, created_by: String) -> (r: Item)
        ensures
            r@ == spec_new_item(id, created_at, created_by@),
            r@.wf(),
    {
        let r = Item {
            id,
            item_kind: None,
            size: None,
            remaining: None,
            hours_spent: 0,
            log: Vec::new(),
            title: None,
            description: None,
            priority: None,
            owner: None,
            duedate: None,
            status: Status::New,
            created_at,
            created_by: UserId(created_by),
        };
        proof {
            assert(r.log.deep_view() =~= Seq::<SpecLogRecord>::empty());
        }
        r
    }

    /// The item's title, if one was ever set.
    pub fn title(&self) -> (r: Option<&String>)
        ensures
            match r {
                Some(t) => self@.title == Some(t@),
                None => self@.title is None,
            },
    {
        match &self.title {
            Some(t) => Some(t),
            None => None,
        }
    }
}

} // verus!
